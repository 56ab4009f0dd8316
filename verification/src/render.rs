//! The `-l` table, and what an operation says about itself while it runs.
//!
//! The table goes to standard output and the narration to standard error, so a redirected
//! `-l` is data and nothing else. Both are built as text here; whoever runs the operation
//! writes them.
use vstd::prelude::*;
use vstd::string::*;

use crate::list::{Listing, Row, Soc, Unavailable};
use crate::model::{Answer, Detection, DfuInfo, Family, GradeSource, Phase, Progress, Resolved, SocRegs};
use crate::text::{
    decimal_of, join, push_decimal, push_hex, push_hex_byte, push_right, push_spaces, quoted, same_text,
};

verus! {

/// Said before the scan: reading the registers of each bootrom takes a moment.
pub const SCANNING: &'static str = "Scanning for Ingenic devices...";

/// The whole answer when the bus has none.
pub const NONE_FOUND: &'static str = "No Ingenic devices found";

/// Between two columns, and before the first.
pub const GUTTER: &'static str = "  ";

/// Where a note under a row starts.
pub const NOTE_INDENT: &'static str = "     ";

// ---------------------------------------------------------------------------
// Text from a peer.
// ---------------------------------------------------------------------------
/// Is this a character that a terminal acts on rather than prints?
pub open spec fn is_control(c: char) -> bool {
    (c as u32) < 0x20 || 0x7F <= c as u32 <= 0x9F
}

/// How one character is shown: a control character by its caret form or its code point,
/// anything else, and the tab, as itself. A newline is kept where `newlines` says so.
pub open spec fn shown(c: char, newlines: bool) -> Seq<char> {
    let code = c as int;
    if c == '\t' || (c == '\n' && newlines) || !is_control(c) {
        seq![c]
    } else if code < 0x20 || code == 0x7F {
        seq!['^', ((code + 0x40) % 0x80) as char]
    } else {
        "<U+"@ + crate::text::hex(code as nat, 4, true) + ">"@
    }
}

/// A text with each of its characters shown.
pub open spec fn all_shown(text: Seq<char>, newlines: bool) -> Seq<char>
    decreases text.len(),
{
    if text.len() == 0 {
        Seq::empty()
    } else {
        all_shown(text.drop_last(), newlines) + shown(text.last(), newlines)
    }
}

/// Text from a peer, made safe to put on a terminal.
///
/// A daemon's bytes are not this tool's to trust, and a terminal executes control
/// characters rather than printing them. Each is replaced by a form that can be read;
/// newlines and tabs belong in a line of text and survive.
pub fn sanitise(text: &str) -> (safe: String)
    ensures
        safe@ == all_shown(text@, true),
{
    visible(text, true)
}

/// [`sanitise`], for text that has to stay on one line.
pub fn sanitise_line(text: &str) -> (safe: String)
    ensures
        safe@ == all_shown(text@, false),
{
    visible(text, false)
}

/// Append one character as it is shown.
fn push_shown(out: &mut String, character: char, newlines: bool)
    ensures
        final(out)@ == old(out)@ + shown(character, newlines),
{
    let code: u32 = character as u32;
    if character == '\t' || (character == '\n' && newlines) {
        out.push(character);
    } else if code < 0x20 || code == 0x7F {
        out.push('^');
        out.push(((code + 0x40) % 0x80) as u8 as char);
    } else if 0x80 <= code && code <= 0x9F {
        out.append("<U+");
        push_hex(out, code, 4, true);
        out.append(">");
    } else {
        out.push(character);
    }
    assert(out@ =~= old(out)@ + shown(character, newlines));
}

/// The replacement itself.
fn visible(text: &str, newlines: bool) -> (out: String)
    ensures
        out@ == all_shown(text@, newlines),
{
    let mut out = String::new();
    assert(text@.take(0) =~= Seq::empty());
    for character in it: text.chars()
        invariant
            it.seq() == text@,
            out@ == all_shown(text@.take(it.index() as int), newlines),
    {
        let ghost at = it.index() as int;
        push_shown(&mut out, character, newlines);
        proof {
            assert(text@.take(at + 1).drop_last() =~= text@.take(at));
            assert(text@.take(at + 1).last() == character);
        }
    }
    assert(text@.take(text@.len() as int) =~= text@);
    out
}

/// A text with nothing in it that has to be shown.
pub open spec fn is_plain(text: Seq<char>, newlines: bool) -> bool {
    forall|i: int| 0 <= i < text.len() ==> {
        let c = #[trigger] text[i];
        c == '\t' || (c == '\n' && newlines) || !is_control(c)
    }
}

proof fn lemma_shown_is_plain(c: char, newlines: bool)
    ensures
        is_plain(shown(c, newlines), newlines),
{
    let code = c as int;
    if c == '\t' || (c == '\n' && newlines) || !is_control(c) {
    } else if code < 0x20 || code == 0x7F {
        let letter = ((code + 0x40) % 0x80) as char;
        assert(0x3F <= (letter as u32) < 0x60);
    } else {
        reveal_strlit("<U+");
        reveal_strlit(">");
        reveal_with_fuel(crate::text::hex, 5);
        let digits = crate::text::hex(code as nat, 4, true);
        assert(digits.len() == 4);
        assert forall|i: int| 0 <= i < 4 implies !is_control(#[trigger] digits[i]) by {}
    }
}

/// Nothing that reaches the terminal through [`sanitise`] is acted on by it: the only
/// control characters that survive are tabs and, where they are kept, newlines.
pub proof fn law_sanitised_text_is_plain(text: Seq<char>, newlines: bool)
    ensures
        is_plain(all_shown(text, newlines), newlines),
    decreases text.len(),
{
    if text.len() > 0 {
        law_sanitised_text_is_plain(text.drop_last(), newlines);
        lemma_shown_is_plain(text.last(), newlines);
        let before = all_shown(text.drop_last(), newlines);
        let after = shown(text.last(), newlines);
        assert forall|i: int| 0 <= i < (before + after).len() implies {
            let c = #[trigger] (before + after)[i];
            c == '\t' || (c == '\n' && newlines) || !is_control(c)
        } by {
            if i < before.len() {
                assert((before + after)[i] == before[i]);
            } else {
                assert((before + after)[i] == after[i - before.len()]);
            }
        }
    }
}

/// Text that is plain already is passed on as it is.
pub proof fn law_plain_text_is_untouched(text: Seq<char>, newlines: bool)
    requires
        is_plain(text, newlines),
    ensures
        all_shown(text, newlines) == text,
    decreases text.len(),
{
    if text.len() > 0 {
        assert forall|i: int| 0 <= i < text.drop_last().len() implies {
            let c = #[trigger] text.drop_last()[i];
            c == '\t' || (c == '\n' && newlines) || !is_control(c)
        } by {
            assert(text.drop_last()[i] == text[i]);
        }
        law_plain_text_is_untouched(text.drop_last(), newlines);
        assert(text[text.len() - 1] == text.last());
        assert(all_shown(text, newlines) =~= text);
    }
}

/// To sanitise twice is to sanitise once.
pub proof fn law_sanitising_is_idempotent(text: Seq<char>, newlines: bool)
    ensures
        all_shown(all_shown(text, newlines), newlines) == all_shown(text, newlines),
{
    law_sanitised_text_is_plain(text, newlines);
    law_plain_text_is_untouched(all_shown(text, newlines), newlines);
}

/// Text that stays on one line holds no newline, whoever wrote it.
pub proof fn law_a_sanitised_line_is_one_line(text: Seq<char>)
    ensures
        !all_shown(text, false).contains('\n'),
{
    law_sanitised_text_is_plain(text, false);
    assert(is_control('\n'));
}

// ---------------------------------------------------------------------------
// The layout of a table.
// ---------------------------------------------------------------------------
/// The cells of a table, by their characters.
pub open spec fn grid(cells: Seq<Vec<String>>) -> Seq<Seq<Seq<char>>> {
    cells.map_values(|row: Vec<String>| crate::text::texts(row@))
}

/// How wide a column is: its widest cell, and never narrower than the bytes of its header.
pub open spec fn width(headers: Seq<Seq<char>>, rows: Seq<Seq<Seq<char>>>, column: int) -> int
    decreases rows.len(),
{
    if rows.len() == 0 {
        vstd::utf8::encode_utf8(headers[column]).len() as int
    } else {
        let narrower = width(headers, rows.drop_last(), column);
        let row = rows.last();
        if column < row.len() && row[column].len() > narrower {
            row[column].len() as int
        } else {
            narrower
        }
    }
}

/// How wide each column is.
pub open spec fn all_widths(headers: Seq<Seq<char>>, rows: Seq<Seq<Seq<char>>>) -> Seq<int> {
    Seq::new(headers.len(), |column: int| width(headers, rows, column))
}

/// The width of a column, where it has one.
pub open spec fn width_at(widths: Seq<int>, column: int) -> int {
    if column < widths.len() {
        widths[column]
    } else {
        0
    }
}

/// Is a column aligned to the right?
pub open spec fn right_at(right: Seq<bool>, column: int) -> bool {
    column < right.len() && right[column]
}

/// One cell with the blanks that fill its column. The last column is never filled up.
pub open spec fn padded(cells: Seq<Seq<char>>, widths: Seq<int>, right: Seq<bool>, column: int) -> Seq<char> {
    let gap = crate::text::spaces(width_at(widths, column) - cells[column].len());
    if right_at(right, column) {
        gap + cells[column]
    } else if column + 1 == cells.len() {
        cells[column]
    } else {
        cells[column] + gap
    }
}

/// The first `count` columns of a line.
pub open spec fn columns(cells: Seq<Seq<char>>, widths: Seq<int>, right: Seq<bool>, count: int) -> Seq<char>
    decreases count,
{
    if count <= 0 {
        Seq::empty()
    } else {
        columns(cells, widths, right, count - 1) + GUTTER@ + padded(cells, widths, right, count - 1)
    }
}

/// One line of a table.
pub open spec fn line_of(cells: Seq<Seq<char>>, widths: Seq<int>, right: Seq<bool>) -> Seq<char> {
    columns(cells, widths, right, cells.len() as int)
}

/// The numbers of a vector, without their type.
pub open spec fn lengths(widths: Seq<usize>) -> Seq<int> {
    widths.map_values(|width: usize| width as int)
}

/// Column widths: the widest cell, never narrower than the header.
pub(crate) fn widths(headers: &Vec<String>, cells: &Vec<Vec<String>>) -> (widths: Vec<usize>)
    ensures
        lengths(widths@) == all_widths(crate::text::texts(headers@), grid(cells@)),
{
    let ghost titles = crate::text::texts(headers@);
    let ghost rows = grid(cells@);
    let mut widths: Vec<usize> = Vec::new();
    let mut column: usize = 0;
    while column < headers.len()
        invariant
            column <= headers.len(),
            widths@.len() == column,
            titles == crate::text::texts(headers@),
            rows == grid(cells@),
            forall|i: int| 0 <= i < column ==> #[trigger] widths[i] == width(titles, rows, i),
        decreases headers.len() - column,
    {
        let mut widest: usize = headers[column].as_str().as_bytes().len();
        let mut at: usize = 0;
        assert(rows.take(0) =~= Seq::empty());
        while at < cells.len()
            invariant
                at <= cells.len(),
                column < headers.len(),
                titles == crate::text::texts(headers@),
                rows == grid(cells@),
                widest == width(titles, rows.take(at as int), column as int),
            decreases cells.len() - at,
        {
            proof {
                assert(rows.take(at + 1).drop_last() =~= rows.take(at as int));
                assert(rows.take(at + 1).last() == crate::text::texts(cells[at as int]@));
            }
            if column < cells[at].len() {
                let length = cells[at][column].as_str().unicode_len();
                if length > widest {
                    widest = length;
                }
            }
            at += 1;
        }
        assert(rows.take(at as int) =~= rows);
        widths.push(widest);
        column += 1;
    }
    assert(lengths(widths@) =~= all_widths(titles, rows));
    widths
}

/// One padded line, without blanks at its end.
pub(crate) fn line(cells: &Vec<String>, widths: &Vec<usize>, right: &Vec<bool>) -> (line: String)
    ensures
        line@ == line_of(crate::text::texts(cells@), lengths(widths@), right@),
{
    let ghost texts = crate::text::texts(cells@);
    let ghost sizes = lengths(widths@);
    let mut out = String::new();
    let mut column: usize = 0;
    while column < cells.len()
        invariant
            column <= cells.len(),
            texts == crate::text::texts(cells@),
            sizes == lengths(widths@),
            out@ == columns(texts, sizes, right@, column as int),
        decreases cells.len() - column,
    {
        let ghost before = out@ + GUTTER@;
        out.append(GUTTER);
        let cell = cells[column].as_str();
        let length = cell.unicode_len();
        let width: usize = if column < widths.len() { widths[column] } else { 0 };
        let pad: usize = if width > length { width - length } else { 0 };
        if column < right.len() && right[column] {
            push_spaces(&mut out, pad);
            out.append(cell);
        } else {
            out.append(cell);
            if column + 1 != cells.len() {
                push_spaces(&mut out, pad);
            }
        }
        assert(texts[column as int] == cell@);
        assert(out@ =~= before + padded(texts, sizes, right@, column as int));
        column += 1;
    }
    out
}

proof fn lemma_width_covers(headers: Seq<Seq<char>>, rows: Seq<Seq<Seq<char>>>, row: int, column: int)
    requires
        0 <= row < rows.len(),
        0 <= column < rows[row].len(),
    ensures
        rows[row][column].len() <= width(headers, rows, column),
    decreases rows.len(),
{
    if row < rows.len() - 1 {
        lemma_width_covers(headers, rows.drop_last(), row, column);
    }
}

/// No character takes less than one byte.
proof fn lemma_bytes_cover_characters(text: Seq<char>)
    ensures
        text.len() <= vstd::utf8::encode_utf8(text).len(),
    decreases text.len(),
{
    if text.len() > 0 {
        lemma_bytes_cover_characters(text.drop_first());
    }
}

proof fn lemma_width_covers_header(headers: Seq<Seq<char>>, rows: Seq<Seq<Seq<char>>>, column: int)
    ensures
        headers[column].len() <= width(headers, rows, column),
    decreases rows.len(),
{
    if rows.len() > 0 {
        lemma_width_covers_header(headers, rows.drop_last(), column);
    } else {
        lemma_bytes_cover_characters(headers[column]);
    }
}

/// Where the columns before `count` end, in a table of these widths.
pub open spec fn edge(widths: Seq<int>, count: int) -> int
    decreases count,
{
    if count <= 0 {
        0
    } else {
        edge(widths, count - 1) + 2 + width_at(widths, count - 1)
    }
}

proof fn lemma_columns_end_at_the_edge(cells: Seq<Seq<char>>, widths: Seq<int>, right: Seq<bool>, count: int)
    requires
        0 <= count < cells.len(),
        forall|i: int| 0 <= i < cells.len() ==> #[trigger] cells[i].len() <= width_at(widths, i),
    ensures
        columns(cells, widths, right, count).len() == edge(widths, count),
    decreases count,
{
    if count > 0 {
        lemma_columns_end_at_the_edge(cells, widths, right, count - 1);
        reveal_strlit("  ");
        assert(cells[count - 1].len() <= width_at(widths, count - 1));
    }
}

/// The columns of a table line up: in every line each column begins where it begins in the
/// header, whatever the cells before it hold.
pub proof fn law_columns_line_up(
    headers: Seq<Seq<char>>,
    rows: Seq<Seq<Seq<char>>>,
    right: Seq<bool>,
    row: int,
    column: int,
)
    requires
        0 <= row < rows.len(),
        rows[row].len() == headers.len(),
        0 <= column < headers.len(),
    ensures
        columns(rows[row], all_widths(headers, rows), right, column).len() == columns(
            headers,
            all_widths(headers, rows),
            right,
            column,
        ).len(),
{
    let widths = all_widths(headers, rows);
    assert forall|i: int| 0 <= i < rows[row].len() implies #[trigger] rows[row][i].len() <= width_at(
        widths,
        i,
    ) by {
        lemma_width_covers(headers, rows, row, i);
    }
    assert forall|i: int| 0 <= i < headers.len() implies #[trigger] headers[i].len() <= width_at(widths, i) by {
        lemma_width_covers_header(headers, rows, i);
    }
    lemma_columns_end_at_the_edge(rows[row], widths, right, column);
    lemma_columns_end_at_the_edge(headers, widths, right, column);
}

/// No line ends in blanks: it ends as its last cell does.
pub proof fn law_no_line_ends_in_blanks(cells: Seq<Seq<char>>, widths: Seq<int>, right: Seq<bool>)
    requires
        cells.len() > 0,
        cells.last().len() > 0,
    ensures
        line_of(cells, widths, right).last() == cells.last().last(),
{
    let last = cells.len() - 1;
    let end = padded(cells, widths, right, last);
    assert(end.last() == cells.last().last());
    assert(line_of(cells, widths, right) == columns(cells, widths, right, last) + GUTTER@ + end);
}

// ---------------------------------------------------------------------------
// The rows of the local table.
// ---------------------------------------------------------------------------
/// A USB identity, as it is commonly printed.
pub open spec fn usb_identity(vendor: u16, product: u16) -> Seq<char> {
    crate::text::hex(vendor as nat, 4, false) + ":"@ + crate::text::hex(product as nat, 4, false)
}

/// A USB identity, as it is commonly printed.
pub(crate) fn usb_id(vendor: u16, product: u16) -> (text: String)
    ensures
        text@ == usb_identity(vendor, product),
{
    let mut text = String::new();
    push_hex(&mut text, vendor as u32, 4, false);
    assert(text@ =~= crate::text::hex(vendor as nat, 4, false));
    text.append(":");
    push_hex(&mut text, product as u32, 4, false);
    text
}

/// The ports of a path behind its bus.
pub open spec fn ports(path: Seq<u8>) -> Seq<char>
    decreases path.len(),
{
    if path.len() == 0 {
        Seq::empty()
    } else if path.len() == 1 {
        "-"@ + crate::text::decimal(path[0] as nat)
    } else {
        ports(path.drop_last()) + "."@ + crate::text::decimal(path.last() as nat)
    }
}

/// The port path as Linux names the device: `bus-port.port`, or a dash where none is known.
pub open spec fn port_text(bus: u8, path: Seq<u8>) -> Seq<char> {
    if path.len() == 0 {
        "-"@
    } else {
        crate::text::decimal(bus as nat) + ports(path)
    }
}

/// The port path as Linux names the device.
fn port_path(bus: u8, path: &Vec<u8>) -> (text: String)
    ensures
        text@ == port_text(bus, path@),
{
    if path.len() == 0 {
        return "-".to_owned();
    }
    let mut text = decimal_of(bus as u64);
    let ghost start = text@;
    let mut at: usize = 0;
    assert(path@.take(0) =~= Seq::empty());
    assert(text@ =~= start + ports(path@.take(0)));
    while at < path.len()
        invariant
            at <= path.len(),
            text@ == start + ports(path@.take(at as int)),
        decreases path.len() - at,
    {
        let ghost before = text@;
        if at == 0 {
            text.append("-");
        } else {
            text.append(".");
        }
        push_decimal(&mut text, path[at] as u64);
        proof {
            assert(path@.take(at + 1).drop_last() =~= path@.take(at as int));
            assert(path@.take(at + 1).last() == path[at as int]);
            assert(text@ =~= start + ports(path@.take(at + 1)));
        }
        at += 1;
    }
    assert(path@.take(at as int) =~= path@);
    text
}

/// A chip, the loaders that boot it, and what those initialise.
pub open spec fn resolved_text(resolved: Resolved) -> Seq<char> {
    resolved.chip@ + " (loader "@ + resolved.variant.loader_dir@ + match resolved.dram {
        Some(dram) => ", "@ + dram@,
        None => Seq::empty(),
    } + ")"@
}

/// A chip, the loaders that boot it, and what those initialise.
fn resolved_cell(resolved: &Resolved) -> (cell: String)
    ensures
        cell@ == resolved_text(*resolved),
{
    let mut cell = resolved.chip.clone();
    cell.append(" (loader ");
    cell.append(resolved.variant.loader_dir.as_str());
    let ghost before = cell@;
    match &resolved.dram {
        Some(dram) => {
            cell.append(", ");
            cell.append(dram.as_str());
            assert(cell@ =~= before + (", "@ + dram@));
        },
        None => {
            assert(cell@ =~= before + Seq::<char>::empty());
        },
    }
    cell.append(")");
    cell
}

/// What the SoC column says.
pub open spec fn soc_text(soc: Soc) -> Seq<char> {
    match soc {
        Soc::NotProbed => "-"@,
        Soc::Detected(detection) => match detection.answer {
            Answer::Resolved(resolved) => resolved_text(resolved),
            Answer::Ambiguous { .. } => "ambiguous"@,
            Answer::Unknown { .. } => "unknown"@,
        },
        Soc::Unavailable(_) => "unavailable"@,
    }
}

/// The SoC column.
fn soc_cell(soc: &Soc) -> (cell: String)
    ensures
        cell@ == soc_text(*soc),
{
    match soc {
        Soc::NotProbed => "-".to_owned(),
        Soc::Detected(detection) => match &detection.answer {
            Answer::Resolved(resolved) => resolved_cell(resolved),
            Answer::Ambiguous { .. } => "ambiguous".to_owned(),
            Answer::Unknown { .. } => "unknown".to_owned(),
        },
        Soc::Unavailable(_) => "unavailable".to_owned(),
    }
}

/// The columns of the local table.
pub open spec fn headings() -> Seq<Seq<char>> {
    seq!["#"@, "Bus"@, "Addr"@, "Port"@, "VID:PID"@, "Stage"@, "SoC"@]
}

/// Which of them are right-aligned: the three numeric ones.
pub open spec fn alignment() -> Seq<bool> {
    seq![true, true, true, false, false, false, false]
}

/// One row's cells, before padding.
pub open spec fn cells(row: Row) -> Seq<Seq<char>> {
    seq![
        crate::text::decimal(row.index as nat),
        crate::text::decimal(row.descriptors.bus as nat),
        crate::text::decimal(row.descriptors.address as nat),
        port_text(row.descriptors.bus, row.descriptors.port_path@),
        usb_identity(row.descriptors.vendor_id, row.descriptors.product_id),
        match row.stage {
            Some(stage) => stage.word(),
            None => "unknown"@,
        },
        soc_text(row.soc),
    ]
}

/// One row's cells, before padding.
fn cells_of(row: &Row) -> (list: Vec<String>)
    ensures
        crate::text::texts(list@) == cells(*row),
{
    let stage = match &row.stage {
        Some(stage) => stage.name().to_owned(),
        None => "unknown".to_owned(),
    };
    let mut list: Vec<String> = Vec::new();
    list.push(decimal_of(row.index as u64));
    list.push(decimal_of(row.descriptors.bus as u64));
    list.push(decimal_of(row.descriptors.address as u64));
    list.push(port_path(row.descriptors.bus, &row.descriptors.port_path));
    list.push(usb_id(row.descriptors.vendor_id, row.descriptors.product_id));
    list.push(stage);
    list.push(soc_cell(&row.soc));
    assert(crate::text::texts(list@) =~= cells(*row));
    list
}

fn headers() -> (list: Vec<String>)
    ensures
        crate::text::texts(list@) == headings(),
{
    let mut list: Vec<String> = Vec::new();
    list.push("#".to_owned());
    list.push("Bus".to_owned());
    list.push("Addr".to_owned());
    list.push("Port".to_owned());
    list.push("VID:PID".to_owned());
    list.push("Stage".to_owned());
    list.push("SoC".to_owned());
    assert(crate::text::texts(list@) =~= headings());
    list
}

fn right_aligned_columns() -> (list: Vec<bool>)
    ensures
        list@ == alignment(),
{
    let list: Vec<bool> = vec![true, true, true, false, false, false, false];
    assert(list@ =~= alignment());
    list
}

// ---------------------------------------------------------------------------
// The notes under a row.
// ---------------------------------------------------------------------------
/// A line under a row: a qualification, or a reason the row is thin.
#[derive(Debug, Clone, PartialEq, Eq)]
enum Note {
    /// Something the operator should know about an answer that is an answer.
    Note(String),
    /// Something that stopped an answer.
    Error(String),
}

impl Note {
    /// The line.
    spec fn text(self) -> Seq<char> {
        match self {
            Note::Note(text) => "note: "@ + text@,
            Note::Error(text) => "error: "@ + text@,
        }
    }

    /// The line.
    fn line(&self) -> (line: String)
        ensures
            line@ == self.text(),
    {
        match self {
            Note::Note(text) => {
                let mut line = "note: ".to_owned();
                line.append(text.as_str());
                line
            },
            Note::Error(text) => {
                let mut line = "error: ".to_owned();
                line.append(text.as_str());
                line
            },
        }
    }
}

spec fn lines_of(notes: Seq<Note>) -> Seq<Seq<char>> {
    notes.map_values(|note: Note| note.text())
}

/// The grade code, read from the register that the family is graded by.
pub open spec fn grade(regs: SocRegs, source: GradeSource) -> Option<nat> {
    match source {
        GradeSource::SubSocType1 => Some(regs.sub1 as nat),
        GradeSource::SubSocType2 => Some(regs.sub2 as nat),
        GradeSource::T33Selector => match regs.t33_grade {
            Some(grade) => Some(grade as nat),
            None => None,
        },
        GradeSource::Other => None,
    }
}

/// The grade in words.
pub open spec fn grade_words(regs: SocRegs, source: GradeSource) -> Seq<char> {
    match grade(regs, source) {
        Some(grade) => "grade 0x"@ + crate::text::hex(grade, 4, true),
        None => "the grade"@,
    }
}

/// The grade code, read from the register that the family is graded by.
///
/// A value of another register would be worse than none.
pub fn grade_text(regs: SocRegs, source: GradeSource) -> (text: String)
    ensures
        text@ == grade_words(regs, source),
{
    let grade: Option<u32> = match source {
        GradeSource::SubSocType1 => Some(regs.sub1 as u32),
        GradeSource::SubSocType2 => Some(regs.sub2 as u32),
        GradeSource::T33Selector => match regs.t33_grade {
            Some(grade) => Some(grade as u32),
            None => None,
        },
        GradeSource::Other => None,
    };
    match grade {
        Some(grade) => {
            let mut text = "grade 0x".to_owned();
            push_hex(&mut text, grade, 4, true);
            text
        },
        None => "the grade".to_owned(),
    }
}

/// What to do about a grade that names more than one chip, or none that is documented.
pub open spec fn ambiguous_words(regs: SocRegs, family: Family, candidates: Seq<Seq<char>>) -> Seq<char> {
    if candidates.len() == 0 {
        grade_words(regs, family.grade_source) + " of family "@ + family.name@
            + " is documented on neither product line; pass --cpu with the loader for this part, or stream --spl and --uboot"@
    } else {
        grade_words(regs, family.grade_source) + " of family "@ + family.name@
            + " names more than one chip; pass --cpu: "@ + crate::text::joined(candidates, ", "@)
    }
}

fn ambiguous_text(regs: SocRegs, family: &Family, candidates: &Vec<String>) -> (text: String)
    ensures
        text@ == ambiguous_words(regs, *family, crate::text::texts(candidates@)),
{
    let mut text = grade_text(regs, family.grade_source);
    text.append(" of family ");
    text.append(family.name.as_str());
    if candidates.len() == 0 {
        text.append(" is documented on neither product line; pass --cpu with the loader for this part, or stream --spl and --uboot");
    } else {
        text.append(" names more than one chip; pass --cpu: ");
        let listed = join(candidates, ", ");
        text.append(listed.as_str());
    }
    text
}

/// What is said of a chip that is not in the table.
pub open spec fn unknown_words(regs: SocRegs) -> Seq<char> {
    "soc_id 0x"@ + crate::text::hex(regs.soc_id as nat, 8, true) + " (cpu_id 0x"@ + crate::text::hex(
        regs.cpu_id as nat,
        4,
        true,
    ) + ") is not in the table; pass --cpu, or stream --spl and --uboot"@
}

fn unknown_text(regs: SocRegs) -> (text: String)
    ensures
        text@ == unknown_words(regs),
{
    let mut text = "soc_id 0x".to_owned();
    push_hex(&mut text, regs.soc_id, 8, true);
    text.append(" (cpu_id 0x");
    push_hex(&mut text, regs.cpu_id as u32, 4, true);
    text.append(") is not in the table; pass --cpu, or stream --spl and --uboot");
    text
}

/// Why a row could not be filled in, and the fix where there is one.
pub open spec fn unavailable_words(unavailable: Unavailable) -> Seq<char> {
    match unavailable.hint {
        Some(hint) => unavailable.reason@ + "; "@ + hint@,
        None => unavailable.reason@,
    }
}

fn unavailable_text(unavailable: &Unavailable) -> (text: String)
    ensures
        text@ == unavailable_words(*unavailable),
{
    let mut text = unavailable.reason.clone();
    if let Some(hint) = unavailable.hint {
        text.append("; ");
        text.append(hint);
    }
    text
}

/// What an answer that chose nothing needs the operator to do.
pub open spec fn remedy(answer: Answer) -> Seq<Seq<char>> {
    match answer {
        Answer::Resolved(_) => Seq::empty(),
        Answer::Ambiguous { regs, family, candidates } => seq![
            "note: "@ + ambiguous_words(regs, family, crate::text::texts(candidates@)),
        ],
        Answer::Unknown { regs } => seq!["note: "@ + unknown_words(regs)],
    }
}

/// The lines a detection wants an operator to read: what qualifies it, and then what to do.
pub open spec fn advice(detection: Detection) -> Seq<Seq<char>> {
    match detection.warning {
        Some(warning) => seq!["note: "@ + warning@] + remedy(detection.answer),
        None => remedy(detection.answer),
    }
}

/// The caveat, plus whatever an unresolved answer needs the operator to do.
fn detection_notes(detection: &Detection) -> (notes: Vec<Note>)
    ensures
        lines_of(notes@) == advice(*detection),
{
    let mut notes: Vec<Note> = Vec::new();
    if let Some(warning) = &detection.warning {
        notes.push(Note::Note(warning.clone()));
    }
    match &detection.answer {
        Answer::Resolved(_) => {},
        Answer::Ambiguous { regs, family, candidates } => {
            notes.push(Note::Note(ambiguous_text(*regs, family, candidates)));
        },
        Answer::Unknown { regs } => {
            notes.push(Note::Note(unknown_text(*regs)));
        },
    }
    assert(lines_of(notes@) =~= advice(*detection));
    notes
}

/// The lines a detection wants an operator to read.
///
/// They are those that `-l` prints under the row of the same device.
pub fn detection_advice(detection: &Detection) -> (lines: Vec<String>)
    ensures
        crate::text::texts(lines@) == advice(*detection),
{
    let notes = detection_notes(detection);
    lines(&notes)
}

fn lines(notes: &Vec<Note>) -> (lines: Vec<String>)
    ensures
        crate::text::texts(lines@) == lines_of(notes@),
{
    let mut lines: Vec<String> = Vec::new();
    let mut at: usize = 0;
    while at < notes.len()
        invariant
            at <= notes.len(),
            crate::text::texts(lines@) == lines_of(notes@).take(at as int),
        decreases notes.len() - at,
    {
        let ghost before = lines@;
        lines.push(notes[at].line());
        proof {
            assert(crate::text::texts(lines@) =~= crate::text::texts(before).push(notes[at as int].text()));
            assert(lines_of(notes@).take(at + 1) =~= lines_of(notes@).take(at as int).push(notes[at as int].text()));
        }
        at += 1;
    }
    assert(lines_of(notes@).take(at as int) =~= lines_of(notes@));
    lines
}

/// Every line that belongs under a row.
pub open spec fn notes(row: Row) -> Seq<Seq<char>> {
    match row.soc {
        Soc::NotProbed => Seq::empty(),
        Soc::Unavailable(unavailable) => seq!["error: "@ + unavailable_words(unavailable)],
        Soc::Detected(detection) => advice(detection),
    }
}

fn notes_of(row: &Row) -> (list: Vec<Note>)
    ensures
        lines_of(list@) == notes(*row),
{
    match &row.soc {
        Soc::NotProbed => {
            let list: Vec<Note> = Vec::new();
            assert(lines_of(list@) =~= notes(*row));
            list
        },
        Soc::Unavailable(unavailable) => {
            let mut list: Vec<Note> = Vec::new();
            list.push(Note::Error(unavailable_text(unavailable)));
            assert(lines_of(list@) =~= notes(*row));
            list
        },
        Soc::Detected(detection) => detection_notes(detection),
    }
}

// ---------------------------------------------------------------------------
// The table.
// ---------------------------------------------------------------------------
/// Lines indented under a row.
pub open spec fn indented(lines: Seq<Seq<char>>) -> Seq<char>
    decreases lines.len(),
{
    if lines.len() == 0 {
        Seq::empty()
    } else {
        indented(lines.drop_last()) + NOTE_INDENT@ + lines.last() + "\n"@
    }
}

/// Every row's cells.
pub open spec fn row_cells(rows: Seq<Row>) -> Seq<Seq<Seq<char>>> {
    rows.map_values(|row: Row| cells(row))
}

/// The rows of the table, each with the notes under it.
pub open spec fn body(rows: Seq<Row>, widths: Seq<int>) -> Seq<char>
    decreases rows.len(),
{
    if rows.len() == 0 {
        Seq::empty()
    } else {
        body(rows.drop_last(), widths) + line_of(cells(rows.last()), widths, alignment()) + "\n"@ + indented(
            notes(rows.last()),
        )
    }
}

/// How many devices there are, in words.
pub open spec fn device_count(count: nat) -> Seq<char> {
    crate::text::decimal(count) + if count == 1 {
        " device"@
    } else {
        " devices"@
    }
}

/// How many devices there are, in words.
pub(crate) fn push_device_count(out: &mut String, count: usize)
    ensures
        final(out)@ == old(out)@ + device_count(count as nat),
{
    push_decimal(out, count as u64);
    if count == 1 {
        out.append(" device");
    } else {
        out.append(" devices");
    }
    assert(out@ =~= old(out)@ + device_count(count as nat));
}

/// The whole listing.
pub open spec fn listing_text(rows: Seq<Row>) -> Seq<char> {
    if rows.len() == 0 {
        NONE_FOUND@ + "\n"@
    } else {
        let widths = all_widths(headings(), row_cells(rows));
        "Found "@ + device_count(rows.len()) + ":\n\n"@ + line_of(headings(), widths, alignment()) + "\n"@ + body(
            rows,
            widths,
        )
    }
}

/// Write the listing.
pub fn render(listing: &Listing, out: &mut String)
    ensures
        final(out)@ == old(out)@ + listing_text(listing.rows@),
{
    if listing.is_empty() {
        out.append(NONE_FOUND);
        out.append("\n");
        assert(out@ =~= old(out)@ + listing_text(listing.rows@));
        return;
    }
    let rows = &listing.rows;
    let mut all: Vec<Vec<String>> = Vec::new();
    let mut at: usize = 0;
    while at < rows.len()
        invariant
            at <= rows.len(),
            grid(all@) == row_cells(rows@).take(at as int),
        decreases rows.len() - at,
    {
        let ghost before = all@;
        all.push(cells_of(&rows[at]));
        proof {
            assert(grid(all@) =~= grid(before).push(cells(rows[at as int])));
            assert(row_cells(rows@).take(at + 1) =~= row_cells(rows@).take(at as int).push(cells(rows[at as int])));
        }
        at += 1;
    }
    assert(row_cells(rows@).take(at as int) =~= row_cells(rows@));
    let titles = headers();
    let widths = widths(&titles, &all);
    let right = right_aligned_columns();
    let ghost sizes = all_widths(headings(), row_cells(rows@));
    let ghost begun = out@;
    assert(lengths(widths@).len() == headings().len());
    assert(crate::text::texts(titles@).len() == headings().len());

    out.append("Found ");
    push_device_count(out, rows.len());
    out.append(":\n\n");
    let header = line(&titles, &widths, &right);
    out.append(header.as_str());
    out.append("\n");
    let ghost top = "Found "@ + device_count(rows@.len()) + ":\n\n"@ + line_of(headings(), sizes, alignment())
        + "\n"@;
    assert(out@ =~= begun + top);
    at = 0;
    assert(body(rows@.take(0), sizes) =~= Seq::empty());
    assert(out@ =~= begun + top + body(rows@.take(0), sizes));
    while at < rows.len()
        invariant
            at <= rows.len(),
            rows.len() == all.len(),
            grid(all@) == row_cells(rows@),
            right@ == alignment(),
            lengths(widths@) == sizes,
            sizes.len() == 7,
            out@ == begun + top + body(rows@.take(at as int), sizes),
        decreases rows.len() - at,
    {
        let ghost before = out@;
        assert(crate::text::texts(all[at as int]@) == grid(all@)[at as int]);
        assert(grid(all@)[at as int] == cells(rows[at as int]));
        assert(all[at as int].len() == crate::text::texts(all[at as int]@).len());
        assert(widths.len() == lengths(widths@).len());
        let text = line(&all[at], &widths, &right);
        out.append(text.as_str());
        out.append("\n");
        let under = notes_of(&rows[at]);
        let under = lines(&under);
        push_indented(out, &under);
        proof {
            assert(rows@.take(at + 1).drop_last() =~= rows@.take(at as int));
            assert(rows@.take(at + 1).last() == rows[at as int]);
            assert(out@ =~= begun + top + body(rows@.take(at + 1), sizes));
        }
        at += 1;
    }
    assert(rows@.take(at as int) =~= rows@);
    assert(out@ =~= old(out)@ + listing_text(rows@));
}

fn push_indented(out: &mut String, lines: &Vec<String>)
    ensures
        final(out)@ == old(out)@ + indented(crate::text::texts(lines@)),
{
    let ghost all = crate::text::texts(lines@);
    let mut at: usize = 0;
    assert(all.take(0) =~= Seq::empty());
    assert(out@ =~= old(out)@ + indented(all.take(0)));
    while at < lines.len()
        invariant
            at <= lines.len(),
            all == crate::text::texts(lines@),
            out@ == old(out)@ + indented(all.take(at as int)),
        decreases lines.len() - at,
    {
        out.append(NOTE_INDENT);
        out.append(lines[at].as_str());
        out.append("\n");
        proof {
            assert(all.take(at + 1).drop_last() =~= all.take(at as int));
            assert(all.take(at + 1).last() == lines[at as int]@);
            assert(out@ =~= old(out)@ + indented(all.take(at + 1)));
        }
        at += 1;
    }
    assert(all.take(at as int) =~= all);
}

/// The line of an alt-setting, with its name in quotes where it has one.
pub open spec fn alt_row_text(alt: u8, quoted: Option<Seq<char>>, is_default: bool) -> Seq<char> {
    "  alt "@ + crate::text::decimal(alt as nat) + ": "@ + match quoted {
        Some(name) => name,
        None => "(unnamed)"@,
    } + if is_default {
        "  (default)\n"@
    } else {
        "\n"@
    }
}

/// The line of an alt-setting, with its name in quotes where it has one.
pub fn alt_row(alt: u8, quoted: Option<&str>, is_default: bool) -> (line: String)
    ensures
        line@ == alt_row_text(
            alt,
            match quoted {
                Some(name) => Some(name@),
                None => None,
            },
            is_default,
        ),
{
    let mut line = "  alt ".to_owned();
    push_decimal(&mut line, alt as u64);
    line.append(": ");
    match quoted {
        Some(name) => line.append(name),
        None => line.append("(unnamed)"),
    }
    if is_default {
        line.append("  (default)\n");
    } else {
        line.append("\n");
    }
    line
}

/// One alt-setting of a probed gadget.
pub open spec fn alt_line(alt: crate::model::DfuAlt, default_alt: Option<u8>) -> Seq<char> {
    alt_row_text(
        alt.alt,
        if alt.name@.len() == 0 {
            None
        } else {
            Some(crate::text::quoted_text(alt.name@))
        },
        default_alt == Some(alt.alt),
    )
}

/// The alt-settings of a probed gadget, one line each.
pub open spec fn alt_lines(alts: Seq<crate::model::DfuAlt>, default_alt: Option<u8>) -> Seq<char>
    decreases alts.len(),
{
    if alts.len() == 0 {
        Seq::empty()
    } else {
        alt_lines(alts.drop_last(), default_alt) + alt_line(alts.last(), default_alt)
    }
}

/// The block that says what a probed gadget offers.
pub open spec fn alts_text(index: u8, info: DfuInfo, default_alt: Option<u8>) -> Seq<char> {
    "\nDFU device "@ + crate::text::decimal(index as nat) + ": "@ + crate::text::decimal(info.alts@.len())
        + " alt setting(s), transfer size "@ + crate::text::decimal(info.transfer_size as nat) + " bytes, DFU "@
        + crate::text::hex_byte((info.bcd_dfu / 256) as nat) + "."@ + crate::text::hex(
        (info.bcd_dfu % 256) as nat,
        2,
        false,
    ) + "\n"@ + alt_lines(info.alts@, default_alt)
}

/// The alt-settings a probed gadget offers, with the default marked.
///
/// The DFU version is binary-coded decimal, so `0x0110` is 1.10.
pub fn alts(index: u8, info: &DfuInfo, default_alt: Option<u8>, out: &mut String)
    ensures
        final(out)@ == old(out)@ + alts_text(index, *info, default_alt),
{
    let ghost begun = out@;
    let mut head = "\nDFU device ".to_owned();
    push_decimal(&mut head, index as u64);
    head.append(": ");
    push_decimal(&mut head, info.alts.len() as u64);
    head.append(" alt setting(s), transfer size ");
    push_decimal(&mut head, info.transfer_size as u64);
    head.append(" bytes, DFU ");
    push_hex_byte(&mut head, (info.bcd_dfu / 256) as u8);
    head.append(".");
    push_hex(&mut head, (info.bcd_dfu % 256) as u32, 2, false);
    head.append("\n");
    out.append(head.as_str());
    let mut at: usize = 0;
    assert(info.alts@.take(0) =~= Seq::empty());
    assert(out@ =~= begun + (head@ + alt_lines(info.alts@.take(0), default_alt)));
    while at < info.alts.len()
        invariant
            at <= info.alts.len(),
            out@ == begun + (head@ + alt_lines(info.alts@.take(at as int), default_alt)),
        decreases info.alts.len() - at,
    {
        let alt = &info.alts[at];
        let is_default = match default_alt {
            Some(default_alt) => default_alt == alt.alt,
            None => false,
        };
        let text = if alt.name.as_str().is_empty() {
            alt_row(alt.alt, None, is_default)
        } else {
            let name = quoted(alt.name.as_str());
            alt_row(alt.alt, Some(name.as_str()), is_default)
        };
        assert(text@ == alt_line(*alt, default_alt));
        out.append(text.as_str());
        proof {
            assert(info.alts@.take(at + 1).drop_last() =~= info.alts@.take(at as int));
            assert(out@ =~= begun + (head@ + alt_lines(info.alts@.take(at + 1), default_alt)));
        }
        at += 1;
    }
    assert(info.alts@.take(at as int) =~= info.alts@);
}

// ---------------------------------------------------------------------------
// The counter.
// ---------------------------------------------------------------------------
/// What an operation is saying about itself.
///
/// Notes are lines to keep, and the counter is a line that is drawn over. The counter is
/// redrawn when it would say something new, so which lines are drawn depends on the values
/// alone and not on how fast the machine is.
#[derive(Debug)]
pub struct Bar {
    /// How wide the line on screen is.
    drawn: usize,
    /// What was last drawn, as a number: a redraw with the same number says nothing new.
    last: Option<u64>,
}

impl Default for Bar {
    fn default() -> (bar: Self)
        ensures
            bar.width() == 0,
            bar.said() is None,
    {
        Bar::new()
    }
}

/// What blanks a line of this width and returns to its start.
pub open spec fn blanking(width: nat) -> Seq<char> {
    if width == 0 {
        Seq::empty()
    } else {
        "\r"@ + crate::text::spaces(width as int) + "\r"@
    }
}

/// What draws `line` over a line of this width.
pub open spec fn drawing(width: nat, line: Seq<char>) -> Seq<char> {
    "\r"@ + line + crate::text::spaces(width - line.len())
}

/// What a byte counter is worth a redraw for: the percentage, or the mebibyte.
pub open spec fn tick_value(done: u64, total: Option<u64>) -> u64 {
    match total {
        Some(total) if total > 0 => (percent_of_total(done, total)) as u64,
        _ => (done / 0x10_0000) as u64,
    }
}

/// A count in percent. The product is cut off at the largest number there is.
pub open spec fn percent_of_total(done: u64, total: u64) -> int {
    if done * 100 > u64::MAX {
        u64::MAX as int / total as int
    } else {
        (done * 100) / total as int
    }
}

/// The line of a byte counter.
pub open spec fn counter_line(phase: Seq<char>, done: u64, total: Option<u64>, counted: Seq<char>) -> Seq<char> {
    match total {
        Some(total) if total > 0 => crate::text::right_aligned(phase, 8) + "  "@ + crate::text::right_aligned(
            crate::text::decimal(percent_of_total(done, total) as nat),
            3,
        ) + "%  "@ + counted,
        _ => crate::text::right_aligned(phase, 8) + "  "@ + counted,
    }
}

/// What a wire stage byte is called: the name of the first phase with that byte, or the byte
/// itself.
pub open spec fn phase_label(phases: Seq<Phase>, stage: u8) -> Seq<char>
    decreases phases.len(),
{
    if phases.len() == 0 {
        "stage "@ + crate::text::decimal(stage as nat)
    } else if phases[0].byte == stage {
        phases[0].name@
    } else {
        phase_label(phases.drop_first(), stage)
    }
}

/// The line of a daemon's counter. A message that says nothing beyond the phase is left out.
pub open spec fn wire_text(percent: u8, label: Seq<char>, message: Seq<char>) -> Seq<char> {
    let shown = all_shown(message, false);
    let counter = label + "  "@ + crate::text::right_aligned(crate::text::decimal(percent as nat), 3) + "%"@;
    if shown.len() == 0 || shown == label {
        counter
    } else {
        counter + "  "@ + shown
    }
}

/// FNV-1a over bytes.
pub open spec fn fnv(bytes: Seq<u8>) -> u64
    decreases bytes.len(),
{
    if bytes.len() == 0 {
        0xcbf2_9ce4_8422_2325
    } else {
        (fnv(bytes.drop_last()) ^ (bytes.last() as u64)).wrapping_mul(0x0000_0100_0000_01b3)
    }
}

impl Bar {
    /// How wide the line on screen is.
    pub closed spec fn width(self) -> nat {
        self.drawn as nat
    }

    /// What was last drawn, as a number.
    pub closed spec fn said(self) -> Option<u64> {
        self.last
    }

    /// A bar with nothing drawn yet.
    pub fn new() -> (bar: Self)
        ensures
            bar.width() == 0,
            bar.said() is None,
    {
        Bar { drawn: 0, last: None }
    }

    /// Render one [`Progress`].
    ///
    /// A note is printed; a new phase lets the counter start again; narration is not for
    /// the screen.
    pub fn render(&mut self, progress: &Progress, err: &mut String)
        ensures
            match *progress {
                Progress::Note(text) => {
                    &&& final(err)@ == old(err)@ + blanking(old(self).width()) + text@ + "\n"@
                    &&& final(self).width() == 0
                    &&& final(self).said() == (if old(self).width() == 0 {
                        old(self).said()
                    } else {
                        None
                    })
                },
                Progress::Phase => {
                    &&& final(err)@ == old(err)@
                    &&& final(self).width() == old(self).width()
                    &&& final(self).said() is None
                },
                Progress::Bytes { phase, done, total, counted } => redrawn(
                    *old(self),
                    *final(self),
                    tick_value(done, total),
                    counter_line(phase@, done, total, counted@),
                    old(err)@,
                    final(err)@,
                ),
                Progress::Debug(_) => final(err)@ == old(err)@ && *final(self) == *old(self),
            },
    {
        match progress {
            Progress::Note(text) => self.note(text.as_str(), err),
            Progress::Phase => {
                self.last = None;
            },
            Progress::Bytes { phase, done, total, counted } => self.bytes(
                phase.as_str(),
                *done,
                *total,
                counted.as_str(),
                err,
            ),
            Progress::Debug(_) => {},
        }
    }

    /// A line the user keeps. Blanks the counter first so the two never collide.
    pub fn note(&mut self, text: &str, err: &mut String)
        ensures
            final(err)@ == old(err)@ + blanking(old(self).width()) + text@ + "\n"@,
            final(self).width() == 0,
            final(self).said() == (if old(self).width() == 0 {
                old(self).said()
            } else {
                None
            }),
    {
        self.clear(err);
        err.append(text);
        err.append("\n");
    }

    /// Blank whatever the counter last drew, leaving the cursor at column zero.
    pub fn clear(&mut self, err: &mut String)
        ensures
            final(err)@ == old(err)@ + blanking(old(self).width()),
            final(self).width() == 0,
            final(self).said() == (if old(self).width() == 0 {
                old(self).said()
            } else {
                None
            }),
    {
        if self.drawn == 0 {
            assert(err@ =~= old(err)@ + blanking(0));
            return;
        }
        err.append("\r");
        push_spaces(err, self.drawn);
        err.append("\r");
        assert(err@ =~= old(err)@ + blanking(old(self).width()));
        self.drawn = 0;
        self.last = None;
    }

    /// Draw the counter, if it would say something new.
    fn bytes(&mut self, phase: &str, done: u64, total: Option<u64>, counted: &str, err: &mut String)
        ensures
            redrawn(
                *old(self),
                *final(self),
                tick_value(done, total),
                counter_line(phase@, done, total, counted@),
                old(err)@,
                final(err)@,
            ),
    {
        let tick = Bar::tick(done, total);
        if let Some(last) = self.last {
            if last == tick {
                return;
            }
        }
        self.last = Some(tick);
        let line = Bar::line(phase, done, total, counted);
        self.paint(line.as_str(), err);
    }

    /// Draw a daemon's progress frame.
    ///
    /// The counter is the local one: the same phase names and the same shape. It is redrawn
    /// whenever the whole line differs, because a transfer with no knowable total reports
    /// no percentage. `phases` names the stage bytes.
    pub fn wire(&mut self, percent: u8, stage: u8, message: &str, phases: &Vec<Phase>, err: &mut String)
        ensures
            ({
                let line = wire_text(percent, phase_label(phases@, stage), message@);
                redrawn(*old(self), *final(self), fnv(vstd::utf8::encode_utf8(line)), line, old(err)@, final(err)@)
            }),
    {
        let line = Bar::wire_line(percent, stage, message, phases);
        let tick = Bar::tick_of(line.as_str());
        if let Some(last) = self.last {
            if last == tick {
                return;
            }
        }
        self.last = Some(tick);
        self.paint(line.as_str(), err);
    }

    /// Write `line` over whatever the counter last drew, and remember its width.
    fn paint(&mut self, line: &str, err: &mut String)
        ensures
            final(err)@ == old(err)@ + drawing(old(self).width(), line@),
            final(self).width() == line@.len(),
            final(self).said() == old(self).said(),
    {
        let length = line.unicode_len();
        let pad: usize = if self.drawn > length { self.drawn - length } else { 0 };
        err.append("\r");
        err.append(line);
        push_spaces(err, pad);
        assert(err@ =~= old(err)@ + drawing(old(self).width(), line@));
        self.drawn = length;
    }

    /// The line of a daemon's counter.
    fn wire_line(percent: u8, stage: u8, message: &str, phases: &Vec<Phase>) -> (line: String)
        ensures
            line@ == wire_text(percent, phase_label(phases@, stage), message@),
    {
        let phase = match wire_phase(stage, phases) {
            Some(name) => name,
            None => {
                let mut text = "stage ".to_owned();
                push_decimal(&mut text, stage as u64);
                text
            },
        };
        let message = sanitise_line(message);
        let mut line = phase.clone();
        line.append("  ");
        let number = decimal_of(percent as u64);
        push_right(&mut line, number.as_str(), 3);
        line.append("%");
        if message.as_str().is_empty() || same_text(message.as_str(), phase.as_str()) {
            return line;
        }
        line.append("  ");
        line.append(message.as_str());
        line
    }

    /// FNV-1a over the rendered line: would a redraw say anything new?
    fn tick_of(line: &str) -> (tick: u64)
        ensures
            tick == fnv(vstd::utf8::encode_utf8(line@)),
    {
        let bytes = line.as_bytes();
        let mut hash: u64 = 0xcbf2_9ce4_8422_2325;
        let mut at: usize = 0;
        assert(bytes@.take(0) =~= Seq::empty());
        while at < bytes.len()
            invariant
                at <= bytes@.len(),
                hash == fnv(bytes@.take(at as int)),
            decreases bytes@.len() - at,
        {
            proof {
                assert(bytes@.take(at + 1).drop_last() =~= bytes@.take(at as int));
                assert(bytes@.take(at + 1).last() == bytes@[at as int]);
            }
            hash = (hash ^ (bytes[at] as u64)).wrapping_mul(0x0000_0100_0000_01b3);
            at += 1;
        }
        assert(bytes@.take(at as int) =~= bytes@);
        hash
    }

    /// The value a redraw is worth: the percentage, or the mebibyte.
    ///
    /// A total of zero is answered rather than divided by.
    fn tick(done: u64, total: Option<u64>) -> (tick: u64)
        ensures
            tick == tick_value(done, total),
    {
        match total {
            Some(total) if total > 0 => Bar::percent(done, total),
            _ => done / 0x10_0000,
        }
    }

    fn percent(done: u64, total: u64) -> (percent: u64)
        requires
            total > 0,
        ensures
            percent == percent_of_total(done, total),
    {
        match done.checked_mul(100) {
            Some(product) => product / total,
            None => u64::MAX / total,
        }
    }

    /// The line of a byte counter.
    fn line(phase: &str, done: u64, total: Option<u64>, counted: &str) -> (line: String)
        ensures
            line@ == counter_line(phase@, done, total, counted@),
    {
        let mut line = String::new();
        push_right(&mut line, phase, 8);
        assert(line@ =~= crate::text::right_aligned(phase@, 8));
        line.append("  ");
        match total {
            Some(total) if total > 0 => {
                let percent = decimal_of(Bar::percent(done, total));
                push_right(&mut line, percent.as_str(), 3);
                line.append("%  ");
                line.append(counted);
            },
            _ => {
                line.append(counted);
            },
        }
        line
    }
}

/// What a redraw does: nothing where it would say the same again, and otherwise the line.
pub open spec fn redrawn(
    before: Bar,
    after: Bar,
    tick: u64,
    line: Seq<char>,
    written: Seq<char>,
    now_written: Seq<char>,
) -> bool {
    if before.said() == Some(tick) {
        after == before && now_written == written
    } else {
        &&& now_written == written + drawing(before.width(), line)
        &&& after.width() == line.len()
        &&& after.said() == Some(tick)
    }
}

/// What a wire stage byte is called, where any phase has that byte.
pub fn wire_phase(stage: u8, phases: &Vec<Phase>) -> (name: Option<String>)
    ensures
        match name {
            Some(name) => name@ == phase_label(phases@, stage) && exists|i: int|
                0 <= i < phases.len() && #[trigger] phases[i].byte == stage,
            None => phase_label(phases@, stage) == "stage "@ + crate::text::decimal(stage as nat) && forall|i: int|
                0 <= i < phases.len() ==> #[trigger] phases[i].byte != stage,
        },
{
    let mut at: usize = 0;
    assert(phases@.skip(0) =~= phases@);
    while at < phases.len()
        invariant
            at <= phases.len(),
            phase_label(phases@, stage) == phase_label(phases@.skip(at as int), stage),
            forall|i: int| 0 <= i < at ==> #[trigger] phases[i].byte != stage,
        decreases phases.len() - at,
    {
        if phases[at].byte == stage {
            return Some(phases[at].name.clone());
        }
        assert(phases@.skip(at as int).drop_first() =~= phases@.skip(at + 1));
        at += 1;
    }
    None
}

// ---------------------------------------------------------------------------
// What a terminal makes of the counter.
// ---------------------------------------------------------------------------
/// A terminal, as far as the counter uses one: the lines that are finished, the line the
/// cursor is on, and its column.
pub struct Screen {
    /// The finished lines.
    pub above: Seq<Seq<char>>,
    /// The current line.
    pub line: Seq<char>,
    /// The column of the cursor in it.
    pub column: int,
}

/// What one character does to a terminal.
pub open spec fn put(screen: Screen, c: char) -> Screen {
    if c == '\r' {
        Screen { column: 0, ..screen }
    } else if c == '\n' {
        Screen { above: screen.above.push(screen.line), line: Seq::empty(), column: 0 }
    } else if screen.column < screen.line.len() {
        Screen { line: screen.line.update(screen.column, c), column: screen.column + 1, ..screen }
    } else {
        Screen { line: screen.line.push(c), column: screen.column + 1, ..screen }
    }
}

/// What a text does to a terminal.
pub open spec fn shows(screen: Screen, text: Seq<char>) -> Screen
    decreases text.len(),
{
    if text.len() == 0 {
        screen
    } else {
        put(shows(screen, text.drop_last()), text.last())
    }
}

/// Is the cursor in the line, and is the line blank from a column on?
pub open spec fn blank_from(screen: Screen, column: int) -> bool {
    &&& 0 <= screen.column <= screen.line.len()
    &&& forall|i: int| column <= i < screen.line.len() ==> #[trigger] screen.line[i] == ' '
}

/// Does this text hold no control characters at all?
pub open spec fn is_printing(text: Seq<char>) -> bool {
    forall|i: int| 0 <= i < text.len() ==> !is_control(#[trigger] text[i])
}

proof fn lemma_shows_concat(screen: Screen, left: Seq<char>, right: Seq<char>)
    ensures
        shows(screen, left + right) == shows(shows(screen, left), right),
    decreases right.len(),
{
    if right.len() == 0 {
        assert(left + right =~= left);
    } else {
        lemma_shows_concat(screen, left, right.drop_last());
        assert((left + right).drop_last() =~= left + right.drop_last());
        assert((left + right).last() == right.last());
    }
}

/// Printing text overwrites the line from the cursor on.
proof fn lemma_shows_printing(screen: Screen, text: Seq<char>)
    requires
        is_printing(text),
        0 <= screen.column <= screen.line.len(),
    ensures
        shows(screen, text) == (Screen {
            above: screen.above,
            line: screen.line.take(screen.column) + text + (if screen.column + text.len() < screen.line.len() {
                screen.line.skip(screen.column + text.len())
            } else {
                Seq::empty()
            }),
            column: screen.column + text.len(),
        }),
    decreases text.len(),
{
    if text.len() == 0 {
        assert(screen.line.take(screen.column) + text + screen.line.skip(screen.column) =~= screen.line);
        if screen.column == screen.line.len() {
            assert(screen.line.take(screen.column) + text =~= screen.line);
            assert(screen.line.take(screen.column) + text + Seq::<char>::empty() =~= screen.line);
        }
    } else {
        let most = text.drop_last();
        assert forall|i: int| 0 <= i < most.len() implies !is_control(#[trigger] most[i]) by {
            assert(most[i] == text[i]);
        }
        lemma_shows_printing(screen, most);
        assert(!is_control(text[text.len() - 1]));
        let before = shows(screen, most);
        let rest = if screen.column + text.len() < screen.line.len() {
            screen.line.skip(screen.column + text.len())
        } else {
            Seq::empty()
        };
        assert(shows(screen, text).line =~= screen.line.take(screen.column) + text + rest);
    }
}

proof fn lemma_spaces_print(count: int)
    ensures
        is_printing(crate::text::spaces(count)),
{
}

proof fn lemma_return(screen: Screen)
    ensures
        shows(screen, "\r"@) == (Screen { column: 0, ..screen }),
{
    reveal_strlit("\r");
    assert("\r"@.drop_last() =~= Seq::empty());
    assert(shows(screen, "\r"@.drop_last()) == screen);
}

/// Blanking a counter leaves nothing of it: the line is blank and the cursor at its start.
pub proof fn law_clearing_leaves_a_blank_line(screen: Screen, width: nat)
    requires
        blank_from(screen, width as int),
        width == 0 ==> screen.column == 0,
    ensures
        blank_from(shows(screen, blanking(width)), 0),
        shows(screen, blanking(width)).column == 0,
        shows(screen, blanking(width)).above == screen.above,
{
    if width > 0 {
        let blanks = crate::text::spaces(width as int);
        lemma_shows_concat(screen, "\r"@ + blanks, "\r"@);
        lemma_shows_concat(screen, "\r"@, blanks);
        lemma_return(screen);
        lemma_spaces_print(width as int);
        let start = Screen { column: 0, ..screen };
        lemma_shows_printing(start, blanks);
        let blanked = shows(start, blanks);
        lemma_return(blanked);
        assert forall|i: int| 0 <= i < blanked.line.len() implies #[trigger] blanked.line[i] == ' ' by {
            if i >= width {
                assert(blanked.line[i] == screen.line[i]);
            }
        }
    }
}

/// A redraw shows the new line and nothing of the old one.
pub proof fn law_a_redraw_covers_the_line_before(screen: Screen, width: nat, line: Seq<char>)
    requires
        blank_from(screen, width as int),
        is_printing(line),
    ensures
        blank_from(shows(screen, drawing(width, line)), line.len() as int),
        shows(screen, drawing(width, line)).line.take(line.len() as int) == line,
        shows(screen, drawing(width, line)).above == screen.above,
{
    let blanks = crate::text::spaces(width - line.len());
    lemma_shows_concat(screen, "\r"@ + line, blanks);
    lemma_shows_concat(screen, "\r"@, line);
    lemma_return(screen);
    lemma_spaces_print(width - line.len());
    let start = Screen { column: 0, ..screen };
    lemma_shows_printing(start, line);
    let drawn = shows(start, line);
    lemma_shows_printing(drawn, blanks);
    let after = shows(drawn, blanks);
    assert(after.line.take(line.len() as int) =~= line);
    assert forall|i: int| line.len() <= i < after.line.len() implies #[trigger] after.line[i] == ' ' by {
        if i >= line.len() + blanks.len() {
            assert(after.line[i] == screen.line[i]);
        }
    }
}

/// A note is printed whole on a line of its own, whatever the counter had drawn there, and
/// the counter starts again on a clean line.
pub proof fn law_a_note_survives_the_counter(screen: Screen, width: nat, text: Seq<char>)
    requires
        blank_from(screen, width as int),
        width == 0 ==> screen.column == 0,
        is_printing(text),
    ensures
        ({
            let after = shows(screen, blanking(width) + text + "\n"@);
            &&& after.above.len() == screen.above.len() + 1
            &&& after.above.drop_last() == screen.above
            &&& after.above.last().len() >= text.len()
            &&& after.above.last().take(text.len() as int) == text
            &&& forall|i: int|
                text.len() <= i < after.above.last().len() ==> #[trigger] after.above.last()[i] == ' '
            &&& after.line.len() == 0 && after.column == 0
        }),
{
    law_clearing_leaves_a_blank_line(screen, width);
    let blank = shows(screen, blanking(width));
    lemma_shows_concat(screen, blanking(width) + text, "\n"@);
    lemma_shows_concat(screen, blanking(width), text);
    lemma_shows_printing(blank, text);
    let written = shows(blank, text);
    reveal_strlit("\n");
    assert("\n"@.drop_last() =~= Seq::empty());
    let after = shows(written, "\n"@);
    assert(shows(written, "\n"@.drop_last()) == written);
    assert(after == put(written, '\n'));
    assert(after.above.drop_last() =~= screen.above);
    assert(written.line.take(text.len() as int) =~= text);
    assert forall|i: int| text.len() <= i < written.line.len() implies #[trigger] written.line[i] == ' ' by {
        assert(written.line[i] == blank.line[i]);
    }
}

/// A frame that says what the last one said is not drawn again, and changes nothing.
pub proof fn law_the_same_frame_is_drawn_once(
    before: Bar,
    between: Bar,
    after: Bar,
    tick: u64,
    line: Seq<char>,
    first: Seq<char>,
    second: Seq<char>,
    third: Seq<char>,
)
    requires
        redrawn(before, between, tick, line, first, second),
        redrawn(between, after, tick, line, second, third),
    ensures
        third == second,
        after == between,
{
}

/// A percentage is what has been done of a hundred parts, rounded down: it is at most a hundred
/// until more is done than there is, it reaches a hundred exactly then, and it never runs back.
pub proof fn law_a_percentage_is_rounded_down(done: u64, later: u64, total: u64)
    requires
        total > 0,
        done <= later,
        later * 100 <= u64::MAX,
    ensures
        percent_of_total(done, total) * total <= done * 100,
        done * 100 < (percent_of_total(done, total) + 1) * total,
        percent_of_total(done, total) >= 100 <==> done >= total,
        percent_of_total(done, total) <= percent_of_total(later, total),
{
    let (parts, more, whole) = ((done * 100) as int, (later * 100) as int, total as int);
    vstd::arithmetic::div_mod::lemma_fundamental_div_mod(parts, whole);
    vstd::arithmetic::div_mod::lemma_mod_bound(parts, whole);
    vstd::arithmetic::div_mod::lemma_div_is_ordered(parts, more, whole);
    let percent = parts / whole;
    assert(percent * whole <= parts < (percent + 1) * whole && (percent >= 100 <==> done >= total))
        by (nonlinear_arith)
        requires
            parts == whole * percent + parts % whole,
            0 <= parts % whole < whole,
            parts == done * 100,
            whole == total,
            whole > 0,
    ;
}

/// A counter is drawn again for every percent: what the line on screen says is never out by one.
pub proof fn law_every_percent_is_drawn(
    before: Bar,
    between: Bar,
    after: Bar,
    done: u64,
    later: u64,
    total: u64,
    line: Seq<char>,
    next: Seq<char>,
    first: Seq<char>,
    second: Seq<char>,
    third: Seq<char>,
)
    requires
        total > 0,
        done * 100 <= u64::MAX,
        later * 100 <= u64::MAX,
        (done * 100) / total as int != (later * 100) / total as int,
        redrawn(before, between, tick_value(done, Some(total)), line, first, second),
        redrawn(between, after, tick_value(later, Some(total)), next, second, third),
    ensures
        third == second + "\r"@ + next + crate::text::spaces(between.width() - next.len()),
        after.width() == next.len(),
{
    let whole = total as int;
    vstd::arithmetic::div_mod::lemma_div_is_ordered_by_denominator((done * 100) as int, 1, whole);
    vstd::arithmetic::div_mod::lemma_div_is_ordered_by_denominator((later * 100) as int, 1, whole);
    vstd::arithmetic::div_mod::lemma_div_pos_is_pos((done * 100) as int, whole);
    vstd::arithmetic::div_mod::lemma_div_pos_is_pos((later * 100) as int, whole);
    assert(third =~= second + "\r"@ + next + crate::text::spaces(between.width() - next.len()));
}

/// A stage byte is called by the first phase that has it, and by its number where none has.
pub proof fn law_a_stage_is_called_by_its_phase(phases: Seq<Phase>, stage: u8, at: int)
    requires
        0 <= at <= phases.len(),
        forall|i: int| 0 <= i < at ==> #[trigger] phases[i].byte != stage,
        at < phases.len() ==> phases[at].byte == stage,
    ensures
        phase_label(phases, stage) == (if at < phases.len() {
            phases[at].name@
        } else {
            "stage "@ + crate::text::decimal(stage as nat)
        }),
    decreases phases.len(),
{
    if at > 0 {
        assert(phases[0].byte != stage);
        assert forall|i: int| 0 <= i < at - 1 implies #[trigger] phases.drop_first()[i].byte != stage by {
            assert(phases[i + 1].byte != stage);
        }
        law_a_stage_is_called_by_its_phase(phases.drop_first(), stage, at - 1);
    }
}

/// The multiplier of the hash is odd, so it loses nothing.
proof fn lemma_products_apart(left: u64, right: u64)
    requires
        left != right,
    ensures
        left.wrapping_mul(0x0000_0100_0000_01b3) != right.wrapping_mul(0x0000_0100_0000_01b3),
{
    let multiplier: int = 0x0000_0100_0000_01b3;
    let inverse: int = 0xce96_5057_aff6_957b;
    let turns: int = 887285111055;
    let range: int = 0x1_0000_0000_0000_0000;
    assert(multiplier * inverse == 1 + turns * range) by (nonlinear_arith)
        requires
            multiplier == 0x0000_0100_0000_01b3,
            inverse == 0xce96_5057_aff6_957b,
            turns == 887285111055,
            range == 0x1_0000_0000_0000_0000,
    ;
    let (one, other) = (left as int, right as int);
    if (one * multiplier) % range == (other * multiplier) % range {
        vstd::arithmetic::div_mod::lemma_fundamental_div_mod(one * multiplier, range);
        vstd::arithmetic::div_mod::lemma_fundamental_div_mod(other * multiplier, range);
        let quotient = (one * multiplier) / range - (other * multiplier) / range;
        assert((one - other) * multiplier == range * quotient) by (nonlinear_arith)
            requires
                one * multiplier == range * ((one * multiplier) / range) + (one * multiplier) % range,
                other * multiplier == range * ((other * multiplier) / range) + (other * multiplier) % range,
                (one * multiplier) % range == (other * multiplier) % range,
                quotient == (one * multiplier) / range - (other * multiplier) / range,
        ;
        let factor = quotient * inverse - (one - other) * turns;
        assert(one - other == range * factor) by (nonlinear_arith)
            requires
                (one - other) * multiplier == range * quotient,
                multiplier * inverse == 1 + turns * range,
                factor == quotient * inverse - (one - other) * turns,
        ;
        assert(false) by (nonlinear_arith)
            requires
                one - other == range * factor,
                one != other,
                0 <= one < range,
                0 <= other < range,
        ;
    }
}

proof fn lemma_hashes_apart(one: Seq<u8>, other: Seq<u8>, back: Seq<u8>)
    requires
        fnv(one) != fnv(other),
    ensures
        fnv(one + back) != fnv(other + back),
    decreases back.len(),
{
    if back.len() == 0 {
        assert(one + back =~= one);
        assert(other + back =~= other);
    } else {
        lemma_hashes_apart(one, other, back.drop_last());
        assert((one + back).drop_last() =~= one + back.drop_last());
        assert((other + back).drop_last() =~= other + back.drop_last());
        let (left, right) = (fnv(one + back.drop_last()), fnv(other + back.drop_last()));
        let byte = back.last();
        assert(left ^ (byte as u64) != right ^ (byte as u64)) by (bit_vector)
            requires
                left != right,
        ;
        lemma_products_apart(left ^ (byte as u64), right ^ (byte as u64));
    }
}

/// The hash of a line depends on every bit of it: lines that differ in one byte, wherever it is and
/// whatever its two values are, are never taken for the same.
pub proof fn law_a_changed_line_is_noticed(front: Seq<u8>, one: u8, other: u8, back: Seq<u8>)
    requires
        one != other,
    ensures
        fnv(front + seq![one] + back) != fnv(front + seq![other] + back),
{
    assert((front + seq![one]).drop_last() =~= front);
    assert((front + seq![other]).drop_last() =~= front);
    let hash = fnv(front);
    assert(hash ^ (one as u64) != hash ^ (other as u64)) by (bit_vector)
        requires
            one != other,
    ;
    lemma_products_apart(hash ^ (one as u64), hash ^ (other as u64));
    lemma_hashes_apart(front + seq![one], front + seq![other], back);
}

/// A USB identity is the vendor and the product in four hexadecimal digits each, and a colon
/// between them.
pub proof fn law_a_usb_identity_reads_back(vendor: u16, product: u16)
    ensures
        usb_identity(vendor, product).len() == 9,
        crate::text::hex_value(usb_identity(vendor, product).take(4)) == vendor,
        usb_identity(vendor, product)[4] == ':',
        crate::text::hex_value(usb_identity(vendor, product).skip(5)) == product,
{
    assert(vstd::arithmetic::power::pow(16, 4) == 65536) by {
        reveal_with_fuel(vstd::arithmetic::power::pow, 5);
    }
    crate::text::law_a_hexadecimal_number_reads_back(vendor as nat, 4, false);
    crate::text::law_a_hexadecimal_number_reads_back(product as nat, 4, false);
    reveal_strlit(":");
    let text = usb_identity(vendor, product);
    assert(text.take(4) =~= crate::text::hex(vendor as nat, 4, false));
    assert(text.skip(5) =~= crate::text::hex(product as nat, 4, false));
}

/// A row says what its device is: its number, its bus and its address read back from the first
/// three cells, and its USB identity from the fifth.
pub proof fn law_a_row_says_what_its_device_is(row: Row)
    ensures
        cells(row).len() == headings().len(),
        crate::text::number(cells(row)[0]) == Some(row.index as nat),
        crate::text::number(cells(row)[1]) == Some(row.descriptors.bus as nat),
        crate::text::number(cells(row)[2]) == Some(row.descriptors.address as nat),
        crate::text::hex_value(cells(row)[4].take(4)) == row.descriptors.vendor_id,
        crate::text::hex_value(cells(row)[4].skip(5)) == row.descriptors.product_id,
{
    crate::text::law_a_number_reads_back(row.index as nat);
    crate::text::law_a_number_reads_back(row.descriptors.bus as nat);
    crate::text::law_a_number_reads_back(row.descriptors.address as nat);
    law_a_usb_identity_reads_back(row.descriptors.vendor_id, row.descriptors.product_id);
}

proof fn lemma_body_shows(rows: Seq<Row>, widths: Seq<int>, at: int)
    requires
        0 <= at < rows.len(),
    ensures
        exists|front: Seq<char>, back: Seq<char>|
            body(rows, widths) == #[trigger] (front + (line_of(cells(rows[at]), widths, alignment()) + "\n"@ + indented(
                notes(rows[at]),
            )) + back),
    decreases rows.len(),
{
    let own = line_of(cells(rows[at]), widths, alignment()) + "\n"@ + indented(notes(rows[at]));
    if at == rows.len() - 1 {
        let front = body(rows.drop_last(), widths);
        assert(body(rows, widths) =~= front + own + Seq::empty());
    } else {
        lemma_body_shows(rows.drop_last(), widths, at);
        let (front, back) = choose|front: Seq<char>, back: Seq<char>|
            body(rows.drop_last(), widths) == #[trigger] (front + own + back);
        let rest = line_of(cells(rows.last()), widths, alignment()) + "\n"@ + indented(notes(rows.last()));
        assert(body(rows, widths) =~= front + own + (back + rest));
    }
}

/// A listing shows every device: whichever row it is, its line is there, with the notes that belong
/// to it right under it.
pub proof fn law_a_listing_shows_every_row(rows: Seq<Row>, at: int)
    requires
        0 <= at < rows.len(),
    ensures
        exists|front: Seq<char>, back: Seq<char>|
            listing_text(rows) == #[trigger] (front + (line_of(
                cells(rows[at]),
                all_widths(headings(), row_cells(rows)),
                alignment(),
            ) + "\n"@ + indented(notes(rows[at]))) + back),
{
    let widths = all_widths(headings(), row_cells(rows));
    let own = line_of(cells(rows[at]), widths, alignment()) + "\n"@ + indented(notes(rows[at]));
    lemma_body_shows(rows, widths, at);
    let (front, back) = choose|front: Seq<char>, back: Seq<char>|
        body(rows, widths) == #[trigger] (front + own + back);
    let head = "Found "@ + device_count(rows.len()) + ":\n\n"@ + line_of(headings(), widths, alignment()) + "\n"@;
    assert(listing_text(rows) =~= head + front + own + back);
}

/// A listing marks one alt-setting as the default where there is one, and no other: the line of an
/// alt-setting ends in the mark exactly where it is that one.
pub proof fn law_only_the_default_is_marked(alt: crate::model::DfuAlt, default_alt: Option<u8>)
    ensures
        default_alt == Some(alt.alt) ==> "  (default)\n"@.len() <= alt_line(alt, default_alt).len() && alt_line(
            alt,
            default_alt,
        ).skip(alt_line(alt, default_alt).len() - "  (default)\n"@.len()) == "  (default)\n"@,
        default_alt != Some(alt.alt) ==> alt_line(alt, default_alt) == alt_line(alt, None),
        "  alt "@ + crate::text::decimal(alt.alt as nat) + ": "@ == alt_line(alt, default_alt).take(
            ("  alt "@ + crate::text::decimal(alt.alt as nat) + ": "@).len() as int,
        ),
{
    let line = alt_line(alt, default_alt);
    let mark = "  (default)\n"@;
    if default_alt == Some(alt.alt) {
        assert(line.skip(line.len() - mark.len()) =~= mark);
    }
    let front = "  alt "@ + crate::text::decimal(alt.alt as nat) + ": "@;
    assert(line.take(front.len() as int) =~= front);
}

} // verus!
