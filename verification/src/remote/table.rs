//! The `-l` table of a daemon's devices.
//!
//! It is the local table without what the wire does not carry: there is no port column, and
//! the SoC column holds a name and nothing more.
use vstd::prelude::*;
use vstd::string::*;

use crate::remote::error::Address;
use crate::remote::protocol::DeviceEntry;
use crate::render::{NONE_FOUND, line, push_device_count, usb_id, widths};
use crate::text::{decimal_of, push_decimal};

verus! {

/// The word for a stage byte. One that is not known is printed and never guessed at.
pub open spec fn stage_word(stage: u8) -> Seq<char> {
    if stage == 0 {
        "bootrom"@
    } else if stage == 1 {
        "firmware"@
    } else if stage == 2 {
        "gadget"@
    } else {
        "stage "@ + crate::text::decimal(stage as nat)
    }
}

/// The word for a stage byte, in the vocabulary of the local table.
pub fn stage_name(stage: u8) -> (name: String)
    ensures
        name@ == stage_word(stage),
{
    match stage {
        0 => "bootrom".to_owned(),
        1 => "firmware".to_owned(),
        2 => "gadget".to_owned(),
        other => {
            let mut name = "stage ".to_owned();
            push_decimal(&mut name, other as u64);
            name
        },
    }
}

/// The columns.
pub open spec fn headings() -> Seq<Seq<char>> {
    seq!["#"@, "Bus"@, "Addr"@, "VID:PID"@, "Stage"@, "SoC"@]
}

/// Which of them are right-aligned: the three numeric ones.
pub open spec fn alignment() -> Seq<bool> {
    seq![true, true, true, false, false, false]
}

/// One row's cells, before padding.
pub open spec fn cells(index: int, entry: DeviceEntry) -> Seq<Seq<char>> {
    seq![
        crate::text::decimal(index as nat),
        crate::text::decimal(entry.bus as nat),
        crate::text::decimal(entry.address as nat),
        crate::render::usb_identity(entry.vendor, entry.product),
        stage_word(entry.stage),
        match entry.variant.name {
            Some(name) => name@,
            None => "unknown"@,
        },
    ]
}

/// Every row's cells.
pub open spec fn row_cells(entries: Seq<DeviceEntry>) -> Seq<Seq<Seq<char>>> {
    Seq::new(entries.len(), |i: int| cells(i, entries[i]))
}

/// The first `count` rows of the table.
pub open spec fn body(entries: Seq<DeviceEntry>, widths: Seq<int>, count: int) -> Seq<char>
    decreases count,
{
    if count <= 0 {
        Seq::empty()
    } else {
        body(entries, widths, count - 1) + crate::render::line_of(
            cells(count - 1, entries[count - 1]),
            widths,
            alignment(),
        ) + "\n"@
    }
}

/// The whole listing.
pub open spec fn listing_text(at: Seq<char>, entries: Seq<DeviceEntry>) -> Seq<char> {
    if entries.len() == 0 {
        NONE_FOUND@ + " on "@ + at + "\n"@
    } else {
        let widths = crate::render::all_widths(headings(), row_cells(entries));
        "Found "@ + crate::render::device_count(entries.len()) + " on "@ + at + ":\n\n"@ + crate::render::line_of(
            headings(),
            widths,
            alignment(),
        ) + "\n"@ + body(entries, widths, entries.len() as int)
    }
}

fn cells_of(index: usize, entry: &DeviceEntry) -> (list: Vec<String>)
    ensures
        crate::text::texts(list@) == cells(index as int, *entry),
{
    let variant = match &entry.variant.name {
        Some(name) => name.clone(),
        None => "unknown".to_owned(),
    };
    let mut list: Vec<String> = Vec::new();
    list.push(decimal_of(index as u64));
    list.push(decimal_of(entry.bus as u64));
    list.push(decimal_of(entry.address as u64));
    list.push(usb_id(entry.vendor, entry.product));
    list.push(stage_name(entry.stage));
    list.push(variant);
    assert(crate::text::texts(list@) =~= cells(index as int, *entry));
    list
}

fn headers() -> (list: Vec<String>)
    ensures
        crate::text::texts(list@) == headings(),
{
    let mut list: Vec<String> = Vec::new();
    list.push("#".to_owned());
    list.push("Bus".to_owned());
    list.push("Addr".to_owned());
    list.push("VID:PID".to_owned());
    list.push("Stage".to_owned());
    list.push("SoC".to_owned());
    assert(crate::text::texts(list@) =~= headings());
    list
}

/// Write a daemon's device list.
pub fn render(at: &Address, entries: &Vec<DeviceEntry>, out: &mut String)
    ensures
        final(out)@ == old(out)@ + listing_text(at.text(), entries@),
{
    let place = at.display();
    if entries.len() == 0 {
        out.append(NONE_FOUND);
        out.append(" on ");
        out.append(place.as_str());
        out.append("\n");
        assert(out@ =~= old(out)@ + listing_text(at.text(), entries@));
        return;
    }
    let mut all: Vec<Vec<String>> = Vec::new();
    let mut row: usize = 0;
    while row < entries.len()
        invariant
            row <= entries.len(),
            crate::render::grid(all@) == row_cells(entries@).take(row as int),
        decreases entries.len() - row,
    {
        let ghost before = all@;
        all.push(cells_of(row, &entries[row]));
        proof {
            let one = cells(row as int, entries[row as int]);
            assert(crate::render::grid(all@) =~= crate::render::grid(before).push(one));
            assert(row_cells(entries@).take(row + 1) =~= row_cells(entries@).take(row as int).push(one));
        }
        row += 1;
    }
    assert(row_cells(entries@).take(row as int) =~= row_cells(entries@));
    let titles = headers();
    let widths = widths(&titles, &all);
    let right: Vec<bool> = vec![true, true, true, false, false, false];
    assert(right@ =~= alignment());
    let ghost sizes = crate::render::all_widths(headings(), row_cells(entries@));
    let ghost begun = out@;
    assert(crate::render::lengths(widths@).len() == headings().len());
    assert(crate::text::texts(titles@).len() == headings().len());

    out.append("Found ");
    push_device_count(out, entries.len());
    out.append(" on ");
    out.append(place.as_str());
    out.append(":\n\n");
    let header = line(&titles, &widths, &right);
    out.append(header.as_str());
    out.append("\n");
    let ghost top = "Found "@ + crate::render::device_count(entries@.len()) + " on "@ + at.text() + ":\n\n"@
        + crate::render::line_of(headings(), sizes, alignment()) + "\n"@;
    assert(out@ =~= begun + top + body(entries@, sizes, 0));
    row = 0;
    while row < entries.len()
        invariant
            row <= entries.len(),
            entries.len() == all.len(),
            crate::render::grid(all@) == row_cells(entries@),
            right@ == alignment(),
            crate::render::lengths(widths@) == sizes,
            sizes.len() == 6,
            out@ == begun + top + body(entries@, sizes, row as int),
        decreases entries.len() - row,
    {
        assert(crate::text::texts(all[row as int]@) == crate::render::grid(all@)[row as int]);
        assert(crate::render::grid(all@)[row as int] == cells(row as int, entries[row as int]));
        assert(all[row as int].len() == crate::text::texts(all[row as int]@).len());
        assert(widths.len() == crate::render::lengths(widths@).len());
        let text = line(&all[row], &widths, &right);
        out.append(text.as_str());
        out.append("\n");
        assert(out@ =~= begun + top + body(entries@, sizes, row + 1));
        row += 1;
    }
    assert(out@ =~= old(out)@ + listing_text(at.text(), entries@));
}

/// A row says what its device is: its position in the list, which is the number that names it, its
/// bus and its address read back from the first three cells, and its USB identity from the fourth.
pub proof fn law_a_row_says_what_its_device_is(entries: Seq<DeviceEntry>, at: int)
    requires
        0 <= at < entries.len(),
    ensures
        row_cells(entries).len() == entries.len(),
        row_cells(entries)[at].len() == headings().len(),
        crate::text::number(row_cells(entries)[at][0]) == Some(at as nat),
        crate::text::number(row_cells(entries)[at][1]) == Some(entries[at].bus as nat),
        crate::text::number(row_cells(entries)[at][2]) == Some(entries[at].address as nat),
        crate::text::hex_value(row_cells(entries)[at][3].take(4)) == entries[at].vendor,
        crate::text::hex_value(row_cells(entries)[at][3].skip(5)) == entries[at].product,
        entries[at].variant.name matches Some(name) ==> row_cells(entries)[at][5] == name@,
{
    crate::text::law_a_number_reads_back(at as nat);
    crate::text::law_a_number_reads_back(entries[at].bus as nat);
    crate::text::law_a_number_reads_back(entries[at].address as nat);
    crate::render::law_a_usb_identity_reads_back(entries[at].vendor, entries[at].product);
}

proof fn lemma_body_shows(entries: Seq<DeviceEntry>, widths: Seq<int>, count: int, at: int)
    requires
        0 <= at < count <= entries.len(),
    ensures
        exists|front: Seq<char>, back: Seq<char>|
            body(entries, widths, count) == #[trigger] (front + (crate::render::line_of(
                row_cells(entries)[at],
                widths,
                alignment(),
            ) + "\n"@) + back),
    decreases count,
{
    let own = crate::render::line_of(row_cells(entries)[at], widths, alignment()) + "\n"@;
    if at == count - 1 {
        let front = body(entries, widths, count - 1);
        assert(body(entries, widths, count) =~= front + own + Seq::empty());
    } else {
        lemma_body_shows(entries, widths, count - 1, at);
        let (front, back) = choose|front: Seq<char>, back: Seq<char>|
            body(entries, widths, count - 1) == #[trigger] (front + own + back);
        let rest = crate::render::line_of(cells(count - 1, entries[count - 1]), widths, alignment()) + "\n"@;
        assert(body(entries, widths, count) =~= front + own + (back + rest));
    }
}

/// A listing shows every device: whichever row it is, its line is there.
pub proof fn law_a_listing_shows_every_row(place: Seq<char>, entries: Seq<DeviceEntry>, at: int)
    requires
        0 <= at < entries.len(),
    ensures
        exists|front: Seq<char>, back: Seq<char>|
            listing_text(place, entries) == #[trigger] (front + (crate::render::line_of(
                row_cells(entries)[at],
                crate::render::all_widths(headings(), row_cells(entries)),
                alignment(),
            ) + "\n"@) + back),
{
    let widths = crate::render::all_widths(headings(), row_cells(entries));
    let own = crate::render::line_of(row_cells(entries)[at], widths, alignment()) + "\n"@;
    lemma_body_shows(entries, widths, entries.len() as int, at);
    let (front, back) = choose|front: Seq<char>, back: Seq<char>|
        body(entries, widths, entries.len() as int) == #[trigger] (front + own + back);
    let head = "Found "@ + crate::render::device_count(entries.len()) + " on "@ + place + ":\n\n"@
        + crate::render::line_of(headings(), widths, alignment()) + "\n"@;
    assert(listing_text(place, entries) =~= head + front + own + back);
}

} // verus!
