//! Text, as the messages and the tables of this crate are built from.
//!
//! Every string of this crate is specified as the sequence of its characters. The
//! functions here append to one, compare two of them and read a number out of one.
use vstd::prelude::*;
use vstd::string::*;
use vstd::utf8::*;

verus! {

/// `String::push`: the character becomes the last one of the text.
pub assume_specification[ String::push ](text: &mut String, c: char)
    ensures
        final(text)@ == old(text)@.push(c),
;

/// The text that `String::from_utf8_lossy` reads out of arbitrary bytes.
pub uninterp spec fn lossy_text(bytes: Seq<u8>) -> Seq<char>;

/// `String::from_utf8_lossy`: valid UTF-8 is decoded as it is, and what replaces an invalid
/// run of other bytes is left to the standard library.
#[verifier::external_body]
pub(crate) fn lossy(bytes: &[u8]) -> (text: String)
    ensures
        text@ == lossy_text(bytes@),
        valid_utf8(bytes@) ==> text@ == decode_utf8(bytes@),
{
    String::from_utf8_lossy(bytes).into_owned()
}

/// The quoted form that `{:?}` gives a text.
pub uninterp spec fn quoted_text(text: Seq<char>) -> Seq<char>;

/// The `Debug` form of a `str`, which puts it between double quotes and escapes what would
/// not print. Which characters are escaped is left to the standard library.
#[verifier::external_body]
pub(crate) fn quoted(text: &str) -> (form: String)
    ensures
        form@ == quoted_text(text@),
{
    format!("{:?}", text)
}

// ---------------------------------------------------------------------------
// Numbers.
// ---------------------------------------------------------------------------
/// One digit of a number, in bases up to sixteen.
pub open spec fn digit(value: int, upper: bool) -> char {
    if value < 10 {
        ('0' as int + value) as char
    } else if upper {
        ('A' as int + value - 10) as char
    } else {
        ('a' as int + value - 10) as char
    }
}

/// A number in decimal, without leading zeros.
pub open spec fn decimal(n: nat) -> Seq<char>
    decreases n,
{
    if n < 10 {
        seq![digit(n as int, false)]
    } else {
        decimal(n / 10).push(digit((n % 10) as int, false))
    }
}

/// The last `width` hexadecimal digits of a number, zeros included.
pub open spec fn hex(n: nat, width: nat, upper: bool) -> Seq<char>
    decreases width,
{
    if width == 0 {
        Seq::empty()
    } else {
        hex(n / 16, (width - 1) as nat, upper).push(digit((n % 16) as int, upper))
    }
}

/// A byte in hexadecimal, without a leading zero.
pub open spec fn hex_byte(n: nat) -> Seq<char> {
    if n < 16 {
        hex(n, 1, false)
    } else {
        hex(n, 2, false)
    }
}

/// `count` spaces.
pub open spec fn spaces(count: int) -> Seq<char> {
    Seq::new(if count < 0 { 0 } else { count as nat }, |i: int| ' ')
}

/// A text moved to the right end of a field of `width` characters.
pub open spec fn right_aligned(text: Seq<char>, width: int) -> Seq<char> {
    spaces(width - text.len()) + text
}

fn digit_char(value: u8, upper: bool) -> (c: char)
    requires
        value < 16,
    ensures
        c == digit(value as int, upper),
{
    if value < 10 {
        (0x30u8 + value) as char
    } else if upper {
        (0x41u8 + (value - 10)) as char
    } else {
        (0x61u8 + (value - 10)) as char
    }
}

/// Append a number in decimal.
pub(crate) fn push_decimal(out: &mut String, n: u64)
    ensures
        final(out)@ == old(out)@ + decimal(n as nat),
    decreases n,
{
    if n >= 10 {
        push_decimal(out, n / 10);
    }
    out.push(digit_char((n % 10) as u8, false));
}

/// A number in decimal, as a text of its own.
pub(crate) fn decimal_of(n: u64) -> (text: String)
    ensures
        text@ == decimal(n as nat),
{
    let mut text = String::new();
    push_decimal(&mut text, n);
    text
}

/// Append the last `width` hexadecimal digits of a number.
pub(crate) fn push_hex(out: &mut String, n: u32, width: u8, upper: bool)
    ensures
        final(out)@ == old(out)@ + hex(n as nat, width as nat, upper),
    decreases width,
{
    if width > 0 {
        push_hex(out, n / 16, width - 1, upper);
        out.push(digit_char((n % 16) as u8, upper));
    }
}

/// Append a byte in hexadecimal, without a leading zero.
pub(crate) fn push_hex_byte(out: &mut String, n: u8)
    ensures
        final(out)@ == old(out)@ + hex_byte(n as nat),
{
    if n < 16 {
        push_hex(out, n as u32, 1, false);
    } else {
        push_hex(out, n as u32, 2, false);
    }
}

/// Append `count` spaces.
pub(crate) fn push_spaces(out: &mut String, count: usize)
    ensures
        final(out)@ == old(out)@ + spaces(count as int),
{
    let mut done: usize = 0;
    while done < count
        invariant
            done <= count,
            out@ == old(out)@ + spaces(done as int),
        decreases count - done,
    {
        out.push(' ');
        done += 1;
        assert(out@ =~= old(out)@ + spaces(done as int));
    }
}

/// Append a text at the right end of a field of `width` characters.
pub(crate) fn push_right(out: &mut String, text: &str, width: usize)
    ensures
        final(out)@ == old(out)@ + right_aligned(text@, width as int),
{
    let length = text.unicode_len();
    if length < width {
        push_spaces(out, width - length);
    }
    out.append(text);
    assert(out@ =~= old(out)@ + right_aligned(text@, width as int));
}

// ---------------------------------------------------------------------------
// Comparing and taking apart.
// ---------------------------------------------------------------------------
/// Every character of a text, in order.
pub(crate) fn chars_of(text: &str) -> (chars: Vec<char>)
    ensures
        chars@ == text@,
{
    let mut chars: Vec<char> = Vec::new();
    for c in it: text.chars()
        invariant
            chars@ == text@.take(it.index() as int),
            it.seq() == text@,
    {
        chars.push(c);
    }
    chars
}

/// The characters of a vector from one position up to another, as a text.
pub(crate) fn text_between(chars: &Vec<char>, from: usize, to: usize) -> (text: String)
    requires
        from <= to <= chars.len(),
    ensures
        text@ == chars@.subrange(from as int, to as int),
{
    let mut text = String::new();
    let mut done: usize = from;
    while done < to
        invariant
            from <= done <= to <= chars.len(),
            text@ == chars@.subrange(from as int, done as int),
        decreases to - done,
    {
        text.push(chars[done]);
        done += 1;
        assert(text@ =~= chars@.subrange(from as int, done as int));
    }
    text
}

/// The first `count` characters of a vector, as a text.
pub(crate) fn text_of(chars: &Vec<char>, count: usize) -> (text: String)
    requires
        count <= chars.len(),
    ensures
        text@ == chars@.take(count as int),
{
    text_between(chars, 0, count)
}

/// Are these the same text?
pub(crate) fn same_text(left: &str, right: &str) -> (same: bool)
    ensures
        same == (left@ == right@),
{
    left.to_owned() == right.to_owned()
}

/// Does `text` begin with `prefix`?
pub(crate) fn begins_with(text: &str, prefix: &str) -> (yes: bool)
    ensures
        yes == prefix@.is_prefix_of(text@),
{
    let longer = chars_of(text);
    let shorter = chars_of(prefix);
    if shorter.len() > longer.len() {
        return false;
    }
    let mut at: usize = 0;
    while at < shorter.len()
        invariant
            shorter.len() <= longer.len(),
            at <= shorter.len(),
            longer@ == text@,
            shorter@ == prefix@,
            forall|i: int| 0 <= i < at ==> shorter[i] == longer[i],
        decreases shorter.len() - at,
    {
        if shorter[at] != longer[at] {
            return false;
        }
        at += 1;
    }
    true
}

/// The characters that Unicode calls white space.
pub open spec fn is_white_space(c: char) -> bool {
    let code = c as u32;
    ||| 0x09 <= code <= 0x0D
    ||| code == 0x20
    ||| code == 0x85
    ||| code == 0xA0
    ||| code == 0x1680
    ||| 0x2000 <= code <= 0x200A
    ||| code == 0x2028
    ||| code == 0x2029
    ||| code == 0x202F
    ||| code == 0x205F
    ||| code == 0x3000
}

fn white_space(c: char) -> (yes: bool)
    ensures
        yes == is_white_space(c),
{
    let code: u32 = c as u32;
    (0x09 <= code && code <= 0x0D) || code == 0x20 || code == 0x85 || code == 0xA0 || code == 0x1680
        || (0x2000 <= code && code <= 0x200A) || code == 0x2028 || code == 0x2029 || code == 0x202F
        || code == 0x205F || code == 0x3000
}

/// A text without the white space at its end.
pub open spec fn trimmed_end(text: Seq<char>) -> Seq<char>
    decreases text.len(),
{
    if text.len() > 0 && is_white_space(text.last()) {
        trimmed_end(text.drop_last())
    } else {
        text
    }
}

/// A text without the newlines at its end.
pub open spec fn without_newlines_at_end(text: Seq<char>) -> Seq<char>
    decreases text.len(),
{
    if text.len() > 0 && text.last() == '\n' {
        without_newlines_at_end(text.drop_last())
    } else {
        text
    }
}

/// The text without the white space at its end.
pub(crate) fn trim_end(text: &str) -> (trimmed: String)
    ensures
        trimmed@ == trimmed_end(text@),
{
    let chars = chars_of(text);
    let mut count: usize = chars.len();
    assert(text@.take(count as int) =~= text@);
    while count > 0 && white_space(chars[count - 1])
        invariant
            count <= chars.len(),
            chars@ == text@,
            trimmed_end(text@) == trimmed_end(text@.take(count as int)),
        decreases count,
    {
        assert(text@.take(count as int).drop_last() =~= text@.take(count - 1));
        count -= 1;
    }
    text_of(&chars, count)
}

/// The text without the newlines at its end.
pub(crate) fn trim_newlines(text: &str) -> (trimmed: String)
    ensures
        trimmed@ == without_newlines_at_end(text@),
{
    let chars = chars_of(text);
    let mut count: usize = chars.len();
    assert(text@.take(count as int) =~= text@);
    while count > 0 && chars[count - 1] == '\n'
        invariant
            count <= chars.len(),
            chars@ == text@,
            without_newlines_at_end(text@) == without_newlines_at_end(text@.take(count as int)),
        decreases count,
    {
        assert(text@.take(count as int).drop_last() =~= text@.take(count - 1));
        count -= 1;
    }
    text_of(&chars, count)
}

// ---------------------------------------------------------------------------
// Reading a number.
// ---------------------------------------------------------------------------
/// Is this one of the ten ASCII digits?
pub open spec fn is_digit(c: char) -> bool {
    '0' <= c <= '9'
}

/// Are these all ASCII digits, and is there at least one?
pub open spec fn all_digits(text: Seq<char>) -> bool {
    text.len() > 0 && forall|i: int| 0 <= i < text.len() ==> is_digit(#[trigger] text[i])
}

/// What a run of ASCII digits counts.
pub open spec fn digits_value(text: Seq<char>) -> nat
    decreases text.len(),
{
    if text.len() == 0 {
        0
    } else {
        digits_value(text.drop_last()) * 10 + (text.last() as int - '0' as int) as nat
    }
}

/// The text behind one leading plus sign, which a number may carry.
pub open spec fn unsigned(text: Seq<char>) -> Seq<char> {
    if text.len() > 0 && text[0] == '+' {
        text.drop_first()
    } else {
        text
    }
}

/// The unsigned number that a text spells, with or without a plus sign in front.
pub open spec fn number(text: Seq<char>) -> Option<nat> {
    if all_digits(unsigned(text)) {
        Some(digits_value(unsigned(text)))
    } else {
        None
    }
}

proof fn lemma_digits_value_grows(text: Seq<char>, count: int)
    requires
        all_digits(text),
        0 <= count <= text.len(),
    ensures
        digits_value(text.take(count)) <= digits_value(text),
    decreases text.len() - count,
{
    if count < text.len() {
        lemma_digits_value_grows(text, count + 1);
        assert(text.take(count + 1).drop_last() =~= text.take(count));
        assert(is_digit(text[count]));
    } else {
        assert(text.take(count) =~= text);
    }
}

/// A number in decimal is read back as that number.
pub(crate) proof fn lemma_decimal_is_a_number(n: nat)
    ensures
        all_digits(decimal(n)),
        digits_value(decimal(n)) == n,
        number(decimal(n)) == Some(n),
    decreases n,
{
    let text = decimal(n);
    assert(text.last() as int - '0' as int == n % 10);
    if n < 10 {
        assert(text.drop_last() =~= Seq::empty());
        assert(digits_value(text.drop_last()) == 0);
    } else {
        lemma_decimal_is_a_number(n / 10);
        assert(text.drop_last() =~= decimal(n / 10));
        assert forall|i: int| 0 <= i < text.len() implies is_digit(#[trigger] text[i]) by {
            if i < text.len() - 1 {
                assert(text[i] == decimal(n / 10)[i]);
            }
        }
    }
    assert(is_digit(text[0]));
    assert(unsigned(text) == text);
}

/// Is the text made of ASCII digits alone?
pub(crate) fn only_digits(text: &str) -> (yes: bool)
    ensures
        yes == all_digits(text@),
{
    let chars = chars_of(text);
    assert(chars@.skip(0) =~= text@);
    digits_from(&chars, 0)
}

fn digits_from(chars: &Vec<char>, start: usize) -> (yes: bool)
    requires
        start <= chars.len(),
    ensures
        yes == all_digits(chars@.skip(start as int)),
{
    if start == chars.len() {
        return false;
    }
    let mut at: usize = start;
    while at < chars.len()
        invariant
            start <= at <= chars.len(),
            start < chars.len(),
            forall|i: int| start <= i < at ==> is_digit(#[trigger] chars[i]),
        decreases chars.len() - at,
    {
        if !('0' <= chars[at] && chars[at] <= '9') {
            assert(!is_digit(chars@.skip(start as int)[at - start]));
            return false;
        }
        at += 1;
    }
    assert forall|i: int| 0 <= i < chars@.skip(start as int).len() implies is_digit(
        #[trigger] chars@.skip(start as int)[i],
    ) by {
        assert(is_digit(chars[start + i]));
    }
    true
}

/// The number that a text spells, where it is no more than `max`.
pub(crate) fn parse_number(text: &str, max: u64) -> (value: Option<u64>)
    ensures
        match number(text@) {
            Some(n) if n <= max => value == Some(n as u64),
            _ => value is None,
        },
{
    let chars = chars_of(text);
    let start: usize = if chars.len() > 0 && chars[0] == '+' { 1 } else { 0 };
    assert(chars@.skip(start as int) =~= unsigned(text@));
    if !digits_from(&chars, start) {
        return None;
    }
    let ghost digits = unsigned(text@);
    let mut value: u64 = 0;
    let mut at: usize = start;
    while at < chars.len()
        invariant
            start <= at <= chars.len(),
            digits == chars@.skip(start as int),
            all_digits(digits),
            number(text@) == Some(digits_value(digits)),
            value <= max,
            value == digits_value(digits.take(at - start)),
        decreases chars.len() - at,
    {
        let ghost here = at - start;
        proof {
            assert(is_digit(digits[here]));
            assert(digits[here] == chars[at as int]);
            assert(digits.take(here + 1).drop_last() =~= digits.take(here));
            lemma_digits_value_grows(digits, here + 1);
        }
        let next: u64 = (chars[at] as u32 - '0' as u32) as u64;
        let taken: u128 = value as u128 * 10 + next as u128;
        if taken > max as u128 {
            return None;
        }
        value = taken as u64;
        at += 1;
    }
    assert(digits.take(digits.len() as int) =~= digits);
    Some(value)
}

// ---------------------------------------------------------------------------
// Lists of texts.
// ---------------------------------------------------------------------------
/// The texts of a list, by their characters.
pub open spec fn texts(list: Seq<String>) -> Seq<Seq<char>> {
    list.map_values(|text: String| text@)
}

/// A list of texts as one, with `between` in the gaps.
pub open spec fn joined(list: Seq<Seq<char>>, between: Seq<char>) -> Seq<char>
    decreases list.len(),
{
    if list.len() == 0 {
        Seq::empty()
    } else if list.len() == 1 {
        list[0]
    } else {
        joined(list.drop_last(), between) + between + list.last()
    }
}

/// A list of texts as one, with `between` in the gaps.
pub(crate) fn join(list: &Vec<String>, between: &str) -> (text: String)
    ensures
        text@ == joined(texts(list@), between@),
{
    let mut text = String::new();
    let mut at: usize = 0;
    assert(texts(list@).take(0) =~= Seq::empty());
    while at < list.len()
        invariant
            at <= list.len(),
            text@ == joined(texts(list@).take(at as int), between@),
        decreases list.len() - at,
    {
        proof {
            assert(texts(list@).take(at + 1).drop_last() =~= texts(list@).take(at as int));
            assert(texts(list@).take(at + 1).last() == list[at as int]@);
        }
        if at > 0 {
            text.append(between);
        }
        text.append(list[at].as_str());
        at += 1;
        assert(text@ =~= joined(texts(list@).take(at as int), between@));
    }
    assert(texts(list@).take(at as int) =~= texts(list@));
    text
}

/// Does `left` come no later than `right` in the order of their characters?
pub open spec fn in_order(left: Seq<char>, right: Seq<char>) -> bool
    decreases left.len(),
{
    if left.len() == 0 {
        true
    } else if right.len() == 0 {
        false
    } else if left[0] != right[0] {
        left[0] < right[0]
    } else {
        in_order(left.drop_first(), right.drop_first())
    }
}

/// Is every text of the list no later than those behind it?
pub open spec fn sorted(list: Seq<Seq<char>>) -> bool {
    forall|i: int, j: int| 0 <= i <= j < list.len() ==> in_order(#[trigger] list[i], #[trigger] list[j])
}

proof fn lemma_in_order_total(left: Seq<char>, right: Seq<char>)
    ensures
        in_order(left, right) || in_order(right, left),
    decreases left.len(),
{
    if left.len() > 0 && right.len() > 0 && left[0] == right[0] {
        lemma_in_order_total(left.drop_first(), right.drop_first());
    }
}

proof fn lemma_in_order_transitive(left: Seq<char>, middle: Seq<char>, right: Seq<char>)
    requires
        in_order(left, middle),
        in_order(middle, right),
    ensures
        in_order(left, right),
    decreases left.len(),
{
    if left.len() > 0 && middle.len() > 0 && right.len() > 0 && left[0] == middle[0] && middle[0] == right[0] {
        lemma_in_order_transitive(left.drop_first(), middle.drop_first(), right.drop_first());
    }
}

fn ordered(left: &String, right: &String) -> (yes: bool)
    ensures
        yes == in_order(left@, right@),
{
    let ours = chars_of(left.as_str());
    let theirs = chars_of(right.as_str());
    let mut at: usize = 0;
    assert(left@.skip(0) =~= left@);
    assert(right@.skip(0) =~= right@);
    while at < ours.len() && at < theirs.len() && ours[at] == theirs[at]
        invariant
            ours@ == left@,
            theirs@ == right@,
            at <= ours.len(),
            at <= theirs.len(),
            in_order(left@, right@) == in_order(left@.skip(at as int), right@.skip(at as int)),
        decreases ours.len() - at,
    {
        assert(left@.skip(at as int).drop_first() =~= left@.skip(at + 1));
        assert(right@.skip(at as int).drop_first() =~= right@.skip(at + 1));
        at += 1;
    }
    if at == ours.len() {
        true
    } else if at == theirs.len() {
        false
    } else {
        ours[at] < theirs[at]
    }
}

/// Put one text into a sorted list, at its place.
fn insert_sorted(list: &mut Vec<String>, text: String)
    requires
        sorted(texts(old(list)@)),
    ensures
        sorted(texts(final(list)@)),
        exists|at: int| 0 <= at <= old(list).len() && final(list)@ == #[trigger] old(list)@.insert(at, text),
{
    let mut at: usize = 0;
    while at < list.len() && ordered(&list[at], &text)
        invariant
            at <= list.len(),
            list@ == old(list)@,
            forall|i: int| 0 <= i < at ==> in_order(#[trigger] texts(list@)[i], text@),
        decreases list.len() - at,
    {
        at += 1;
    }
    let ghost before = texts(list@);
    let ghost stop = at as int;
    proof {
        if stop < before.len() {
            lemma_in_order_total(before[stop], text@);
            assert forall|j: int| stop <= j < before.len() implies in_order(text@, #[trigger] before[j]) by {
                lemma_in_order_transitive(text@, before[stop], before[j]);
            }
        }
    }
    list.insert(at, text);
    proof {
        let after = texts(list@);
        assert(after =~= before.insert(stop, text@));
        assert forall|i: int, j: int| 0 <= i <= j < after.len() implies in_order(
            #[trigger] after[i],
            #[trigger] after[j],
        ) by {
            lemma_in_order_total(text@, text@);
            if i < stop && j > stop {
                assert(in_order(before[i], before[j - 1]));
            } else if i > stop {
                assert(in_order(before[i - 1], before[j - 1]));
            } else if i < stop && j < stop {
                assert(in_order(before[i], before[j]));
            } else if i == stop && j > stop {
                assert(in_order(text@, before[j - 1]));
            }
        }
    }
}

/// The same texts, in the order of their characters.
pub(crate) fn sort_texts(list: &Vec<String>) -> (in_order: Vec<String>)
    ensures
        sorted(texts(in_order@)),
        texts(in_order@).to_multiset() == texts(list@).to_multiset(),
{
    let mut sorted_list: Vec<String> = Vec::new();
    let mut at: usize = 0;
    assert(texts(list@).take(0) =~= texts(sorted_list@));
    while at < list.len()
        invariant
            at <= list.len(),
            sorted(texts(sorted_list@)),
            texts(sorted_list@).to_multiset() == texts(list@).take(at as int).to_multiset(),
        decreases list.len() - at,
    {
        broadcast use vstd::seq_lib::group_to_multiset_ensures;

        let ghost before = sorted_list@;
        let text = list[at].clone();
        insert_sorted(&mut sorted_list, text);
        proof {
            let place = choose|place: int|
                0 <= place <= before.len() && sorted_list@ == #[trigger] before.insert(place, text);
            assert(texts(sorted_list@) =~= texts(before).insert(place, text@));
            vstd::seq_lib::to_multiset_insert(texts(before), place, text@);
            assert(texts(list@).take(at + 1) =~= texts(list@).take(at as int).push(text@));
        }
        at += 1;
    }
    assert(texts(list@).take(at as int) =~= texts(list@));
    sorted_list
}

proof fn lemma_decimal_reads_back(n: nat)
    ensures
        all_digits(decimal(n)),
        digits_value(decimal(n)) == n,
        n > 0 ==> decimal(n)[0] != '0',
    decreases n,
{
    let text = decimal(n);
    if n < 10 {
        assert(text.drop_last() =~= Seq::empty());
        assert(digits_value(text.drop_last()) == 0);
    } else {
        lemma_decimal_reads_back(n / 10);
        assert(text.drop_last() =~= decimal(n / 10));
        assert(text[0] == decimal(n / 10)[0]);
        assert forall|i: int| 0 <= i < text.len() implies is_digit(#[trigger] text[i]) by {
            if i < text.len() - 1 {
                assert(text[i] == decimal(n / 10)[i]);
            }
        }
    }
}

/// What is written as a decimal number reads back as that number, with a plus sign in front of it
/// too, and it is written without zeros in front.
pub proof fn law_a_number_reads_back(n: nat)
    ensures
        number(decimal(n)) == Some(n),
        number("+"@ + decimal(n)) == Some(n),
        n > 0 ==> decimal(n)[0] != '0',
{
    lemma_decimal_reads_back(n);
    assert(is_digit(decimal(n)[0]));
    reveal_strlit("+");
    assert(("+"@ + decimal(n)).drop_first() =~= decimal(n));
}

/// One more digit behind a number makes it ten times what it was, and that digit more.
pub proof fn law_a_digit_counts_ten_times_less(text: Seq<char>, digit: char)
    requires
        is_digit(digit),
    ensures
        all_digits(text) ==> number(text.push(digit)) == Some((number(text)->0 * 10 + (digit as int - '0' as int)) as nat),
        text.len() > 0 && text[0] != '+' && !all_digits(text) ==> number(text.push(digit)) is None,
{
    let longer = text.push(digit);
    assert(longer.drop_last() =~= text);
    if all_digits(text) {
        assert(is_digit(text[0]));
        assert forall|i: int| 0 <= i < longer.len() implies is_digit(#[trigger] longer[i]) by {
            if i < text.len() {
                assert(longer[i] == text[i]);
            }
        }
    } else if text.len() > 0 {
        let wrong = choose|i: int| 0 <= i < text.len() && !is_digit(#[trigger] text[i]);
        assert(longer[wrong] == text[wrong]);
    }
}

/// What a hexadecimal digit counts, in either case.
pub open spec fn hex_digit_value(c: char) -> int {
    if is_digit(c) {
        c as int - '0' as int
    } else if 'a' <= c {
        c as int - 'a' as int + 10
    } else {
        c as int - 'A' as int + 10
    }
}

/// What a run of hexadecimal digits counts.
pub open spec fn hex_value(text: Seq<char>) -> int
    decreases text.len(),
{
    if text.len() == 0 {
        0
    } else {
        hex_value(text.drop_last()) * 16 + hex_digit_value(text.last())
    }
}

/// What is written as a hexadecimal number of a fixed width reads back as that number, where the
/// width is enough for it.
pub proof fn law_a_hexadecimal_number_reads_back(n: nat, width: nat, upper: bool)
    requires
        n < vstd::arithmetic::power::pow(16, width),
    ensures
        hex(n, width, upper).len() == width,
        hex_value(hex(n, width, upper)) == n,
    decreases width,
{
    reveal(vstd::arithmetic::power::pow);
    if width > 0 {
        let text = hex(n, width, upper);
        let shorter = (width - 1) as nat;
        assert(n / 16 < vstd::arithmetic::power::pow(16, shorter));
        law_a_hexadecimal_number_reads_back(n / 16, shorter, upper);
        assert(text.drop_last() =~= hex(n / 16, shorter, upper));
    }
}

/// Trimming takes the white space at the end of a text, all of it, and nothing else.
pub proof fn law_trimming_takes_the_end(text: Seq<char>)
    ensures
        trimmed_end(text).is_prefix_of(text),
        trimmed_end(text).len() > 0 ==> !is_white_space(trimmed_end(text).last()),
        forall|i: int| trimmed_end(text).len() <= i < text.len() ==> is_white_space(#[trigger] text[i]),
    decreases text.len(),
{
    if text.len() > 0 && is_white_space(text.last()) {
        law_trimming_takes_the_end(text.drop_last());
        assert forall|i: int| trimmed_end(text).len() <= i < text.len() implies is_white_space(#[trigger] text[i]) by {
            if i < text.len() - 1 {
                assert(text.drop_last()[i] == text[i]);
            }
        }
    }
}

} // verus!
