//! Which DFU alt-setting an operation targets.
//!
//! A name matches an alt-setting's name, and failing that, a name made of digits is taken for
//! a number. A number matches an alt-setting's own number and not its position. With neither,
//! the one named `flash` is meant, or the only one there is.
use vstd::prelude::*;
use vstd::string::*;

use crate::model::{AltSel, DfuAlt, DfuInfo, Error};
use crate::text::{decimal_of, join, only_digits, parse_number, same_text};

verus! {

/// The name every shipped loader gives its boot flash.
pub const FLASH: &'static str = "flash";

/// The number of the first alt-setting of this name.
pub open spec fn named(alts: Seq<DfuAlt>, name: Seq<char>) -> Option<u8>
    decreases alts.len(),
{
    if alts.len() == 0 {
        None
    } else if alts[0].name@ == name {
        Some(alts[0].alt)
    } else {
        named(alts.drop_first(), name)
    }
}

/// Is there an alt-setting of this number?
pub open spec fn numbered(alts: Seq<DfuAlt>, number: nat) -> bool {
    exists|i: int| 0 <= i < alts.len() && #[trigger] alts[i].alt == number
}

/// The alt-setting a selection means, where the device has it.
pub open spec fn meant(alts: Seq<DfuAlt>, selection: AltSel) -> Option<u8> {
    match selection {
        AltSel::Name(name) => match named(alts, name@) {
            Some(alt) => Some(alt),
            None => {
                let number = crate::text::digits_value(name@);
                if crate::text::all_digits(name@) && number <= 255 && numbered(alts, number) {
                    Some(number as u8)
                } else {
                    None
                }
            },
        },
        AltSel::Index(number) => if numbered(alts, number as nat) {
            Some(number)
        } else {
            None
        },
        AltSel::Default => match named(alts, FLASH@) {
            Some(alt) => Some(alt),
            None => if alts.len() == 1 {
                Some(alts[0].alt)
            } else {
                None
            },
        },
    }
}

/// An alt-setting as it is offered: its number, and its name where it has one.
pub open spec fn offer(alt: DfuAlt) -> Seq<char> {
    if alt.name@.len() == 0 {
        crate::text::decimal(alt.alt as nat)
    } else {
        crate::text::decimal(alt.alt as nat) + " ("@ + alt.name@ + ")"@
    }
}

/// What is said of a selection that the device does not have.
pub open spec fn missing_text(what: Seq<char>, alts: Seq<DfuAlt>) -> Seq<char> {
    if alts.len() == 0 {
        what + " is not on this device: it has no alt-settings at all"@
    } else {
        what + " is not on this device, which offers "@ + crate::text::joined(
            alts.map_values(|alt: DfuAlt| offer(alt)),
            ", "@,
        )
    }
}

/// What a selection is called in a refusal.
pub open spec fn called(selection: AltSel) -> Seq<char> {
    match selection {
        AltSel::Name(name) => "alt \""@ + name@ + "\""@,
        AltSel::Index(number) => "alt "@ + crate::text::decimal(number as nat),
        AltSel::Default => "alt"@,
    }
}

fn find_named(alts: &Vec<DfuAlt>, name: &str) -> (found: Option<u8>)
    ensures
        found == named(alts@, name@),
{
    let mut at: usize = 0;
    assert(alts@.skip(0) =~= alts@);
    while at < alts.len()
        invariant
            at <= alts.len(),
            named(alts@, name@) == named(alts@.skip(at as int), name@),
        decreases alts.len() - at,
    {
        if same_text(alts[at].name.as_str(), name) {
            return Some(alts[at].alt);
        }
        assert(alts@.skip(at as int).drop_first() =~= alts@.skip(at + 1));
        at += 1;
    }
    None
}

fn find_numbered(alts: &Vec<DfuAlt>, number: u8) -> (found: bool)
    ensures
        found == numbered(alts@, number as nat),
{
    let mut at: usize = 0;
    while at < alts.len()
        invariant
            at <= alts.len(),
            forall|i: int| 0 <= i < at ==> #[trigger] alts[i].alt != number,
        decreases alts.len() - at,
    {
        if alts[at].alt == number {
            return true;
        }
        at += 1;
    }
    false
}

fn offers(alts: &Vec<DfuAlt>) -> (list: Vec<String>)
    ensures
        crate::text::texts(list@) == alts@.map_values(|alt: DfuAlt| offer(alt)),
{
    let ghost all = alts@.map_values(|alt: DfuAlt| offer(alt));
    let mut list: Vec<String> = Vec::new();
    let mut at: usize = 0;
    while at < alts.len()
        invariant
            at <= alts.len(),
            all == alts@.map_values(|alt: DfuAlt| offer(alt)),
            crate::text::texts(list@) == all.take(at as int),
        decreases alts.len() - at,
    {
        let ghost before = list@;
        let mut text = decimal_of(alts[at].alt as u64);
        if !alts[at].name.as_str().is_empty() {
            text.append(" (");
            text.append(alts[at].name.as_str());
            text.append(")");
        }
        list.push(text);
        proof {
            assert(crate::text::texts(list@) =~= crate::text::texts(before).push(offer(alts[at as int])));
            assert(all.take(at + 1) =~= all.take(at as int).push(offer(alts[at as int])));
        }
        at += 1;
    }
    assert(all.take(at as int) =~= all);
    list
}

fn missing(what: String, alts: &Vec<DfuAlt>) -> (error: Error)
    ensures
        error matches Error::Invalid(message) && message@ == missing_text(what@, alts@),
{
    let mut message = what;
    if alts.len() == 0 {
        message.append(" is not on this device: it has no alt-settings at all");
        return Error::Invalid(message);
    }
    message.append(" is not on this device, which offers ");
    let list = offers(alts);
    let listed = join(&list, ", ");
    message.append(listed.as_str());
    Error::Invalid(message)
}

/// Turn a selection into the `bAlternateSetting` an operation will use.
///
/// # Errors
/// [`Error::MissingAlt`] when nothing was selected and the device has neither a `flash` nor a
/// single alt-setting; [`Error::Invalid`] when what was selected is not on the device, naming
/// it and what is.
pub fn resolve(info: &DfuInfo, selection: &AltSel) -> (alt: Result<u8, Error>)
    ensures
        match meant(info.alts@, *selection) {
            Some(number) => alt == Ok::<u8, Error>(number),
            None => alt matches Err(error) && if *selection is Default {
                error matches Error::MissingAlt(name) && name@ == FLASH@
            } else {
                error matches Error::Invalid(message) && message@ == missing_text(called(*selection), info.alts@)
            },
        },
{
    match selection {
        AltSel::Default => {
            if let Some(alt) = find_named(&info.alts, FLASH) {
                return Ok(alt);
            }
            if info.alts.len() == 1 {
                return Ok(info.alts[0].alt);
            }
            Err(Error::MissingAlt(FLASH))
        },
        AltSel::Index(number) => {
            if find_numbered(&info.alts, *number) {
                return Ok(*number);
            }
            let mut what = "alt ".to_owned();
            let digits = decimal_of(*number as u64);
            what.append(digits.as_str());
            Err(missing(what, &info.alts))
        },
        AltSel::Name(name) => {
            if let Some(alt) = find_named(&info.alts, name.as_str()) {
                return Ok(alt);
            }
            if only_digits(name.as_str()) {
                assert(crate::text::unsigned(name@) =~= name@) by {
                    assert(crate::text::is_digit(name@[0]));
                }
                if let Some(number) = parse_number(name.as_str(), 255) {
                    if find_numbered(&info.alts, number as u8) {
                        return Ok(number as u8);
                    }
                }
            }
            let mut what = "alt \"".to_owned();
            what.append(name.as_str());
            what.append("\"");
            Err(missing(what, &info.alts))
        },
    }
}

proof fn lemma_named_is_there(alts: Seq<DfuAlt>, name: Seq<char>)
    ensures
        named(alts, name) matches Some(number) ==> numbered(alts, number as nat),
    decreases alts.len(),
{
    if alts.len() > 0 {
        if alts[0].name@ != name {
            lemma_named_is_there(alts.drop_first(), name);
            if let Some(number) = named(alts.drop_first(), name) {
                let i = choose|i: int|
                    0 <= i < alts.drop_first().len() && #[trigger] alts.drop_first()[i].alt == number as nat;
                assert(alts[i + 1].alt == number);
            }
        } else {
            assert(alts[0].alt == named(alts, name)->0);
        }
    }
}

/// No operation targets an alt-setting that the device does not have.
pub proof fn law_a_resolved_alt_is_on_the_device(alts: Seq<DfuAlt>, selection: AltSel)
    ensures
        meant(alts, selection) matches Some(number) ==> numbered(alts, number as nat),
{
    lemma_named_is_there(alts, FLASH@);
    if let AltSel::Name(name) = selection {
        lemma_named_is_there(alts, name@);
    }
    if alts.len() == 1 {
        assert(alts[0].alt == alts[0].alt as nat);
    }
}

/// A resolved number resolves to itself: handing it on changes nothing.
pub proof fn law_a_resolved_alt_resolves_to_itself(alts: Seq<DfuAlt>, selection: AltSel)
    ensures
        meant(alts, selection) matches Some(number) ==> meant(alts, AltSel::Index(number)) == Some(number),
{
    law_a_resolved_alt_is_on_the_device(alts, selection);
}

/// Is this what a selection asks for, among these alt-settings?
pub open spec fn is_asked_for(alts: Seq<DfuAlt>, selection: AltSel, alt: u8) -> bool {
    exists|i: int|
        {
            &&& 0 <= i < alts.len()
            &&& #[trigger] alts[i].alt == alt
            &&& match selection {
                AltSel::Index(number) => alt == number,
                AltSel::Name(name) => alts[i].name@ == name@ || (crate::text::number(name@) == Some(alt as nat)
                    && forall|j: int| 0 <= j < alts.len() ==> #[trigger] alts[j].name@ != name@),
                AltSel::Default => alts[i].name@ == "flash"@ || alts.len() == 1,
            }
        }
}

proof fn lemma_named(alts: Seq<DfuAlt>, name: Seq<char>)
    ensures
        match named(alts, name) {
            Some(number) => exists|i: int|
                0 <= i < alts.len() && #[trigger] alts[i].alt == number && alts[i].name@ == name && forall|j: int|
                    0 <= j < i ==> (#[trigger] alts[j]).name@ != name,
            None => forall|i: int| 0 <= i < alts.len() ==> (#[trigger] alts[i]).name@ != name,
        },
    decreases alts.len(),
{
    if alts.len() > 0 {
        let rest = alts.drop_first();
        lemma_named(rest, name);
        if alts[0].name@ == name {
            assert(alts[0].alt == named(alts, name)->0);
        } else {
            assert forall|i: int| 0 < i < alts.len() implies #[trigger] alts[i] == rest[i - 1] by {}
            if let Some(number) = named(rest, name) {
                let i = choose|i: int|
                    0 <= i < rest.len() && #[trigger] rest[i].alt == number && rest[i].name@ == name && forall|j: int|
                        0 <= j < i ==> (#[trigger] rest[j]).name@ != name;
                assert(alts[i + 1].alt == number);
                assert forall|j: int| 0 <= j < i + 1 implies (#[trigger] alts[j]).name@ != name by {
                    if j > 0 {
                        assert(alts[j] == rest[j - 1]);
                    }
                }
            }
        }
    }
}

/// A selection means what it says. What is resolved is on the device and is what was asked for: a
/// number is that number, and a name is an alt-setting of that name, or failing any, the one of
/// that number; with nothing asked for it is the boot flash by its name, or the only one there is.
/// And what is on the device is found.
pub proof fn law_a_selection_means_what_it_says(alts: Seq<DfuAlt>, selection: AltSel)
    ensures
        meant(alts, selection) matches Some(alt) ==> is_asked_for(alts, selection, alt),
        selection matches AltSel::Index(number) ==> (meant(alts, selection) is Some <==> exists|i: int|
            0 <= i < alts.len() && #[trigger] alts[i].alt == number),
        selection matches AltSel::Name(name) ==> ((exists|i: int|
            0 <= i < alts.len() && #[trigger] alts[i].name@ == name@) ==> meant(alts, selection) is Some),
        selection is Default ==> (meant(alts, selection) is Some <==> alts.len() == 1 || exists|i: int|
            0 <= i < alts.len() && #[trigger] alts[i].name@ == "flash"@),
{
    lemma_named(alts, "flash"@);
    match selection {
        AltSel::Name(name) => {
            lemma_named(alts, name@);
            if crate::text::all_digits(name@) {
                assert(crate::text::is_digit(name@[0]));
                assert(crate::text::unsigned(name@) == name@);
            }
            if let Some(alt) = meant(alts, selection) {
                let i = if named(alts, name@) is Some {
                    choose|i: int| 0 <= i < alts.len() && #[trigger] alts[i].alt == alt && alts[i].name@ == name@
                } else {
                    choose|i: int| 0 <= i < alts.len() && #[trigger] alts[i].alt == alt as nat
                };
                assert(alts[i].alt == alt);
            }
        },
        AltSel::Index(number) => {
            if numbered(alts, number as nat) {
                let i = choose|i: int| 0 <= i < alts.len() && #[trigger] alts[i].alt == number as nat;
                assert(alts[i].alt == number);
            }
            assert forall|i: int| 0 <= i < alts.len() && #[trigger] alts[i].alt == number implies numbered(
                alts,
                number as nat,
            ) by {
                assert(alts[i].alt == number as nat);
            }
        },
        AltSel::Default => {
            if named(alts, "flash"@) is None && alts.len() == 1 {
                assert(alts[0].alt == meant(alts, selection)->0);
            }
        },
    }
}

} // verus!
