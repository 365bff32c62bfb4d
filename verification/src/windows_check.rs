//! Whether a pasted Windows specification report shows Windows 11 at
//! version 21 (the first two characters of `Version`) or later.

use vstd::prelude::*;
use crate::report::{report_value, SystemReport};
use crate::text::{chars_of, occurs, occurs_in, string_from_chars};

verus! {

/// The verdict on a Windows specification report.
#[derive(Clone, Debug, PartialEq, Eq)]
pub enum WindowsVerdict {
    /// No rule rejects the report.
    Accepted,
    /// The `Edition` entry does not mention `Windows 11`; it holds the edition.
    WrongEdition(String),
    /// The `Version` entry starts with a number below 21; it holds that number.
    OutdatedVersion(u8),
}

/// The edition when the report has an `Edition` entry that does not
/// contain `Windows 11`.
pub open spec fn rejected_edition(text: Seq<char>) -> Option<Seq<char>> {
    match report_value(text, "Edition"@) {
        Some(e) => if occurs_in(e, "Windows 11"@) {
            None
        } else {
            Some(e)
        },
        None => None,
    }
}

/// The first two bytes of the UTF-8 encoding of `v` end on a character
/// boundary: two ASCII characters, or one two-byte character.
pub open spec fn first_two_bytes_sliceable(v: Seq<char>) -> bool {
    ||| v.len() >= 2 && (v[0] as u32) < 0x80 && (v[1] as u32) < 0x80
    ||| v.len() >= 1 && 0x80 <= (v[0] as u32) < 0x800
}

pub open spec fn is_digit(c: char) -> bool {
    '0' <= c <= '9'
}

pub open spec fn digit_value(c: char) -> int {
    (c as u32) - 48
}

/// What parsing the first two bytes of `v` as a `u8` gives: two digits, or
/// `+` and a digit.
pub open spec fn leading_number(v: Seq<char>) -> Option<u8> {
    if v.len() >= 2 && (v[0] as u32) < 0x80 && (v[1] as u32) < 0x80 {
        if is_digit(v[0]) && is_digit(v[1]) {
            Some((10 * digit_value(v[0]) + digit_value(v[1])) as u8)
        } else if v[0] == '+' && is_digit(v[1]) {
            Some(digit_value(v[1]) as u8)
        } else {
            None
        }
    } else {
        None
    }
}

/// The check reaches the `Version` entry, and taking the value's first two
/// bytes (`value[0..2]`) panics: the value is shorter than two bytes, or
/// byte 2 falls inside a character.
pub open spec fn windows_check_faults(text: Seq<char>) -> bool {
    &&& rejected_edition(text) is None
    &&& report_value(text, "Version"@) matches Some(v) && !first_two_bytes_sliceable(v)
}

/// The version number below 21 that the `Version` entry starts with, once
/// the edition has passed.
pub open spec fn outdated_version(text: Seq<char>) -> Option<u8> {
    if rejected_edition(text) is Some {
        None
    } else {
        match report_value(text, "Version"@) {
            Some(v) => match leading_number(v) {
                Some(n) => if n < 21 {
                    Some(n)
                } else {
                    None
                },
                None => None,
            },
            None => None,
        }
    }
}

fn is_digit_exec(c: char) -> (r: bool)
    ensures
        r == is_digit(c),
{
    '0' <= c && c <= '9'
}

fn sliceable_exec(v: &[char]) -> (r: bool)
    ensures
        r == first_two_bytes_sliceable(v@),
{
    (v.len() >= 2 && (v[0] as u32) < 0x80 && (v[1] as u32) < 0x80) || (v.len() >= 1 && 0x80
        <= (v[0] as u32) && (v[0] as u32) < 0x800)
}

fn leading_number_exec(v: &[char]) -> (r: Option<u8>)
    ensures
        r == leading_number(v@),
{
    if v.len() >= 2 && (v[0] as u32) < 0x80 && (v[1] as u32) < 0x80 {
        let a = v[0];
        let b = v[1];
        if is_digit_exec(a) && is_digit_exec(b) {
            Some((10 * (a as u32 - 48) + (b as u32 - 48)) as u8)
        } else if a == '+' && is_digit_exec(b) {
            Some((b as u32 - 48) as u8)
        } else {
            None
        }
    } else {
        None
    }
}

/// Whether judging this report would fault on its `Version` entry.
pub fn windows_report_faults(text: &str) -> (r: bool)
    ensures
        r == windows_check_faults(text@),
{
    let report = SystemReport::parse(text);
    match report.value_chars(chars_of("Edition").as_slice()) {
        Some(e) => {
            if !occurs(e.as_slice(), chars_of("Windows 11").as_slice()) {
                return false;
            }
        },
        None => {},
    }
    match report.value_chars(chars_of("Version").as_slice()) {
        Some(v) => !sliceable_exec(v.as_slice()),
        None => false,
    }
}

/// Judges a pasted Windows specification report: an `Edition` entry must
/// contain `Windows 11`, and the number that the `Version` entry starts
/// with, if it starts with one, must be at least 21.
pub fn check_windows_report(text: &str) -> (r: WindowsVerdict)
    requires
        !windows_check_faults(text@),
    ensures
        rejected_edition(text@) matches Some(e) ==> (r matches WindowsVerdict::WrongEdition(s)
            && s@ == e),
        rejected_edition(text@) is None ==> match outdated_version(text@) {
            Some(n) => r == WindowsVerdict::OutdatedVersion(n),
            None => r == WindowsVerdict::Accepted,
        },
{
    let report = SystemReport::parse(text);
    match report.value_chars(chars_of("Edition").as_slice()) {
        Some(e) => {
            if !occurs(e.as_slice(), chars_of("Windows 11").as_slice()) {
                return WindowsVerdict::WrongEdition(string_from_chars(e.as_slice()));
            }
        },
        None => {},
    }
    match report.value_chars(chars_of("Version").as_slice()) {
        Some(v) => match leading_number_exec(v.as_slice()) {
            Some(n) => {
                if n < 21 {
                    WindowsVerdict::OutdatedVersion(n)
                } else {
                    WindowsVerdict::Accepted
                }
            },
            None => WindowsVerdict::Accepted,
        },
        None => WindowsVerdict::Accepted,
    }
}

/// The version rule is a lower bound of 21 and nothing else: for a report
/// whose edition passes (no `Edition` entry, or one mentioning
/// `Windows 11`) and whose `Version` starts with two decimal digits forming
/// `n`, the version is outdated exactly when `n < 21`, and then it is `n`.
pub proof fn lemma_version_lower_bound(text: Seq<char>, v: Seq<char>)
    requires
        report_value(text, "Edition"@) matches Some(e) ==> occurs_in(e, "Windows 11"@),
        report_value(text, "Version"@) == Some(v),
        v.len() >= 2,
        '0' <= v[0] <= '9',
        '0' <= v[1] <= '9',
    ensures
        ({
            let n = 10 * ((v[0] as u32) - 48) + ((v[1] as u32) - 48);
            &&& n < 21 ==> outdated_version(text) == Some(n as u8)
            &&& n >= 21 ==> outdated_version(text) is None
        }),
{
}

/// A version written as `+` and one digit `d` is always outdated, as `d`.
pub proof fn lemma_signed_single_digit_version(text: Seq<char>, v: Seq<char>)
    requires
        report_value(text, "Edition"@) matches Some(e) ==> occurs_in(e, "Windows 11"@),
        report_value(text, "Version"@) == Some(v),
        v.len() >= 2,
        v[0] == '+',
        '0' <= v[1] <= '9',
    ensures
        outdated_version(text) == Some(((v[1] as u32) - 48) as u8),
{
}

/// The edition rule is exactly "mentions `Windows 11`": an `Edition` entry
/// is rejected, with its value, precisely when the ten characters
/// `Windows 11` occur nowhere in it; a report without one passes the rule.
pub proof fn lemma_edition_rule(text: Seq<char>)
    ensures
        report_value(text, "Edition"@) is None ==> rejected_edition(text) is None,
        report_value(text, "Edition"@) matches Some(e) ==> rejected_edition(text) == if (exists|i: int|
            0 <= i && i + 10 <= e.len() && #[trigger] e.subrange(i, i + 10) == "Windows 11"@) {
            None
        } else {
            Some(e)
        },
{
    reveal_strlit("Windows 11");
    let w = "Windows 11"@;
    assert(w.len() == 10);
    if let Some(e) = report_value(text, "Edition"@) {
        if occurs_in(e, w) {
            let i = choose|i: int| 0 <= i && i + w.len() <= e.len() && #[trigger] e.subrange(i, i + w.len()) == w;
            assert(e.subrange(i, i + 10) == w);
        }
        if exists|i: int| 0 <= i && i + 10 <= e.len() && #[trigger] e.subrange(i, i + 10) == w {
            let i = choose|i: int| 0 <= i && i + 10 <= e.len() && #[trigger] e.subrange(i, i + 10) == w;
            assert(e.subrange(i, i + w.len()) == w);
        }
    }
}

} // verus!
