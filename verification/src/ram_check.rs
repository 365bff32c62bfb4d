//! Whether a pasted device specification report shows at least 8 GB of
//! installed RAM.
//!
//! The amount is read from the `Installed RAM` entry by keeping only its
//! numeric characters (`char::is_numeric`), so `16.0 GB` reads as `160`.

use vstd::prelude::*;
use crate::report::{report_value, SystemReport};
use crate::text::{chars_of, string_from_chars};

verus! {

/// Name for what `char::is_numeric` returns on a character outside ASCII
/// (Unicode general categories Nd, Nl and No).
pub uninterp spec fn unicode_numeric(c: char) -> bool;

/// What `char::is_numeric` returns: on ASCII exactly the digits `0`..`9`.
pub open spec fn is_numeric(c: char) -> bool {
    if (c as u32) < 0x80 {
        '0' <= c <= '9'
    } else {
        unicode_numeric(c)
    }
}

/// Trusted: `char::is_numeric`. std documents it as true for the general
/// categories of numbers; claimed here is that on ASCII characters these are
/// exactly `0`..`9`, and that outside ASCII the result is a function of the
/// character alone.
#[verifier::external_body]
fn char_is_numeric(c: char) -> (r: bool)
    ensures
        r == if (c as u32) < 0x80 {
            '0' <= c && c <= '9'
        } else {
            unicode_numeric(c)
        },
{
    c.is_numeric()
}

/// The numeric characters of `s`, in order.
pub open spec fn numeric_chars(s: Seq<char>) -> Seq<char>
    decreases s.len(),
{
    if s.len() == 0 {
        seq![]
    } else if is_numeric(s.last()) {
        numeric_chars(s.drop_last()).push(s.last())
    } else {
        numeric_chars(s.drop_last())
    }
}

/// A non-empty run of ASCII digits: what parses as a number.
pub open spec fn is_digit_run(s: Seq<char>) -> bool {
    s.len() > 0 && forall|i: int| 0 <= i < s.len() ==> '0' <= #[trigger] s[i] <= '9'
}

/// The value of a run of decimal digits.
pub open spec fn digits_value(s: Seq<char>) -> nat
    decreases s.len(),
{
    if s.len() == 0 {
        0
    } else {
        10 * digits_value(s.drop_last()) + ((s.last() as u32) - 48) as nat
    }
}

/// The digits that the `Installed RAM` entry reads as, when it has one and
/// they form a number.
pub open spec fn reported_ram(text: Seq<char>) -> Option<Seq<char>> {
    match report_value(text, "Installed RAM"@) {
        Some(v) => if is_digit_run(numeric_chars(v)) {
            Some(numeric_chars(v))
        } else {
            None
        },
        None => None,
    }
}

/// The verdict on a device specification report.
#[derive(Clone, Debug, PartialEq, Eq)]
pub enum RamVerdict {
    /// No `Installed RAM` entry, or one whose numeric characters do not
    /// form a number.
    Unreadable,
    /// Fewer than 8 GB; holds the digits read.
    Insufficient(String),
    /// At least 8 GB; holds the digits read.
    Sufficient(String),
}

fn numeric_of(v: &[char]) -> (r: Vec<char>)
    ensures
        r@ == numeric_chars(v@),
{
    let mut r: Vec<char> = Vec::new();
    let n = v.len();
    for i in 0..n
        invariant
            n == v@.len(),
            r@ == numeric_chars(v@.take(i as int)),
    {
        assert(v@.take(i + 1).drop_last() =~= v@.take(i as int));
        assert(v@.take(i + 1).last() == v@[i as int]);
        if char_is_numeric(v[i]) {
            r.push(v[i]);
        }
    }
    assert(v@.take(n as int) =~= v@);
    r
}

fn is_digit_run_exec(s: &[char]) -> (r: bool)
    ensures
        r == is_digit_run(s@),
{
    let n = s.len();
    if n == 0 {
        return false;
    }
    for i in 0..n
        invariant
            n == s@.len(),
            forall|j: int| 0 <= j < i ==> '0' <= #[trigger] s@[j] <= '9',
    {
        if !('0' <= s[i] && s[i] <= '9') {
            return false;
        }
    }
    true
}

/// Whether the digits stand for less than 8.
fn below_eight(s: &[char]) -> (r: bool)
    requires
        is_digit_run(s@),
    ensures
        r == (digits_value(s@) < 8),
{
    let n = s.len();
    let mut capped: u32 = 0;
    assert(s@.take(0) =~= Seq::<char>::empty());
    for i in 0..n
        invariant
            n == s@.len(),
            is_digit_run(s@),
            capped <= 8,
            capped == (if digits_value(s@.take(i as int)) < 8 {
                digits_value(s@.take(i as int))
            } else {
                8
            }),
    {
        assert(s@.take(i + 1).drop_last() =~= s@.take(i as int));
        assert(s@.take(i + 1).last() == s@[i as int]);
        let d = s[i] as u32 - 48;
        let next = 10 * capped + d;
        capped = if next < 8 { next } else { 8 };
    }
    assert(s@.take(n as int) =~= s@);
    capped < 8
}

/// Judges a pasted device specification report by its `Installed RAM`
/// entry: the numeric characters of the value, read as a whole number of
/// gigabytes, must be at least 8.
pub fn check_ram_report(text: &str) -> (r: RamVerdict)
    ensures
        reported_ram(text@) is None ==> r == RamVerdict::Unreadable,
        reported_ram(text@) matches Some(d) ==> (if digits_value(d) < 8 {
            r matches RamVerdict::Insufficient(s) && s@ == d
        } else {
            r matches RamVerdict::Sufficient(s) && s@ == d
        }),
{
    let report = SystemReport::parse(text);
    match report.value_chars(chars_of("Installed RAM").as_slice()) {
        Some(v) => {
            let digits = numeric_of(v.as_slice());
            if !is_digit_run_exec(digits.as_slice()) {
                return RamVerdict::Unreadable;
            }
            if below_eight(digits.as_slice()) {
                RamVerdict::Insufficient(string_from_chars(digits.as_slice()))
            } else {
                RamVerdict::Sufficient(string_from_chars(digits.as_slice()))
            }
        },
        None => RamVerdict::Unreadable,
    }
}

proof fn lemma_zero_value(s: Seq<char>)
    requires
        forall|i: int| 0 <= i < s.len() ==> '0' <= #[trigger] s[i] <= '9',
    ensures
        digits_value(s) == 0 <==> forall|i: int| 0 <= i < s.len() ==> #[trigger] s[i] == '0',
    decreases s.len(),
{
    if s.len() > 0 {
        let p = s.drop_last();
        assert(forall|i: int| 0 <= i < p.len() ==> p[i] == s[i]);
        assert(forall|i: int| 0 <= i < p.len() ==> '0' <= #[trigger] p[i] <= '9');
        lemma_zero_value(p);
        assert(s.last() == s[s.len() - 1]);
        if digits_value(s) == 0 {
            assert forall|i: int| 0 <= i < s.len() implies #[trigger] s[i] == '0' by {
                if i < p.len() {
                    assert(p[i] == s[i]);
                }
            }
        }
        if forall|i: int| 0 <= i < s.len() ==> #[trigger] s[i] == '0' {
            assert forall|i: int| 0 <= i < p.len() implies #[trigger] p[i] == '0' by {
                assert(p[i] == s[i]);
            }
        }
    }
}

/// The 8 GB threshold on the digits read: an amount is below 8 exactly when
/// all its digits but the last are `0` and the last is below `8`.
pub proof fn lemma_eight_gb_threshold(d: Seq<char>)
    requires
        is_digit_run(d),
    ensures
        digits_value(d) < 8 <==> ((forall|i: int| 0 <= i < d.len() - 1 ==> #[trigger] d[i] == '0')
            && d.last() < '8'),
{
    let p = d.drop_last();
    assert(forall|i: int| 0 <= i < p.len() ==> p[i] == d[i]);
    assert(forall|i: int| 0 <= i < p.len() ==> '0' <= #[trigger] p[i] <= '9');
    lemma_zero_value(p);
    assert(d.last() == d[d.len() - 1]);
    assert('0' <= d.last() <= '9');
    if forall|i: int| 0 <= i < d.len() - 1 ==> #[trigger] d[i] == '0' {
        assert forall|i: int| 0 <= i < p.len() implies #[trigger] p[i] == '0' by {
            assert(p[i] == d[i]);
        }
    }
    if forall|i: int| 0 <= i < p.len() ==> #[trigger] p[i] == '0' {
        assert forall|i: int| 0 <= i < d.len() - 1 implies #[trigger] d[i] == '0' by {
            assert(p[i] == d[i]);
        }
    }
}

} // verus!
