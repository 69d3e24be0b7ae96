//! duration
//!
//! Parsing of human-friendly durations for the `--sleep-interval` option.
use crate::text::{chars_of, push_char, push_str};
use std::time::Duration;
use vstd::prelude::*;

verus! {

/// Whether `c` has the Unicode `White_Space` property.
pub open spec fn is_space(c: char) -> bool {
    let u = c as u32;
    ||| 9 <= u <= 13
    ||| u == 32
    ||| u == 0x85
    ||| u == 0xA0
    ||| u == 0x1680
    ||| 0x2000 <= u <= 0x200A
    ||| u == 0x2028
    ||| u == 0x2029
    ||| u == 0x202F
    ||| u == 0x205F
    ||| u == 0x3000
}

/// Whether `c` is one of the ASCII digits `0` to `9`.
pub open spec fn is_digit(c: char) -> bool {
    48 <= (c as u32) <= 57
}

/// The value of the ASCII digit `c`.
pub open spec fn digit_value(c: char) -> nat {
    ((c as u32) - 48) as nat
}

/// The value of a run of decimal digits (leading zeros allowed).
pub open spec fn digits_value(s: Seq<char>) -> nat
    decreases s.len(),
{
    if s.len() == 0 {
        0
    } else {
        digits_value(s.drop_last()) * 10 + digit_value(s.last())
    }
}

/// The number of ASCII digits at the start of `s`.
pub open spec fn digit_run(s: Seq<char>) -> nat
    decreases s.len(),
{
    if s.len() > 0 && is_digit(s[0]) {
        1 + digit_run(s.drop_first())
    } else {
        0
    }
}

/// `s` without its leading whitespace.
pub open spec fn trim_start(s: Seq<char>) -> Seq<char>
    decreases s.len(),
{
    if s.len() > 0 && is_space(s[0]) {
        trim_start(s.drop_first())
    } else {
        s
    }
}

/// `s` without its trailing whitespace.
pub open spec fn trim_end(s: Seq<char>) -> Seq<char>
    decreases s.len(),
{
    if s.len() > 0 && is_space(s.last()) {
        trim_end(s.drop_last())
    } else {
        s
    }
}

/// `s` without leading and trailing whitespace.
pub open spec fn trim(s: Seq<char>) -> Seq<char> {
    trim_end(trim_start(s))
}

/// The number of seconds a unit letter stands for (`s`, `m`, `h`, `d`).
pub open spec fn unit_seconds(c: char) -> Option<nat> {
    if c == 's' {
        Some(1)
    } else if c == 'm' {
        Some(60)
    } else if c == 'h' {
        Some(3600)
    } else if c == 'd' {
        Some(86400)
    } else {
        None
    }
}

/// Why a duration was refused, in terms of its characters.
pub enum DurationErrorView {
    /// Nothing but whitespace.
    Empty,
    /// A group does not start with a digit: the character found instead.
    MissingNumber(char),
    /// A number, or a number times its unit, does not fit in 64 bits.
    NumberTooLarge(Seq<char>),
    /// A number is followed by something else than `s`, `m`, `h`, `d` or a space.
    UnknownUnit(char),
    /// The sum of the groups is too large (the trimmed input is given).
    ValueTooLarge(Seq<char>),
    /// The groups sum to zero seconds.
    ZeroInterval,
}

/// Why a duration was refused.
#[derive(Debug, Clone, PartialEq, Eq)]
pub enum DurationError {
    /// Nothing but whitespace.
    Empty,
    /// A group does not start with a digit: the character found instead.
    MissingNumber(char),
    /// A number, or a number times its unit, does not fit in 64 bits.
    NumberTooLarge(String),
    /// A number is followed by something else than `s`, `m`, `h`, `d` or a space.
    UnknownUnit(char),
    /// The sum of the groups is too large (the trimmed input is given).
    ValueTooLarge(String),
    /// The groups sum to zero seconds.
    ZeroInterval,
}

impl View for DurationError {
    type V = DurationErrorView;

    open spec fn view(&self) -> DurationErrorView {
        match self {
            DurationError::Empty => DurationErrorView::Empty,
            DurationError::MissingNumber(c) => DurationErrorView::MissingNumber(*c),
            DurationError::NumberTooLarge(s) => DurationErrorView::NumberTooLarge(s@),
            DurationError::UnknownUnit(c) => DurationErrorView::UnknownUnit(*c),
            DurationError::ValueTooLarge(s) => DurationErrorView::ValueTooLarge(s@),
            DurationError::ZeroInterval => DurationErrorView::ZeroInterval,
        }
    }
}

/// The sum of the groups of `rest` added to `total`, or why they are refused.
///
/// A group is a run of digits followed by a unit letter, by whitespace or by
/// the end of the input (the last two meaning seconds). Whitespace separates
/// groups. `whole` is the trimmed input, which a too large sum names.
pub open spec fn sum_groups(rest: Seq<char>, total: nat, whole: Seq<char>) -> Result<nat, DurationErrorView>
    decreases rest.len(),
{
    if rest.len() == 0 {
        Ok(total)
    } else if is_space(rest[0]) {
        sum_groups(rest.drop_first(), total, whole)
    } else {
        let k = digit_run(rest);
        if k == 0 {
            Err(DurationErrorView::MissingNumber(rest[0]))
        } else {
            proof {
                lemma_digit_run_bounded(rest);
            }
            let digits = rest.take(k as int);
            let value = digits_value(digits);
            let after = rest.skip(k as int);
            if value > u64::MAX {
                Err(DurationErrorView::NumberTooLarge(digits))
            } else if after.len() > 0 && !is_space(after[0]) && unit_seconds(after[0]) is None {
                Err(DurationErrorView::UnknownUnit(after[0]))
            } else {
                let has_unit = after.len() > 0 && !is_space(after[0]);
                let group = if has_unit {
                    value * unit_seconds(after[0])->0
                } else {
                    value
                };
                let used: int = if has_unit {
                    1
                } else {
                    0
                };
                if group > u64::MAX {
                    Err(DurationErrorView::NumberTooLarge(digits))
                } else if total + group > u64::MAX {
                    Err(DurationErrorView::ValueTooLarge(whole))
                } else {
                    sum_groups(after.skip(used), total + group, whole)
                }
            }
        }
    }
}

/// The number of seconds that `input` stands for, or why it is refused.
pub open spec fn spec_parse_duration(input: Seq<char>) -> Result<nat, DurationErrorView> {
    let t = trim(input);
    if t.len() == 0 {
        Err(DurationErrorView::Empty)
    } else {
        match sum_groups(t, 0, t) {
            Ok(total) => if total == 0 {
                Err(DurationErrorView::ZeroInterval)
            } else if total > i64::MAX {
                Err(DurationErrorView::ValueTooLarge(t))
            } else {
                Ok(total)
            },
            Err(e) => Err(e),
        }
    }
}

/// A run of digits is no longer than the sequence it starts.
pub proof fn lemma_digit_run_bounded(s: Seq<char>)
    ensures
        digit_run(s) <= s.len(),
        forall|i: int| 0 <= i < digit_run(s) ==> is_digit(#[trigger] s[i]),
        digit_run(s) < s.len() ==> !is_digit(s[digit_run(s) as int]),
    decreases s.len(),
{
    if s.len() > 0 && is_digit(s[0]) {
        lemma_digit_run_bounded(s.drop_first());
        assert forall|i: int| 0 <= i < digit_run(s) implies is_digit(#[trigger] s[i]) by {
            if i > 0 {
                assert(s[i] == s.drop_first()[i - 1]);
            }
        }
    }
}

/// Whether every character of `s` is an ASCII digit.
pub open spec fn all_digits(s: Seq<char>) -> bool {
    forall|i: int| 0 <= i < s.len() ==> is_digit(#[trigger] s[i])
}

/// Whether every character of `s` is whitespace.
pub open spec fn all_spaces(s: Seq<char>) -> bool {
    forall|i: int| 0 <= i < s.len() ==> is_space(#[trigger] s[i])
}

/// A digit is never whitespace.
proof fn lemma_digit_not_space(c: char)
    ensures
        is_digit(c) ==> !is_space(c),
        unit_seconds(c) is Some ==> !is_space(c) && !is_digit(c),
{
}

/// A run of digits followed by anything counts all its digits.
proof fn lemma_digit_run_prefix(d: Seq<char>, x: Seq<char>)
    requires
        all_digits(d),
    ensures
        digit_run(d + x) == d.len() + digit_run(x),
    decreases d.len(),
{
    if d.len() > 0 {
        assert((d + x)[0] == d[0]);
        assert((d + x).drop_first() =~= d.drop_first() + x);
        lemma_digit_run_prefix(d.drop_first(), x);
    } else {
        assert(d + x =~= x);
    }
}

/// Whitespace before the groups changes nothing.
pub proof fn lemma_leading_spaces_skipped(ws: Seq<char>, rest: Seq<char>, total: nat, whole: Seq<char>)
    requires
        all_spaces(ws),
    ensures
        sum_groups(ws + rest, total, whole) == sum_groups(rest, total, whole),
    decreases ws.len(),
{
    if ws.len() > 0 {
        assert((ws + rest)[0] == ws[0]);
        assert((ws + rest).drop_first() =~= ws.drop_first() + rest);
        lemma_leading_spaces_skipped(ws.drop_first(), rest, total, whole);
    } else {
        assert(ws + rest =~= rest);
    }
}

/// Groups are summed: a group made of a number and a unit letter adds the
/// number times the unit to the total, and the rest is read as before.
pub proof fn lemma_unit_group_is_summed(
    digits: Seq<char>,
    unit: char,
    rest: Seq<char>,
    total: nat,
    whole: Seq<char>,
)
    requires
        digits.len() > 0,
        all_digits(digits),
        unit_seconds(unit) is Some,
        total + digits_value(digits) * unit_seconds(unit)->0 <= u64::MAX,
    ensures
        sum_groups(digits.push(unit) + rest, total, whole) == sum_groups(
            rest,
            total + digits_value(digits) * unit_seconds(unit)->0,
            whole,
        ),
{
    let s = digits.push(unit) + rest;
    let tail = seq![unit] + rest;
    assert(s =~= digits + tail);
    lemma_digit_run_prefix(digits, tail);
    lemma_digit_not_space(unit);
    assert(tail[0] == unit);
    assert(digit_run(tail) == 0);
    assert(s[0] == digits[0]);
    lemma_digit_not_space(digits[0]);
    assert(s.take(digits.len() as int) =~= digits);
    assert(s.skip(digits.len() as int) =~= tail);
    assert(tail.skip(1) =~= rest);
    let v = digits_value(digits);
    let m = unit_seconds(unit)->0;
    assert(m >= 1);
    assert(v <= v * m) by (nonlinear_arith)
        requires
            m >= 1,
    ;
}

/// A number at the end of the input, or followed by whitespace, is a number
/// of seconds.
pub proof fn lemma_unitless_group_is_seconds(
    digits: Seq<char>,
    rest: Seq<char>,
    total: nat,
    whole: Seq<char>,
)
    requires
        digits.len() > 0,
        all_digits(digits),
        rest.len() == 0 || is_space(rest[0]),
        total + digits_value(digits) <= u64::MAX,
    ensures
        sum_groups(digits + rest, total, whole) == sum_groups(
            rest,
            total + digits_value(digits),
            whole,
        ),
{
    let s = digits + rest;
    lemma_digit_run_prefix(digits, rest);
    if rest.len() > 0 {
        lemma_digit_not_space(rest[0]);
    }
    assert(digit_run(rest) == 0);
    assert(s[0] == digits[0]);
    lemma_digit_not_space(digits[0]);
    assert(s.take(digits.len() as int) =~= digits);
    assert(s.skip(digits.len() as int) =~= rest);
    assert(rest.skip(0) =~= rest);
}

/// A plain number means seconds.
pub proof fn lemma_plain_number_means_seconds(digits: Seq<char>)
    requires
        digits.len() > 0,
        all_digits(digits),
        1 <= digits_value(digits) <= i64::MAX,
    ensures
        spec_parse_duration(digits) == Ok::<nat, DurationErrorView>(digits_value(digits)),
{
    lemma_no_spaces_trim(digits);
    lemma_unitless_group_is_seconds(digits, Seq::empty(), 0, digits);
    assert(digits + Seq::<char>::empty() =~= digits);
}

/// A single group with a unit stands for its number times its unit.
pub proof fn lemma_single_unit_group(digits: Seq<char>, unit: char)
    requires
        digits.len() > 0,
        all_digits(digits),
        unit_seconds(unit) is Some,
        1 <= digits_value(digits) * unit_seconds(unit)->0 <= i64::MAX,
    ensures
        spec_parse_duration(digits.push(unit)) == Ok::<nat, DurationErrorView>(
            digits_value(digits) * unit_seconds(unit)->0,
        ),
{
    let s = digits.push(unit);
    lemma_digit_not_space(unit);
    assert forall|i: int| 0 <= i < s.len() implies !is_space(#[trigger] s[i]) by {
        if i < digits.len() {
            lemma_digit_not_space(digits[i]);
        }
    }
    lemma_no_spaces_trim(s);
    lemma_unit_group_is_summed(digits, unit, Seq::empty(), 0, s);
    assert(s + Seq::<char>::empty() =~= s);
}

/// The order of two groups with units does not matter.
pub proof fn lemma_group_order_irrelevant(
    d1: Seq<char>,
    u1: char,
    d2: Seq<char>,
    u2: char,
    rest: Seq<char>,
    total: nat,
    whole: Seq<char>,
)
    requires
        d1.len() > 0,
        all_digits(d1),
        unit_seconds(u1) is Some,
        d2.len() > 0,
        all_digits(d2),
        unit_seconds(u2) is Some,
        total + digits_value(d1) * unit_seconds(u1)->0 + digits_value(d2) * unit_seconds(u2)->0
            <= u64::MAX,
    ensures
        sum_groups(d1.push(u1) + d2.push(u2) + rest, total, whole) == sum_groups(
            d2.push(u2) + d1.push(u1) + rest,
            total,
            whole,
        ),
{
    let g1 = digits_value(d1) * unit_seconds(u1)->0;
    let g2 = digits_value(d2) * unit_seconds(u2)->0;
    assert(d1.push(u1) + d2.push(u2) + rest =~= d1.push(u1) + (d2.push(u2) + rest));
    assert(d2.push(u2) + d1.push(u1) + rest =~= d2.push(u2) + (d1.push(u1) + rest));
    lemma_unit_group_is_summed(d1, u1, d2.push(u2) + rest, total, whole);
    lemma_unit_group_is_summed(d2, u2, rest, total + g1, whole);
    lemma_unit_group_is_summed(d2, u2, d1.push(u1) + rest, total, whole);
    lemma_unit_group_is_summed(d1, u1, rest, total + g2, whole);
    assert(total + g1 + g2 == total + g2 + g1);
}

/// A sequence without whitespace is its own trimmed form.
proof fn lemma_no_spaces_trim(s: Seq<char>)
    requires
        forall|i: int| 0 <= i < s.len() ==> !is_space(#[trigger] s[i]),
    ensures
        trim(s) == s,
{
    if s.len() > 0 {
        assert(!is_space(s[0]));
        assert(!is_space(s[s.len() - 1]));
    }
}

/// Leading whitespace is dropped by `trim_start`.
proof fn lemma_trim_start_spaces(ws: Seq<char>, s: Seq<char>)
    requires
        all_spaces(ws),
    ensures
        trim_start(ws + s) == trim_start(s),
    decreases ws.len(),
{
    if ws.len() > 0 {
        assert((ws + s)[0] == ws[0]);
        assert((ws + s).drop_first() =~= ws.drop_first() + s);
        lemma_trim_start_spaces(ws.drop_first(), s);
    } else {
        assert(ws + s =~= s);
    }
}

/// Trailing whitespace is dropped by `trim_end`.
proof fn lemma_trim_end_spaces(s: Seq<char>, ws: Seq<char>)
    requires
        all_spaces(ws),
    ensures
        trim_end(s + ws) == trim_end(s),
    decreases ws.len(),
{
    if ws.len() > 0 {
        assert((s + ws).last() == ws.last());
        assert((s + ws).drop_last() =~= s + ws.drop_last());
        lemma_trim_end_spaces(s, ws.drop_last());
    } else {
        assert(s + ws =~= s);
    }
}

/// What `trim_start` keeps is a suffix that starts with a non-space.
proof fn lemma_trim_start_shape(s: Seq<char>)
    ensures
        exists|k: int| 0 <= k <= s.len() && trim_start(s) == s.skip(k) && all_spaces(s.take(k)),
        trim_start(s).len() > 0 ==> !is_space(trim_start(s)[0]),
    decreases s.len(),
{
    if s.len() > 0 && is_space(s[0]) {
        lemma_trim_start_shape(s.drop_first());
        let k = choose|k: int|
            0 <= k <= s.drop_first().len() && trim_start(s.drop_first()) == s.drop_first().skip(k)
                && all_spaces(s.drop_first().take(k));
        assert(s.drop_first().skip(k) =~= s.skip(k as int + 1));
        assert forall|i: int| 0 <= i < k + 1 implies is_space(#[trigger] s.take(k + 1)[i]) by {
            if i > 0 {
                assert(s.take(k + 1)[i] == s.drop_first().take(k)[i - 1]);
            }
        }
    } else {
        assert(s.skip(0) =~= s);
        assert(s.take(0).len() == 0);
    }
}

/// Whitespace around the whole value changes nothing.
pub proof fn lemma_surrounding_spaces_ignored(pre: Seq<char>, s: Seq<char>, post: Seq<char>)
    requires
        all_spaces(pre),
        all_spaces(post),
    ensures
        trim(pre + s + post) == trim(s),
        spec_parse_duration(pre + s + post) == spec_parse_duration(s),
{
    assert(pre + s + post =~= pre + (s + post));
    lemma_trim_start_spaces(pre, s + post);
    lemma_trim_start_shape(s);
    let k = choose|k: int| 0 <= k <= s.len() && trim_start(s) == s.skip(k) && all_spaces(s.take(k));
    assert(s + post =~= s.take(k) + (s.skip(k) + post));
    lemma_trim_start_spaces(s.take(k), s.skip(k) + post);
    if s.skip(k).len() > 0 {
        // trim_start stops at the first non-space, which `post` does not change
        assert((s.skip(k) + post)[0] == s.skip(k)[0]);
        assert(trim_start(s.skip(k) + post) == s.skip(k) + post);
        lemma_trim_end_spaces(s.skip(k), post);
        assert(trim_start(s) == s.skip(k));
    } else {
        assert(s.skip(k) + post =~= post);
        lemma_trim_start_spaces(post, Seq::empty());
        assert(post + Seq::<char>::empty() =~= post);
        assert(trim_start(Seq::<char>::empty()) == Seq::<char>::empty());
        assert(trim(s) == trim_end(Seq::<char>::empty()));
    }
}

/// The seconds of a string made only of groups that each end in a unit
/// letter (`1h30m`, `10m10m`, or nothing), or `None` for any other string.
pub open spec fn unit_groups_value(s: Seq<char>) -> Option<nat>
    decreases s.len(),
{
    if s.len() == 0 {
        Some(0)
    } else {
        let k = digit_run(s);
        proof {
            lemma_digit_run_bounded(s);
        }
        if k == 0 || k >= s.len() || unit_seconds(s[k as int]) is None {
            None
        } else {
            match unit_groups_value(s.skip(k as int + 1)) {
                Some(rest) => Some(digits_value(s.take(k as int)) * unit_seconds(s[k as int])->0 + rest),
                None => None,
            }
        }
    }
}

/// A string of unit groups adds its seconds to the total, and what follows
/// it is read as before.
pub proof fn lemma_unit_groups_are_summed(g: Seq<char>, rest: Seq<char>, total: nat, whole: Seq<char>)
    requires
        unit_groups_value(g) is Some,
        total + unit_groups_value(g)->0 <= u64::MAX,
    ensures
        sum_groups(g + rest, total, whole) == sum_groups(rest, total + unit_groups_value(g)->0, whole),
        forall|i: int| 0 <= i < g.len() ==> !is_space(#[trigger] g[i]),
    decreases g.len(),
{
    if g.len() == 0 {
        assert(g + rest =~= rest);
    } else {
        let k = digit_run(g);
        lemma_digit_run_bounded(g);
        let d = g.take(k as int);
        let u = g[k as int];
        let tail = g.skip(k as int + 1);
        let m = unit_seconds(u)->0;
        let v = digits_value(d) * m;
        lemma_unit_groups_are_summed(tail, rest, total + v, whole);
        assert(g =~= d.push(u) + tail);
        assert(g + rest =~= d.push(u) + (tail + rest));
        assert forall|i: int| 0 <= i < d.len() implies is_digit(#[trigger] d[i]) by {
            assert(d[i] == g[i]);
        }
        lemma_unit_group_is_summed(d, u, tail + rest, total, whole);
        assert forall|i: int| 0 <= i < g.len() implies !is_space(#[trigger] g[i]) by {
            if i < k {
                assert(is_digit(g[i]));
                lemma_digit_not_space(g[i]);
            } else if i == k {
                lemma_digit_not_space(u);
            } else {
                assert(g[i] == tail[i - k - 1]);
            }
        }
    }
}

/// Groups are summed, in any order: two strings of unit groups, one after
/// the other in either order, parse to the sum of their seconds (when the
/// sum is accepted: at least one second, within an `i64`). Each alone parses
/// to its own seconds under the same condition.
pub proof fn lemma_group_strings_are_summed(a: Seq<char>, b: Seq<char>)
    requires
        unit_groups_value(a) is Some,
        unit_groups_value(b) is Some,
        1 <= unit_groups_value(a)->0 + unit_groups_value(b)->0 <= i64::MAX,
    ensures
        spec_parse_duration(a + b) == Ok::<nat, DurationErrorView>(
            unit_groups_value(a)->0 + unit_groups_value(b)->0,
        ),
        spec_parse_duration(b + a) == Ok::<nat, DurationErrorView>(
            unit_groups_value(a)->0 + unit_groups_value(b)->0,
        ),
        1 <= unit_groups_value(a)->0 ==> spec_parse_duration(a) == Ok::<nat, DurationErrorView>(
            unit_groups_value(a)->0,
        ),
{
    let x = unit_groups_value(a)->0;
    let y = unit_groups_value(b)->0;
    lemma_unit_groups_are_summed(a, b, 0, a + b);
    lemma_unit_groups_are_summed(b, Seq::empty(), x, a + b);
    assert(b + Seq::<char>::empty() =~= b);
    lemma_unit_groups_are_summed(b, a, 0, b + a);
    lemma_unit_groups_are_summed(a, Seq::empty(), y, b + a);
    assert(a + Seq::<char>::empty() =~= a);
    assert forall|i: int| 0 <= i < (a + b).len() implies !is_space(#[trigger] (a + b)[i]) by {
        if i < a.len() {
            assert((a + b)[i] == a[i]);
        } else {
            assert((a + b)[i] == b[i - a.len()]);
        }
    }
    assert forall|i: int| 0 <= i < (b + a).len() implies !is_space(#[trigger] (b + a)[i]) by {
        if i < b.len() {
            assert((b + a)[i] == b[i]);
        } else {
            assert((b + a)[i] == a[i - b.len()]);
        }
    }
    lemma_no_spaces_trim(a + b);
    lemma_no_spaces_trim(b + a);
    assert((a + b).len() > 0) by {
        if a.len() == 0 && b.len() == 0 {
            assert(x == 0 && y == 0);
        }
    }
    assert((b + a).len() > 0) by {
        assert((b + a).len() == (a + b).len());
    }
    if 1 <= x {
        lemma_unit_groups_are_summed(a, Seq::empty(), 0, a);
        lemma_no_spaces_trim(a);
    }
}

/// An accepted duration is at least one second and fits in an `i64`.
pub proof fn lemma_accepted_duration_in_range(input: Seq<char>)
    ensures
        spec_parse_duration(input) matches Ok(secs) ==> 1 <= secs <= i64::MAX,
{
}

/// The message that describes a refused duration.
pub open spec fn duration_error_message(e: DurationErrorView) -> Seq<char> {
    match e {
        DurationErrorView::Empty => "expected a number"@,
        DurationErrorView::MissingNumber(c) => "expected a number, found '"@ + seq![c] + "'"@,
        DurationErrorView::NumberTooLarge(d) => "the number '"@ + d + "' is too large"@,
        DurationErrorView::UnknownUnit(c) => "unknown unit '"@ + seq![c]
            + "' (expected one of: s, m, h, d)"@,
        DurationErrorView::ValueTooLarge(v) => "the value '"@ + v + "' is too large"@,
        DurationErrorView::ZeroInterval => "the interval must be at least one second"@,
    }
}

impl DurationError {
    /// The message that describes this error.
    pub fn message(&self) -> (r: String)
        ensures
            r@ == duration_error_message(self@),
    {
        let mut r = String::new();
        match self {
            DurationError::Empty => {
                push_str(&mut r, "expected a number");
            },
            DurationError::MissingNumber(c) => {
                push_str(&mut r, "expected a number, found '");
                push_char(&mut r, *c);
                push_str(&mut r, "'");
            },
            DurationError::NumberTooLarge(d) => {
                push_str(&mut r, "the number '");
                push_str(&mut r, d.as_str());
                push_str(&mut r, "' is too large");
            },
            DurationError::UnknownUnit(c) => {
                push_str(&mut r, "unknown unit '");
                push_char(&mut r, *c);
                push_str(&mut r, "' (expected one of: s, m, h, d)");
            },
            DurationError::ValueTooLarge(v) => {
                push_str(&mut r, "the value '");
                push_str(&mut r, v.as_str());
                push_str(&mut r, "' is too large");
            },
            DurationError::ZeroInterval => {
                push_str(&mut r, "the interval must be at least one second");
            },
        }
        proof {
            assert(r@ =~= duration_error_message(self@));
        }
        r
    }
}

/// The `Duration` that `Duration::from_secs` makes of a number of seconds.
pub uninterp spec fn duration_from_secs(secs: u64) -> Duration;

/// Calls `Duration::from_secs`; the result is named by `duration_from_secs`
/// (std documents it as the duration of `secs` whole seconds).
#[verifier::external_body]
fn make_duration(secs: u64) -> (d: Duration)
    ensures
        d == duration_from_secs(secs),
{
    Duration::from_secs(secs)
}

fn is_space_char(c: char) -> (r: bool)
    ensures
        r == is_space(c),
{
    let u = c as u32;
    (9 <= u && u <= 13) || u == 32 || u == 0x85 || u == 0xA0 || u == 0x1680 || (0x2000 <= u
        && u <= 0x200A) || u == 0x2028 || u == 0x2029 || u == 0x202F || u == 0x205F || u
        == 0x3000
}

fn is_digit_char(c: char) -> (r: bool)
    ensures
        r == is_digit(c),
{
    let u = c as u32;
    48 <= u && u <= 57
}

/// The characters of `v` from `from` (included) to `to` (excluded), as a string.
fn string_of_range(v: &Vec<char>, from: usize, to: usize) -> (r: String)
    requires
        from <= to <= v.len(),
    ensures
        r@ == v@.subrange(from as int, to as int),
{
    let mut r = String::new();
    let mut k = from;
    while k < to
        invariant
            from <= k <= to <= v.len(),
            r@ == v@.subrange(from as int, k as int),
        decreases to - k,
    {
        push_char(&mut r, v[k]);
        proof {
            assert(v@.subrange(from as int, k + 1) =~= v@.subrange(from as int, k as int).push(
                v@[k as int],
            ));
        }
        k = k + 1;
    }
    r
}

/// The bounds of `chars` once trimmed of whitespace on both ends.
fn trim_bounds(chars: &Vec<char>) -> (r: (usize, usize))
    ensures
        r.0 <= r.1 <= chars.len(),
        chars@.subrange(r.0 as int, r.1 as int) == trim(chars@),
{
    let n = chars.len();
    let mut start: usize = 0;
    proof {
        assert(chars@.skip(0) =~= chars@);
    }
    while start < n && is_space_char(chars[start])
        invariant
            start <= n == chars.len(),
            trim_start(chars@.skip(start as int)) == trim_start(chars@),
        decreases n - start,
    {
        proof {
            assert(chars@.skip(start as int).drop_first() =~= chars@.skip(start + 1));
        }
        start = start + 1;
    }
    proof {
        if start < n {
            assert(chars@.skip(start as int)[0] == chars@[start as int]);
        }
        assert(trim_start(chars@) =~= chars@.skip(start as int));
        assert(chars@.skip(start as int) =~= chars@.subrange(start as int, n as int));
    }
    let mut end: usize = n;
    while end > start && is_space_char(chars[end - 1])
        invariant
            start <= end <= n == chars.len(),
            trim_end(chars@.subrange(start as int, end as int)) == trim(chars@),
        decreases end,
    {
        proof {
            assert(chars@.subrange(start as int, end as int).drop_last() =~= chars@.subrange(
                start as int,
                end - 1,
            ));
        }
        end = end - 1;
    }
    proof {
        let sub = chars@.subrange(start as int, end as int);
        if end > start {
            assert(sub.last() == chars@[end - 1]);
        }
        assert(trim_end(sub) == sub);
    }
    (start, end)
}

/// The sum of the groups of `t`, checked as `sum_groups` describes.
fn sum_groups_exec(t: &Vec<char>) -> (r: Result<u64, DurationError>)
    ensures
        r matches Ok(v) ==> sum_groups(t@, 0, t@) == Ok::<nat, DurationErrorView>(v as nat),
        r matches Err(e) ==> sum_groups(t@, 0, t@) == Err::<nat, DurationErrorView>(e@),
{
    let n = t.len();
    let mut i: usize = 0;
    let mut total: u64 = 0;
    proof {
        assert(t@.skip(0) =~= t@);
    }
    while i < n
        invariant
            i <= n == t.len(),
            sum_groups(t@.skip(i as int), total as nat, t@) == sum_groups(t@, 0, t@),
        decreases n - i,
    {
        let ghost rest = t@.skip(i as int);
        assert(rest[0] == t@[i as int]);
        if is_space_char(t[i]) {
            proof {
                assert(rest.drop_first() =~= t@.skip(i + 1));
            }
            i = i + 1;
        } else {
            let mut j: usize = i;
            let mut value: u64 = 0;
            let mut overflow = false;
            proof {
                assert(t@.skip(j as int) == rest);
                assert(t@.subrange(i as int, j as int) =~= Seq::<char>::empty());
            }
            while j < n && is_digit_char(t[j])
                invariant
                    i <= j <= n == t.len(),
                    rest == t@.skip(i as int),
                    digit_run(rest) == (j - i) + digit_run(t@.skip(j as int)),
                    overflow ==> digits_value(t@.subrange(i as int, j as int)) > u64::MAX,
                    !overflow ==> value == digits_value(t@.subrange(i as int, j as int)),
                decreases n - j,
            {
                let d: u64 = (t[j] as u32 - 48) as u64;
                let ghost prev = t@.subrange(i as int, j as int);
                let ghost next = t@.subrange(i as int, j + 1);
                proof {
                    assert(next.drop_last() =~= prev);
                    assert(next.last() == t@[j as int]);
                    assert(t@.skip(j as int)[0] == t@[j as int]);
                    assert(t@.skip(j as int).drop_first() =~= t@.skip(j + 1));
                    assert(digits_value(next) == digits_value(prev) * 10 + d);
                }
                if !overflow {
                    match value.checked_mul(10) {
                        Some(v10) => match v10.checked_add(d) {
                            Some(v) => {
                                value = v;
                            },
                            None => {
                                overflow = true;
                            },
                        },
                        None => {
                            overflow = true;
                        },
                    }
                }
                j = j + 1;
            }
            proof {
                if j < n {
                    assert(t@.skip(j as int)[0] == t@[j as int]);
                }
                assert(digit_run(t@.skip(j as int)) == 0);
                lemma_digit_run_bounded(rest);
                assert(rest.take((j - i) as int) =~= t@.subrange(i as int, j as int));
                assert(rest.skip((j - i) as int) =~= t@.skip(j as int));
            }
            if j == i {
                return Err(DurationError::MissingNumber(t[i]));
            }
            if overflow {
                return Err(DurationError::NumberTooLarge(string_of_range(t, i, j)));
            }
            let ghost after = t@.skip(j as int);
            proof {
                if j < n {
                    assert(after[0] == t@[j as int]);
                }
            }
            let mut next: usize = j;
            let mut mult: u64 = 1;
            if j < n && !is_space_char(t[j]) {
                let c = t[j];
                if c == 's' {
                    mult = 1;
                } else if c == 'm' {
                    mult = 60;
                } else if c == 'h' {
                    mult = 3600;
                } else if c == 'd' {
                    mult = 86400;
                } else {
                    return Err(DurationError::UnknownUnit(c));
                }
                next = j + 1;
                proof {
                    assert(after.skip(1) =~= t@.skip(j + 1));
                }
            } else {
                proof {
                    assert(after.skip(0) =~= after);
                }
            }
            let group = match value.checked_mul(mult) {
                Some(g) => g,
                None => {
                    return Err(DurationError::NumberTooLarge(string_of_range(t, i, j)));
                },
            };
            let new_total = match total.checked_add(group) {
                Some(s) => s,
                None => {
                    let whole = string_of_range(t, 0, n);
                    proof {
                        assert(t@.subrange(0, n as int) =~= t@);
                    }
                    return Err(DurationError::ValueTooLarge(whole));
                },
            };
            total = new_total;
            i = next;
        }
    }
    proof {
        assert(t@.skip(i as int).len() == 0);
    }
    Ok(total)
}

/// Parse a duration such as `10`, `10m`, `3h`, `1d` or `1h30m`.
///
/// * A plain number means seconds.
/// * Each group is `<number><unit>`, where unit is one of `s`, `m`, `h`, `d`.
///   The unit may be omitted, in which case the group is a number of seconds.
/// * Groups are summed, so `1h30m` is 90 minutes. Units may repeat and may
///   appear in any order.
/// * Whitespace is allowed between groups, and around the whole value.
/// * The total must be at least one second.
pub fn parse_duration(input: &str) -> (r: Result<Duration, DurationError>)
    ensures
        r matches Ok(d) ==> spec_parse_duration(input@) matches Ok(secs) && d
            == duration_from_secs(secs as u64),
        r matches Err(e) ==> spec_parse_duration(input@) == Err::<nat, DurationErrorView>(e@),
{
    let chars = chars_of(input);
    let (start, end) = trim_bounds(&chars);
    let t = {
        let mut t: Vec<char> = Vec::new();
        let mut k = start;
        while k < end
            invariant
                start <= k <= end <= chars.len(),
                t@ == chars@.subrange(start as int, k as int),
            decreases end - k,
        {
            t.push(chars[k]);
            proof {
                assert(t@ =~= chars@.subrange(start as int, k + 1));
            }
            k = k + 1;
        }
        t
    };
    if t.len() == 0 {
        return Err(DurationError::Empty);
    }
    let total = sum_groups_exec(&t)?;
    if total == 0 {
        return Err(DurationError::ZeroInterval);
    }
    if total > 9223372036854775807u64 {
        let whole = string_of_range(&t, 0, t.len());
        proof {
            assert(t@.subrange(0, t@.len() as int) =~= t@);
        }
        return Err(DurationError::ValueTooLarge(whole));
    }
    Ok(make_duration(total))
}

} // verus!
