//! Parsing: single unit tokens, whole operands, and the tokenizer that
//! groups raw input tokens into alternating operands and operators.
//!
//! All contracts are stated over the character sequences (`Seq<char>`) of
//! the input strings.

use vstd::prelude::*;

use crate::duration::{Days, Duration, Hours, Minutes, Seconds, UnitKind, Weeks};
use crate::error::Error;

verus! {

use vstd::arithmetic::div_mod::{lemma_fundamental_div_mod, lemma_mod_bound};
use vstd::string::StrSliceExecFns;

/// The whitespace characters recognized when trimming raw tokens.
pub open spec fn is_space_char(c: char) -> bool {
    c == ' ' || c == '\t' || c == '\n' || c == '\r'
}

/// Whether `c` is an ASCII decimal digit.
pub open spec fn is_digit_char(c: char) -> bool {
    48 <= (c as u32) && (c as u32) <= 57
}

/// The numeric value of an ASCII decimal digit.
pub open spec fn digit_val(c: char) -> int
    recommends
        is_digit_char(c),
{
    (c as u32) - 48
}

/// Whether every character of `s` is an ASCII decimal digit.
pub open spec fn all_digits(s: Seq<char>) -> bool {
    forall|i: int| 0 <= i < s.len() ==> is_digit_char(s[i])
}

/// The number denoted by a sequence of decimal digits, most significant
/// first.
pub open spec fn digits_value(s: Seq<char>) -> int
    decreases s.len(),
{
    if s.len() == 0 {
        0
    } else {
        digits_value(s.drop_last()) * 10 + digit_val(s.last())
    }
}

/// The magnitude denoted by a numeric prefix: one or more decimal digits
/// whose value fits the scalar type, and nothing else.
pub open spec fn magnitude_of(p: Seq<char>) -> Result<u64, Error> {
    if p.len() > 0 && all_digits(p) && digits_value(p) <= u64::MAX {
        Ok(digits_value(p) as u64)
    } else {
        Err(Error::Numeric)
    }
}

proof fn lemma_digits_value_nonneg(s: Seq<char>)
    requires
        all_digits(s),
    ensures
        digits_value(s) >= 0,
    decreases s.len(),
{
    if s.len() > 0 {
        assert(all_digits(s.drop_last()));
        lemma_digits_value_nonneg(s.drop_last());
    }
}

proof fn lemma_digits_value_prefix_le(s: Seq<char>, i: int)
    requires
        all_digits(s),
        0 <= i <= s.len(),
    ensures
        digits_value(s.take(i)) <= digits_value(s),
    decreases s.len() - i,
{
    if i == s.len() {
        assert(s.take(i) =~= s);
    } else {
        let t = s.take(i + 1);
        assert(t.drop_last() =~= s.take(i));
        assert(all_digits(s.take(i)));
        lemma_digits_value_nonneg(s.take(i));
        assert(digits_value(t) == digits_value(s.take(i)) * 10 + digit_val(s[i]));
        lemma_digits_value_prefix_le(s, i + 1);
    }
}

/// Parses the character range `[from, to)` of `s` as an unsigned decimal
/// number.
fn parse_digits(s: &str, from: usize, to: usize) -> (r: Result<u64, Error>)
    requires
        from <= to <= s@.len(),
    ensures
        r == magnitude_of(s@.subrange(from as int, to as int)),
{
    let ghost whole = s@.subrange(from as int, to as int);
    if from == to {
        return Err(Error::Numeric);
    }
    let mut v: u64 = 0;
    let mut i: usize = from;
    while i < to
        invariant
            from <= i <= to <= s@.len(),
            whole == s@.subrange(from as int, to as int),
            all_digits(s@.subrange(from as int, i as int)),
            v == digits_value(s@.subrange(from as int, i as int)),
        decreases to - i,
    {
        let ghost pre = s@.subrange(from as int, i as int);
        let c = s.get_char(i);
        let cu = c as u32;
        if cu < 48 || cu > 57 {
            proof {
                assert(whole[i - from] == c);
                assert(!all_digits(whole));
            }
            return Err(Error::Numeric);
        }
        let d = (cu - 48) as u64;
        let limit = (u64::MAX - d) / 10;
        proof {
            lemma_fundamental_div_mod(u64::MAX - d, 10);
            lemma_mod_bound(u64::MAX - d, 10);
        }
        if v > limit {
            proof {
                let ext = s@.subrange(from as int, i as int + 1);
                assert(ext.drop_last() =~= pre);
                assert(ext.last() == c);
                assert(digits_value(ext) == v * 10 + d);
                assert(digits_value(ext) > u64::MAX);
                if all_digits(whole) {
                    assert(whole.take(i - from + 1) =~= ext);
                    lemma_digits_value_prefix_le(whole, i - from + 1);
                }
            }
            return Err(Error::Numeric);
        }
        v = v * 10 + d;
        i = i + 1;
        proof {
            let ext = s@.subrange(from as int, i as int);
            assert(ext.drop_last() =~= pre);
            assert(ext.last() == c);
        }
    }
    proof {
        assert(s@.subrange(from as int, i as int) =~= whole);
    }
    Ok(v)
}

/// Whether `s` ends with `suffix`.
pub open spec fn ends_with(s: Seq<char>, suffix: Seq<char>) -> bool {
    s.len() >= suffix.len() && s.subrange(s.len() - suffix.len(), s.len() as int) == suffix
}

/// Compares the tail of `s` against `suffix`, character by character.
fn str_ends_with(s: &str, suffix: &str) -> (r: bool)
    ensures
        r == ends_with(s@, suffix@),
{
    let n = s.unicode_len();
    let m = suffix.unicode_len();
    if m > n {
        return false;
    }
    let mut i: usize = 0;
    while i < m
        invariant
            0 <= i <= m == suffix@.len() <= n == s@.len(),
            forall|j: int| 0 <= j < i ==> s@[n - m + j] == suffix@[j],
        decreases m - i,
    {
        if s.get_char(n - m + i) != suffix.get_char(i) {
            proof {
                assert(s@.subrange(n - m, n as int)[i as int] != suffix@[i as int]);
            }
            return false;
        }
        i = i + 1;
    }
    proof {
        assert(s@.subrange(n - m, n as int) =~= suffix@);
    }
    true
}

/// What parsing a token against an expected suffix yields: the value of the
/// numeric prefix once the suffix is stripped, or the error that stops it.
pub open spec fn parse_duration_spec(s: Seq<char>, suffix: Seq<char>) -> Result<u64, Error> {
    if !ends_with(s, suffix) {
        Err(Error::Format)
    } else {
        magnitude_of(s.take(s.len() - suffix.len()))
    }
}

/// Parses a single unit token: strips the expected suffix and reads the
/// remaining prefix as an unsigned decimal magnitude.  The `unit` argument
/// only names the unit for the caller's benefit and does not affect the
/// result.
pub fn parse_duration(s: &str, unit: &str, suffix: &str) -> (r: Result<u64, Error>)
    ensures
        r == parse_duration_spec(s@, suffix@),
{
    if !str_ends_with(s, suffix) {
        return Err(Error::Format);
    }
    let n = s.unicode_len();
    let m = suffix.unicode_len();
    let r = parse_digits(s, 0, n - m);
    proof {
        assert(s@.subrange(0, n - m) =~= s@.take(s@.len() - suffix@.len()));
    }
    r
}

impl Weeks {
    /// Parses a token of the form `<digits>w`.
    pub fn parse(s: &str) -> (r: Result<Weeks, Error>)
        ensures
            r == (match parse_duration_spec(s@, seq!['w']) {
                Ok(v) => Ok::<Weeks, Error>(Weeks(v)),
                Err(e) => Err::<Weeks, Error>(e),
            }),
    {
        proof {
            reveal_strlit("w");
            assert("w"@ =~= seq!['w']);
        }
        match parse_duration(s, "weeks", "w") {
            Ok(v) => Ok(Weeks(v)),
            Err(e) => Err(e),
        }
    }
}

impl Days {
    /// Parses a token of the form `<digits>d`.
    pub fn parse(s: &str) -> (r: Result<Days, Error>)
        ensures
            r == (match parse_duration_spec(s@, seq!['d']) {
                Ok(v) => Ok::<Days, Error>(Days(v)),
                Err(e) => Err::<Days, Error>(e),
            }),
    {
        proof {
            reveal_strlit("d");
            assert("d"@ =~= seq!['d']);
        }
        match parse_duration(s, "days", "d") {
            Ok(v) => Ok(Days(v)),
            Err(e) => Err(e),
        }
    }
}

impl Hours {
    /// Parses a token of the form `<digits>h`.
    pub fn parse(s: &str) -> (r: Result<Hours, Error>)
        ensures
            r == (match parse_duration_spec(s@, seq!['h']) {
                Ok(v) => Ok::<Hours, Error>(Hours(v)),
                Err(e) => Err::<Hours, Error>(e),
            }),
    {
        proof {
            reveal_strlit("h");
            assert("h"@ =~= seq!['h']);
        }
        match parse_duration(s, "hours", "h") {
            Ok(v) => Ok(Hours(v)),
            Err(e) => Err(e),
        }
    }
}

impl Minutes {
    /// Parses a token of the form `<digits>m`.
    pub fn parse(s: &str) -> (r: Result<Minutes, Error>)
        ensures
            r == (match parse_duration_spec(s@, seq!['m']) {
                Ok(v) => Ok::<Minutes, Error>(Minutes(v)),
                Err(e) => Err::<Minutes, Error>(e),
            }),
    {
        proof {
            reveal_strlit("m");
            assert("m"@ =~= seq!['m']);
        }
        match parse_duration(s, "minutes", "m") {
            Ok(v) => Ok(Minutes(v)),
            Err(e) => Err(e),
        }
    }
}

impl Seconds {
    /// Parses a token of the form `<digits>s`.
    pub fn parse(s: &str) -> (r: Result<Seconds, Error>)
        ensures
            r == (match parse_duration_spec(s@, seq!['s']) {
                Ok(v) => Ok::<Seconds, Error>(Seconds(v)),
                Err(e) => Err::<Seconds, Error>(e),
            }),
    {
        proof {
            reveal_strlit("s");
            assert("s"@ =~= seq!['s']);
        }
        match parse_duration(s, "seconds", "s") {
            Ok(v) => Ok(Seconds(v)),
            Err(e) => Err(e),
        }
    }
}

/// Whether `c` is an ASCII whitespace character.
fn is_space(c: char) -> (r: bool)
    ensures
        r == is_space_char(c),
{
    c == ' ' || c == '\t' || c == '\n' || c == '\r'
}

/// `s` with its leading whitespace removed.
pub open spec fn trim_front(s: Seq<char>) -> Seq<char>
    decreases s.len(),
{
    if s.len() > 0 && is_space_char(s[0]) {
        trim_front(s.drop_first())
    } else {
        s
    }
}

/// `s` with its trailing whitespace removed.
pub open spec fn trim_back(s: Seq<char>) -> Seq<char>
    decreases s.len(),
{
    if s.len() > 0 && is_space_char(s.last()) {
        trim_back(s.drop_last())
    } else {
        s
    }
}

/// `s` with leading and trailing whitespace removed.
pub open spec fn trim_spec(s: Seq<char>) -> Seq<char> {
    trim_back(trim_front(s))
}

/// Removes leading and trailing whitespace.
pub fn trim<'a>(s: &'a str) -> (r: &'a str)
    ensures
        r@ == trim_spec(s@),
{
    let n = s.unicode_len();
    proof {
        assert(s@.skip(0) =~= s@);
    }
    let mut lo: usize = 0;
    while lo < n && is_space(s.get_char(lo))
        invariant
            0 <= lo <= n == s@.len(),
            trim_front(s@) == trim_front(s@.skip(lo as int)),
        decreases n - lo,
    {
        proof {
            assert(s@.skip(lo as int).drop_first() =~= s@.skip(lo as int + 1));
        }
        lo = lo + 1;
    }
    let ghost t = s@.skip(lo as int);
    proof {
        assert(trim_front(s@) == t);
        assert(t.take(n - lo) =~= t);
    }
    let mut hi: usize = n;
    while hi > lo && is_space(s.get_char(hi - 1))
        invariant
            lo <= hi <= n == s@.len(),
            t == s@.skip(lo as int),
            trim_back(t) == trim_back(t.take(hi - lo)),
        decreases hi,
    {
        proof {
            let u = t.take(hi - lo);
            assert(u.last() == s@[hi - 1]);
            assert(u.drop_last() =~= t.take(hi - lo - 1));
        }
        hi = hi - 1;
    }
    proof {
        assert(t.take(n - lo) =~= t);
        let u = t.take(hi - lo);
        if hi > lo {
            assert(u.last() == s@[hi - 1]);
        }
        assert(trim_back(u) == u);
        assert(s@.subrange(lo as int, hi as int) =~= u);
    }
    s.substring_char(lo, hi)
}

/// The index of the first space in `s`, or `s.len()` where there is none.
pub open spec fn first_space(s: Seq<char>) -> int
    decreases s.len(),
{
    if s.len() == 0 {
        0
    } else if s[0] == ' ' {
        0
    } else {
        1 + first_space(s.drop_first())
    }
}

proof fn lemma_first_space(s: Seq<char>)
    ensures
        0 <= first_space(s) <= s.len(),
        first_space(s) < s.len() ==> s[first_space(s)] == ' ',
        forall|j: int| 0 <= j < first_space(s) ==> s[j] != ' ',
    decreases s.len(),
{
    if s.len() > 0 && s[0] != ' ' {
        lemma_first_space(s.drop_first());
        assert forall|j: int| 0 <= j < first_space(s) implies s[j] != ' ' by {
            if j > 0 {
                assert(s[j] == s.drop_first()[j - 1]);
            }
        }
    }
}

proof fn lemma_first_space_is(s: Seq<char>, k: int)
    requires
        0 <= k <= s.len(),
        forall|j: int| 0 <= j < k ==> s[j] != ' ',
        k < s.len() ==> s[k] == ' ',
    ensures
        first_space(s) == k,
    decreases k,
{
    if k > 0 {
        lemma_first_space_is(s.drop_first(), k - 1);
    }
}

/// The segments of `s` between its spaces.  Consecutive spaces, or a
/// leading or trailing space, yield empty segments, as splitting does.
pub open spec fn split_spaces(s: Seq<char>) -> Seq<Seq<char>>
    decreases s.len(),
    via split_spaces_decreases
{
    let k = first_space(s);
    if k >= s.len() {
        seq![s]
    } else {
        seq![s.take(k)] + split_spaces(s.skip(k + 1))
    }
}

#[via_fn]
proof fn split_spaces_decreases(s: Seq<char>) {
    lemma_first_space(s);
}

/// The unit magnitudes collected so far while reading one operand's
/// tokens: `None` marks a unit not yet seen.
#[derive(Debug, Clone, Copy, PartialEq, Eq, Structural)]
pub struct PartialDuration {
    pub weeks: Option<u64>,
    pub days: Option<u64>,
    pub hours: Option<u64>,
    pub minutes: Option<u64>,
    pub seconds: Option<u64>,
}

/// The collection state before any token has been read.
pub open spec fn no_units() -> PartialDuration {
    PartialDuration { weeks: None, days: None, hours: None, minutes: None, seconds: None }
}

/// What reading one unit token does to the collection state: classify the
/// token by its trailing character, reject a unit already seen, and parse
/// the numeric prefix.
pub open spec fn apply_token(acc: PartialDuration, seg: Seq<char>) -> Result<
    PartialDuration,
    Error,
> {
    if seg.len() == 0 {
        Err(Error::MissingSuffix)
    } else {
        let c = seg.last();
        let pre = seg.drop_last();
        if c == 'w' {
            if acc.weeks is Some {
                Err(Error::DuplicateUnit(UnitKind::Weeks))
            } else {
                match magnitude_of(pre) {
                    Ok(v) => Ok(PartialDuration { weeks: Some(v), ..acc }),
                    Err(e) => Err(e),
                }
            }
        } else if c == 'd' {
            if acc.days is Some {
                Err(Error::DuplicateUnit(UnitKind::Days))
            } else {
                match magnitude_of(pre) {
                    Ok(v) => Ok(PartialDuration { days: Some(v), ..acc }),
                    Err(e) => Err(e),
                }
            }
        } else if c == 'h' {
            if acc.hours is Some {
                Err(Error::DuplicateUnit(UnitKind::Hours))
            } else {
                match magnitude_of(pre) {
                    Ok(v) => Ok(PartialDuration { hours: Some(v), ..acc }),
                    Err(e) => Err(e),
                }
            }
        } else if c == 'm' {
            if acc.minutes is Some {
                Err(Error::DuplicateUnit(UnitKind::Minutes))
            } else {
                match magnitude_of(pre) {
                    Ok(v) => Ok(PartialDuration { minutes: Some(v), ..acc }),
                    Err(e) => Err(e),
                }
            }
        } else if c == 's' {
            if acc.seconds is Some {
                Err(Error::DuplicateUnit(UnitKind::Seconds))
            } else {
                match magnitude_of(pre) {
                    Ok(v) => Ok(PartialDuration { seconds: Some(v), ..acc }),
                    Err(e) => Err(e),
                }
            }
        } else {
            Err(Error::UnknownSuffix(c))
        }
    }
}

/// Reading a whole operand's tokens, left to right, stopping at the first
/// failing token.
pub open spec fn fold_tokens(segs: Seq<Seq<char>>, acc: PartialDuration) -> Result<
    PartialDuration,
    Error,
>
    decreases segs.len(),
{
    if segs.len() == 0 {
        Ok(acc)
    } else {
        match apply_token(acc, segs[0]) {
            Ok(a) => fold_tokens(segs.drop_first(), a),
            Err(e) => Err(e),
        }
    }
}

/// A unit not named in the operand defaults to zero magnitude.
pub open spec fn or_zero(v: Option<u64>) -> u64 {
    match v {
        Some(x) => x,
        None => 0,
    }
}

/// The duration described by a completed collection state.
pub open spec fn filled(p: PartialDuration) -> Duration {
    Duration {
        weeks: Weeks(or_zero(p.weeks)),
        days: Days(or_zero(p.days)),
        hours: Hours(or_zero(p.hours)),
        minutes: Minutes(or_zero(p.minutes)),
        seconds: Seconds(or_zero(p.seconds)),
    }
}

/// What parsing one operand string yields: its space-separated unit tokens
/// folded into a duration, or the error raised by the leftmost bad token.
pub open spec fn parse_operand(s: Seq<char>) -> Result<Duration, Error> {
    match fold_tokens(split_spaces(s), no_units()) {
        Ok(p) => Ok(filled(p)),
        Err(e) => Err(e),
    }
}

/// Reads the token at `[from, to)` of `s` into the collection state.
fn apply_token_exec(s: &str, from: usize, to: usize, acc: PartialDuration) -> (r: Result<
    PartialDuration,
    Error,
>)
    requires
        from <= to <= s@.len(),
    ensures
        r == apply_token(acc, s@.subrange(from as int, to as int)),
{
    let ghost seg = s@.subrange(from as int, to as int);
    if from == to {
        return Err(Error::MissingSuffix);
    }
    let c = s.get_char(to - 1);
    proof {
        assert(seg.last() == c);
        assert(seg.drop_last() =~= s@.subrange(from as int, to as int - 1));
    }
    if c == 'w' {
        if acc.weeks.is_some() {
            Err(Error::DuplicateUnit(UnitKind::Weeks))
        } else {
            match parse_digits(s, from, to - 1) {
                Ok(v) => Ok(PartialDuration { weeks: Some(v), ..acc }),
                Err(e) => Err(e),
            }
        }
    } else if c == 'd' {
        if acc.days.is_some() {
            Err(Error::DuplicateUnit(UnitKind::Days))
        } else {
            match parse_digits(s, from, to - 1) {
                Ok(v) => Ok(PartialDuration { days: Some(v), ..acc }),
                Err(e) => Err(e),
            }
        }
    } else if c == 'h' {
        if acc.hours.is_some() {
            Err(Error::DuplicateUnit(UnitKind::Hours))
        } else {
            match parse_digits(s, from, to - 1) {
                Ok(v) => Ok(PartialDuration { hours: Some(v), ..acc }),
                Err(e) => Err(e),
            }
        }
    } else if c == 'm' {
        if acc.minutes.is_some() {
            Err(Error::DuplicateUnit(UnitKind::Minutes))
        } else {
            match parse_digits(s, from, to - 1) {
                Ok(v) => Ok(PartialDuration { minutes: Some(v), ..acc }),
                Err(e) => Err(e),
            }
        }
    } else if c == 's' {
        if acc.seconds.is_some() {
            Err(Error::DuplicateUnit(UnitKind::Seconds))
        } else {
            match parse_digits(s, from, to - 1) {
                Ok(v) => Ok(PartialDuration { seconds: Some(v), ..acc }),
                Err(e) => Err(e),
            }
        }
    } else {
        Err(Error::UnknownSuffix(c))
    }
}

impl Duration {
    /// Parses one operand: whitespace-separated unit tokens in any order,
    /// each unit at most once, units left out defaulting to zero.
    pub fn from_text(s: &str) -> (r: Result<Duration, Error>)
        ensures
            r == parse_operand(s@),
    {
        let n = s.unicode_len();
        let mut acc = PartialDuration {
            weeks: None,
            days: None,
            hours: None,
            minutes: None,
            seconds: None,
        };
        let mut i: usize = 0;
        proof {
            assert(s@.skip(0) =~= s@);
        }
        loop
            invariant
                0 <= i <= n == s@.len(),
                fold_tokens(split_spaces(s@.skip(i as int)), acc) == fold_tokens(
                    split_spaces(s@),
                    no_units(),
                ),
            decreases n - i + 1,
        {
            let ghost rest = s@.skip(i as int);
            let mut j: usize = i;
            while j < n && s.get_char(j) != ' '
                invariant
                    i <= j <= n == s@.len(),
                    forall|t: int| i <= t < j ==> s@[t] != ' ',
                decreases n - j,
            {
                j = j + 1;
            }
            proof {
                assert(forall|t: int| 0 <= t < j - i ==> rest[t] == s@[i + t]);
                if j < n {
                    assert(rest[j - i] == s@[j as int]);
                }
                lemma_first_space_is(rest, j - i);
                assert(rest.take(j - i) =~= s@.subrange(i as int, j as int));
            }
            let step = apply_token_exec(s, i, j, acc);
            if j == n {
                proof {
                    assert(rest.take(j - i) =~= rest);
                    assert(s@.subrange(i as int, j as int) == rest);
                    assert(split_spaces(rest) == seq![rest]);
                    assert(seq![rest][0] == rest);
                    assert(split_spaces(rest).drop_first() =~= Seq::<Seq<char>>::empty());
                }
                match step {
                    Ok(a) => {
                        proof {
                            assert(fold_tokens(Seq::<Seq<char>>::empty(), a) == Ok::<
                                PartialDuration,
                                Error,
                            >(a));
                            assert(fold_tokens(split_spaces(rest), acc) == Ok::<
                                PartialDuration,
                                Error,
                            >(a));
                            assert(parse_operand(s@) == Ok::<Duration, Error>(filled(a)));
                        }
                        return Ok(Duration {
                            weeks: Weeks(
                                match a.weeks {
                                    Some(v) => v,
                                    None => 0,
                                },
                            ),
                            days: Days(
                                match a.days {
                                    Some(v) => v,
                                    None => 0,
                                },
                            ),
                            hours: Hours(
                                match a.hours {
                                    Some(v) => v,
                                    None => 0,
                                },
                            ),
                            minutes: Minutes(
                                match a.minutes {
                                    Some(v) => v,
                                    None => 0,
                                },
                            ),
                            seconds: Seconds(
                                match a.seconds {
                                    Some(v) => v,
                                    None => 0,
                                },
                            ),
                        });
                    },
                    Err(e) => {
                        return Err(e);
                    },
                }
            } else {
                proof {
                    assert(split_spaces(rest) == seq![rest.take(j - i)] + split_spaces(
                        rest.skip(j - i + 1),
                    ));
                    assert((seq![rest.take(j - i)] + split_spaces(rest.skip(j - i + 1)))[0]
                        == rest.take(j - i));
                    assert((seq![rest.take(j - i)] + split_spaces(rest.skip(j - i + 1)))
                        .drop_first() =~= split_spaces(rest.skip(j - i + 1)));
                    assert(rest.skip(j - i + 1) =~= s@.skip(j as int + 1));
                }
                match step {
                    Ok(a) => {
                        acc = a;
                    },
                    Err(e) => {
                        return Err(e);
                    },
                }
                i = j + 1;
            }
        }
    }
}

/// Whether `c` is one of the two operators.
pub fn is_op(c: char) -> (r: bool)
    ensures
        r == (c == '+' || c == '-'),
{
    c == '+' || c == '-'
}

/// The first character of `s`, or an empty-operand error where there is
/// none.
pub fn first_char(s: &str) -> (r: Result<char, Error>)
    ensures
        r == (if s@.len() == 0 {
            Err::<char, Error>(Error::EmptyOperand)
        } else {
            Ok::<char, Error>(s@[0])
        }),
{
    if s.unicode_len() == 0 {
        Err(Error::EmptyOperand)
    } else {
        Ok(s.get_char(0))
    }
}

/// One item of a parsed expression: an operand already reduced to its
/// second count, or one of the two operators.
#[derive(Debug, Clone, Copy, PartialEq, Eq, Structural)]
pub enum Phrase {
    Seconds(u64),
    Plus,
    Minus,
}

/// A parsed expression: phrases in textual order.
pub type Equation = Vec<Phrase>;

/// What classifying one trimmed token group yields: an operator where the
/// group is exactly `+` or `-`, an error where it is empty, and otherwise
/// the operand's total second count.
pub open spec fn phrase_of(s: Seq<char>) -> Result<Phrase, Error> {
    if s.len() == 1 && s[0] == '+' {
        Ok(Phrase::Plus)
    } else if s.len() == 1 && s[0] == '-' {
        Ok(Phrase::Minus)
    } else if s.len() == 0 {
        Err(Error::EmptyOperand)
    } else {
        match parse_operand(s) {
            Ok(d) => if d.total_seconds() <= u64::MAX {
                Ok(Phrase::Seconds(d.total_seconds() as u64))
            } else {
                Err(Error::Overflow)
            },
            Err(e) => Err(e),
        }
    }
}

impl Phrase {
    /// Classifies one token group: operator, empty, or operand.
    pub fn parse(s: &str) -> (r: Result<Phrase, Error>)
        ensures
            r == phrase_of(s@),
    {
        let n = s.unicode_len();
        if n == 1 {
            let c = s.get_char(0);
            if c == '+' {
                return Ok(Phrase::Plus);
            }
            if c == '-' {
                return Ok(Phrase::Minus);
            }
        }
        if n == 0 {
            return Err(Error::EmptyOperand);
        }
        match Duration::from_text(s) {
            Ok(d) => match d.checked_seconds() {
                Some(v) => Ok(Phrase::Seconds(v)),
                None => Err(Error::Overflow),
            },
            Err(e) => Err(e),
        }
    }
}

/// The character sequences of a list of strings.
pub open spec fn strs_view(input: Seq<String>) -> Seq<Seq<char>> {
    input.map_values(|s: String| s@)
}

/// What grouping the raw tokens yields.  Tokens are accumulated into a
/// running operand buffer; a token whose first character is an operator
/// flushes the buffer as one operand and stands as an item of its own; the
/// final buffer is flushed at the end of the input.
pub open spec fn build_equation(
    parts: Seq<Seq<char>>,
    buf: Seq<char>,
    out: Seq<Phrase>,
) -> Result<Seq<Phrase>, Error>
    decreases parts.len(),
{
    if parts.len() == 0 {
        match phrase_of(trim_spec(buf)) {
            Ok(p) => Ok(out.push(p)),
            Err(e) => Err(e),
        }
    } else {
        let t = trim_spec(parts[0]);
        if t.len() == 0 {
            Err(Error::EmptyOperand)
        } else if t[0] == '+' || t[0] == '-' {
            match phrase_of(trim_spec(buf)) {
                Ok(p) => match phrase_of(t) {
                    Ok(q) => build_equation(
                        parts.drop_first(),
                        seq![],
                        out.push(p).push(q),
                    ),
                    Err(e) => Err(e),
                },
                Err(e) => Err(e),
            }
        } else {
            build_equation(parts.drop_first(), buf + seq![' '] + t, out)
        }
    }
}

/// What parsing the whole raw token list yields: the alternating sequence
/// of operands and operators, or the leftmost error.
pub open spec fn equation_spec(parts: Seq<Seq<char>>) -> Result<Seq<Phrase>, Error> {
    build_equation(parts, seq![], seq![])
}

/// Groups the raw input tokens into an alternating sequence of operand and
/// operator phrases.  An operand may span several input tokens; a token
/// that begins with `+` or `-` ends the operand before it.
pub fn parse_equation(input: &[String]) -> (r: Result<Equation, Error>)
    ensures
        match r {
            Ok(v) => equation_spec(strs_view(input@)) == Ok::<Seq<Phrase>, Error>(v@),
            Err(e) => equation_spec(strs_view(input@)) == Err::<Seq<Phrase>, Error>(e),
        },
{
    let ghost parts = strs_view(input@);
    let mut out: Vec<Phrase> = Vec::new();
    let mut buf = String::new();
    let n = input.len();
    let mut i: usize = 0;
    proof {
        assert(parts.skip(0) =~= parts);
    }
    while i < n
        invariant
            0 <= i <= n == input@.len(),
            parts == strs_view(input@),
            build_equation(parts.skip(i as int), buf@, out@) == equation_spec(parts),
        decreases n - i,
    {
        let ghost rest = parts.skip(i as int);
        proof {
            assert(rest[0] == input@[i as int]@);
            assert(rest.drop_first() =~= parts.skip(i as int + 1));
        }
        let part: &String = vstd::slice::slice_index_get(input, i);
        let t = trim(part.as_str());
        let c = match first_char(t) {
            Ok(c) => c,
            Err(e) => {
                return Err(e);
            },
        };
        if is_op(c) {
            let flushed = trim(buf.as_str());
            match Phrase::parse(flushed) {
                Ok(p) => {
                    out.push(p);
                },
                Err(e) => {
                    return Err(e);
                },
            }
            match Phrase::parse(t) {
                Ok(q) => {
                    out.push(q);
                },
                Err(e) => {
                    return Err(e);
                },
            }
            buf = String::new();
        } else {
            proof {
                reveal_strlit(" ");
                assert(" "@ =~= seq![' ']);
            }
            buf.append(" ");
            buf.append(t);
        }
        i = i + 1;
    }
    proof {
        assert(parts.skip(i as int) =~= Seq::<Seq<char>>::empty());
    }
    let flushed = trim(buf.as_str());
    match Phrase::parse(flushed) {
        Ok(p) => {
            out.push(p);
            Ok(out)
        },
        Err(e) => Err(e),
    }
}

} // verus!
