//! The size-limit grammar: a non-negative integer, optionally followed by a
//! case-insensitive unit suffix. A bare single letter (`k`, `m`, `g`, `t`)
//! is the binary multiplier, the two-letter decimal suffix (`kb`, `mb`, ...)
//! the decimal one, and the `...ib` suffix the binary one explicitly.

use vstd::prelude::*;
use vstd::string::StringSliceAdditionalSpecFns;

verus! {

pub const UNIT_B: u64 = 1;

pub const LETTER_B: u8 = 98;

pub const LETTER_G: u8 = 103;

pub const LETTER_I: u8 = 105;

pub const LETTER_K: u8 = 107;

pub const LETTER_M: u8 = 109;

pub const LETTER_T: u8 = 116;

pub const UNIT_KB: u64 = 1000;

pub const UNIT_KIB: u64 = 1024;

pub const UNIT_MB: u64 = 1000 * 1000;

pub const UNIT_MIB: u64 = 1024 * 1024;

pub const UNIT_GB: u64 = 1000 * 1000 * 1000;

pub const UNIT_GIB: u64 = 1024 * 1024 * 1024;

pub const UNIT_TB: u64 = 1000 * 1000 * 1000 * 1000;

pub const UNIT_TIB: u64 = 1024 * 1024 * 1024 * 1024;

/// ASCII whitespace, as it may stand between the number and its unit.
pub open spec fn is_ascii_space(b: u8) -> bool {
    b == 32 || (9 <= b <= 13)
}

/// ASCII upper case folded to lower case; other bytes unchanged.
pub open spec fn lower_byte(b: u8) -> u8 {
    if 65 <= b <= 90 {
        (b + 32) as u8
    } else {
        b
    }
}

pub open spec fn lower_bytes(s: Seq<u8>) -> Seq<u8> {
    s.map_values(|b: u8| lower_byte(b))
}

pub open spec fn is_digit_byte(b: u8) -> bool {
    48 <= b <= 57
}

pub open spec fn all_digits(s: Seq<u8>) -> bool {
    forall|i: int| 0 <= i < s.len() ==> is_digit_byte(#[trigger] s[i])
}

/// The number a string of decimal digits denotes.
pub open spec fn digits_value(s: Seq<u8>) -> int
    decreases s.len(),
{
    if s.len() == 0 {
        0
    } else {
        10 * digits_value(s.drop_last()) + (s.last() - 48)
    }
}

pub open spec fn trim_front(s: Seq<u8>) -> Seq<u8>
    decreases s.len(),
{
    if s.len() > 0 && is_ascii_space(s[0]) {
        trim_front(s.drop_first())
    } else {
        s
    }
}

pub open spec fn trim_back(s: Seq<u8>) -> Seq<u8>
    decreases s.len(),
{
    if s.len() > 0 && is_ascii_space(s.last()) {
        trim_back(s.drop_last())
    } else {
        s
    }
}

/// The string without its leading and trailing ASCII whitespace.
pub open spec fn trimmed(s: Seq<u8>) -> Seq<u8> {
    trim_back(trim_front(s))
}

pub open spec fn ends1(s: Seq<u8>, a: u8) -> bool {
    s.len() >= 1 && s[s.len() - 1] == a
}

pub open spec fn ends2(s: Seq<u8>, a: u8, b: u8) -> bool {
    s.len() >= 2 && s[s.len() - 2] == a && s[s.len() - 1] == b
}

pub open spec fn ends3(s: Seq<u8>, a: u8, b: u8, c: u8) -> bool {
    s.len() >= 3 && s[s.len() - 3] == a && s[s.len() - 2] == b && s[s.len() - 1] == c
}

/// Longest-suffix-first unit recognition on the lower-cased input: the
/// numeric part it leaves and the multiplier it denotes, or `None` when no
/// suffix matches.
pub open spec fn unit_split(s: Seq<u8>) -> Option<(Seq<u8>, u64)> {
    if ends2(s, LETTER_T, LETTER_B) {
        Some((s.take(s.len() - 2), UNIT_TB))
    } else if ends3(s, LETTER_T, LETTER_I, LETTER_B) {
        Some((s.take(s.len() - 3), UNIT_TIB))
    } else if ends1(s, LETTER_T) {
        Some((s.take(s.len() - 1), UNIT_TIB))
    } else if ends2(s, LETTER_G, LETTER_B) {
        Some((s.take(s.len() - 2), UNIT_GB))
    } else if ends3(s, LETTER_G, LETTER_I, LETTER_B) {
        Some((s.take(s.len() - 3), UNIT_GIB))
    } else if ends1(s, LETTER_G) {
        Some((s.take(s.len() - 1), UNIT_GIB))
    } else if ends2(s, LETTER_M, LETTER_B) {
        Some((s.take(s.len() - 2), UNIT_MB))
    } else if ends3(s, LETTER_M, LETTER_I, LETTER_B) {
        Some((s.take(s.len() - 3), UNIT_MIB))
    } else if ends1(s, LETTER_M) {
        Some((s.take(s.len() - 1), UNIT_MIB))
    } else if ends2(s, LETTER_K, LETTER_B) {
        Some((s.take(s.len() - 2), UNIT_KB))
    } else if ends3(s, LETTER_K, LETTER_I, LETTER_B) {
        Some((s.take(s.len() - 3), UNIT_KIB))
    } else if ends1(s, LETTER_K) {
        Some((s.take(s.len() - 1), UNIT_KIB))
    } else if ends1(s, LETTER_B) {
        Some((s.take(s.len() - 1), UNIT_B))
    } else {
        None
    }
}

/// The value a trimmed numeric part denotes under a unit multiplier:
/// defined only for a non-empty all-digit part whose scaled value fits in a
/// byte count.
pub open spec fn number_value(num: Seq<u8>, unit: u64) -> Option<u64> {
    if num.len() > 0 && all_digits(num) && digits_value(num) * unit <= u64::MAX {
        Some((digits_value(num) * unit) as u64)
    } else {
        None
    }
}

/// What a size-limit string denotes, over its UTF-8 bytes: lower-case the
/// input, split off the longest matching unit suffix, trim the numeric
/// part, and scale. `None` is a parse error.
pub open spec fn parse_limit_spec(s: Seq<u8>) -> Option<u64> {
    let low = lower_bytes(s);
    match unit_split(low) {
        Some((num, unit)) => number_value(trimmed(num), unit),
        None => number_value(trimmed(low), UNIT_B),
    }
}

proof fn lemma_digits_nonneg(s: Seq<u8>)
    requires
        all_digits(s),
    ensures
        digits_value(s) >= 0,
    decreases s.len(),
{
    if s.len() > 0 {
        assert(forall|i: int| 0 <= i < s.drop_last().len() ==> #[trigger] s.drop_last()[i] == s[i]);
        lemma_digits_nonneg(s.drop_last());
    }
}

proof fn lemma_digits_prefix(s: Seq<u8>, i: int)
    requires
        all_digits(s),
        0 <= i <= s.len(),
    ensures
        digits_value(s.take(i)) <= digits_value(s),
    decreases s.len() - i,
{
    if i == s.len() {
        assert(s.take(i) =~= s);
    } else {
        lemma_digits_prefix(s, i + 1);
        assert(s.take(i + 1).drop_last() =~= s.take(i));
        assert(s.take(i + 1).last() == s[i]);
        assert(forall|j: int| 0 <= j < s.take(i).len() ==> #[trigger] s.take(i)[j] == s[j]);
        lemma_digits_nonneg(s.take(i));
    }
}

proof fn lemma_trim_front_skip(s: Seq<u8>, k: int)
    requires
        0 <= k <= s.len(),
        forall|j: int| 0 <= j < k ==> is_ascii_space(#[trigger] s[j]),
        k == s.len() || !is_ascii_space(s[k]),
    ensures
        trim_front(s) == s.skip(k),
    decreases k,
{
    if k == 0 {
        assert(s.skip(0) =~= s);
    } else {
        let t = s.drop_first();
        assert(t =~= s.skip(1));
        assert(forall|j: int| 0 <= j < k - 1 ==> is_ascii_space(#[trigger] t[j]));
        lemma_trim_front_skip(t, k - 1);
        assert(t.skip(k - 1) =~= s.skip(k));
    }
}

proof fn lemma_trim_back_take(s: Seq<u8>, k: int)
    requires
        0 <= k <= s.len(),
        forall|j: int| k <= j < s.len() ==> is_ascii_space(#[trigger] s[j]),
        k == 0 || !is_ascii_space(s[k - 1]),
    ensures
        trim_back(s) == s.take(k),
    decreases s.len() - k,
{
    if k == s.len() {
        assert(s.take(k) =~= s);
    } else {
        let t = s.drop_last();
        assert(forall|j: int| k <= j < t.len() ==> is_ascii_space(#[trigger] t[j]));
        lemma_trim_back_take(t, k);
        assert(t.take(k) =~= s.take(k));
    }
}

fn is_space_exec(b: u8) -> (r: bool)
    ensures
        r == is_ascii_space(b),
{
    b == 32 || (b >= 9 && b <= 13)
}

fn to_lower(b: &[u8]) -> (r: Vec<u8>)
    ensures
        r@ == lower_bytes(b@),
{
    let n = b.len();
    let mut out: Vec<u8> = Vec::new();
    let mut i: usize = 0;
    while i < n
        invariant
            i <= n,
            n == b@.len(),
            out@.len() == i,
            forall|j: int| 0 <= j < i ==> out@[j] == lower_byte(#[trigger] b@[j]),
        decreases n - i,
    {
        let c = b[i];
        let lc: u8 = if c >= 65 && c <= 90 {
            c + 32
        } else {
            c
        };
        out.push(lc);
        i += 1;
    }
    proof {
        assert(out@ =~= lower_bytes(b@));
    }
    out
}

/// The prefix of `v` of length `end`, without its leading and trailing
/// ASCII whitespace.
fn trimmed_prefix(v: &Vec<u8>, end: usize) -> (r: Vec<u8>)
    requires
        end <= v@.len(),
    ensures
        r@ == trimmed(v@.take(end as int)),
{
    let ghost s = v@.take(end as int);
    let mut start: usize = 0;
    while start < end && is_space_exec(v[start])
        invariant
            start <= end,
            end <= v@.len(),
            forall|j: int| 0 <= j < start ==> is_ascii_space(#[trigger] v@[j]),
        decreases end - start,
    {
        start += 1;
    }
    let mut stop: usize = end;
    while stop > start && is_space_exec(v[stop - 1])
        invariant
            start <= stop <= end,
            end <= v@.len(),
            forall|j: int| stop <= j < end ==> is_ascii_space(#[trigger] v@[j]),
        decreases stop,
    {
        stop -= 1;
    }
    proof {
        assert(forall|j: int| 0 <= j < end ==> #[trigger] s[j] == v@[j]);
    }
    let mut out: Vec<u8> = Vec::new();
    let mut i: usize = start;
    while i < stop
        invariant
            start <= i <= stop,
            stop <= end <= v@.len(),
            out@ == v@.subrange(start as int, i as int),
        decreases stop - i,
    {
        proof {
            assert(v@.subrange(start as int, i + 1) =~= v@.subrange(start as int, i as int).push(
                v@[i as int],
            ));
        }
        out.push(v[i]);
        i += 1;
    }
    proof {
        lemma_trim_front_skip(s, start as int);
        let t = s.skip(start as int);
        assert(forall|j: int| stop - start <= j < t.len() ==> is_ascii_space(#[trigger] t[j]));
        assert(stop - start == 0 || !is_ascii_space(t[stop - start - 1]));
        lemma_trim_back_take(t, stop - start);
        assert(t.take(stop - start) =~= v@.subrange(start as int, stop as int));
    }
    out
}

/// The digits of `v` read as a byte count, when `v` is non-empty, all
/// digits, and fits.
fn parse_digits(v: &Vec<u8>) -> (r: Option<u64>)
    ensures
        r is Some <==> (v@.len() > 0 && all_digits(v@) && digits_value(v@) <= u64::MAX),
        r matches Some(n) ==> n == digits_value(v@),
{
    let len = v.len();
    if len == 0 {
        return None;
    }
    let mut acc: u64 = 0;
    let mut i: usize = 0;
    while i < len
        invariant
            i <= len,
            len == v@.len(),
            forall|j: int| 0 <= j < i ==> is_digit_byte(#[trigger] v@[j]),
            acc == digits_value(v@.take(i as int)),
        decreases len - i,
    {
        let c = v[i];
        if c < 48 || c > 57 {
            proof {
                assert(!is_digit_byte(v@[i as int]));
            }
            return None;
        }
        let d: u64 = (c - 48) as u64;
        proof {
            assert(v@.take(i + 1).drop_last() =~= v@.take(i as int));
            assert(v@.take(i + 1).last() == v@[i as int]);
        }
        let next: u128 = acc as u128 * 10 + d as u128;
        if next > u64::MAX as u128 {
            proof {
                if all_digits(v@) {
                    lemma_digits_prefix(v@, i + 1);
                }
            }
            return None;
        }
        acc = next as u64;
        i += 1;
    }
    proof {
        assert(v@.take(len as int) =~= v@);
    }
    Some(acc)
}

/// The hint of the accepted grammar that every parse error carries.
pub open spec fn grammar_hint_text() -> Seq<char> {
    "limit must be a number followed by an optional SI unit (GiB, KB, etc)"@
}

fn grammar_hint() -> (r: String)
    ensures
        r@ == grammar_hint_text(),
{
    "limit must be a number followed by an optional SI unit (GiB, KB, etc)".to_owned()
}

/// Parses a textual size limit into a byte count. The numeric part must be
/// a non-negative integer; an optional case-insensitive unit suffix scales
/// it; a value beyond what a byte count can hold is rejected, with a hint
/// of the accepted grammar.
pub fn parse_limit(s: &str) -> (r: Result<u64, String>)
    ensures
        r matches Ok(v) ==> parse_limit_spec(s.spec_bytes()) == Some(v),
        (r is Err) <==> parse_limit_spec(s.spec_bytes()) is None,
        r matches Err(m) ==> m@ == grammar_hint_text(),
{
    let bytes: &[u8] = s.as_bytes();
    let low = to_lower(bytes);
    let n = low.len();
    let (cut, unit): (usize, u64) = if n >= 2 && low[n - 2] == LETTER_T && low[n - 1] == LETTER_B {
        (n - 2, UNIT_TB)
    } else if n >= 3 && low[n - 3] == LETTER_T && low[n - 2] == LETTER_I && low[n - 1] == LETTER_B {
        (n - 3, UNIT_TIB)
    } else if n >= 1 && low[n - 1] == LETTER_T {
        (n - 1, UNIT_TIB)
    } else if n >= 2 && low[n - 2] == LETTER_G && low[n - 1] == LETTER_B {
        (n - 2, UNIT_GB)
    } else if n >= 3 && low[n - 3] == LETTER_G && low[n - 2] == LETTER_I && low[n - 1] == LETTER_B {
        (n - 3, UNIT_GIB)
    } else if n >= 1 && low[n - 1] == LETTER_G {
        (n - 1, UNIT_GIB)
    } else if n >= 2 && low[n - 2] == LETTER_M && low[n - 1] == LETTER_B {
        (n - 2, UNIT_MB)
    } else if n >= 3 && low[n - 3] == LETTER_M && low[n - 2] == LETTER_I && low[n - 1] == LETTER_B {
        (n - 3, UNIT_MIB)
    } else if n >= 1 && low[n - 1] == LETTER_M {
        (n - 1, UNIT_MIB)
    } else if n >= 2 && low[n - 2] == LETTER_K && low[n - 1] == LETTER_B {
        (n - 2, UNIT_KB)
    } else if n >= 3 && low[n - 3] == LETTER_K && low[n - 2] == LETTER_I && low[n - 1] == LETTER_B {
        (n - 3, UNIT_KIB)
    } else if n >= 1 && low[n - 1] == LETTER_K {
        (n - 1, UNIT_KIB)
    } else if n >= 1 && low[n - 1] == LETTER_B {
        (n - 1, UNIT_B)
    } else {
        (n, UNIT_B)
    };
    proof {
        assert(low@.take(n as int) =~= low@);
        assert(match unit_split(low@) {
            Some((num, u)) => num == low@.take(cut as int) && u == unit,
            None => cut == n && unit == UNIT_B,
        });
        assert(unit >= 1);
    }
    let num = trimmed_prefix(&low, cut);
    let ghost tnum = trimmed(low@.take(cut as int));
    match parse_digits(&num) {
        Some(value) => match value.checked_mul(unit) {
            Some(scaled) => {
                proof {
                    assert(number_value(tnum, unit) == Some(scaled));
                }
                Ok(scaled)
            },
            None => {
                proof {
                    assert(number_value(tnum, unit) is None);
                }
                Err(grammar_hint())
            },
        },
        None => {
            proof {
                if tnum.len() > 0 && all_digits(tnum) {
                    lemma_digits_nonneg(tnum);
                    assert(digits_value(tnum) > u64::MAX);
                    assert(digits_value(tnum) * unit >= digits_value(tnum) * 1)
                        by (nonlinear_arith)
                        requires
                            unit >= 1,
                            digits_value(tnum) >= 0,
                    ;
                }
                assert(number_value(tnum, unit) is None);
            }
            Err(grammar_hint())
        },
    }
}

} // verus!
