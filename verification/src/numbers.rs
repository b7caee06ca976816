//! Numeric literal parsing: digit strings in a radix, signed values, and
//! the radix-prefix (`0x`, `0b`) dispatch shared by both parsers.
use vstd::prelude::*;

verus! {

/// The value of one digit character, hexadecimal digits included.
pub open spec fn digit_value(c: char) -> Option<u64> {
    if '0' <= c && c <= '9' {
        Some((c as u32 - '0' as u32) as u64)
    } else if 'a' <= c && c <= 'f' {
        Some((c as u32 - 'a' as u32 + 10) as u64)
    } else if 'A' <= c && c <= 'F' {
        Some((c as u32 - 'A' as u32 + 10) as u64)
    } else {
        None
    }
}

pub fn digit_of(c: char) -> (r: Option<u64>)
    ensures
        r == digit_value(c),
{
    if '0' <= c && c <= '9' {
        Some((c as u32 - '0' as u32) as u64)
    } else if 'a' <= c && c <= 'f' {
        Some((c as u32 - 'a' as u32 + 10) as u64)
    } else if 'A' <= c && c <= 'F' {
        Some((c as u32 - 'A' as u32 + 10) as u64)
    } else {
        None
    }
}

/// The magnitude written by a digit string in the given radix; `None` as
/// soon as one character is no digit of that radix. The empty string reads
/// as zero; callers reject it.
pub open spec fn digits_spec(s: Seq<char>, radix: u64) -> Option<nat>
    decreases s.len(),
{
    if s.len() == 0 {
        Some(0)
    } else {
        match digits_spec(s.drop_last(), radix) {
            Some(a) => match digit_value(s.last()) {
                Some(d) => if d < radix {
                    Some((a * (radix as nat) + d) as nat)
                } else {
                    None
                },
                None => None,
            },
            None => None,
        }
    }
}

/// A digit string's value only grows as digits are appended: the value of
/// any prefix is defined and no larger than the whole string's.
pub proof fn lemma_digits_prefix(s: Seq<char>, radix: u64, k: int)
    requires
        1 <= radix,
        0 <= k <= s.len(),
        digits_spec(s, radix) is Some,
    ensures
        digits_spec(s.take(k), radix) is Some,
        digits_spec(s.take(k), radix)->0 <= digits_spec(s, radix)->0,
    decreases s.len() - k,
{
    if k == s.len() {
        assert(s.take(k) =~= s);
    } else {
        let t = s.drop_last();
        assert(s.take(k) =~= t.take(k));
        lemma_digits_prefix(t, radix, k);
        let a = digits_spec(t, radix)->0;
        let d = digit_value(s.last())->0;
        assert(a * (radix as nat) >= a * 1) by (nonlinear_arith)
            requires
                radix >= 1,
        ;
    }
}

/// Reads the digit substring `v[from..to]` in the given radix.
/// `None` when some character is no digit of the radix or the value
/// exceeds `u64::MAX`.
pub fn parse_digits(v: &Vec<char>, from: usize, to: usize, radix: u64) -> (r: Option<u64>)
    requires
        from <= to <= v@.len(),
        2 <= radix <= 16,
    ensures
        match r {
            Some(x) => digits_spec(v@.subrange(from as int, to as int), radix) == Some(x as nat),
            None => {
                let d = digits_spec(v@.subrange(from as int, to as int), radix);
                d is None || d->0 > u64::MAX
            },
        },
{
    let ghost s = v@.subrange(from as int, to as int);
    let mut acc: u64 = 0;
    let mut i: usize = from;
    proof {
        assert(s.take(0) =~= Seq::<char>::empty());
    }
    while i < to
        invariant
            from <= i <= to <= v@.len(),
            2 <= radix <= 16,
            s == v@.subrange(from as int, to as int),
            digits_spec(s.take(i - from), radix) == Some(acc as nat),
        decreases to - i,
    {
        let ghost pre = s.take(i - from);
        let c = v[i];
        proof {
            assert(s.take(i - from + 1).drop_last() =~= pre);
            assert(s.take(i - from + 1).last() == c);
        }
        match digit_of(c) {
            None => {
                proof {
                    if digits_spec(s, radix) is Some {
                        lemma_digits_prefix(s, radix, i - from + 1);
                    }
                }
                return None;
            },
            Some(d) => {
                if d >= radix {
                    proof {
                        if digits_spec(s, radix) is Some {
                            lemma_digits_prefix(s, radix, i - from + 1);
                        }
                    }
                    return None;
                }
                let m = acc.checked_mul(radix);
                match m {
                    None => {
                        proof {
                            assert((acc as nat) * (radix as nat) > u64::MAX);
                            assert(digits_spec(s.take(i - from + 1), radix)->0 > u64::MAX);
                            if digits_spec(s, radix) is Some {
                                lemma_digits_prefix(s, radix, i - from + 1);
                            }
                        }
                        return None;
                    },
                    Some(m) => {
                        match m.checked_add(d) {
                            None => {
                                proof {
                                    if digits_spec(s, radix) is Some {
                                        lemma_digits_prefix(s, radix, i - from + 1);
                                    }
                                }
                                return None;
                            },
                            Some(x) => {
                                acc = x;
                            },
                        }
                    },
                }
            },
        }
        i = i + 1;
    }
    proof {
        assert(s.take(to - from) =~= s);
    }
    Some(acc)
}

/// The signed value a literal writes in the given radix: an optional
/// leading minus sign followed by at least one digit, within `i64` range.
pub open spec fn parse_int_spec(s: Seq<char>, radix: u64) -> Option<i64> {
    if s.len() == 0 {
        None
    } else if s[0] == '-' {
        let rest = s.drop_first();
        if rest.len() == 0 {
            None
        } else {
            match digits_spec(rest, radix) {
                Some(m) => if m <= 0x8000000000000000 {
                    Some((-(m as int)) as i64)
                } else {
                    None
                },
                None => None,
            }
        }
    } else {
        match digits_spec(s, radix) {
            Some(m) => if m <= i64::MAX {
                Some(m as i64)
            } else {
                None
            },
            None => None,
        }
    }
}

/// Reads a signed literal from `v[from..]` in the given radix.
pub fn parse_int(v: &Vec<char>, from: usize, radix: u64) -> (r: Option<i64>)
    requires
        from <= v@.len(),
        2 <= radix <= 16,
    ensures
        r == parse_int_spec(v@.subrange(from as int, v@.len() as int), radix),
{
    let ghost s = v@.subrange(from as int, v@.len() as int);
    let n = v.len();
    if from >= n {
        return None;
    }
    if v[from] == '-' {
        proof {
            assert(s.drop_first() =~= v@.subrange(from + 1, v@.len() as int));
        }
        if from + 1 >= n {
            return None;
        }
        match parse_digits(v, from + 1, n, radix) {
            Some(m) => {
                if m <= 0x7fffffffffffffff {
                    Some(-(m as i64))
                } else if m == 0x8000000000000000 {
                    Some(i64::MIN)
                } else {
                    None
                }
            },
            None => None,
        }
    } else {
        match parse_digits(v, from, n, radix) {
            Some(m) => {
                if m <= 0x7fffffffffffffff {
                    Some(m as i64)
                } else {
                    None
                }
            },
            None => None,
        }
    }
}

/// The value of a numeric literal: `0x`/`0X` hexadecimal, `0b`/`0B`
/// binary, decimal otherwise.
pub open spec fn parse_number_spec(s: Seq<char>) -> Option<i64> {
    if s.len() > 2 && s[0] == '0' && (s[1] == 'x' || s[1] == 'X') {
        parse_int_spec(s.skip(2), 16)
    } else if s.len() > 2 && s[0] == '0' && (s[1] == 'b' || s[1] == 'B') {
        parse_int_spec(s.skip(2), 2)
    } else {
        parse_int_spec(s, 10)
    }
}

/// Reads a numeric literal with an optional radix prefix.
pub fn parse_number(v: &Vec<char>) -> (r: Option<i64>)
    ensures
        r == parse_number_spec(v@),
{
    let n = v.len();
    proof {
        assert(v@.subrange(0, n as int) =~= v@);
    }
    if n > 2 && v[0] == '0' && (v[1] == 'x' || v[1] == 'X') {
        proof {
            assert(v@.skip(2) =~= v@.subrange(2, n as int));
        }
        parse_int(v, 2, 16)
    } else if n > 2 && v[0] == '0' && (v[1] == 'b' || v[1] == 'B') {
        proof {
            assert(v@.skip(2) =~= v@.subrange(2, n as int));
        }
        parse_int(v, 2, 2)
    } else {
        proof {
            assert(v@.skip(0) =~= v@);
        }
        parse_int(v, 0, 10)
    }
}

} // verus!
