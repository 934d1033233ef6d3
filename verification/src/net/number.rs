//! Numbers at a position of a text.

use vstd::prelude::*;

verus! {

/// The value of a digit in base ten or sixteen.
pub open spec fn digit_value(c: char, hex: bool) -> Option<nat> {
    if '0' <= c <= '9' {
        Some((c as u32 - '0' as u32) as nat)
    } else if hex && 'a' <= c <= 'f' {
        Some((c as u32 - 'a' as u32 + 10) as nat)
    } else if hex && 'A' <= c <= 'F' {
        Some((c as u32 - 'A' as u32 + 10) as nat)
    } else {
        None
    }
}

pub fn read_digit(c: char, hex: bool) -> (value: Option<u32>)
    ensures
        match value {
            Some(v) => digit_value(c, hex) == Some(v as nat) && v < (if hex {
                16int
            } else {
                10
            }),
            None => digit_value(c, hex) is None,
        },
{
    if '0' <= c && c <= '9' {
        Some(c as u32 - '0' as u32)
    } else if hex && 'a' <= c && c <= 'f' {
        Some(c as u32 - 'a' as u32 + 10)
    } else if hex && 'A' <= c && c <= 'F' {
        Some(c as u32 - 'A' as u32 + 10)
    } else {
        None
    }
}

/// How many digits stand in a row from `at` on.
pub open spec fn run_len(s: Seq<char>, at: int, hex: bool) -> nat
    decreases s.len() - at,
{
    if 0 <= at < s.len() && digit_value(s[at], hex) is Some {
        1 + run_len(s, at + 1, hex)
    } else {
        0
    }
}

/// The number that the digits from `from` up to `to` stand for.
pub open spec fn number(s: Seq<char>, from: int, to: int, hex: bool) -> nat
    decreases to - from,
{
    if to <= from {
        0
    } else {
        let base: nat = if hex {
            16
        } else {
            10
        };
        number(s, from, to - 1, hex) * base + digit_value(s[to - 1], hex)->0
    }
}

/// How a number must be written.
pub struct NumberForm {
    pub hex: bool,
    pub max_digits: Option<usize>,
    pub leading_zero: bool,
    pub max: u32,
}

/// The number at `at`, with the position behind it.
#[verifier::opaque]
pub open spec fn number_at(s: Seq<char>, at: int, form: NumberForm) -> Option<(nat, int)> {
    let count = run_len(s, at, form.hex);
    let value = number(s, at, at + count, form.hex);
    if count == 0 {
        None
    } else if form.max_digits is Some && count > form.max_digits->0 {
        None
    } else if !form.leading_zero && count > 1 && s[at] == '0' {
        None
    } else if value > form.max {
        None
    } else {
        Some((value, at + count))
    }
}

proof fn number_grows(s: Seq<char>, from: int, middle: int, to: int, hex: bool)
    requires
        from <= middle <= to,
    ensures
        number(s, from, middle, hex) <= number(s, from, to, hex),
    decreases to - middle,
{
    if middle < to {
        number_grows(s, from, middle, to - 1, hex);
    }
}

proof fn run_splits(s: Seq<char>, at: int, count: nat, hex: bool)
    requires
        0 <= at,
        at + count <= s.len(),
        forall|i: int| at <= i < at + count ==> digit_value(#[trigger] s[i], hex) is Some,
    ensures
        run_len(s, at, hex) == count + run_len(s, at + count, hex),
    decreases count,
{
    if count > 0 {
        assert(digit_value(s[at], hex) is Some);
        run_splits(s, at + 1, (count - 1) as nat, hex);
    }
}

/// Reads the number at `at`.
pub fn read_number(s: &[char], at: usize, form: &NumberForm) -> (found: Option<(u32, usize)>)
    requires
        at <= s@.len(),
    ensures
        match found {
            Some((value, next)) => number_at(s@, at as int, *form) == Some(
                (value as nat, next as int),
            ) && at < next <= s@.len(),
            None => number_at(s@, at as int, *form) is None,
        },
{
    proof {
        reveal(number_at);
    }
    let hex = form.hex;
    let base: u64 = if hex {
        16
    } else {
        10
    };
    let mut value: u64 = 0;
    let mut fits = true;
    let mut next: usize = at;
    let mut open = next < s.len();
    while open
        invariant
            at <= next <= s@.len(),
            open ==> next < s@.len(),
            !open ==> next == s@.len() || digit_value(s@[next as int], hex) is None,
            hex == form.hex,
            base == (if hex {
                16u64
            } else {
                10u64
            }),
            forall|i: int| at <= i < next ==> digit_value(#[trigger] s@[i], hex) is Some,
            fits ==> value == number(s@, at as int, next as int, hex) && value <= form.max,
            !fits ==> number(s@, at as int, next as int, hex) > form.max,
        decreases s@.len() - next + (if open {
            1int
        } else {
            0
        }),
    {
        match read_digit(s[next], hex) {
            None => {
                open = false;
            },
            Some(d) => {
                proof {
                    number_grows(s@, at as int, next as int, next + 1, hex);
                    assert(number(s@, at as int, next + 1, hex) == number(
                        s@,
                        at as int,
                        next as int,
                        hex,
                    ) * (if hex {
                        16nat
                    } else {
                        10nat
                    }) + d);
                }
                if fits {
                    value = value * base + d as u64;
                    if value > form.max as u64 {
                        fits = false;
                        value = 0;
                    }
                }
                next += 1;
                open = next < s.len();
            },
        }
    }
    proof {
        run_splits(s@, at as int, (next - at) as nat, hex);
    }
    if next == at || !fits {
        return None;
    }
    if let Some(max_digits) = form.max_digits {
        if next - at > max_digits {
            return None;
        }
    }
    if !form.leading_zero && next - at > 1 && s[at] == '0' {
        return None;
    }
    Some((value as u32, next))
}

/// Whether `c` stands at `at`.
pub open spec fn char_at(s: Seq<char>, at: int, c: char) -> bool {
    0 <= at < s.len() && s[at] == c
}

pub fn has_char(s: &[char], at: usize, c: char) -> (found: bool)
    ensures
        found == char_at(s@, at as int, c),
        found ==> at < s@.len() && at < usize::MAX,
{
    at < s.len() && s[at] == c
}

} // verus!
