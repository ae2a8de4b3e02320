//! Text that comes back from the version-control tools: line ends are taken
//! out, and numbers are read from digits.

use vstd::prelude::*;
use vstd::string::*;

verus! {

/// Whether a character is kept: every character but the line feed is.
pub open spec fn spec_kept() -> spec_fn(char) -> bool {
    |c: char| c != '\n'
}

/// `text` without its line feeds.
pub open spec fn spec_strip_newlines(text: Seq<char>) -> Seq<char> {
    text.filter(spec_kept())
}

/// The value of `c` as a digit in base `radix`: `0-9`, then `a-z` or `A-Z`
/// for ten and up.
pub open spec fn spec_digit(c: char, radix: nat) -> Option<nat> {
    let code = c as u32;
    if 0x30 <= code <= 0x39 && code - 0x30 < radix {
        Some((code - 0x30) as nat)
    } else if 0x61 <= code <= 0x7a && code - 0x61 + 10 < radix {
        Some((code - 0x61 + 10) as nat)
    } else if 0x41 <= code <= 0x5a && code - 0x41 + 10 < radix {
        Some((code - 0x41 + 10) as nat)
    } else {
        None
    }
}

/// The number that `digits` denote in base `radix`, most significant digit
/// first; `None` where one of them is no digit of that base.
pub open spec fn spec_digits_value(digits: Seq<char>, radix: nat) -> Option<nat>
    decreases digits.len(),
{
    if digits.len() == 0 {
        Some(0)
    } else {
        match (spec_digits_value(digits.drop_last(), radix), spec_digit(digits.last(), radix)) {
            (Some(high), Some(low)) => Some(high * radix + low),
            _ => None,
        }
    }
}

/// The number that `text` denotes in base `radix`: an optional `+`, then one
/// digit or more and nothing else. `None` where `text` is not of that form or
/// the number is above `max`.
pub open spec fn spec_parse_uint(text: Seq<char>, radix: nat, max: nat) -> Option<nat> {
    let digits = if text.len() > 0 && text[0] == '+' {
        text.drop_first()
    } else {
        text
    };
    if digits.len() == 0 {
        None
    } else {
        match spec_digits_value(digits, radix) {
            Some(value) => if value <= max {
                Some(value)
            } else {
                None
            },
            None => None,
        }
    }
}

/// A string of digits denotes nothing where a prefix of it denotes nothing,
/// and in a base of one or more it denotes no less than any of its prefixes.
pub proof fn lemma_digits_prefix(digits: Seq<char>, k: int, radix: nat)
    requires
        0 <= k <= digits.len(),
    ensures
        spec_digits_value(digits, radix) matches Some(value) ==> (spec_digits_value(
            digits.subrange(0, k),
            radix,
        ) matches Some(part) && (radix >= 1 ==> part <= value)),
    decreases digits.len(),
{
    if k == digits.len() {
        assert(digits.subrange(0, k) =~= digits);
    } else {
        assert(digits.drop_last().subrange(0, k) =~= digits.subrange(0, k));
        lemma_digits_prefix(digits.drop_last(), k, radix);
        if let Some(value) = spec_digits_value(digits, radix) {
            let high = spec_digits_value(digits.drop_last(), radix).unwrap();
            if radix >= 1 {
                assert(high <= high * radix) by (nonlinear_arith)
                    requires
                        radix >= 1,
                ;
            }
        }
    }
}

/// `text` without its line feeds.
pub fn strip_newlines(text: &str) -> (out: String)
    ensures
        out@ == spec_strip_newlines(text@),
{
    let n = text.unicode_len();
    let mut out = String::new();
    let mut i: usize = 0;
    proof {
        reveal(Seq::filter);
        assert(text@.subrange(0, 0) =~= Seq::<char>::empty());
    }
    while i < n
        invariant
            i <= n,
            n == text@.len(),
            out@ == text@.subrange(0, i as int).filter(spec_kept()),
        decreases n - i,
    {
        let c = text.get_char(i);
        proof {
            reveal(Seq::filter);
            let next = text@.subrange(0, i as int + 1);
            assert(next.drop_last() =~= text@.subrange(0, i as int));
            assert(next.last() == c);
            assert(text@.subrange(i as int, i as int + 1) =~= seq![c]);
        }
        if c != '\n' {
            out.append(text.substring_char(i, i + 1));
            assert(out@ =~= text@.subrange(0, i as int).filter(spec_kept()).push(c));
        }
        i += 1;
    }
    assert(text@.subrange(0, i as int) =~= text@);
    out
}

/// The value of `c` as a digit in base `radix`.
fn digit(c: char, radix: u32) -> (r: Option<u32>)
    ensures
        r matches Some(d) ==> spec_digit(c, radix as nat) == Some(d as nat) && d < radix && d < 36,
        r is None ==> spec_digit(c, radix as nat) is None,
{
    let code: u32 = c as u32;
    if 0x30 <= code && code <= 0x39 && code - 0x30 < radix {
        Some(code - 0x30)
    } else if 0x61 <= code && code <= 0x7a && code - 0x61 + 10 < radix {
        Some(code - 0x61 + 10)
    } else if 0x41 <= code && code <= 0x5a && code - 0x41 + 10 < radix {
        Some(code - 0x41 + 10)
    } else {
        None
    }
}

/// Reads the number that `text` denotes in base `radix`, if it is no more
/// than `max`.
pub fn parse_uint(text: &str, radix: u32, max: u32) -> (r: Option<u32>)
    ensures
        r matches Some(n) ==> spec_parse_uint(text@, radix as nat, max as nat) == Some(n as nat),
        r is None ==> spec_parse_uint(text@, radix as nat, max as nat) is None,
{
    let n = text.unicode_len();
    let start: usize = if n > 0 && text.get_char(0) == '+' {
        1
    } else {
        0
    };
    if start == n {
        return None;
    }
    let ghost digits = text@.subrange(start as int, n as int);
    assert(digits =~= if text@.len() > 0 && text@[0] == '+' {
        text@.drop_first()
    } else {
        text@
    });
    let mut acc: u64 = 0;
    let mut i: usize = start;
    assert(digits.subrange(0, 0) =~= Seq::<char>::empty());
    while i < n
        invariant
            start <= i <= n,
            n == text@.len(),
            digits == text@.subrange(start as int, n as int),
            digits == if text@.len() > 0 && text@[0] == '+' {
                text@.drop_first()
            } else {
                text@
            },
            spec_digits_value(digits.subrange(0, i - start), radix as nat) == Some(acc as nat),
            acc <= max,
        decreases n - i,
    {
        let c = text.get_char(i);
        proof {
            let next = digits.subrange(0, i - start + 1);
            assert(next.drop_last() =~= digits.subrange(0, i - start));
            assert(next.last() == c);
            lemma_digits_prefix(digits, i - start + 1, radix as nat);
        }
        match digit(c, radix) {
            None => {
                return None;
            },
            Some(d) => {
                assert(acc * radix + d <= 0xffff_ffff * 0xffff_ffff + 35) by (nonlinear_arith)
                    requires
                        acc <= 0xffff_ffff,
                        radix <= 0xffff_ffff,
                        d <= 35,
                ;
                acc = acc * (radix as u64) + (d as u64);
                if acc > max as u64 {
                    return None;
                }
            },
        }
        i += 1;
    }
    assert(digits.subrange(0, i - start) =~= digits);
    Some(acc as u32)
}

} // verus!
