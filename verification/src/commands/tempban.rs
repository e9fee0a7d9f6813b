//! The `tempban` command's grammar and its duration parsing: durations such
//! as `10s`, `5m`, `2h`, `1d`, with a bare number read as days.

use vstd::prelude::*;

use crate::strutil::{chars_sub, spec_lower_char, spec_trim, trim_chars};
use crate::tree::{argument, tree_wf, CommandTree};

verus! {

/// The `tempban` grammar: `tempban <target> <duration>` with an optional
/// `<reason>`, executed by the host's `tempban` callback.
pub fn init_command_tree() -> (t: CommandTree)
    ensures
        tree_wf(t),
        t.names@.len() == 1,
        t.names@[0]@ == "tempban"@,
{
    let mut names: Vec<String> = Vec::new();
    names.push(String::from_str("tempban"));
    proof {
        reveal_strlit("tempban");
    }
    CommandTree::new(
        names,
        "Temporarily ban a player for a duration (e.g. 1d, 2h, 30m, 10s).",
    ).child(
        argument("target", "simple").child(
            argument("duration", "simple").execute("tempban").child(
                argument("reason", "msg").execute("tempban"),
            ),
        ),
    )
}

/// Whether a character is an ASCII letter.
fn is_ascii_alpha(c: char) -> (r: bool)
    ensures
        r == ('a' <= c && c <= 'z' || 'A' <= c && c <= 'Z'),
{
    'a' <= c && c <= 'z' || 'A' <= c && c <= 'Z'
}

/// The value of a run of decimal digits, most significant first.
pub open spec fn spec_digits_val(s: Seq<char>) -> int
    decreases s.len(),
{
    if s.len() == 0 {
        0
    } else {
        spec_digits_val(s.drop_last()) * 10 + (s.last() as u32 - 48)
    }
}

/// Whether every character of a sequence is a decimal digit.
pub open spec fn spec_all_digits(s: Seq<char>) -> bool {
    forall|i: int| 0 <= i < s.len() ==> '0' <= #[trigger] s[i] && s[i] <= '9'
}

/// The value of an optionally signed run of decimal digits.
pub open spec fn spec_signed_decimal(t: Seq<char>) -> int {
    if t.len() > 0 && t[0] == '-' {
        -spec_digits_val(t.skip(1))
    } else if t.len() > 0 && t[0] == '+' {
        spec_digits_val(t.skip(1))
    } else {
        spec_digits_val(t)
    }
}

/// The number of seconds one duration unit stands for.
pub open spec fn spec_unit_seconds(unit: char) -> int {
    if unit == 's' {
        1
    } else if unit == 'm' {
        60
    } else if unit == 'h' {
        3600
    } else {
        86400
    }
}

/// Reads a signed decimal integer; `None` on empty input, a stray
/// character, or a value that does not fit.
fn parse_i64(v: &Vec<char>) -> (r: Option<i64>)
    ensures
        r matches Some(n) ==> ({
            let t = spec_trim(v@);
            &&& t.len() > 0
            &&& if t[0] == '-' {
                spec_all_digits(t.skip(1)) && n == -spec_digits_val(t.skip(1))
            } else if t[0] == '+' {
                spec_all_digits(t.skip(1)) && n == spec_digits_val(t.skip(1))
            } else {
                spec_all_digits(t) && n == spec_digits_val(t)
            }
        }),
{
    let t = trim_chars(v);
    if t.len() == 0 {
        return None;
    }
    let mut i: usize = 0;
    let mut negative = false;
    if t[0] == '-' {
        negative = true;
        i = 1;
    } else if t[0] == '+' {
        i = 1;
    }
    if i >= t.len() {
        return None;
    }
    let start = i;
    let ghost digits = t@.skip(start as int);
    let mut acc: i64 = 0;
    proof {
        assert(digits.take(0) =~= Seq::<char>::empty());
    }
    while i < t.len()
        invariant
            start <= i <= t@.len(),
            start < t@.len(),
            digits == t@.skip(start as int),
            acc >= 0,
            spec_all_digits(digits.take(i - start)),
            acc == spec_digits_val(digits.take(i - start)),
        decreases t@.len() - i,
    {
        let c = t[i];
        if !('0' <= c && c <= '9') {
            return None;
        }
        let d = (c as u8) - 48;
        if acc > (i64::MAX - d as i64) / 10 {
            return None;
        }
        proof {
            assert(acc * 10 + d <= i64::MAX) by (nonlinear_arith)
                requires
                    0 <= acc,
                    0 <= d <= 9,
                    acc <= (i64::MAX - d as i64) / 10,
            {}
        }
        acc = acc * 10 + d as i64;
        i = i + 1;
        proof {
            assert(digits.take(i - start).drop_last() =~= digits.take(i - start - 1));
            assert(digits.take(i - start).last() == t@[i - 1]);
            assert(t@[i - 1] as u32 - 48 == d);
        }
    }
    proof {
        assert(digits.take(t@.len() - start) =~= digits);
        assert(t@.skip(0) =~= t@);
    }
    if negative {
        Some(-acc)
    } else {
        Some(acc)
    }
}

/// Reads a ban duration in seconds: a number with an `s`, `m`, `h` or `d`
/// suffix, or a bare number of days. `None` for anything else, and for a
/// duration that does not fit in seconds.
pub fn parse_duration_seconds(raw: &str) -> (r: Option<i64>)
    ensures
        r matches Some(n) ==> ({
            let s = spec_trim(raw@);
            let alpha = ('a' <= spec_lower_char(s.last()) && spec_lower_char(s.last()) <= 'z');
            let vp = if alpha {
                s.take(s.len() - 1)
            } else {
                s
            };
            let unit = if alpha {
                spec_lower_char(s.last())
            } else {
                'd'
            };
            let t = spec_trim(vp);
            &&& s.len() > 0
            &&& t.len() > 0
            &&& (unit == 's' || unit == 'm' || unit == 'h' || unit == 'd')
            &&& (t[0] == '-' || t[0] == '+' || spec_all_digits(t))
            &&& (t[0] == '-' || t[0] == '+') ==> spec_all_digits(t.skip(1))
            &&& n == spec_signed_decimal(t) * spec_unit_seconds(unit)
        }),
{
    let s = trim_chars(&crate::strutil::str_to_chars(raw));
    if s.len() == 0 {
        return None;
    }
    let last = s[s.len() - 1];
    let alpha = is_ascii_alpha(last);
    proof {
        let sv = spec_trim(raw@);
        assert(sv.last() == last);
        assert(alpha == ('a' <= spec_lower_char(sv.last()) && spec_lower_char(sv.last())
            <= 'z'));
    }
    let (value_part, unit) = if alpha {
        (chars_sub(&s, 0, s.len() - 1), crate::strutil::lower_char(last))
    } else {
        (chars_sub(&s, 0, s.len()), 'd')
    };
    proof {
        let sv = spec_trim(raw@);
        if alpha {
            assert(value_part@ =~= sv.take(sv.len() - 1));
        } else {
            assert(value_part@ =~= sv);
        }
    }
    let n = match parse_i64(&value_part) {
        Some(n) => n,
        None => {
            return None;
        },
    };
    let factor: i64 = if unit == 's' {
        1
    } else if unit == 'm' {
        60
    } else if unit == 'h' {
        3600
    } else if unit == 'd' {
        86400
    } else {
        return None;
    };
    n.checked_mul(factor)
}

} // verus!
