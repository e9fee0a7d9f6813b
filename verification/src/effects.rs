//! The built-in effects' registration hooks. Each module registers the
//! statement names its effect answers to; the effect bodies themselves act
//! on the game world and live with the host.

pub mod add;
pub mod broadcast;
pub mod increase;
pub mod remove;
pub mod replace;
pub mod reset;
pub mod send;
pub mod set;

use vstd::prelude::*;

use crate::strutil::{chars_sub, trim_chars};

verus! {

/// Reads a `{...}` variable token: the trimmed text between the braces, if
/// the input is a braced token of at least one inner character.
pub fn parse_var_token(s: &Vec<char>) -> (r: Option<Vec<char>>)
    ensures
        r matches Some(inner) ==> inner@.len() <= s@.len(),
{
    let t = trim_chars(s);
    proof {
        crate::strutil::lemma_trim_start_le(crate::strutil::spec_trim_end(s@));
        crate::strutil::lemma_trim_end_le(s@);
    }
    if t.len() >= 3 && t[0] == '{' && t[t.len() - 1] == '}' {
        let inner = trim_chars(&chars_sub(&t, 1, t.len() - 1));
        proof {
            crate::strutil::lemma_trim_start_le(
                crate::strutil::spec_trim_end(t@.subrange(1, t@.len() - 1)),
            );
            crate::strutil::lemma_trim_end_le(t@.subrange(1, t@.len() - 1));
        }
        Some(inner)
    } else {
        None
    }
}

} // verus!
