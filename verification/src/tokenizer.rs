//! The tokenizer: one input line becomes a command key and a stack of raw
//! argument tokens.
//!
//! A single left-to-right scan tracks five pieces of state: inside single
//! quotes, inside double quotes, brace depth, bracket depth, and a one-shot
//! escape flag. A backslash toggles the escape flag and is dropped from the
//! output; the escaped character is kept literally. Whitespace splits tokens
//! only outside quotes and groups; `{`/`}` and `[`/`]` count toward depth only
//! outside quotes. An unmatched closing brace or bracket, or an unterminated
//! quote or group at end of input, is a hard error, as is an input with no
//! tokens at all. The first token is the command key; the remaining tokens are
//! reversed into a stack so consumers can pop the conceptual front in O(1).
//!
//! The scan is total and side-effect-free, so execution and suggestion
//! queries use it identically. Empty tokens are never produced.

use vstd::prelude::*;

use crate::strutil::{chars_to_string, str_to_chars};

verus! {

/// Why a line failed to tokenize.
#[derive(Clone, Copy, Debug, PartialEq, Eq, Structural)]
pub enum TokenizeError {
    /// A `}` appeared with no `{` open.
    ClosingBrace,
    /// A `]` appeared with no `[` open.
    ClosingBracket,
    /// A quote was still open at end of input.
    OpenQuote,
    /// A brace group was still open at end of input.
    OpenBrace,
    /// A bracket group was still open at end of input.
    OpenBracket,
    /// The line held no token at all.
    Empty,
}

/// The scanner's state after some prefix of the input.
pub struct ScanState {
    /// The next character is escaped.
    pub escaping: bool,
    /// Inside a single-quoted span.
    pub in_single: bool,
    /// Inside a double-quoted span.
    pub in_double: bool,
    /// Open brace depth.
    pub braces: nat,
    /// Open bracket depth.
    pub brackets: nat,
    /// Characters of the token being built.
    pub current: Seq<char>,
    /// Completed tokens, in input order.
    pub tokens: Seq<Seq<char>>,
    /// A hard error already hit (sticky).
    pub failed: Option<TokenizeError>,
}

/// The scanner's state before any input.
pub open spec fn scan_init() -> ScanState {
    ScanState {
        escaping: false,
        in_single: false,
        in_double: false,
        braces: 0,
        brackets: 0,
        current: Seq::empty(),
        tokens: Seq::empty(),
        failed: None,
    }
}

/// One step of the scan: the state after reading `c`.
pub open spec fn scan_step(st: ScanState, c: char) -> ScanState {
    if st.failed is Some {
        st
    } else if c == '\\' {
        ScanState { escaping: !st.escaping, ..st }
    } else if st.escaping {
        ScanState { escaping: false, current: st.current.push(c), ..st }
    } else if c == '{' && !st.in_single && !st.in_double {
        ScanState { braces: st.braces + 1, current: st.current.push(c), ..st }
    } else if c == '}' && !st.in_single && !st.in_double {
        if st.braces == 0 {
            ScanState { failed: Some(TokenizeError::ClosingBrace), ..st }
        } else {
            ScanState { braces: (st.braces - 1) as nat, current: st.current.push(c), ..st }
        }
    } else if c == '[' && !st.in_single && !st.in_double {
        ScanState { brackets: st.brackets + 1, current: st.current.push(c), ..st }
    } else if c == ']' && !st.in_single && !st.in_double {
        if st.brackets == 0 {
            ScanState { failed: Some(TokenizeError::ClosingBracket), ..st }
        } else {
            ScanState { brackets: (st.brackets - 1) as nat, current: st.current.push(c), ..st }
        }
    } else if c == '\'' && !st.in_double {
        ScanState { in_single: !st.in_single, current: st.current.push(c), ..st }
    } else if c == '"' && !st.in_single {
        ScanState { in_double: !st.in_double, current: st.current.push(c), ..st }
    } else if c == ' ' && !st.in_single && !st.in_double && st.braces == 0 && st.brackets == 0 {
        if st.current.len() > 0 {
            ScanState { current: Seq::empty(), tokens: st.tokens.push(st.current), ..st }
        } else {
            st
        }
    } else {
        ScanState { current: st.current.push(c), ..st }
    }
}

/// The scanner's state after reading all of `s`.
pub open spec fn scan(s: Seq<char>) -> ScanState
    decreases s.len(),
{
    if s.len() == 0 {
        scan_init()
    } else {
        scan_step(scan(s.drop_last()), s.last())
    }
}

/// End-of-input checks, and the final token list.
pub open spec fn scan_finish(st: ScanState) -> Result<Seq<Seq<char>>, TokenizeError> {
    if st.failed is Some {
        Err(st.failed->0)
    } else if st.in_single || st.in_double {
        Err(TokenizeError::OpenQuote)
    } else if st.braces > 0 {
        Err(TokenizeError::OpenBrace)
    } else if st.brackets > 0 {
        Err(TokenizeError::OpenBracket)
    } else {
        let toks = if st.current.len() > 0 {
            st.tokens.push(st.current)
        } else {
            st.tokens
        };
        if toks.len() == 0 {
            Err(TokenizeError::Empty)
        } else {
            Ok(toks)
        }
    }
}

/// What tokenizing a whole line yields: the tokens in input order, or the
/// first hard error.
pub open spec fn spec_tokenize(s: Seq<char>) -> Result<Seq<Seq<char>>, TokenizeError> {
    scan_finish(scan(s))
}

/// The argument stack for a token list: every token after the first, in
/// reverse order, so that the first argument is on top (at the end).
pub open spec fn spec_arg_stack(toks: Seq<Seq<char>>) -> Seq<Seq<char>> {
    Seq::new((toks.len() - 1) as nat, |i: int| toks[toks.len() - 1 - i])
}

/// A character a token may hold and still take part in the round-trip law:
/// not the separating space, not a quote, and not the escape backslash.
pub open spec fn group_char_ok(c: char) -> bool {
    c != ' ' && c != '\'' && c != '"' && c != '\\'
}

/// Walks a token's characters, tracking brace and bracket depth from the
/// given starting depths: the depths after the token, or nothing if a
/// closing character appears with its depth at zero.
pub open spec fn tok_scan(w: Seq<char>, b: int, k: int) -> Option<(int, int)>
    decreases w.len(),
{
    if w.len() == 0 {
        Some((b, k))
    } else {
        let c = w[0];
        if c == '{' {
            tok_scan(w.skip(1), b + 1, k)
        } else if c == '}' {
            if b == 0 {
                None
            } else {
                tok_scan(w.skip(1), b - 1, k)
            }
        } else if c == '[' {
            tok_scan(w.skip(1), b, k + 1)
        } else if c == ']' {
            if k == 0 {
                None
            } else {
                tok_scan(w.skip(1), b, k - 1)
            }
        } else {
            tok_scan(w.skip(1), b, k)
        }
    }
}

/// A non-empty token with no space, quote or backslash, whose braces and
/// brackets are balanced: closing characters never outrun opening ones, and
/// both depths return to zero at the token's end.
pub open spec fn balanced_token(t: Seq<char>) -> bool {
    &&& t.len() > 0
    &&& forall|i: int| 0 <= i < t.len() ==> group_char_ok(#[trigger] t[i])
    &&& tok_scan(t, 0, 0) == Some((0int, 0int))
}

/// The tokens joined by single spaces.
pub open spec fn join_spaces(toks: Seq<Seq<char>>) -> Seq<char>
    decreases toks.len(),
{
    if toks.len() == 0 {
        Seq::empty()
    } else if toks.len() == 1 {
        toks[0]
    } else {
        join_spaces(toks.drop_last()) + seq![' '] + toks.last()
    }
}

/// The scanner's state after `st`'s input followed by `s`.
pub open spec fn scan_from(st: ScanState, s: Seq<char>) -> ScanState
    decreases s.len(),
{
    if s.len() == 0 {
        st
    } else {
        scan_step(scan_from(st, s.drop_last()), s.last())
    }
}

/// Scanning `a + b` is scanning `b` from the state after `a`.
proof fn lemma_scan_append(a: Seq<char>, b: Seq<char>)
    ensures
        scan(a + b) == scan_from(scan(a), b),
    decreases b.len(),
{
    if b.len() == 0 {
        assert(a + b =~= a);
    } else {
        assert((a + b).drop_last() =~= a + b.drop_last());
        assert((a + b).last() == b.last());
        lemma_scan_append(a, b.drop_last());
    }
}

/// From an unquoted, unescaped, error-free state, a balanced-capable run of
/// characters only extends the current token, moving the group depths as
/// `tok_scan` says.
proof fn lemma_scan_from_token(st: ScanState, w: Seq<char>)
    requires
        !st.escaping,
        !st.in_single,
        !st.in_double,
        st.failed is None,
        forall|i: int| 0 <= i < w.len() ==> group_char_ok(#[trigger] w[i]),
        tok_scan(w, st.braces as int, st.brackets as int) is Some,
    ensures
        ({
            let d = tok_scan(w, st.braces as int, st.brackets as int)->0;
            &&& d.0 >= 0
            &&& d.1 >= 0
            &&& scan_from(st, w) == (ScanState {
                current: st.current + w,
                braces: d.0 as nat,
                brackets: d.1 as nat,
                ..st
            })
        }),
    decreases w.len(),
{
    if w.len() == 0 {
        assert(st.current + w =~= st.current);
    } else {
        let c = w[0];
        let st1 = scan_step(st, c);
        assert(scan_from(st, w) == scan_from(st1, w.skip(1))) by {
            lemma_scan_from_append(st, seq![c], w.skip(1));
            assert(seq![c] + w.skip(1) =~= w);
            assert(seq![c].drop_last() =~= Seq::<char>::empty());
            assert(scan_from(st, seq![c].drop_last()) == st);
            assert(seq![c].last() == c);
        }
        assert(group_char_ok(c));
        assert(forall|i: int|
            0 <= i < w.skip(1).len() ==> group_char_ok(#[trigger] w.skip(1)[i]));
        if c == '{' {
            assert(st1.braces == st.braces + 1 && st1.brackets == st.brackets);
        } else if c == '}' {
            assert(st.braces as int != 0);
            assert(st1.braces == st.braces - 1 && st1.brackets == st.brackets);
        } else if c == '[' {
            assert(st1.brackets == st.brackets + 1 && st1.braces == st.braces);
        } else if c == ']' {
            assert(st.brackets as int != 0);
            assert(st1.brackets == st.brackets - 1 && st1.braces == st.braces);
        } else {
            assert(st1.braces == st.braces && st1.brackets == st.brackets);
        }
        assert(st1.current == st.current.push(c));
        lemma_scan_from_token(st1, w.skip(1));
        assert(st.current.push(c) + w.skip(1) =~= st.current + w);
    }
}

/// After scanning balanced tokens joined by spaces, the scanner is neutral,
/// the finished tokens are all but the last, and the last is still being
/// built.
proof fn lemma_scan_join(toks: Seq<Seq<char>>)
    requires
        toks.len() > 0,
        forall|i: int| 0 <= i < toks.len() ==> balanced_token(#[trigger] toks[i]),
    ensures
        scan(join_spaces(toks)) == (ScanState {
            current: toks.last(),
            tokens: toks.drop_last(),
            ..scan_init()
        }),
    decreases toks.len(),
{
    if toks.len() == 1 {
        assert(Seq::<char>::empty() + toks[0] =~= toks[0]);
        lemma_scan_from_token(scan_init(), toks[0]);
        assert(scan_from(scan_init(), toks[0]) == scan(toks[0])) by {
            lemma_scan_append(Seq::<char>::empty(), toks[0]);
            assert(Seq::<char>::empty() + toks[0] =~= toks[0]);
            assert(scan(Seq::<char>::empty()) == scan_init());
        }
        assert(toks.drop_last() =~= Seq::<Seq<char>>::empty());
    } else {
        let head = toks.drop_last();
        let w = toks.last();
        assert(forall|i: int| 0 <= i < head.len() ==> balanced_token(#[trigger] head[i]));
        lemma_scan_join(head);
        let st1 = scan(join_spaces(head));
        lemma_scan_append(join_spaces(head), seq![' '] + w);
        assert(join_spaces(head) + (seq![' '] + w) =~= join_spaces(toks));
        let sp: Seq<char> = seq![' '];
        assert((sp + w).drop_last() =~= sp + w.drop_last()) by {
            assert(w.len() > 0);
        }
        // one space finishes the pending token, then the next word builds
        assert(scan_from(st1, sp) == scan_step(st1, ' ')) by {
            assert(sp.drop_last() =~= Seq::<char>::empty());
            assert(scan_from(st1, sp.drop_last()) == st1);
            assert(sp.last() == ' ');
        }
        let st2 = scan_step(st1, ' ');
        assert(st1.current == head.last());
        assert(st1.current.len() > 0);
        assert(st2.tokens == head.drop_last().push(head.last()));
        assert(head.drop_last().push(head.last()) =~= head);
        lemma_scan_from_token(st2, w);
        assert(scan_from(st2, w).current =~= w) by {
            assert(st2.current =~= Seq::<char>::empty());
            assert(Seq::<char>::empty() + w =~= w);
        }
        assert(scan_from(st1, sp + w) == scan_from(scan_from(st1, sp), w)) by {
            lemma_scan_from_append(st1, sp, w);
        }
        assert(toks.drop_last() == head);
    }
}

/// Scanning `a + b` from `st` is scanning `b` from the state after `a`.
proof fn lemma_scan_from_append(st: ScanState, a: Seq<char>, b: Seq<char>)
    ensures
        scan_from(st, a + b) == scan_from(scan_from(st, a), b),
    decreases b.len(),
{
    if b.len() == 0 {
        assert(a + b =~= a);
    } else {
        assert((a + b).drop_last() =~= a + b.drop_last());
        assert((a + b).last() == b.last());
        lemma_scan_from_append(st, a, b.drop_last());
    }
}

/// Tokenizer round trip: a line made of non-empty, brace/bracket-balanced,
/// unquoted tokens with no stray backslashes, joined by single spaces,
/// tokenizes to exactly those tokens, in order. Splitting such a line and
/// rejoining the tokens with single spaces therefore reproduces the line.
pub proof fn lemma_tokenizer_round_trip(toks: Seq<Seq<char>>)
    requires
        toks.len() > 0,
        forall|i: int| 0 <= i < toks.len() ==> balanced_token(#[trigger] toks[i]),
    ensures
        spec_tokenize(join_spaces(toks)) == Ok::<_, TokenizeError>(toks),
{
    lemma_scan_join(toks);
    let st = scan(join_spaces(toks));
    assert(st.current.len() > 0);
    assert(st.tokens.push(st.current) =~= toks);
}

/// A hard error in a prefix of the scan is the error of the whole scan.
proof fn lemma_scan_failed_sticky(s: Seq<char>, i: int)
    requires
        0 <= i <= s.len(),
        scan(s.take(i)).failed is Some,
    ensures
        scan(s).failed == scan(s.take(i)).failed,
    decreases s.len() - i,
{
    if i < s.len() {
        assert(s.take(i + 1).drop_last() =~= s.take(i));
        assert(s.take(i + 1).last() == s[i]);
        lemma_scan_failed_sticky(s, i + 1);
    } else {
        assert(s.take(i) =~= s);
    }
}

/// Runs the scan over a character vector.
///
/// Returns the completed tokens in input order, exactly as the specification
/// `spec_tokenize` describes.
pub fn tokenize_chars(chars: &Vec<char>) -> (r: Result<Vec<Vec<char>>, TokenizeError>)
    ensures
        (r is Ok) == (spec_tokenize(chars@) is Ok),
        r matches Ok(toks) ==> toks.deep_view() == spec_tokenize(chars@)->Ok_0,
        r matches Err(e) ==> spec_tokenize(chars@) == Err::<Seq<Seq<char>>, _>(e),
{
    let n = chars.len();
    let mut escaping = false;
    let mut in_single = false;
    let mut in_double = false;
    let mut braces: usize = 0;
    let mut brackets: usize = 0;
    let mut current: Vec<char> = Vec::new();
    let mut tokens: Vec<Vec<char>> = Vec::new();
    let mut i: usize = 0;
    proof {
        assert(chars@.take(0) =~= Seq::<char>::empty());
        assert(tokens.deep_view() =~~= Seq::<Seq<char>>::empty());
    }
    while i < n
        invariant
            n == chars@.len(),
            i <= n,
            braces <= i,
            brackets <= i,
            ({
                let st = scan(chars@.take(i as int));
                &&& st.failed is None
                &&& st.escaping == escaping
                &&& st.in_single == in_single
                &&& st.in_double == in_double
                &&& st.braces == braces as nat
                &&& st.brackets == brackets as nat
                &&& st.current == current@
                &&& st.tokens == tokens.deep_view()
            }),
        decreases n - i,
    {
        let ghost pre = scan(chars@.take(i as int));
        let ghost pre_tokens = tokens.deep_view();
        proof {
            assert(chars@.take(i + 1).drop_last() =~= chars@.take(i as int));
            assert(chars@.take(i + 1).last() == chars@[i as int]);
        }
        let c = chars[i];
        if c == '\\' {
            escaping = !escaping;
        } else if escaping {
            escaping = false;
            current.push(c);
        } else if c == '{' && !in_single && !in_double {
            braces = braces + 1;
            current.push(c);
        } else if c == '}' && !in_single && !in_double {
            if braces == 0 {
                proof {
                    lemma_scan_failed_sticky(chars@, i + 1);
                }
                return Err(TokenizeError::ClosingBrace);
            }
            braces = braces - 1;
            current.push(c);
        } else if c == '[' && !in_single && !in_double {
            brackets = brackets + 1;
            current.push(c);
        } else if c == ']' && !in_single && !in_double {
            if brackets == 0 {
                proof {
                    lemma_scan_failed_sticky(chars@, i + 1);
                }
                return Err(TokenizeError::ClosingBracket);
            }
            brackets = brackets - 1;
            current.push(c);
        } else if c == '\'' && !in_double {
            in_single = !in_single;
            current.push(c);
        } else if c == '"' && !in_single {
            in_double = !in_double;
            current.push(c);
        } else if c == ' ' && !in_single && !in_double && braces == 0 && brackets == 0 {
            if current.len() > 0 {
                let done = current;
                current = Vec::new();
                tokens.push(done);
                proof {
                    assert(tokens.deep_view() =~~= pre_tokens.push(done@));
                }
            }
        } else {
            current.push(c);
        }
        i = i + 1;
        proof {
            assert(scan(chars@.take(i as int)) == scan_step(pre, chars@[i - 1]));
        }
    }
    proof {
        assert(chars@.take(n as int) =~= chars@);
    }
    if in_single || in_double {
        return Err(TokenizeError::OpenQuote);
    }
    if braces > 0 {
        return Err(TokenizeError::OpenBrace);
    }
    if brackets > 0 {
        return Err(TokenizeError::OpenBracket);
    }
    let ghost pre_tokens = tokens.deep_view();
    if current.len() > 0 {
        let done = current;
        tokens.push(done);
        proof {
            assert(tokens.deep_view() =~~= pre_tokens.push(done@));
        }
    }
    if tokens.len() == 0 {
        return Err(TokenizeError::Empty);
    }
    Ok(tokens)
}

/// Splits one line into the command key and the argument stack.
///
/// On success the key is the first token and the stack holds the remaining
/// tokens in reverse order (first argument on top). On failure the result is
/// exactly the error `spec_tokenize` gives for the line.
pub fn split_parts(cmd: &str) -> (r: Result<(String, Vec<String>), TokenizeError>)
    ensures
        match r {
            Ok(parts) => {
                &&& spec_tokenize(cmd@) matches Ok(toks)
                &&& parts.0@ == spec_tokenize(cmd@)->Ok_0[0]
                &&& parts.1.deep_view() == spec_arg_stack(spec_tokenize(cmd@)->Ok_0)
            },
            Err(e) => spec_tokenize(cmd@) == Err::<Seq<Seq<char>>, _>(e),
        },
{
    let chars = str_to_chars(cmd);
    let toks = match tokenize_chars(&chars) {
        Ok(t) => t,
        Err(e) => {
            return Err(e);
        },
    };
    let ghost spec_toks = spec_tokenize(cmd@)->Ok_0;
    let key = chars_to_string(&toks[0]);
    let mut args: Vec<String> = Vec::new();
    let mut j: usize = toks.len();
    while j > 1
        invariant
            toks.deep_view() == spec_toks,
            1 <= j <= toks@.len(),
            args@.len() == toks@.len() - j,
            forall|k: int|
                0 <= k < args@.len() ==> args@[k]@ == spec_toks[spec_toks.len() - 1 - k],
        decreases j,
    {
        j = j - 1;
        let s = chars_to_string(&toks[j]);
        args.push(s);
    }
    proof {
        assert(args.deep_view() =~= spec_arg_stack(spec_toks));
    }
    Ok((key, args))
}

} // verus!
