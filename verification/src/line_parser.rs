//! The line parser for script files: a whole-file pass that recognizes
//! options and variables blocks, function and command definitions and event
//! triggers at the top level, and indentation-structured statement blocks
//! below them. Blocks must be consistently indented: every statement of one
//! block has exactly the block's indent, and deeper indentation is only
//! reached through an `if` or loop header.

use vstd::prelude::*;

use crate::ast::{
    Block, CommandArg, CommandDef, FunctionDef, OptionEntry, Param, Script, Span, Stmt, Trigger,
    TriggerHeader, VarInit,
};
use crate::strutil::{
    chars_eq, chars_sub, chars_to_string, ends_with_char, find_char, lower_chars, rfind_char,
    spec_lower, spec_trim, split_ws, str_to_chars, starts_with_chars, trim_chars, trim_end_chars,
};

verus! {

/// Why a script failed to parse.
#[derive(Clone, Copy, Debug, PartialEq, Eq, Structural)]
pub enum LineParseError {
    /// A line is indented deeper than its block without a header that
    /// opens a deeper block.
    IndentMismatch {
        /// The offending line, 1-based.
        line: usize,
    },
    /// A top-level line is indented.
    UnexpectedIndent {
        /// The offending line, 1-based.
        line: usize,
    },
}

/// The line an error points at.
pub open spec fn spec_error_line(e: LineParseError) -> usize {
    match e {
        LineParseError::IndentMismatch { line } => line,
        LineParseError::UnexpectedIndent { line } => line,
    }
}

/// Every line is short enough that four units of indent per character,
/// plus a column offset, fit a `usize`.
pub open spec fn lines_bounded(lines: Seq<Vec<char>>) -> bool {
    forall|i: int|
        0 <= i < lines.len() ==> 4 * (#[trigger] lines[i])@.len() + 8 <= usize::MAX
}

/// The prefix of a line before an unquoted `#`, or the whole line.
fn strip_comment(line: &Vec<char>) -> (r: Vec<char>)
    ensures
        r@.len() <= line@.len(),
        r@ == line@.take(r@.len() as int),
{
    let mut in_single = false;
    let mut in_double = false;
    let mut i: usize = 0;
    while i < line.len()
        invariant
            i <= line@.len(),
        decreases line@.len() - i,
    {
        let c = line[i];
        if c == '\'' && !in_double {
            in_single = !in_single;
        } else if c == '"' && !in_single {
            in_double = !in_double;
        } else if c == '#' && !in_single && !in_double {
            let r = chars_sub(line, 0, i);
            proof {
                assert(line@.subrange(0, i as int) =~= line@.take(i as int));
            }
            return r;
        }
        i = i + 1;
    }
    let r = chars_sub(line, 0, line.len());
    proof {
        assert(line@.subrange(0, line@.len() as int) =~= line@.take(line@.len() as int));
    }
    r
}

/// The indent of a line: one unit per leading space, four per leading tab.
pub open spec fn spec_indent(s: Seq<char>) -> int
    decreases s.len(),
{
    if s.len() == 0 {
        0
    } else if s[0] == ' ' {
        1 + spec_indent(s.skip(1))
    } else if s[0] == '\t' {
        4 + spec_indent(s.skip(1))
    } else {
        0
    }
}

/// The indent never exceeds four units per character.
proof fn lemma_indent_bound(s: Seq<char>)
    ensures
        0 <= spec_indent(s) <= 4 * s.len(),
    decreases s.len(),
{
    if s.len() > 0 {
        lemma_indent_bound(s.skip(1));
    }
}

/// Measures a line's indent.
fn indent_width(line: &Vec<char>) -> (r: usize)
    requires
        4 * line@.len() + 8 <= usize::MAX,
    ensures
        r == spec_indent(line@),
{
    let mut n: usize = 0;
    let mut i: usize = 0;
    proof {
        assert(line@.skip(0) =~= line@);
        lemma_indent_bound(line@);
    }
    while i < line.len()
        invariant
            i <= line@.len(),
            4 * line@.len() + 8 <= usize::MAX,
            n <= 4 * i,
            spec_indent(line@) == n + spec_indent(line@.skip(i as int)),
        ensures
            n == spec_indent(line@),
        decreases line@.len() - i,
    {
        let c = line[i];
        proof {
            assert(line@.skip(i as int)[0] == line@[i as int]);
            assert(line@.skip(i as int).skip(1) =~= line@.skip(i + 1));
            lemma_indent_bound(line@.skip(i as int));
        }
        if c == ' ' {
            n = n + 1;
        } else if c == '\t' {
            n = n + 4;
        } else {
            proof {
                assert(spec_indent(line@.skip(i as int)) == 0);
            }
            break ;
        }
        i = i + 1;
    }
    proof {
        if i == line@.len() {
            assert(line@.skip(i as int) =~= Seq::<char>::empty());
        }
    }
    n
}

/// Removes every trailing colon, as the header parsers do before reading a
/// header's core.
fn strip_trailing_colons(v: &Vec<char>) -> (r: Vec<char>)
    ensures
        r@.len() <= v@.len(),
{
    let mut j: usize = v.len();
    while j > 0
        invariant
            j <= v@.len(),
        decreases j,
    {
        if v[j - 1] != ':' {
            break ;
        }
        j = j - 1;
    }
    chars_sub(v, 0, j)
}

/// Reads a header of the shape `<keyword> <rest>:`, keyword matched without
/// regard to ASCII case: the trimmed non-empty rest, if the line fits.
fn parse_keyword_header(line: &Vec<char>, keyword: &str) -> (r: Option<Vec<char>>)
    ensures
        r matches Some(c) ==> c@.len() > 0,
{
    let t = trim_chars(line);
    if !ends_with_char(&t, ':') {
        return None;
    }
    let core = trim_chars(&strip_trailing_colons(&t));
    let lower = lower_chars(&core);
    let kw = str_to_chars(keyword);
    if !starts_with_chars(&lower, &kw) {
        return None;
    }
    let rest = trim_chars(&chars_sub(&core, kw.len(), core.len()));
    if rest.len() == 0 {
        None
    } else {
        Some(rest)
    }
}

/// Reads a trigger header `on <event>:`; the raw event text.
fn parse_trigger_header(line: &Vec<char>) -> (r: Option<Vec<char>>)
    ensures
        r matches Some(c) ==> c@.len() > 0,
{
    parse_keyword_header(line, "on ")
}

/// Whether the line reads `else:`, without regard to ASCII case.
fn is_else_line(line: &Vec<char>) -> (r: bool)
    ensures
        r == (spec_lower(spec_trim(line@)) == spec_lower("else:"@)),
{
    let t = lower_chars(&trim_chars(line));
    let kw = lower_chars(&str_to_chars("else:"));
    chars_eq(&t, &kw)
}

/// Reads an `if <condition>:` header; the raw condition.
fn parse_if_header(line: &Vec<char>) -> (r: Option<Vec<char>>)
    ensures
        r matches Some(c) ==> c@.len() > 0,
{
    parse_keyword_header(line, "if ")
}

/// Reads an `else if <condition>:` header; the raw condition.
fn parse_else_if_header(line: &Vec<char>) -> (r: Option<Vec<char>>)
    ensures
        r matches Some(c) ==> c@.len() > 0,
{
    parse_keyword_header(line, "else if ")
}

/// Whether the line reads `loop all players:`, without regard to ASCII
/// case.
fn parse_loop_all_players_header(line: &Vec<char>) -> (r: bool) {
    let t = trim_chars(line);
    if !ends_with_char(&t, ':') {
        return false;
    }
    let core = lower_chars(&trim_chars(&strip_trailing_colons(&t)));
    let kw = lower_chars(&str_to_chars("loop all players"));
    chars_eq(&core, &kw)
}

/// Reads a `loop <count> times:` header; the raw count.
fn parse_loop_times_header(line: &Vec<char>) -> (r: Option<Vec<char>>)
    ensures
        r matches Some(c) ==> c@.len() > 0,
{
    let t = trim_chars(line);
    if !ends_with_char(&t, ':') {
        return None;
    }
    let core = trim_chars(&strip_trailing_colons(&t));
    let lower = lower_chars(&core);
    let head = str_to_chars("loop ");
    if !starts_with_chars(&lower, &head) {
        return None;
    }
    let tailkw = str_to_chars(" times");
    if lower.len() < head.len() || lower.len() - head.len() < tailkw.len() {
        return None;
    }
    let tail = chars_sub(&lower, lower.len() - tailkw.len(), lower.len());
    if !chars_eq(&tail, &tailkw) {
        return None;
    }
    let inner = trim_chars(&chars_sub(&core, head.len(), core.len() - tailkw.len()));
    if inner.len() == 0 {
        None
    } else {
        Some(inner)
    }
}

/// Reads a `loop <list-expr>:` header that is neither `loop all players:`
/// nor `loop <count> times:`; the raw list expression.
fn parse_loop_list_header(line: &Vec<char>) -> (r: Option<Vec<char>>)
    ensures
        r matches Some(c) ==> c@.len() > 0,
{
    if parse_loop_all_players_header(line) {
        return None;
    }
    match parse_loop_times_header(line) {
        Some(_) => None,
        None => parse_keyword_header(line, "loop "),
    }
}

/// The next line that is neither blank nor only a comment, from `start` on:
/// its index and its comment-stripped, end-trimmed text.
fn next_nonempty_noncomment_line(lines: &Vec<Vec<char>>, start: usize) -> (r: Option<
    (usize, Vec<char>),
>)
    requires
        lines_bounded(lines@),
    ensures
        r matches Some(p) ==> start <= p.0 < lines@.len() && p.1@.len() <= lines@[p.0 as int]@.len(),
{
    let mut i: usize = start;
    while i < lines.len()
        invariant
            start <= i,
            lines_bounded(lines@),
        decreases lines@.len() - i,
    {
        let stripped = strip_comment(&lines[i]);
        let l0 = trim_end_chars(&stripped);
        let t = trim_chars(&l0);
        if t.len() > 0 {
            proof {
                crate::strutil::lemma_trim_end_le(stripped@);
            }
            return Some((i, l0));
        }
        i = i + 1;
    }
    None
}

/// Splits source text into lines at `'\n'`, dropping one `'\r'` before each
/// newline.
fn split_lines(src: &Vec<char>) -> (r: Vec<Vec<char>>)
    ensures
        forall|i: int| 0 <= i < r@.len() ==> (#[trigger] r@[i])@.len() <= src@.len(),
{
    let mut out: Vec<Vec<char>> = Vec::new();
    let mut cur: Vec<char> = Vec::new();
    let mut i: usize = 0;
    while i < src.len()
        invariant
            i <= src@.len(),
            cur@.len() <= i,
            forall|x: int| 0 <= x < out@.len() ==> (#[trigger] out@[x])@.len() <= src@.len(),
        decreases src@.len() - i,
    {
        let c = src[i];
        if c == '\n' {
            if cur.len() > 0 && cur[cur.len() - 1] == '\r' {
                cur.pop();
            }
            let done = cur;
            cur = Vec::new();
            out.push(done);
        } else {
            cur.push(c);
        }
        i = i + 1;
    }
    if cur.len() > 0 {
        out.push(cur);
    }
    out
}

/// Splits on a separator character; empty pieces are kept.
fn split_char(v: &Vec<char>, sep: char) -> (r: Vec<Vec<char>>)
    ensures
        forall|i: int| 0 <= i < r@.len() ==> (#[trigger] r@[i])@.len() <= v@.len(),
{
    let mut out: Vec<Vec<char>> = Vec::new();
    let mut cur: Vec<char> = Vec::new();
    let mut i: usize = 0;
    while i < v.len()
        invariant
            i <= v@.len(),
            cur@.len() <= i,
            forall|x: int| 0 <= x < out@.len() ==> (#[trigger] out@[x])@.len() <= v@.len(),
        decreases v@.len() - i,
    {
        let c = v[i];
        if c == sep {
            let done = cur;
            cur = Vec::new();
            out.push(done);
        } else {
            cur.push(c);
        }
        i = i + 1;
    }
    out.push(cur);
    out
}

/// Removes every leading slash.
fn trim_leading_slashes(v: &Vec<char>) -> (r: Vec<char>)
    ensures
        r@.len() <= v@.len(),
{
    let mut i: usize = 0;
    while i < v.len()
        invariant
            i <= v@.len(),
        decreases v@.len() - i,
    {
        if v[i] != '/' {
            break ;
        }
        i = i + 1;
    }
    chars_sub(v, i, v.len())
}

/// Parses one indented statement block. The block's indent is set by its
/// first non-blank line; every statement must have exactly that indent, and
/// deeper indentation is reached only through an `if` or loop header.
/// Returns the block and the index of the first line after it.
fn parse_indented_block(lines: &Vec<Vec<char>>, start_index: usize, parent_indent: usize) -> (r:
    Result<(Block, usize), LineParseError>)
    requires
        lines_bounded(lines@),
        start_index <= lines@.len(),
    ensures
        r matches Ok(p) ==> start_index <= p.1 <= lines@.len(),
        r matches Err(e) ==> 1 <= spec_error_line(e) <= lines@.len(),
    decreases lines@.len() - start_index, 1int,
{
    let (first_i, first_line) = match next_nonempty_noncomment_line(lines, start_index) {
        None => {
            return Ok((Block { statements: Vec::new() }, start_index));
        },
        Some(p) => p,
    };
    let block_indent = indent_width(&first_line);
    proof {
        lemma_indent_bound(first_line@);
    }
    if block_indent <= parent_indent {
        return Ok((Block { statements: Vec::new() }, start_index));
    }
    let mut statements: Vec<Stmt> = Vec::new();
    let mut i: usize = first_i;
    while i < lines.len()
        invariant
            lines_bounded(lines@),
            start_index < lines@.len(),
            start_index <= i,
            i <= lines@.len(),
            4 * first_line@.len() + 8 <= usize::MAX,
            block_indent == spec_indent(first_line@),
        decreases lines@.len() - i,
    {
        let stripped = strip_comment(&lines[i]);
        let l0 = trim_end_chars(&stripped);
        proof {
            crate::strutil::lemma_trim_end_le(stripped@);
        }
        let t = trim_chars(&l0);
        if t.len() == 0 {
            i = i + 1;
            continue ;
        }
        let ind = indent_width(&l0);
        proof {
            lemma_indent_bound(l0@);
        }
        if ind < block_indent {
            break ;
        }
        if ind > block_indent {
            return Err(LineParseError::IndentMismatch { line: i + 1 });
        }
        let span = Span { line: i + 1, col: ind + 1 };
        if let Some(cond) = parse_if_header(&t) {
            let (then_block, after_then) = match parse_indented_block(lines, i + 1, block_indent) {
                Ok(p) => p,
                Err(e) => {
                    return Err(e);
                },
            };
            let (else_block, next_i) = match parse_else_chain(lines, after_then, block_indent) {
                Ok(p) => p,
                Err(e) => {
                    return Err(e);
                },
            };
            statements.push(
                Stmt::If {
                    condition_raw: chars_to_string(&cond),
                    then_block,
                    else_block,
                    span,
                },
            );
            i = next_i;
            continue ;
        }
        if parse_loop_all_players_header(&t) {
            let (body, next_i) = match parse_indented_block(lines, i + 1, block_indent) {
                Ok(p) => p,
                Err(e) => {
                    return Err(e);
                },
            };
            statements.push(Stmt::LoopAllPlayers { body, span });
            i = next_i;
            continue ;
        }
        if let Some(count) = parse_loop_times_header(&t) {
            let (body, next_i) = match parse_indented_block(lines, i + 1, block_indent) {
                Ok(p) => p,
                Err(e) => {
                    return Err(e);
                },
            };
            statements.push(
                Stmt::LoopTimes { count_raw: chars_to_string(&count), body, span },
            );
            i = next_i;
            continue ;
        }
        if let Some(list) = parse_loop_list_header(&t) {
            let (body, next_i) = match parse_indented_block(lines, i + 1, block_indent) {
                Ok(p) => p,
                Err(e) => {
                    return Err(e);
                },
            };
            statements.push(Stmt::LoopList { list_raw: chars_to_string(&list), body, span });
            i = next_i;
            continue ;
        }
        statements.push(Stmt::Raw { raw: chars_to_string(&t), span });
        i = i + 1;
    }
    Ok((Block { statements }, i))
}

/// Parses the optional `else:` / `else if <cond>:` chain after an `if`
/// block; returns the else branch, if any, and the index after the chain.
fn parse_else_chain(lines: &Vec<Vec<char>>, start_index: usize, if_indent: usize) -> (r: Result<
    (Option<Block>, usize),
    LineParseError,
>)
    requires
        lines_bounded(lines@),
        start_index <= lines@.len(),
    ensures
        r matches Ok(p) ==> start_index <= p.1 <= lines@.len(),
        r matches Err(e) ==> 1 <= spec_error_line(e) <= lines@.len(),
    decreases lines@.len() - start_index, 0int,
{
    let (k, k_line) = match next_nonempty_noncomment_line(lines, start_index) {
        None => {
            return Ok((None, start_index));
        },
        Some(p) => p,
    };
    let n = lines.len();
    proof {
        assert(k < n);
    }
    let k_ind = indent_width(&k_line);
    if k_ind != if_indent {
        return Ok((None, start_index));
    }
    let kt = trim_chars(&k_line);
    if is_else_line(&kt) {
        let (eb, after_else) = match parse_indented_block(lines, k + 1, if_indent) {
            Ok(p) => p,
            Err(e) => {
                return Err(e);
            },
        };
        return Ok((Some(eb), after_else));
    }
    if let Some(cond) = parse_else_if_header(&kt) {
        let (elif_then, after_elif_then) = match parse_indented_block(lines, k + 1, if_indent) {
            Ok(p) => p,
            Err(e) => {
                return Err(e);
            },
        };
        let (elif_else, after_chain) = match parse_else_chain(lines, after_elif_then, if_indent) {
            Ok(p) => p,
            Err(e) => {
                return Err(e);
            },
        };
        proof {
            lemma_indent_bound(k_line@);
        }
        let nested_if = Stmt::If {
            condition_raw: chars_to_string(&cond),
            then_block: elif_then,
            else_block: elif_else,
            span: Span { line: k + 1, col: if_indent + 1 },
        };
        let mut stmts: Vec<Stmt> = Vec::new();
        stmts.push(nested_if);
        return Ok((Some(Block { statements: stmts }), after_chain));
    }
    Ok((None, start_index))
}

/// Whether the line reads `options:`, without regard to ASCII case.
fn is_options_header(line: &Vec<char>) -> (r: bool)
    ensures
        r == (spec_lower(spec_trim(line@)) == spec_lower("options:"@)),
{
    let t = lower_chars(&trim_chars(line));
    let kw = lower_chars(&str_to_chars("options:"));
    chars_eq(&t, &kw)
}

/// Whether the line reads `variables:`, without regard to ASCII case.
fn is_variables_header(line: &Vec<char>) -> (r: bool)
    ensures
        r == (spec_lower(spec_trim(line@)) == spec_lower("variables:"@)),
{
    let t = lower_chars(&trim_chars(line));
    let kw = lower_chars(&str_to_chars("variables:"));
    chars_eq(&t, &kw)
}

/// Parses the body of an `options:` block: one `key: value` entry per line,
/// all at one indent. Returns the entries and the index after the block.
fn parse_options_block(lines: &Vec<Vec<char>>, start_index: usize, parent_indent: usize) -> (r:
    Result<(Vec<OptionEntry>, usize), LineParseError>)
    requires
        lines_bounded(lines@),
        start_index <= lines@.len(),
    ensures
        r matches Ok(p) ==> start_index <= p.1 <= lines@.len(),
        r matches Ok(p) ==> (forall|i: int|
            0 <= i < p.0@.len() ==> (#[trigger] p.0@[i]).key@.len() > 0),
        r matches Err(e) ==> 1 <= spec_error_line(e) <= lines@.len(),
{
    let (first_i, first_line) = match next_nonempty_noncomment_line(lines, start_index) {
        None => {
            return Ok((Vec::new(), start_index));
        },
        Some(p) => p,
    };
    let block_indent = indent_width(&first_line);
    if block_indent <= parent_indent {
        return Ok((Vec::new(), start_index));
    }
    let mut out: Vec<OptionEntry> = Vec::new();
    let mut i: usize = first_i;
    while i < lines.len()
        invariant
            lines_bounded(lines@),
            start_index <= i <= lines@.len(),
            forall|x: int| 0 <= x < out@.len() ==> (#[trigger] out@[x]).key@.len() > 0,
        decreases lines@.len() - i,
    {
        let stripped = strip_comment(&lines[i]);
        let l0 = trim_end_chars(&stripped);
        proof {
            crate::strutil::lemma_trim_end_le(stripped@);
        }
        let t = trim_chars(&l0);
        if t.len() == 0 {
            i = i + 1;
            continue ;
        }
        let ind = indent_width(&l0);
        proof {
            lemma_indent_bound(l0@);
        }
        if ind < block_indent {
            break ;
        }
        if ind > block_indent {
            return Err(LineParseError::IndentMismatch { line: i + 1 });
        }
        if let Some(cpos) = find_char(&t, ':') {
            let key = trim_chars(&chars_sub(&t, 0, cpos));
            let val = trim_chars(&chars_sub(&t, cpos + 1, t.len()));
            if key.len() > 0 {
                out.push(
                    OptionEntry {
                        key: chars_to_string(&key),
                        value_raw: chars_to_string(&val),
                        span: Span { line: i + 1, col: ind + 1 },
                    },
                );
            }
        }
        i = i + 1;
    }
    Ok((out, i))
}

/// Parses the body of a `variables:` block: entries split at `=`, or at the
/// last `:` so that `::` stays inside keys. Returns the entries and the
/// index after the block.
fn parse_variables_block(lines: &Vec<Vec<char>>, start_index: usize, parent_indent: usize) -> (r:
    Result<(Vec<VarInit>, usize), LineParseError>)
    requires
        lines_bounded(lines@),
        start_index <= lines@.len(),
    ensures
        r matches Ok(p) ==> start_index <= p.1 <= lines@.len(),
        r matches Ok(p) ==> (forall|i: int|
            0 <= i < p.0@.len() ==> (#[trigger] p.0@[i]).key_raw@.len() > 0),
        r matches Err(e) ==> 1 <= spec_error_line(e) <= lines@.len(),
{
    let (first_i, first_line) = match next_nonempty_noncomment_line(lines, start_index) {
        None => {
            return Ok((Vec::new(), start_index));
        },
        Some(p) => p,
    };
    let block_indent = indent_width(&first_line);
    if block_indent <= parent_indent {
        return Ok((Vec::new(), start_index));
    }
    let mut out: Vec<VarInit> = Vec::new();
    let mut i: usize = first_i;
    while i < lines.len()
        invariant
            lines_bounded(lines@),
            start_index <= i <= lines@.len(),
            forall|x: int| 0 <= x < out@.len() ==> (#[trigger] out@[x]).key_raw@.len() > 0,
        decreases lines@.len() - i,
    {
        let stripped = strip_comment(&lines[i]);
        let l0 = trim_end_chars(&stripped);
        proof {
            crate::strutil::lemma_trim_end_le(stripped@);
        }
        let t = trim_chars(&l0);
        if t.len() == 0 {
            i = i + 1;
            continue ;
        }
        let ind = indent_width(&l0);
        proof {
            lemma_indent_bound(l0@);
        }
        if ind < block_indent {
            break ;
        }
        if ind > block_indent {
            return Err(LineParseError::IndentMismatch { line: i + 1 });
        }
        let split = match find_char(&t, '=') {
            Some(p) => Some(p),
            None => rfind_char(&t, ':'),
        };
        if let Some(cpos) = split {
            let key = trim_chars(&chars_sub(&t, 0, cpos));
            let val = trim_chars(&chars_sub(&t, cpos + 1, t.len()));
            if key.len() > 0 {
                out.push(
                    VarInit {
                        key_raw: chars_to_string(&key),
                        value_raw: chars_to_string(&val),
                        span: Span { line: i + 1, col: ind + 1 },
                    },
                );
            }
        }
        i = i + 1;
    }
    Ok((out, i))
}

/// Reads a `function name(params) :: type:` header: the name, parameters
/// and optional return type.
fn parse_function_header(line: &Vec<char>) -> (r: Option<(String, Vec<Param>, Option<String>)>) {
    let t = trim_chars(line);
    if !ends_with_char(&t, ':') {
        return None;
    }
    let core = trim_chars(&strip_trailing_colons(&t));
    let lower = lower_chars(&core);
    let kw = str_to_chars("function ");
    if !starts_with_chars(&lower, &kw) {
        return None;
    }
    let rest = trim_chars(&chars_sub(&core, kw.len(), core.len()));
    let lparen = match find_char(&rest, '(') {
        Some(p) => p,
        None => {
            return None;
        },
    };
    let rparen = match rfind_char(&rest, ')') {
        Some(p) => p,
        None => {
            return None;
        },
    };
    if rparen < lparen {
        return None;
    }
    let name = trim_chars(&chars_sub(&rest, 0, lparen));
    if name.len() == 0 {
        return None;
    }
    let params_str = trim_chars(&chars_sub(&rest, lparen + 1, rparen));
    let mut params: Vec<Param> = Vec::new();
    if params_str.len() > 0 {
        let pieces = split_char(&params_str, ',');
        let mut k: usize = 0;
        while k < pieces.len()
            decreases pieces@.len() - k,
        {
            let p = trim_chars(&pieces[k]);
            if p.len() > 0 {
                match find_char(&p, ':') {
                    Some(cpos) => {
                        let pname = trim_chars(&chars_sub(&p, 0, cpos));
                        let pty = trim_chars(&chars_sub(&p, cpos + 1, p.len()));
                        if pname.len() > 0 {
                            params.push(
                                Param {
                                    name: chars_to_string(&pname),
                                    ty: Some(chars_to_string(&pty)),
                                },
                            );
                        }
                    },
                    None => {
                        params.push(Param { name: chars_to_string(&p), ty: None });
                    },
                }
            }
            k = k + 1;
        }
    }
    let rn = rest.len();
    proof {
        assert(rparen < rn);
    }
    let tail2 = trim_chars(&chars_sub(&rest, rparen + 1, rn));
    let colons = str_to_chars("::");
    proof {
        reveal_strlit("::");
    }
    let return_type = if starts_with_chars(&tail2, &colons) {
        let ty = trim_chars(&chars_sub(&tail2, 2, tail2.len()));
        if ty.len() == 0 {
            None
        } else {
            Some(chars_to_string(&ty))
        }
    } else {
        None
    };
    Some((chars_to_string(&name), params, return_type))
}

/// Parses a function definition starting at `line_index`, if that line is a
/// function header at the given indent.
fn parse_function_def(lines: &Vec<Vec<char>>, line_index: usize, parent_indent: usize) -> (r:
    Result<Option<(FunctionDef, usize)>, LineParseError>)
    requires
        lines_bounded(lines@),
        line_index < lines@.len(),
    ensures
        r matches Ok(p) ==> (p matches Some(q) ==> line_index < q.1 <= lines@.len()),
        r matches Err(e) ==> 1 <= spec_error_line(e) <= lines@.len(),
{
    let n = lines.len();
    proof {
        assert(line_index < n);
    }
    let stripped = strip_comment(&lines[line_index]);
    let raw_line = trim_end_chars(&stripped);
    proof {
        crate::strutil::lemma_trim_end_le(stripped@);
    }
    let indent = indent_width(&raw_line);
    if indent != parent_indent {
        return Ok(None);
    }
    let t = trim_chars(&raw_line);
    let (name, params, return_type) = match parse_function_header(&t) {
        None => {
            return Ok(None);
        },
        Some(h) => h,
    };
    proof {
        lemma_indent_bound(raw_line@);
    }
    let span = Span { line: line_index + 1, col: indent + 1 };
    let (body, next_i) = match parse_indented_block(lines, line_index + 1, indent) {
        Ok(p) => p,
        Err(e) => {
            return Err(e);
        },
    };
    Ok(Some((FunctionDef { name, params, return_type, body, span }, next_i)))
}

/// Appends one command argument read from the inside of `<...>`.
fn push_command_arg(inner: &Vec<char>, optional: bool, out: &mut Vec<CommandArg>) {
    let raw = trim_chars(inner);
    if raw.len() == 0 {
        return ;
    }
    match find_char(&raw, ':') {
        Some(cpos) => {
            let name = trim_chars(&chars_sub(&raw, 0, cpos));
            let ty = trim_chars(&chars_sub(&raw, cpos + 1, raw.len()));
            out.push(
                CommandArg {
                    name: chars_to_string(&name),
                    ty: Some(chars_to_string(&ty)),
                    optional,
                },
            );
        },
        None => {
            out.push(
                CommandArg {
                    name: chars_to_string(&raw),
                    ty: Some(chars_to_string(&raw)),
                    optional,
                },
            );
        },
    }
}

/// Reads the declared arguments of a command header: `<name:type>` for a
/// required argument, `[<name:type>]` for an optional one.
fn parse_command_args(s: &Vec<char>) -> (r: Vec<CommandArg>) {
    let n = s.len();
    let mut out: Vec<CommandArg> = Vec::new();
    let mut i: usize = 0;
    while i < n
        invariant
            n == s@.len(),
            i <= n,
        decreases n - i,
    {
        if s[i] == '[' && i + 1 < n && s[i + 1] == '<' {
            let mut j: usize = i + 2;
            let mut end: Option<usize> = None;
            while j < n
                invariant_except_break
                    end is None,
                invariant
                    i + 2 <= j,
                    j <= n,
                    n == s@.len(),
                ensures
                    end matches Some(e) ==> i + 2 <= e && e + 1 < n,
                decreases n - j,
            {
                if s[j] == '>' && j + 1 < n && s[j + 1] == ']' {
                    end = Some(j);
                    break ;
                }
                j = j + 1;
            }
            if let Some(e) = end {
                let inner = chars_sub(s, i + 2, e);
                push_command_arg(&inner, true, &mut out);
                i = e + 2;
                continue ;
            }
        }
        if s[i] == '<' {
            let mut j: usize = i + 1;
            let mut end: Option<usize> = None;
            while j < n
                invariant_except_break
                    end is None,
                invariant
                    i + 1 <= j,
                    j <= n,
                    n == s@.len(),
                ensures
                    end matches Some(e) ==> i + 1 <= e < n,
                decreases n - j,
            {
                if s[j] == '>' {
                    end = Some(j);
                    break ;
                }
                j = j + 1;
            }
            if let Some(e) = end {
                let inner = chars_sub(s, i + 1, e);
                push_command_arg(&inner, false, &mut out);
                i = e + 1;
                continue ;
            }
        }
        i = i + 1;
    }
    out
}

/// Reads a `command /name <args>:` header: the name, without leading
/// slashes, and the declared arguments.
fn parse_command_header(line: &Vec<char>) -> (r: Option<(String, Vec<CommandArg>)>) {
    let t = trim_chars(line);
    if !ends_with_char(&t, ':') {
        return None;
    }
    let core = trim_chars(&strip_trailing_colons(&t));
    let lower = lower_chars(&core);
    let kw = str_to_chars("command ");
    if !starts_with_chars(&lower, &kw) {
        return None;
    }
    let rest = trim_chars(&chars_sub(&core, kw.len(), core.len()));
    let tokens = split_ws(&rest);
    let mut name: Option<Vec<char>> = None;
    let mut remainder: Vec<char> = Vec::new();
    let mut k: usize = 0;
    while k < tokens.len()
        invariant
            k <= tokens@.len(),
        decreases tokens@.len() - k,
    {
        let tok = &tokens[k];
        if tok.len() > 0 && tok[0] == '/' {
            name = Some(trim_leading_slashes(tok));
            let mut m: usize = k + 1;
            while m < tokens.len()
                invariant
                    k + 1 <= m,
                    m <= tokens@.len(),
                decreases tokens@.len() - m,
            {
                if m > k + 1 {
                    remainder.push(' ');
                }
                let mut c: usize = 0;
                let tk = &tokens[m];
                while c < tk.len()
                    invariant
                        c <= tk@.len(),
                    decreases tk@.len() - c,
                {
                    remainder.push(tk[c]);
                    c = c + 1;
                }
                m = m + 1;
            }
            break ;
        }
        k = k + 1;
    }
    let name = match name {
        None => {
            return None;
        },
        Some(nm) => nm,
    };
    let args = parse_command_args(&trim_chars(&remainder));
    Some((chars_to_string(&name), args))
}

/// Parses the body of a command definition: `aliases:`, `permission:` and
/// the `trigger:` block, all at one indent. Returns the aliases, the
/// permission, the trigger block and the index after the body.
fn parse_command_block(lines: &Vec<Vec<char>>, start_index: usize, parent_indent: usize) -> (r:
    Result<(Vec<String>, Option<String>, Block, usize), LineParseError>)
    requires
        lines_bounded(lines@),
        start_index <= lines@.len(),
    ensures
        r matches Ok(p) ==> start_index <= p.3 <= lines@.len(),
        r matches Err(e) ==> 1 <= spec_error_line(e) <= lines@.len(),
{
    let (first_i, first_line) = match next_nonempty_noncomment_line(lines, start_index) {
        None => {
            return Ok((Vec::new(), None, Block { statements: Vec::new() }, start_index));
        },
        Some(p) => p,
    };
    let block_indent = indent_width(&first_line);
    if block_indent <= parent_indent {
        return Ok((Vec::new(), None, Block { statements: Vec::new() }, start_index));
    }
    let mut aliases: Vec<String> = Vec::new();
    let mut permission: Option<String> = None;
    let mut trigger: Option<Block> = None;
    let mut i: usize = first_i;
    while i < lines.len()
        invariant
            lines_bounded(lines@),
            start_index <= i <= lines@.len(),
        decreases lines@.len() - i,
    {
        let stripped = strip_comment(&lines[i]);
        let l0 = trim_end_chars(&stripped);
        proof {
            crate::strutil::lemma_trim_end_le(stripped@);
        }
        let t = trim_chars(&l0);
        if t.len() == 0 {
            i = i + 1;
            continue ;
        }
        let ind = indent_width(&l0);
        if ind < block_indent {
            break ;
        }
        if ind > block_indent {
            return Err(LineParseError::IndentMismatch { line: i + 1 });
        }
        let aliases_kw = str_to_chars("aliases:");
        if starts_with_chars(&t, &aliases_kw) {
            let rest = chars_sub(&t, aliases_kw.len(), t.len());
            let items = split_char(&rest, ',');
            let mut m: usize = 0;
            while m < items.len()
                invariant
                    m <= items@.len(),
                decreases items@.len() - m,
            {
                let item = trim_chars(&items[m]);
                if item.len() > 0 {
                    let cleaned = if item[0] == '/' {
                        trim_leading_slashes(&item)
                    } else {
                        item
                    };
                    aliases.push(chars_to_string(&cleaned));
                }
                m = m + 1;
            }
            i = i + 1;
            continue ;
        }
        let permission_kw = str_to_chars("permission:");
        if starts_with_chars(&t, &permission_kw) {
            let p = trim_chars(&chars_sub(&t, permission_kw.len(), t.len()));
            if p.len() > 0 {
                permission = Some(chars_to_string(&p));
            }
            i = i + 1;
            continue ;
        }
        let trigger_lower = lower_chars(&t);
        let trigger_kw = lower_chars(&str_to_chars("trigger:"));
        if chars_eq(&trigger_lower, &trigger_kw) {
            let (body, next_i) = match parse_indented_block(lines, i + 1, block_indent) {
                Ok(p) => p,
                Err(e) => {
                    return Err(e);
                },
            };
            trigger = Some(body);
            i = next_i;
            continue ;
        }
        i = i + 1;
    }
    let trig = match trigger {
        Some(b) => b,
        None => Block { statements: Vec::new() },
    };
    Ok((aliases, permission, trig, i))
}

/// Parses a command definition starting at `line_index`, if that line is a
/// command header at the given indent.
fn parse_command_def(lines: &Vec<Vec<char>>, line_index: usize, parent_indent: usize) -> (r:
    Result<Option<(CommandDef, usize)>, LineParseError>)
    requires
        lines_bounded(lines@),
        line_index < lines@.len(),
    ensures
        r matches Ok(p) ==> (p matches Some(q) ==> line_index < q.1 <= lines@.len()),
        r matches Err(e) ==> 1 <= spec_error_line(e) <= lines@.len(),
{
    let n = lines.len();
    proof {
        assert(line_index < n);
    }
    let stripped = strip_comment(&lines[line_index]);
    let raw_line = trim_end_chars(&stripped);
    proof {
        crate::strutil::lemma_trim_end_le(stripped@);
    }
    let indent = indent_width(&raw_line);
    if indent != parent_indent {
        return Ok(None);
    }
    let t = trim_chars(&raw_line);
    let (name, args) = match parse_command_header(&t) {
        None => {
            return Ok(None);
        },
        Some(h) => h,
    };
    proof {
        lemma_indent_bound(raw_line@);
    }
    let span = Span { line: line_index + 1, col: indent + 1 };
    let (aliases, permission, trigger, next_i) = match parse_command_block(
        lines,
        line_index + 1,
        indent,
    ) {
        Ok(p) => p,
        Err(e) => {
            return Err(e);
        },
    };
    let next = if next_i > line_index {
        next_i
    } else {
        line_index + 1
    };
    Ok(Some((CommandDef { name, args, aliases, permission, trigger, span }, next)))
}

/// Parses a whole script source: top-level `options:` and `variables:`
/// blocks, function and command definitions and event triggers, in the
/// order they appear. A top-level line with indentation is an error, as is
/// an inconsistently indented block; any other unrecognized top-level line
/// is ignored.
pub fn parse_script(source: &str) -> (r: Result<Script, LineParseError>)
    requires
        4 * source@.len() + 8 <= usize::MAX,
    ensures
        r matches Err(e) ==> 1 <= spec_error_line(e),
        r matches Ok(sc) ==> (forall|i: int|
            0 <= i < sc.triggers@.len() ==> (#[trigger] sc.triggers@[i]).header.event is None
                && sc.triggers@[i].header.raw@.len() > 0 && sc.triggers@[i].span.line >= 1),
        r matches Ok(sc) ==> (forall|i: int|
            0 <= i < sc.options@.len() ==> (#[trigger] sc.options@[i]).key@.len() > 0),
        r matches Ok(sc) ==> (forall|i: int|
            0 <= i < sc.variables@.len() ==> (#[trigger] sc.variables@[i]).key_raw@.len() > 0),
{
    let src_chars = str_to_chars(source);
    let lines = split_lines(&src_chars);
    proof {
        assert(lines_bounded(lines@));
    }
    let mut options: Vec<OptionEntry> = Vec::new();
    let mut variables: Vec<VarInit> = Vec::new();
    let mut functions: Vec<FunctionDef> = Vec::new();
    let mut commands: Vec<CommandDef> = Vec::new();
    let mut triggers: Vec<Trigger> = Vec::new();
    let mut i: usize = 0;
    while i < lines.len()
        invariant
            lines_bounded(lines@),
            i <= lines@.len(),
            forall|x: int|
                0 <= x < triggers@.len() ==> (#[trigger] triggers@[x]).header.event is None
                    && triggers@[x].header.raw@.len() > 0 && triggers@[x].span.line >= 1,
            forall|x: int| 0 <= x < options@.len() ==> (#[trigger] options@[x]).key@.len() > 0,
            forall|x: int|
                0 <= x < variables@.len() ==> (#[trigger] variables@[x]).key_raw@.len() > 0,
        decreases lines@.len() - i,
    {
        let stripped = strip_comment(&lines[i]);
        let raw_line = trim_end_chars(&stripped);
        proof {
            crate::strutil::lemma_trim_end_le(stripped@);
        }
        let t = trim_chars(&raw_line);
        if t.len() == 0 {
            i = i + 1;
            continue ;
        }
        let indent = indent_width(&raw_line);
        if indent != 0 {
            return Err(LineParseError::UnexpectedIndent { line: i + 1 });
        }
        if is_options_header(&t) {
            let (opts, next_i) = match parse_options_block(&lines, i + 1, indent) {
                Ok(p) => p,
                Err(e) => {
                    return Err(e);
                },
            };
            let mut m: usize = 0;
            let mut opts = opts;
            while m < opts.len()
                invariant
                    m <= opts@.len(),
                    forall|x: int|
                        0 <= x < opts@.len() ==> (#[trigger] opts@[x]).key@.len() > 0,
                    forall|x: int|
                        0 <= x < options@.len() ==> (#[trigger] options@[x]).key@.len() > 0,
                decreases opts@.len() - m,
            {
                let entry = OptionEntry {
                    key: opts[m].key.clone(),
                    value_raw: opts[m].value_raw.clone(),
                    span: opts[m].span,
                };
                options.push(entry);
                m = m + 1;
            }
            i = next_i;
            continue ;
        }
        if is_variables_header(&t) {
            let (vars, next_i) = match parse_variables_block(&lines, i + 1, indent) {
                Ok(p) => p,
                Err(e) => {
                    return Err(e);
                },
            };
            let mut m: usize = 0;
            let mut vars = vars;
            while m < vars.len()
                invariant
                    m <= vars@.len(),
                    forall|x: int|
                        0 <= x < vars@.len() ==> (#[trigger] vars@[x]).key_raw@.len() > 0,
                    forall|x: int|
                        0 <= x < variables@.len() ==> (#[trigger] variables@[x]).key_raw@.len()
                            > 0,
                decreases vars@.len() - m,
            {
                let entry = VarInit {
                    key_raw: vars[m].key_raw.clone(),
                    value_raw: vars[m].value_raw.clone(),
                    span: vars[m].span,
                };
                variables.push(entry);
                m = m + 1;
            }
            i = next_i;
            continue ;
        }
        match parse_function_def(&lines, i, indent) {
            Ok(Some((func, next_i))) => {
                functions.push(func);
                i = next_i;
                continue ;
            },
            Ok(None) => {},
            Err(e) => {
                return Err(e);
            },
        }
        match parse_command_def(&lines, i, indent) {
            Ok(Some((cmd, next_i))) => {
                commands.push(cmd);
                i = next_i;
                continue ;
            },
            Ok(None) => {},
            Err(e) => {
                return Err(e);
            },
        }
        if let Some(header_raw) = parse_trigger_header(&t) {
            let span = Span { line: i + 1, col: 1 };
            let (body, next_i) = match parse_indented_block(&lines, i + 1, 0) {
                Ok(p) => p,
                Err(e) => {
                    return Err(e);
                },
            };
            triggers.push(
                Trigger {
                    header: TriggerHeader { raw: chars_to_string(&header_raw), event: None },
                    body,
                    span,
                },
            );
            let next = if next_i > i {
                next_i
            } else {
                i + 1
            };
            i = next;
        } else {
            i = i + 1;
        }
    }
    Ok(Script { options, variables, functions, commands, triggers })
}

} // verus!
