//! Script loading, minus the disk: parsing one file's contents, attaching
//! events, and validating that every raw statement names a known effect, a
//! builtin, or a defined function. Reading files is the host's concern.

use vstd::prelude::*;

use crate::ast::{Block, Stmt};
use crate::diagnostics::SkriptError;
use crate::event_parser::{attach_events, EventRegistry};
use crate::line_parser::{parse_script, spec_error_line, LineParseError};
use crate::registry::effects::EffectsRegistry;
use crate::script::{Script, ScriptSource};
use crate::strutil::{
    chars_eq, chars_sub, chars_to_string, find_char, lower_chars, rfind_char, split_ws,
    str_to_chars, trim_chars,
};

verus! {

/// Parses and validates one script file: the parsed script, with events
/// attached, and any unknown-effect diagnostics.
pub fn parse_script_file(contents: &str, path: String, reg: &EventRegistry) -> (r: Result<
    (Script, Vec<SkriptError>),
    LineParseError,
>)
    requires
        4 * contents@.len() + 8 <= usize::MAX,
{
    let effects = full_effects_registry();
    let mut parsed = match parse_script(contents) {
        Ok(p) => p,
        Err(e) => {
            return Err(e);
        },
    };
    attach_events(&mut parsed, reg);
    let script = Script::from_ast(ScriptSource::File { path: path.clone() }, parsed);
    let errors = validate_unknown_effects(contents, path.as_str(), &script, &effects);
    Ok((script, errors))
}

/// The effects registry with every built-in effect registered.
fn full_effects_registry() -> (r: EffectsRegistry) {
    let mut reg = EffectsRegistry::new();
    crate::registry::effects::register_all_effects(&mut reg);
    reg
}

/// Collects an unknown-effect diagnostic for every raw statement whose
/// first token is neither a registered effect, a builtin statement keyword,
/// nor a call of one of the script's functions.
pub fn validate_unknown_effects(
    contents: &str,
    path: &str,
    script: &Script,
    effects: &EffectsRegistry,
) -> (r: Vec<SkriptError>) {
    let lines = source_lines(contents);
    let mut out: Vec<SkriptError> = Vec::new();
    let mut i: usize = 0;
    while i < script.triggers.len()
        decreases script.triggers@.len() - i,
    {
        validate_block(&script.triggers[i].body, &lines, path, script, effects, &mut out);
        i = i + 1;
    }
    let mut f: usize = 0;
    while f < script.functions.len()
        decreases script.functions@.len() - f,
    {
        validate_block(&script.functions[f].body, &lines, path, script, effects, &mut out);
        f = f + 1;
    }
    let mut c: usize = 0;
    while c < script.commands.len()
        decreases script.commands@.len() - c,
    {
        validate_block(&script.commands[c].trigger, &lines, path, script, effects, &mut out);
        c = c + 1;
    }
    out
}

/// The source's lines, as strings.
fn source_lines(contents: &str) -> (r: Vec<String>) {
    let chars = str_to_chars(contents);
    let mut out: Vec<String> = Vec::new();
    let mut cur: Vec<char> = Vec::new();
    let mut i: usize = 0;
    while i < chars.len()
        invariant
            i <= chars@.len(),
        decreases chars@.len() - i,
    {
        let c = chars[i];
        if c == '\n' {
            if cur.len() > 0 && cur[cur.len() - 1] == '\r' {
                cur.pop();
            }
            let done = cur;
            cur = Vec::new();
            out.push(chars_to_string(&done));
        } else {
            cur.push(c);
        }
        i = i + 1;
    }
    if cur.len() > 0 {
        out.push(chars_to_string(&cur));
    }
    out
}

/// Validates one block, recursing into nested blocks.
fn validate_block(
    block: &Block,
    lines: &Vec<String>,
    path: &str,
    script: &Script,
    effects: &EffectsRegistry,
    out: &mut Vec<SkriptError>,
)
    decreases block,
{
    let mut i: usize = 0;
    while i < block.statements.len()
        invariant
            i <= block.statements@.len(),
        decreases block.statements@.len() - i,
    {
        proof {
            assert(decreases_to!(block => block.statements@[i as int]));
        }
        let stmt = &block.statements[i];
        match stmt {
            Stmt::Raw { raw, span } => {
                let trimmed = trim_chars(&str_to_chars(raw.as_str()));
                if trimmed.len() > 0 {
                    let tokens = split_ws(&trimmed);
                    if tokens.len() > 0 {
                        let effect_name = chars_to_string(&tokens[0]);
                        let known = effects.get_effect(effect_name.as_str());
                        if !known && !is_builtin_statement(effect_name.as_str())
                            && !is_function_call(raw.as_str(), script) {
                            let line_idx = if span.line >= 1 {
                                span.line - 1
                            } else {
                                0
                            };
                            let line_text = if line_idx < lines.len() {
                                lines[line_idx].clone()
                            } else {
                                String::new()
                            };
                            let mut msg = str_to_chars("Unknown effect: ");
                            let name_chars = str_to_chars(effect_name.as_str());
                            let mut k: usize = 0;
                            while k < name_chars.len()
                                decreases name_chars@.len() - k,
                            {
                                msg.push(name_chars[k]);
                                k = k + 1;
                            }
                            let err = SkriptError::new(
                                path,
                                span.line,
                                span.col,
                                line_text.as_str(),
                                chars_to_string(&msg).as_str(),
                            ).with_help(
                                "This effect is not registered. Implement/register it (e.g. add/remove) or check spelling.",
                            );
                            out.push(err);
                        }
                    }
                }
            },
            Stmt::If { then_block, else_block, .. } => {
                validate_block(then_block, lines, path, script, effects, out);
                match else_block {
                    Some(eb) => {
                        proof {
                            assert(decreases_to!(block.statements@[i as int] => eb));
                        }
                        validate_block(eb, lines, path, script, effects, out);
                    },
                    None => {},
                }
            },
            Stmt::LoopAllPlayers { body, .. } => {
                validate_block(body, lines, path, script, effects, out);
            },
            Stmt::LoopTimes { body, .. } => {
                validate_block(body, lines, path, script, effects, out);
            },
            Stmt::LoopList { body, .. } => {
                validate_block(body, lines, path, script, effects, out);
            },
        }
        i = i + 1;
    }
}

/// Whether a statement keyword is a builtin of the language itself.
pub fn is_builtin_statement(name: &str) -> (r: bool) {
    let lower = lower_chars(&str_to_chars(name));
    let mut builtins: Vec<Vec<char>> = Vec::new();
    builtins.push(str_to_chars("if"));
    builtins.push(str_to_chars("else"));
    builtins.push(str_to_chars("loop"));
    builtins.push(str_to_chars("return"));
    builtins.push(str_to_chars("stop"));
    builtins.push(str_to_chars("wait"));
    builtins.push(str_to_chars("make"));
    let mut i: usize = 0;
    while i < builtins.len()
        decreases builtins@.len() - i,
    {
        if chars_eq(&lower, &builtins[i]) {
            return true;
        }
        i = i + 1;
    }
    false
}

/// Whether a line is a call of one of the script's functions, without
/// regard to ASCII case.
pub fn is_function_call(line: &str, script: &Script) -> (r: bool) {
    let (fname, _args) = match parse_function_call(line) {
        Some(c) => c,
        None => {
            return false;
        },
    };
    let fname_lc = lower_chars(&str_to_chars(fname.as_str()));
    let mut i: usize = 0;
    while i < script.functions.len()
        decreases script.functions@.len() - i,
    {
        let def_lc = lower_chars(&str_to_chars(script.functions[i].name.as_str()));
        if chars_eq(&fname_lc, &def_lc) {
            return true;
        }
        i = i + 1;
    }
    false
}

/// Reads a `name(arg, ...)` call: the name before the first `(` and the
/// comma-separated arguments inside the outermost parentheses.
pub fn parse_function_call(s: &str) -> (r: Option<(String, Vec<String>)>) {
    let t = trim_chars(&str_to_chars(s));
    let lparen = match find_char(&t, '(') {
        Some(p) => p,
        None => {
            return None;
        },
    };
    let rparen = match rfind_char(&t, ')') {
        Some(p) => p,
        None => {
            return None;
        },
    };
    if rparen <= lparen {
        return None;
    }
    let name = trim_chars(&chars_sub(&t, 0, lparen));
    if name.len() == 0 {
        return None;
    }
    let args_str = trim_chars(&chars_sub(&t, lparen + 1, rparen));
    let mut args: Vec<String> = Vec::new();
    if args_str.len() > 0 {
        let pieces = split_args(&args_str);
        let mut k: usize = 0;
        while k < pieces.len()
            decreases pieces@.len() - k,
        {
            args.push(chars_to_string(&trim_chars(&pieces[k])));
            k = k + 1;
        }
    }
    Some((chars_to_string(&name), args))
}

/// Splits on commas.
fn split_args(v: &Vec<char>) -> (r: Vec<Vec<char>>) {
    let mut out: Vec<Vec<char>> = Vec::new();
    let mut cur: Vec<char> = Vec::new();
    let mut i: usize = 0;
    while i < v.len()
        invariant
            i <= v@.len(),
        decreases v@.len() - i,
    {
        let c = v[i];
        if c == ',' {
            let done = cur;
            cur = Vec::new();
            out.push(done);
        } else {
            cur.push(c);
        }
        i = i + 1;
    }
    out.push(cur);
    out
}

/// Turns a line-parse failure into a diagnostic pointing at the offending
/// line.
pub fn make_parse_error(contents: &str, path: &str, e: LineParseError) -> (r: SkriptError)
    ensures
        r.line == spec_error_line(e),
{
    let (line, msg) = match e {
        LineParseError::IndentMismatch { line } => (line, "Indent mismatch"),
        LineParseError::UnexpectedIndent { line } => (line, "Unexpected indent"),
    };
    let lines = source_lines(contents);
    let idx = if line >= 1 {
        line - 1
    } else {
        0
    };
    let line_text = if idx < lines.len() {
        lines[idx].clone()
    } else {
        String::new()
    };
    SkriptError::new(path, line, 1, line_text.as_str(), msg).with_help(
        "Check indentation. Blocks must be consistently indented under triggers/if statements.",
    )
}

} // verus!
