//! Grammar building for script-declared commands: a `command /name <args>:`
//! definition becomes an engine tree whose declared arguments chain one
//! after the other, with an extra stopping point before every optional
//! argument. Registration against a live dispatcher, with its retries, is
//! the host's concern.

use vstd::prelude::*;

use crate::ast::CommandDef;
use crate::strutil::{chars_to_string, lower_chars, spec_lower, str_to_chars, u64_to_chars};
use crate::tree::{argument, tree_wf, CommandTree, NodeBuilder};

verus! {

/// The positional name of a declared argument: `arg1`, `arg2`, and so on.
pub fn arg_name(idx: usize) -> (r: String)
    requires
        idx < usize::MAX,
    ensures
        r@ == "arg"@ + crate::strutil::spec_decimal(idx + 1),
{
    let mut chars = str_to_chars("arg");
    let digits = u64_to_chars((idx + 1) as u64);
    let mut k: usize = 0;
    while k < digits.len()
        invariant
            digits@ == crate::strutil::spec_decimal(idx + 1),
            k <= digits@.len(),
            chars@ == "arg"@ + digits@.take(k as int),
        decreases digits@.len() - k,
    {
        chars.push(digits[k]);
        k = k + 1;
        proof {
            assert(chars@ =~= "arg"@ + digits@.take(k as int));
        }
    }
    proof {
        assert(digits@.take(digits@.len() as int) =~= digits@);
    }
    chars_to_string(&chars)
}

/// The permission node a script command is guarded by: its declared
/// permission, the operator node when that permission reads `op`, or a
/// default node derived from the command's name.
pub fn command_permission_node(cmd: &CommandDef) -> (r: String)
    ensures
        cmd.permission matches Some(p) ==> (if spec_lower(p@) == spec_lower("op"@) {
            r@ == "skript:command.op"@
        } else {
            r@ == p@
        }),
        cmd.permission is None ==> r@ == "skript:command."@ + cmd.name@,
{
    match &cmd.permission {
        Some(p) => {
            let p_lower = lower_chars(&str_to_chars(p.as_str()));
            let op = lower_chars(&str_to_chars("op"));
            if crate::strutil::chars_eq(&p_lower, &op) {
                String::from_str("skript:command.op")
            } else {
                p.clone()
            }
        },
        None => {
            let mut chars = str_to_chars("skript:command.");
            let name = str_to_chars(cmd.name.as_str());
            let mut k: usize = 0;
            while k < name.len()
                invariant
                    name@ == cmd.name@,
                    k <= name@.len(),
                    chars@ == "skript:command."@ + name@.take(k as int),
                decreases name@.len() - k,
            {
                chars.push(name[k]);
                k = k + 1;
                proof {
                    assert(chars@ =~= "skript:command."@ + name@.take(k as int));
                }
            }
            proof {
                assert(name@.take(name@.len() as int) =~= name@);
            }
            chars_to_string(&chars)
        },
    }
}

/// Builds the engine tree for one script-declared command: the command's
/// name and aliases, its declared arguments chained in order under the
/// `ask_server_string` consumer, a terminal at the end, and an extra
/// terminal wherever the remaining arguments are optional. Every leaf runs
/// the host's `script_command` callback.
pub fn script_command_tree(cmd: &CommandDef) -> (t: CommandTree)
    requires
        cmd.args@.len() < usize::MAX,
    ensures
        tree_wf(t),
        t.names@.len() == 1 + cmd.aliases@.len(),
        t.names@[0]@ == cmd.name@,
{
    let mut names: Vec<String> = Vec::new();
    names.push(cmd.name.clone());
    let mut a: usize = 0;
    while a < cmd.aliases.len()
        invariant
            a <= cmd.aliases@.len(),
            names@.len() == 1 + a,
            names@[0]@ == cmd.name@,
        decreases cmd.aliases@.len() - a,
    {
        names.push(cmd.aliases[a].clone());
        a = a + 1;
    }
    let mut tree = CommandTree::new(names, "Skript command");
    if cmd.args.len() == 0 {
        return tree.execute("script_command");
    }
    // build the argument chain bottom-up, deepest argument first
    let mut idx: usize = cmd.args.len();
    let mut chain: Option<NodeBuilder> = None;
    while idx > 0
        invariant
            idx <= cmd.args@.len(),
            cmd.args@.len() > 0,
            (chain is Some) == (idx < cmd.args@.len()),
        decreases idx,
    {
        idx = idx - 1;
        let mut node = argument(arg_name(idx).as_str(), "ask_server_string");
        match chain {
            Some(deeper) => {
                if cmd.args[idx + 1].optional {
                    node = node.execute("script_command");
                }
                node = node.child(deeper);
            },
            None => {
                node = node.execute("script_command");
            },
        }
        chain = Some(node);
    }
    if cmd.args[0].optional {
        tree = tree.execute("script_command");
    }
    match chain {
        Some(c) => tree.child(c),
        None => tree,
    }
}

} // verus!
