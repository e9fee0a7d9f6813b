//! The `/skript` management command's grammar: listing, reloading, and
//! enabling or disabling scripts. The executors act on the script manager
//! and live with the host, which also gates them on operator status.

use vstd::prelude::*;

use crate::tree::{argument, literal, tree_wf, CommandTree};

verus! {

/// The `/skript` grammar, also reachable as `/sk`: the bare command, the
/// `list` and `reload` keywords, and `disable <script>` / `enable
/// <script>` with server-suggested script names.
pub fn build_skript_command_tree() -> (t: CommandTree)
    ensures
        tree_wf(t),
        t.names@.len() == 2,
        t.names@[0]@ == "skript"@,
        t.names@[1]@ == "sk"@,
{
    let mut names: Vec<String> = Vec::new();
    names.push(String::from_str("skript"));
    names.push(String::from_str("sk"));
    proof {
        reveal_strlit("skript");
        reveal_strlit("sk");
    }
    CommandTree::new(names, "Manage skrs scripts (enable/disable/reload/list).")
        .execute("skript_base")
        .child(literal("list").execute("skript_list"))
        .child(literal("reload").execute("skript_reload_all"))
        .child(
            literal("disable").child(
                argument("script", "ask_server_string").execute("skript_disable"),
            ),
        )
        .child(
            literal("enable").child(
                argument("script", "ask_server_string").execute("skript_enable"),
            ),
        )
}

} // verus!
