//! The `ban` command's grammar: a target player, with an optional free-text
//! reason. The tree is small enough to lay out directly in the arena, so its
//! contract pins the grammar exactly: two root-to-leaf paths, the bare ban
//! first, the reasoned ban second.

use vstd::prelude::*;

use crate::tree::{lemma_moderation_tree_paths, spec_tree_paths, tree_wf, CommandTree, Node,
    NodeType};

verus! {

/// The `ban` grammar: `ban <player>` and `ban <player> <reason>`, the
/// target parsed by the `players` consumer and the reason by the `msg`
/// consumer, executed by the host's `ban` and `ban_reason` callbacks.
pub fn init_command_tree() -> (t: CommandTree)
    ensures
        tree_wf(t),
        t.names@.len() == 1,
        t.names@[0]@ == "ban"@,
        t.description@ == "bans a player"@,
        t.nodes@.len() == 4,
        spec_tree_paths(t) == seq![seq![3usize, 0], seq![3usize, 2, 1]],
        t.nodes@[3].node_type matches NodeType::Argument { name, consumer } && name@ == "player"@
            && consumer@ == "players"@,
        t.nodes@[0].node_type matches NodeType::ExecuteLeaf { executor } && executor@ == "ban"@,
        t.nodes@[2].node_type matches NodeType::Argument { name, consumer } && name@ == "reason"@
            && consumer@ == "msg"@,
        t.nodes@[1].node_type matches NodeType::ExecuteLeaf { executor } && executor@
            == "ban_reason"@,
{
    let mut names: Vec<String> = Vec::new();
    names.push(String::from_str("ban"));
    let mut nodes: Vec<Node> = Vec::new();
    nodes.push(
        Node {
            node_type: NodeType::ExecuteLeaf { executor: String::from_str("ban") },
            children: Vec::new(),
        },
    );
    nodes.push(
        Node {
            node_type: NodeType::ExecuteLeaf { executor: String::from_str("ban_reason") },
            children: Vec::new(),
        },
    );
    let mut reason_children: Vec<usize> = Vec::new();
    reason_children.push(1);
    nodes.push(
        Node {
            node_type: NodeType::Argument {
                name: String::from_str("reason"),
                consumer: String::from_str("msg"),
            },
            children: reason_children,
        },
    );
    let mut player_children: Vec<usize> = Vec::new();
    player_children.push(0);
    player_children.push(2);
    nodes.push(
        Node {
            node_type: NodeType::Argument {
                name: String::from_str("player"),
                consumer: String::from_str("players"),
            },
            children: player_children,
        },
    );
    let mut children: Vec<usize> = Vec::new();
    children.push(3);
    let t = CommandTree {
        nodes,
        children,
        names,
        description: String::from_str("bans a player"),
    };
    proof {
        assert(t.nodes@[0].children@ =~= Seq::<usize>::empty());
        assert(t.nodes@[1].children@ =~= Seq::<usize>::empty());
        assert(t.nodes@[2].children@ =~= seq![1usize]);
        assert(t.nodes@[3].children@ =~= seq![0usize, 2]);
        assert(t.children@ =~= seq![3usize]);
        lemma_moderation_tree_paths(t);
    }
    t
}

} // verus!
