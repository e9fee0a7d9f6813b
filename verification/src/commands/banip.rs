//! The `ban-ip` command's grammar: a target address or player name, with an
//! optional free-text reason. The tree is laid out directly in the arena, so
//! its contract pins the grammar exactly: two root-to-leaf paths, the bare
//! ban first, the reasoned ban second.

use vstd::prelude::*;

use crate::tree::{lemma_moderation_tree_paths, spec_tree_paths, tree_wf, CommandTree, Node,
    NodeType};

verus! {

/// The `ban-ip` grammar: `ban-ip <ip>` and `ban-ip <ip> <reason>`, the
/// target parsed by the `simple` consumer and the reason by the `msg`
/// consumer, executed by the host's `ban_ip` and `ban_ip_reason` callbacks.
pub fn init_command_tree() -> (t: CommandTree)
    ensures
        tree_wf(t),
        t.names@.len() == 1,
        t.names@[0]@ == "ban-ip"@,
        t.description@ == "bans a player-ip"@,
        t.nodes@.len() == 4,
        spec_tree_paths(t) == seq![seq![3usize, 0], seq![3usize, 2, 1]],
        t.nodes@[3].node_type matches NodeType::Argument { name, consumer } && name@ == "ip"@
            && consumer@ == "simple"@,
        t.nodes@[0].node_type matches NodeType::ExecuteLeaf { executor } && executor@ == "ban_ip"@,
        t.nodes@[2].node_type matches NodeType::Argument { name, consumer } && name@ == "reason"@
            && consumer@ == "msg"@,
        t.nodes@[1].node_type matches NodeType::ExecuteLeaf { executor } && executor@
            == "ban_ip_reason"@,
{
    let mut names: Vec<String> = Vec::new();
    names.push(String::from_str("ban-ip"));
    let mut nodes: Vec<Node> = Vec::new();
    nodes.push(
        Node {
            node_type: NodeType::ExecuteLeaf { executor: String::from_str("ban_ip") },
            children: Vec::new(),
        },
    );
    nodes.push(
        Node {
            node_type: NodeType::ExecuteLeaf { executor: String::from_str("ban_ip_reason") },
            children: Vec::new(),
        },
    );
    let mut reason_children: Vec<usize> = Vec::new();
    reason_children.push(1);
    nodes.push(
        Node {
            node_type: NodeType::Argument {
                name: String::from_str("reason"),
                consumer: String::from_str("msg"),
            },
            children: reason_children,
        },
    );
    let mut ip_children: Vec<usize> = Vec::new();
    ip_children.push(0);
    ip_children.push(2);
    nodes.push(
        Node {
            node_type: NodeType::Argument {
                name: String::from_str("ip"),
                consumer: String::from_str("simple"),
            },
            children: ip_children,
        },
    );
    let mut children: Vec<usize> = Vec::new();
    children.push(3);
    let t = CommandTree {
        nodes,
        children,
        names,
        description: String::from_str("bans a player-ip"),
    };
    proof {
        assert(t.nodes@[0].children@ =~= Seq::<usize>::empty());
        assert(t.nodes@[1].children@ =~= Seq::<usize>::empty());
        assert(t.nodes@[2].children@ =~= seq![1usize]);
        assert(t.nodes@[3].children@ =~= seq![0usize, 2]);
        assert(t.children@ =~= seq![3usize]);
        lemma_moderation_tree_paths(t);
    }
    t
}

} // verus!
