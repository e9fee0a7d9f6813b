//! The command tree: a flat, append-only arena of nodes whose child links are
//! index lists rather than pointers, so shared structure is a DAG of indices
//! with no ownership cycles. Subtrees are appended bottom-up, so every child
//! link points strictly backward in the arena; the implicit root's children
//! are a separate list. The tree exposes every root-to-leaf index path in
//! declaration order, and the search iterates over those paths rather than
//! walking the arena live.
//!
//! Consumers, executors and requirement predicates are referred to by name;
//! a command host interprets the names at dispatch time. The fluent builder
//! (`literal` / `argument` / `require` / `.child` / `.execute`) is a thin
//! convenience over the arena.

use vstd::prelude::*;

use crate::strutil::{chars_to_string, str_to_chars};

verus! {

/// One of the four node kinds of a command grammar.
#[derive(Clone)]
pub enum NodeType {
    /// A terminal callback, named for the host; only valid as the last node
    /// of a path.
    ExecuteLeaf {
        /// The host-side name of the callback.
        executor: String,
    },
    /// A fixed keyword that one token must equal exactly.
    Literal {
        /// The keyword.
        string: String,
    },
    /// A typed argument, parsed by a named consumer.
    Argument {
        /// The name the parsed value is stored under.
        name: String,
        /// The host-side name of the argument consumer.
        consumer: String,
    },
    /// A predicate over the invoking identity; consumes no token.
    Require {
        /// The host-side name of the predicate.
        predicate: String,
    },
}

/// One arena slot: a node and the indices of its children.
pub struct Node {
    /// What the node is.
    pub node_type: NodeType,
    /// Indices of the node's children, all smaller than the node's own index.
    pub children: Vec<usize>,
}

/// A command grammar: the node arena, the root's children, the names the
/// command is registered under (the first is primary), and a description.
pub struct CommandTree {
    /// The arena.
    pub nodes: Vec<Node>,
    /// Children of the implicit root.
    pub children: Vec<usize>,
    /// All names of the command; the first becomes the primary name.
    pub names: Vec<String>,
    /// A human-readable description.
    pub description: String,
}

/// Every child link of `nodes[i]` points strictly backward.
pub open spec fn node_links_wf(nodes: Seq<Node>, i: int) -> bool {
    forall|k: int| 0 <= k < nodes[i].children@.len() ==> #[trigger] nodes[i].children@[k] < i
}

/// Every child link of every node points strictly backward, so the arena is
/// acyclic.
pub open spec fn arena_wf(nodes: Seq<Node>) -> bool {
    forall|i: int| 0 <= i < nodes.len() ==> #[trigger] node_links_wf(nodes, i)
}

/// A well-formed tree: a well-formed arena, root links into the arena, and at
/// least one name.
pub open spec fn tree_wf(t: CommandTree) -> bool {
    &&& arena_wf(t.nodes@)
    &&& forall|k: int| 0 <= k < t.children@.len() ==> #[trigger] t.children@[k] < t.nodes@.len()
    &&& t.names@.len() > 0
}

/// All root-to-leaf paths that start at node `i`, in declaration order.
pub open spec fn spec_paths_from(nodes: Seq<Node>, i: int) -> Seq<Seq<usize>>
    decreases i, 1int, 0int
        when (0 <= i < nodes.len() && arena_wf(nodes))
{
    match nodes[i].node_type {
        NodeType::ExecuteLeaf { .. } => seq![seq![i as usize]],
        _ => spec_paths_via(nodes, i, nodes[i].children@),
    }
}

/// All paths that start at node `i` and continue into the children `ks`.
pub open spec fn spec_paths_via(nodes: Seq<Node>, i: int, ks: Seq<usize>) -> Seq<Seq<usize>>
    decreases i, 0int, ks.len()
        when (0 <= i < nodes.len() && arena_wf(nodes) && (forall|k: int|
            0 <= k < ks.len() ==> #[trigger] ks[k] < i))
{
    if ks.len() == 0 {
        Seq::empty()
    } else {
        spec_paths_from(nodes, ks[0] as int).map_values(|p: Seq<usize>| seq![i as usize] + p)
            + spec_paths_via(nodes, i, ks.skip(1))
    }
}

/// All paths that start at one of the root children `ks`.
pub open spec fn spec_paths_roots(nodes: Seq<Node>, ks: Seq<usize>) -> Seq<Seq<usize>>
    decreases ks.len()
        when (arena_wf(nodes) && (forall|k: int|
            0 <= k < ks.len() ==> #[trigger] ks[k] < nodes.len()))
{
    if ks.len() == 0 {
        Seq::empty()
    } else {
        spec_paths_from(nodes, ks[0] as int) + spec_paths_roots(nodes, ks.skip(1))
    }
}

/// The root-to-leaf paths of a tree, in declaration order.
pub open spec fn spec_tree_paths(t: CommandTree) -> Seq<Seq<usize>> {
    spec_paths_roots(t.nodes@, t.children@)
}

/// The token a node contributes to a usage line: the keyword of a literal,
/// `<name>` for an argument, nothing for requirements and leaves.
pub open spec fn spec_node_token(nt: NodeType) -> Seq<char> {
    match nt {
        NodeType::Literal { string } => string@,
        NodeType::Argument { name, .. } => seq!['<'] + name@ + seq!['>'],
        NodeType::ExecuteLeaf { .. } => Seq::empty(),
        NodeType::Require { .. } => Seq::empty(),
    }
}

/// The non-empty tokens the nodes of a path contribute, in order.
pub open spec fn spec_path_tokens(nodes: Seq<Node>, p: Seq<usize>) -> Seq<Seq<char>>
    decreases p.len(),
{
    if p.len() == 0 {
        Seq::empty()
    } else {
        let nt = nodes[p[0] as int].node_type;
        let rest = spec_path_tokens(nodes, p.skip(1));
        match nt {
            NodeType::Literal { .. } => seq![spec_node_token(nt)] + rest,
            NodeType::Argument { .. } => seq![spec_node_token(nt)] + rest,
            NodeType::ExecuteLeaf { .. } => rest,
            NodeType::Require { .. } => rest,
        }
    }
}

/// Parts joined by a separator.
pub open spec fn spec_join_sep(parts: Seq<Seq<char>>, sep: Seq<char>) -> Seq<char>
    decreases parts.len(),
{
    if parts.len() == 0 {
        Seq::empty()
    } else if parts.len() == 1 {
        parts[0]
    } else {
        spec_join_sep(parts.drop_last(), sep) + sep + parts.last()
    }
}

/// One rendered grammar alternative: the primary name, then the path's
/// tokens, separated by single spaces.
pub open spec fn spec_path_usage(t: CommandTree, p: Seq<usize>) -> Seq<char> {
    spec_join_sep(seq![t.names@[0]@] + spec_path_tokens(t.nodes@, p), seq![' '])
}

/// The rendered grammar of the whole tree: every alternative, in declaration
/// order, separated by `" | "`.
pub open spec fn spec_usage(t: CommandTree) -> Seq<char> {
    spec_join_sep(spec_tree_paths(t).map_values(|p: Seq<usize>| spec_path_usage(t, p)), " | "@)
}

/// Joins character vectors with a separator.
pub(crate) fn join_sep_chars(parts: &Vec<Vec<char>>, sep: &Vec<char>) -> (r: Vec<char>)
    ensures
        r@ == spec_join_sep(parts.deep_view(), sep@),
{
    let mut r: Vec<char> = Vec::new();
    let mut j: usize = 0;
    while j < parts.len()
        invariant
            j <= parts@.len(),
            r@ == spec_join_sep(parts.deep_view().take(j as int), sep@),
        decreases parts@.len() - j,
    {
        if j > 0 {
            append_chars(&mut r, sep);
        }
        append_chars(&mut r, &parts[j]);
        j = j + 1;
        proof {
            let pv = parts.deep_view();
            assert(pv.take(j as int).drop_last() =~= pv.take(j - 1));
            assert(pv.take(j as int).last() == pv[j - 1]);
            assert(pv[j - 1] == parts@[j - 1]@);
            if j == 1 {
                assert(r@ =~= pv.take(1)[0]);
            }
        }
    }
    proof {
        assert(parts.deep_view().take(parts@.len() as int) =~= parts.deep_view());
    }
    r
}

/// Appends the characters of `src` to `dst`.
fn append_chars(dst: &mut Vec<char>, src: &Vec<char>) -> (unit: ())
    ensures
        final(dst)@ == old(dst)@ + src@,
{
    let mut k: usize = 0;
    while k < src.len()
        invariant
            k <= src@.len(),
            dst@ == old(dst)@ + src@.take(k as int),
        decreases src@.len() - k,
    {
        dst.push(src[k]);
        k = k + 1;
        proof {
            assert(old(dst)@ + src@.take(k - 1) + seq![src@[k - 1]] =~= old(dst)@ + src@.take(
                k as int,
            ));
        }
    }
    proof {
        assert(src@.take(src@.len() as int) =~= src@);
    }
}

impl CommandTree {
    /// Renders the tree's grammar as a usage string: each root-to-leaf
    /// alternative as the primary name followed by its tokens, alternatives
    /// separated by `" | "`.
    pub fn usage(&self) -> (r: String)
        requires
            tree_wf(*self),
        ensures
            r@ == spec_usage(*self),
    {
        let paths = self.iter_paths();
        let mut lines: Vec<Vec<char>> = Vec::new();
        let mut i: usize = 0;
        while i < paths.len()
            invariant
                tree_wf(*self),
                paths.deep_view() == spec_tree_paths(*self),
                forall|p: int, k: int|
                    0 <= p < paths@.len() && 0 <= k < paths@[p]@.len() ==> #[trigger] paths@[p]@[k]
                        < self.nodes@.len(),
                i <= paths@.len(),
                lines.deep_view() == spec_tree_paths(*self).take(i as int).map_values(
                    |p: Seq<usize>| spec_path_usage(*self, p),
                ),
            decreases paths@.len() - i,
        {
            let ghost pre = lines.deep_view();
            let mut tokens: Vec<Vec<char>> = Vec::new();
            tokens.push(str_to_chars(self.names[0].as_str()));
            let path = &paths[i];
            let mut k: usize = 0;
            proof {
                assert(tokens.deep_view() =~~= seq![self.names@[0]@]);
                assert(path@.skip(0) =~= path@);
            }
            while k < path.len()
                invariant
                    tree_wf(*self),
                    k <= path@.len(),
                    forall|x: int| 0 <= x < path@.len() ==> #[trigger] path@[x] < self.nodes@.len(),
                    tokens.deep_view() == seq![self.names@[0]@] + spec_path_tokens(
                        self.nodes@,
                        path@,
                    ).take(
                        tokens.deep_view().len() - 1,
                    ),
                    spec_path_tokens(self.nodes@, path@).take(tokens.deep_view().len() - 1)
                        + spec_path_tokens(self.nodes@, path@.skip(k as int)) =~= spec_path_tokens(
                        self.nodes@,
                        path@,
                    ),
                decreases path@.len() - k,
            {
                let ghost pre_toks = tokens.deep_view();
                let node = &self.nodes[path[k]];
                match &node.node_type {
                    NodeType::Literal { string } => {
                        tokens.push(str_to_chars(string.as_str()));
                    },
                    NodeType::Argument { name, .. } => {
                        let mut tk: Vec<char> = Vec::new();
                        tk.push('<');
                        let mut nm = str_to_chars(name.as_str());
                        append_chars(&mut tk, &nm);
                        tk.push('>');
                        proof {
                            assert(tk@ =~= seq!['<'] + name@ + seq!['>']);
                        }
                        tokens.push(tk);
                    },
                    NodeType::ExecuteLeaf { .. } => {},
                    NodeType::Require { .. } => {},
                }
                k = k + 1;
                proof {
                    let toks = spec_path_tokens(self.nodes@, path@);
                    let nt = self.nodes@[path@[k - 1] as int].node_type;
                    assert(path@.skip(k - 1)[0] == path@[k - 1]);
                    assert(path@.skip(k - 1).skip(1) =~= path@.skip(k as int));
                    if nt is ExecuteLeaf || nt is Require {
                        assert(tokens.deep_view() == pre_toks);
                    } else {
                        assert(tokens.deep_view() =~~= pre_toks.push(spec_node_token(nt)));
                        assert(toks.take(pre_toks.len() - 1).push(spec_node_token(nt))
                            =~= toks.take(pre_toks.len() - 1 + 1)) by {
                            assert(toks.take(pre_toks.len() - 1)
                                + (seq![spec_node_token(nt)] + spec_path_tokens(
                                self.nodes@,
                                path@.skip(k as int),
                            )) =~= toks);
                        }
                        assert(tokens.deep_view() =~= seq![self.names@[0]@] + toks.take(
                            tokens.deep_view().len() - 1,
                        ));
                    }
                }
            }
            proof {
                let toks = spec_path_tokens(self.nodes@, path@);
                assert(path@.skip(path@.len() as int) =~= Seq::<usize>::empty());
                assert(spec_path_tokens(self.nodes@, path@.skip(path@.len() as int))
                    =~= Seq::<Seq<char>>::empty());
                assert(toks.take(tokens.deep_view().len() - 1) + Seq::<Seq<char>>::empty()
                    =~= toks.take(tokens.deep_view().len() - 1));
                assert(tokens.deep_view() =~= seq![self.names@[0]@] + toks);
            }
            let sep_space: Vec<char> = vec![' '];
            let line = join_sep_chars(&tokens, &sep_space);
            lines.push(line);
            i = i + 1;
            proof {
                assert(sep_space@ =~= seq![' ']);
                let all = spec_tree_paths(*self);
                assert(path@ == all[i - 1]);
                assert(line@ == spec_path_usage(*self, path@));
                assert(lines.deep_view() =~~= pre.push(spec_path_usage(*self, all[i - 1])));
                assert(all.take(i as int).map_values(|p: Seq<usize>| spec_path_usage(*self, p))
                    =~= all.take(i - 1).map_values(|p: Seq<usize>| spec_path_usage(*self, p)).push(
                    spec_path_usage(*self, all[i - 1]),
                ));
            }
        }
        proof {
            assert(spec_tree_paths(*self).take(spec_tree_paths(*self).len() as int)
                =~= spec_tree_paths(*self));
        }
        let mut sep_bar: Vec<char> = Vec::new();
        sep_bar.push(' ');
        sep_bar.push('|');
        sep_bar.push(' ');
        let all_chars = join_sep_chars(&lines, &sep_bar);
        proof {
            assert(sep_bar@ =~= " | "@) by {
                reveal_strlit(" | ");
            }
        }
        chars_to_string(&all_chars)
    }
}

/// A fluent builder for one subtree: a node and its child builders, in
/// declaration order.
pub struct NodeBuilder {
    /// What the subtree's root node is.
    pub node_type: NodeType,
    /// The subtree's children, in declaration order.
    pub children: Vec<NodeBuilder>,
}

/// A literal-keyword node builder, with no children yet.
pub fn literal(string: &str) -> (b: NodeBuilder)
    ensures
        b.node_type matches NodeType::Literal { string: s } && s@ == string@,
        b.children@.len() == 0,
{
    NodeBuilder { node_type: NodeType::Literal { string: string.to_owned() }, children: Vec::new() }
}

/// A typed-argument node builder, with no children yet.
pub fn argument(name: &str, consumer: &str) -> (b: NodeBuilder)
    ensures
        b.node_type matches NodeType::Argument { name: n, consumer: c } && n@ == name@ && c@
            == consumer@,
        b.children@.len() == 0,
{
    NodeBuilder {
        node_type: NodeType::Argument { name: name.to_owned(), consumer: consumer.to_owned() },
        children: Vec::new(),
    }
}

/// A requirement node builder, with no children yet.
pub fn require(predicate: &str) -> (b: NodeBuilder)
    ensures
        b.node_type matches NodeType::Require { predicate: p } && p@ == predicate@,
        b.children@.len() == 0,
{
    NodeBuilder {
        node_type: NodeType::Require { predicate: predicate.to_owned() },
        children: Vec::new(),
    }
}

impl NodeBuilder {
    /// Appends a child subtree: the node itself is unchanged and the
    /// subtree becomes its last child.
    pub fn child(self, sub: NodeBuilder) -> (b: NodeBuilder)
        ensures
            b.node_type == self.node_type,
            b.children@ == self.children@.push(sub),
    {
        let NodeBuilder { node_type, mut children } = self;
        children.push(sub);
        NodeBuilder { node_type, children }
    }

    /// Appends a terminal callback as a child, completing one grammar
    /// alternative at this point.
    pub fn execute(self, executor: &str) -> (b: NodeBuilder)
        ensures
            b.node_type == self.node_type,
            b.children@.len() == self.children@.len() + 1,
            b.children@.last().node_type matches NodeType::ExecuteLeaf { executor: e } && e@
                == executor@,
            b.children@.last().children@.len() == 0,
            forall|i: int|
                0 <= i < self.children@.len() ==> #[trigger] b.children@[i] == self.children@[i],
    {
        let leaf = NodeBuilder {
            node_type: NodeType::ExecuteLeaf { executor: executor.to_owned() },
            children: Vec::new(),
        };
        self.child(leaf)
    }
}

/// Flattens a builder subtree into the arena, children before parents, and
/// returns the index the subtree's root got.
fn flatten_into(nodes: &mut Vec<Node>, b: &NodeBuilder) -> (root: usize)
    requires
        arena_wf(old(nodes)@),
    ensures
        arena_wf(final(nodes)@),
        final(nodes)@.len() > old(nodes)@.len(),
        root < final(nodes)@.len(),
    decreases b,
{
    let mut child_ids: Vec<usize> = Vec::new();
    let mut k: usize = 0;
    while k < b.children.len()
        invariant
            k <= b.children@.len(),
            arena_wf(nodes@),
            nodes@.len() >= old(nodes)@.len(),
            forall|x: int| 0 <= x < child_ids@.len() ==> #[trigger] child_ids@[x] < nodes@.len(),
        decreases b.children@.len() - k,
    {
        proof {
            assert(decreases_to!(b => b.children@[k as int]));
        }
        let id = flatten_into(nodes, &b.children[k]);
        child_ids.push(id);
        k = k + 1;
    }
    let root = nodes.len();
    let ghost pre = nodes@;
    nodes.push(Node { node_type: b.node_type.clone(), children: child_ids });
    proof {
        assert forall|i: int| 0 <= i < nodes@.len() implies #[trigger] node_links_wf(
            nodes@,
            i,
        ) by {
            if i < pre.len() {
                assert(node_links_wf(pre, i));
                assert(nodes@[i] == pre[i]);
            }
        }
    }
    root
}

impl CommandTree {
    /// An empty tree under the given names; the first name becomes primary.
    pub fn new(names: Vec<String>, description: &str) -> (t: CommandTree)
        requires
            names@.len() > 0,
        ensures
            tree_wf(t),
            t.names == names,
            t.description@ == description@,
            t.nodes@.len() == 0,
            t.children@.len() == 0,
    {
        CommandTree {
            nodes: Vec::new(),
            children: Vec::new(),
            names,
            description: description.to_owned(),
        }
    }

    /// Appends a terminal callback directly under the implicit root,
    /// making the bare command itself one grammar alternative.
    pub fn execute(self, executor: &str) -> (t: CommandTree)
        requires
            tree_wf(self),
        ensures
            tree_wf(t),
            t.names == self.names,
            t.description == self.description,
    {
        let leaf = NodeBuilder {
            node_type: NodeType::ExecuteLeaf { executor: executor.to_owned() },
            children: Vec::new(),
        };
        self.child(leaf)
    }

    /// Appends one subtree under the implicit root. The contract promises
    /// well-formedness and the tree's names; a command whose contract must
    /// pin its exact grammar lays the arena out directly instead, as the
    /// moderation commands do.
    pub fn child(self, sub: NodeBuilder) -> (t: CommandTree)
        requires
            tree_wf(self),
        ensures
            tree_wf(t),
            t.names == self.names,
            t.description == self.description,
    {
        let CommandTree { mut nodes, mut children, names, description } = self;
        let root = flatten_into(&mut nodes, &sub);
        children.push(root);
        CommandTree { nodes, children, names, description }
    }

    /// All root-to-leaf index paths, in declaration order.
    pub fn iter_paths(&self) -> (r: Vec<Vec<usize>>)
        requires
            tree_wf(*self),
        ensures
            r.deep_view() == spec_tree_paths(*self),
            forall|p: int, k: int|
                0 <= p < r@.len() && 0 <= k < r@[p]@.len() ==> #[trigger] r@[p]@[k]
                    < self.nodes@.len(),
    {
        let mut out: Vec<Vec<usize>> = Vec::new();
        let prefix: Vec<usize> = Vec::new();
        let mut k: usize = 0;
        proof {
            lemma_paths_roots_take_step(self.nodes@, self.children@, 0);
        }
        while k < self.children.len()
            invariant
                tree_wf(*self),
                prefix@ == Seq::<usize>::empty(),
                k <= self.children@.len(),
                out.deep_view() == spec_paths_roots(self.nodes@, self.children@.take(k as int)),
                forall|p: int, j: int|
                    0 <= p < out@.len() && 0 <= j < out@[p]@.len() ==> #[trigger] out@[p]@[j]
                        < self.nodes@.len(),
            decreases self.children@.len() - k,
        {
            let ghost pre = out.deep_view();
            collect_paths(&self.nodes, self.children[k], &prefix, &mut out);
            k = k + 1;
            proof {
                assert(prefix.deep_view() =~= Seq::<usize>::empty());
                assert(out.deep_view() =~= pre + spec_paths_from(
                    self.nodes@,
                    self.children@[k - 1] as int,
                ).map_values(|p: Seq<usize>| Seq::<usize>::empty() + p));
                lemma_map_prefix_empty(spec_paths_from(self.nodes@, self.children@[k - 1] as int));
                lemma_paths_roots_take_step(self.nodes@, self.children@, k as int);
            }
        }
        proof {
            assert(self.children@.take(self.children@.len() as int) =~= self.children@);
        }
        out
    }
}

/// Prefixing every path with the empty sequence changes nothing.
proof fn lemma_map_prefix_empty(ps: Seq<Seq<usize>>)
    ensures
        ps.map_values(|p: Seq<usize>| Seq::<usize>::empty() + p) =~= ps,
{
    assert forall|i: int| 0 <= i < ps.len() implies Seq::<usize>::empty() + ps[i] =~= ps[i] by {}
}

/// Unrolls `spec_paths_roots` one child at a time.
proof fn lemma_paths_roots_take_step(nodes: Seq<Node>, ks: Seq<usize>, k: int)
    requires
        arena_wf(nodes),
        forall|x: int| 0 <= x < ks.len() ==> #[trigger] ks[x] < nodes.len(),
        0 <= k <= ks.len(),
    ensures
        k == 0 ==> spec_paths_roots(nodes, ks.take(0)) == Seq::<Seq<usize>>::empty(),
        0 < k ==> spec_paths_roots(nodes, ks.take(k)) == spec_paths_roots(nodes, ks.take(k - 1))
            + spec_paths_from(nodes, ks[k - 1] as int),
{
    if k == 0 {
        assert(ks.take(0) =~= Seq::<usize>::empty());
    } else {
        lemma_paths_roots_append(nodes, ks.take(k - 1), ks[k - 1]);
        assert(ks.take(k - 1).push(ks[k - 1]) =~= ks.take(k));
    }
}

/// `spec_paths_roots` over a pushed child list splits at the push.
proof fn lemma_paths_roots_append(nodes: Seq<Node>, ks: Seq<usize>, c: usize)
    requires
        arena_wf(nodes),
        forall|x: int| 0 <= x < ks.len() ==> #[trigger] ks[x] < nodes.len(),
        c < nodes.len(),
    ensures
        spec_paths_roots(nodes, ks.push(c)) == spec_paths_roots(nodes, ks) + spec_paths_from(
            nodes,
            c as int,
        ),
    decreases ks.len(),
{
    if ks.len() == 0 {
        assert(forall|x: int|
            0 <= x < ks.push(c).len() ==> #[trigger] ks.push(c)[x] < nodes.len());
        assert(ks.push(c)[0] == c);
        assert(ks.push(c).skip(1) =~= Seq::<usize>::empty());
        assert(spec_paths_roots(nodes, ks.push(c).skip(1)) == Seq::<Seq<usize>>::empty());
        assert(spec_paths_roots(nodes, ks.push(c)) =~= spec_paths_from(nodes, c as int)
            + Seq::<Seq<usize>>::empty());
        assert(spec_paths_from(nodes, c as int) + Seq::<Seq<usize>>::empty() =~= spec_paths_from(
            nodes,
            c as int,
        ));
        assert(spec_paths_roots(nodes, ks) =~= Seq::<Seq<usize>>::empty());
        assert(Seq::<Seq<usize>>::empty() + spec_paths_from(nodes, c as int) =~= spec_paths_from(
            nodes,
            c as int,
        ));
    } else {
        lemma_paths_roots_append(nodes, ks.skip(1), c);
        assert(forall|x: int|
            0 <= x < ks.push(c).len() ==> #[trigger] ks.push(c)[x] < nodes.len());
        assert(ks.push(c).skip(1) =~= ks.skip(1).push(c));
        assert(ks.push(c)[0] == ks[0]);
        assert(spec_paths_from(nodes, ks[0] as int) + (spec_paths_roots(nodes, ks.skip(1))
            + spec_paths_from(nodes, c as int)) =~= (spec_paths_from(nodes, ks[0] as int)
            + spec_paths_roots(nodes, ks.skip(1))) + spec_paths_from(nodes, c as int));
    }
}

/// Collects every path that starts at node `i`, each prefixed with `prefix`,
/// onto `out`, in declaration order.
fn collect_paths(
    nodes: &Vec<Node>,
    i: usize,
    prefix: &Vec<usize>,
    out: &mut Vec<Vec<usize>>,
) -> (unit: ())
    requires
        arena_wf(nodes@),
        i < nodes@.len(),
        forall|j: int| 0 <= j < prefix@.len() ==> #[trigger] prefix@[j] < nodes@.len(),
        forall|p: int, j: int|
            0 <= p < old(out)@.len() && 0 <= j < old(out)@[p]@.len() ==> #[trigger] old(
                out,
            )@[p]@[j] < nodes@.len(),
    ensures
        final(out).deep_view() == old(out).deep_view() + spec_paths_from(
            nodes@,
            i as int,
        ).map_values(|p: Seq<usize>| prefix.deep_view() + p),
        forall|p: int, j: int|
            0 <= p < final(out)@.len() && 0 <= j < final(out)@[p]@.len()
                ==> #[trigger] final(out)@[p]@[j] < nodes@.len(),
    decreases i, 1int,
{
    let is_leaf = match &nodes[i].node_type {
        NodeType::ExecuteLeaf { .. } => true,
        _ => false,
    };
    if is_leaf {
        let mut path = clone_indices(prefix);
        path.push(i);
        out.push(path);
        proof {
            let full = spec_paths_from(nodes@, i as int);
            assert(full =~= seq![seq![i]]);
            assert(path@ =~= prefix@ + seq![i]);
            assert(prefix.deep_view() == prefix@);
            assert(out.deep_view() =~~= old(out).deep_view() + full.map_values(
                |p: Seq<usize>| prefix.deep_view() + p,
            ));
        }
        return ;
    }
    let mut path = clone_indices(prefix);
    path.push(i);
    let ghost pre = out.deep_view();
    let mut k: usize = 0;
    proof {
        assert(node_links_wf(nodes@, i as int));
        assert(pre + Seq::<Seq<usize>>::empty() =~= pre);
        lemma_paths_via_take_step(nodes@, i as int, nodes@[i as int].children@, 0);
    }
    while k < nodes[i].children.len()
        invariant
            arena_wf(nodes@),
            i < nodes@.len(),
            path@ == prefix@ + seq![i],
            forall|j: int| 0 <= j < prefix@.len() ==> #[trigger] prefix@[j] < nodes@.len(),
            k <= nodes@[i as int].children@.len(),
            !(nodes@[i as int].node_type is ExecuteLeaf),
            out.deep_view() == pre + spec_paths_via(
                nodes@,
                i as int,
                nodes@[i as int].children@.take(k as int),
            ).map_values(|p: Seq<usize>| prefix.deep_view() + p),
            forall|p: int, j: int|
                0 <= p < out@.len() && 0 <= j < out@[p]@.len() ==> #[trigger] out@[p]@[j]
                    < nodes@.len(),
        decreases i, 0int, nodes@[i as int].children@.len() - k,
    {
        let c = nodes[i].children[k];
        proof {
            assert(node_links_wf(nodes@, i as int));
            assert(c < i);
        }
        let ghost mid = out.deep_view();
        collect_paths(nodes, c, &path, out);
        k = k + 1;
        proof {
            lemma_paths_via_take_step(nodes@, i as int, nodes@[i as int].children@, k as int);
            let f = |p: Seq<usize>| prefix.deep_view() + p;
            let g = |p: Seq<usize>| path.deep_view() + p;
            let sub = spec_paths_from(nodes@, c as int);
            let tk1 = spec_paths_via(nodes@, i as int, nodes@[i as int].children@.take(k - 1));
            let tk = spec_paths_via(nodes@, i as int, nodes@[i as int].children@.take(k as int));
            assert(tk == tk1 + sub.map_values(|p: Seq<usize>| seq![i] + p));
            assert(out.deep_view() == mid + sub.map_values(g));
            assert(sub.map_values(g) =~= sub.map_values(|p: Seq<usize>| seq![i] + p).map_values(f))
                by {
                assert forall|x: int| 0 <= x < sub.len() implies g(sub[x]) == f(seq![i] + sub[x])
                    by {
                    assert(path.deep_view() == path@);
                    assert(prefix.deep_view() == prefix@);
                    assert((prefix@ + seq![i]) + sub[x] =~= prefix@ + (seq![i] + sub[x]));
                }
            }
            assert(out.deep_view() =~= pre + tk.map_values(f)) by {
                assert(tk.map_values(f) =~= tk1.map_values(f) + sub.map_values(
                    |p: Seq<usize>| seq![i] + p,
                ).map_values(f));
            }
        }
    }
    proof {
        assert(node_links_wf(nodes@, i as int));
        assert(nodes@[i as int].children@.take(nodes@[i as int].children@.len() as int)
            =~= nodes@[i as int].children@);
        assert(spec_paths_from(nodes@, i as int) == spec_paths_via(
            nodes@,
            i as int,
            nodes@[i as int].children@,
        ));
    }
}

/// Unrolls `spec_paths_via` one child at a time.
proof fn lemma_paths_via_take_step(nodes: Seq<Node>, i: int, ks: Seq<usize>, k: int)
    requires
        arena_wf(nodes),
        0 <= i < nodes.len(),
        forall|x: int| 0 <= x < ks.len() ==> #[trigger] ks[x] < i,
        0 <= k <= ks.len(),
    ensures
        k == 0 ==> spec_paths_via(nodes, i, ks.take(0)) == Seq::<Seq<usize>>::empty(),
        0 < k ==> spec_paths_via(nodes, i, ks.take(k)) == spec_paths_via(nodes, i, ks.take(k - 1))
            + spec_paths_from(nodes, ks[k - 1] as int).map_values(|p: Seq<usize>| seq![i as usize]
            + p),
{
    if k == 0 {
        assert(ks.take(0) =~= Seq::<usize>::empty());
    } else {
        lemma_paths_via_append(nodes, i, ks.take(k - 1), ks[k - 1]);
        assert(ks.take(k - 1).push(ks[k - 1]) =~= ks.take(k));
    }
}

/// `spec_paths_via` over a pushed child list splits at the push.
proof fn lemma_paths_via_append(nodes: Seq<Node>, i: int, ks: Seq<usize>, c: usize)
    requires
        arena_wf(nodes),
        0 <= i < nodes.len(),
        forall|x: int| 0 <= x < ks.len() ==> #[trigger] ks[x] < i,
        c < i,
    ensures
        spec_paths_via(nodes, i, ks.push(c)) == spec_paths_via(nodes, i, ks) + spec_paths_from(
            nodes,
            c as int,
        ).map_values(|p: Seq<usize>| seq![i as usize] + p),
    decreases ks.len(),
{
    let m = |p: Seq<usize>| seq![i as usize] + p;
    if ks.len() == 0 {
        assert(forall|x: int| 0 <= x < ks.push(c).len() ==> #[trigger] ks.push(c)[x] < i);
        assert(ks.push(c)[0] == c);
        assert(ks.push(c).skip(1) =~= Seq::<usize>::empty());
        assert(spec_paths_via(nodes, i, ks.push(c).skip(1)) == Seq::<Seq<usize>>::empty());
        assert(spec_paths_via(nodes, i, ks.push(c)) =~= spec_paths_from(nodes, c as int).map_values(
            m,
        ) + Seq::<Seq<usize>>::empty());
        assert(spec_paths_from(nodes, c as int).map_values(m) + Seq::<Seq<usize>>::empty()
            =~= spec_paths_from(nodes, c as int).map_values(m));
        assert(spec_paths_via(nodes, i, ks) =~= Seq::<Seq<usize>>::empty());
        assert(Seq::<Seq<usize>>::empty() + spec_paths_from(nodes, c as int).map_values(m)
            =~= spec_paths_from(nodes, c as int).map_values(m));
    } else {
        lemma_paths_via_append(nodes, i, ks.skip(1), c);
        assert(forall|x: int| 0 <= x < ks.push(c).len() ==> #[trigger] ks.push(c)[x] < i);
        assert(ks.push(c).skip(1) =~= ks.skip(1).push(c));
        assert(ks.push(c)[0] == ks[0]);
        assert(spec_paths_from(nodes, ks[0] as int).map_values(m) + (spec_paths_via(
            nodes,
            i,
            ks.skip(1),
        ) + spec_paths_from(nodes, c as int).map_values(m)) =~= (spec_paths_from(
            nodes,
            ks[0] as int,
        ).map_values(m) + spec_paths_via(nodes, i, ks.skip(1))) + spec_paths_from(
            nodes,
            c as int,
        ).map_values(m));
    }
}

/// Copies a vector of indices.
fn clone_indices(v: &Vec<usize>) -> (r: Vec<usize>)
    ensures
        r@ == v@,
{
    let mut r: Vec<usize> = Vec::new();
    let mut i: usize = 0;
    while i < v.len()
        invariant
            i <= v@.len(),
            r@ == v@.take(i as int),
        decreases v@.len() - i,
    {
        r.push(v[i]);
        i = i + 1;
        proof {
            assert(r@ =~= v@.take(i as int));
        }
    }
    proof {
        assert(v@.take(v@.len() as int) =~= v@);
    }
    r
}

/// A four-node arena of one argument whose children are a bare leaf and a
/// second argument ending in its own leaf has exactly the two expected
/// paths: argument then leaf, and argument, argument, leaf.
pub proof fn lemma_moderation_tree_paths(t: CommandTree)
    requires
        t.nodes@.len() == 4,
        t.nodes@[0].node_type is ExecuteLeaf,
        t.nodes@[0].children@ == Seq::<usize>::empty(),
        t.nodes@[1].node_type is ExecuteLeaf,
        t.nodes@[1].children@ == Seq::<usize>::empty(),
        t.nodes@[2].node_type is Argument,
        t.nodes@[2].children@ == seq![1usize],
        t.nodes@[3].node_type is Argument,
        t.nodes@[3].children@ == seq![0usize, 2],
        t.children@ == seq![3usize],
        t.names@.len() > 0,
    ensures
        tree_wf(t),
        spec_tree_paths(t) == seq![seq![3usize, 0], seq![3usize, 2, 1]],
{
    let nodes = t.nodes@;
    assert forall|i: int| 0 <= i < nodes.len() implies #[trigger] node_links_wf(nodes, i) by {
        if i == 2 {
            assert(nodes[2].children@[0] == 1);
        } else if i == 3 {
            assert(nodes[3].children@[0] == 0 && nodes[3].children@[1] == 2);
        }
    }
    assert(arena_wf(nodes));
    assert(tree_wf(t)) by {
        assert(t.children@[0] == 3);
    }
    let empty_ks = Seq::<usize>::empty();
    assert(spec_paths_from(nodes, 0) =~= seq![seq![0usize]]);
    assert(spec_paths_from(nodes, 1) =~= seq![seq![1usize]]);
    // node 2: one child, the reasoned leaf
    assert(seq![1usize][0] == 1 && seq![1usize].skip(1) =~= empty_ks);
    assert(spec_paths_via(nodes, 2, empty_ks) =~= Seq::<Seq<usize>>::empty());
    assert(spec_paths_from(nodes, 1).map_values(|p: Seq<usize>| seq![2usize] + p) =~= seq![
        seq![2usize, 1],
    ]) by {
        assert(seq![2usize] + seq![1usize] =~= seq![2usize, 1]);
    }
    assert(spec_paths_via(nodes, 2, seq![1usize]) =~= seq![seq![2usize, 1]]);
    assert(spec_paths_from(nodes, 2) =~= seq![seq![2usize, 1]]);
    // node 3: the bare leaf first, then the reason subtree
    assert(seq![0usize, 2][0] == 0 && seq![0usize, 2].skip(1) =~= seq![2usize]);
    assert(seq![2usize][0] == 2 && seq![2usize].skip(1) =~= empty_ks);
    assert(spec_paths_via(nodes, 3, empty_ks) =~= Seq::<Seq<usize>>::empty());
    assert(spec_paths_from(nodes, 2).map_values(|p: Seq<usize>| seq![3usize] + p) =~= seq![
        seq![3usize, 2, 1],
    ]) by {
        assert(seq![3usize] + seq![2usize, 1] =~= seq![3usize, 2, 1]);
    }
    assert(spec_paths_via(nodes, 3, seq![2usize]) =~= seq![seq![3usize, 2, 1]]);
    assert(spec_paths_from(nodes, 0).map_values(|p: Seq<usize>| seq![3usize] + p) =~= seq![
        seq![3usize, 0],
    ]) by {
        assert(seq![3usize] + seq![0usize] =~= seq![3usize, 0]);
    }
    assert(spec_paths_via(nodes, 3, seq![0usize, 2]) =~= seq![seq![3usize, 0], seq![3usize, 2, 1]]);
    assert(spec_paths_from(nodes, 3) =~= seq![seq![3usize, 0], seq![3usize, 2, 1]]);
    // the root has one child, node 3
    assert(seq![3usize][0] == 3 && seq![3usize].skip(1) =~= empty_ks);
    assert(spec_paths_roots(nodes, empty_ks) =~= Seq::<Seq<usize>>::empty());
    assert(spec_paths_roots(nodes, seq![3usize]) =~= seq![seq![3usize, 0], seq![3usize, 2, 1]]);
}

} // verus!
