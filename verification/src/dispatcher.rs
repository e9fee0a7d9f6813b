//! The dispatcher: stores registered command trees under their names and
//! aliases, gates every dispatch on a permission check, and searches the
//! tree's precomputed paths for the first one that matches the tokenized
//! input.
//!
//! Identity, server context, argument consumers, requirement predicates and
//! leaf executors live behind the [`CommandHost`] capability, which a host
//! implements; the search itself is ordinary, fully specified control flow.
//! Every path attempt works on a fresh copy of the token stack and a fresh
//! argument map, so a failed attempt can never leak partial consumption into
//! the next one.

use vstd::prelude::*;

use crate::kvlist::{kv_contains, kv_get, kv_insert, kv_remove, map_of};
use crate::strutil::{chars_lt, lemma_lex_total, lemma_lex_trans, lex_lt, str_eq, str_to_chars};
use crate::tokenizer::{spec_tokenize, split_parts, TokenizeError};
use crate::tree::{spec_tree_paths, spec_usage, tree_wf, CommandTree, Node, NodeType};
use vstd::string::StringExecFns;

verus! {

/// One parsed argument value, tagged by kind.
#[derive(Clone, Debug, PartialEq)]
pub enum ArgValue {
    /// A plain single-token string.
    Simple(String),
    /// A free-text message, possibly spanning several tokens.
    Msg(String),
    /// Resolved player handles, by name.
    Players(Vec<String>),
    /// A bound-checked number.
    Num(i64),
    /// A boolean flag.
    Bool(bool),
    /// An opaque resource-location string.
    ResourceLocation(String),
}

/// The arguments one path attempt has parsed so far: a name-to-value map,
/// built fresh per attempted path and discarded on failure.
pub struct ConsumedArgs {
    /// Name-to-value entries; later entries shadow earlier ones.
    pub entries: Vec<(String, ArgValue)>,
}

impl ConsumedArgs {
    /// The map this argument list denotes.
    pub open spec fn spec_map(self) -> Map<Seq<char>, ArgValue> {
        map_of(self.entries@)
    }

    /// An empty argument map.
    pub fn new() -> (r: ConsumedArgs)
        ensures
            r.spec_map() == Map::<Seq<char>, ArgValue>::empty(),
    {
        ConsumedArgs { entries: Vec::new() }
    }

    /// Stores a value under a name, replacing any earlier value.
    pub fn insert(&mut self, name: String, value: ArgValue)
        ensures
            final(self).spec_map() == old(self).spec_map().insert(name@, value),
    {
        kv_insert(&mut self.entries, name, value);
    }

    /// Looks a name up.
    pub fn get(&self, name: &str) -> (r: Option<&ArgValue>)
        ensures
            match r {
                Some(v) => self.spec_map().contains_key(name@) && *v == self.spec_map()[name@],
                None => !self.spec_map().contains_key(name@),
            },
    {
        kv_get(&self.entries, name)
    }
}

/// Why a dispatch failed. Path-match failures during the search are not
/// errors; only these four terminal outcomes surface.
#[derive(Clone, Debug, PartialEq)]
pub enum CommandError {
    /// An argument consumer committed to consuming tokens but the consumed
    /// value could not be parsed afterwards: a bug in that consumer, named
    /// here by its argument.
    InvalidConsumption(Option<String>),
    /// A requirement that was expected to hold did not: an internal bug.
    InvalidRequirement,
    /// The caller lacks the needed permission.
    PermissionDenied,
    /// The normal failure: unknown command, syntax error or no matching
    /// path, with safe user-facing text.
    CommandFailed(String),
}

/// The user-facing message for an error: internal faults leak no detail,
/// permission denials explain themselves, and command failures are shown
/// verbatim.
pub open spec fn spec_error_message(e: CommandError) -> Seq<char> {
    match e {
        CommandError::InvalidConsumption(_) => "Internal error (See logs for details)"@,
        CommandError::InvalidRequirement => "Internal error (See logs for details)"@,
        CommandError::PermissionDenied => "I'm sorry, but you do not have permission to perform this command. Please contact the server administrator if you believe this is an error."@,
        CommandError::CommandFailed(s) => s@,
    }
}

impl CommandError {
    /// Renders the error as the single message shown to the caller.
    pub fn into_component(self, _cmd: &str) -> (r: String)
        ensures
            r@ == spec_error_message(self),
    {
        match self {
            CommandError::InvalidConsumption(_) => String::from_str(
                "Internal error (See logs for details)",
            ),
            CommandError::InvalidRequirement => String::from_str(
                "Internal error (See logs for details)",
            ),
            CommandError::PermissionDenied => String::from_str(
                "I'm sorry, but you do not have permission to perform this command. Please contact the server administrator if you believe this is an error.",
            ),
            CommandError::CommandFailed(s) => s,
        }
    }
}

/// The message a tokenizer error surfaces as.
pub open spec fn spec_tokenize_message(e: TokenizeError) -> Seq<char> {
    match e {
        TokenizeError::ClosingBrace => "Unmatched braces"@,
        TokenizeError::ClosingBracket => "Unmatched brackets"@,
        TokenizeError::OpenQuote => "Unmatched quotes at the end"@,
        TokenizeError::OpenBrace => "Unmatched braces at the end"@,
        TokenizeError::OpenBracket => "Unmatched brackets at the end"@,
        TokenizeError::Empty => "Empty Command"@,
    }
}

/// Renders a tokenizer error's message.
fn tokenize_error_text(e: TokenizeError) -> (r: String)
    ensures
        r@ == spec_tokenize_message(e),
{
    match e {
        TokenizeError::ClosingBrace => String::from_str("Unmatched braces"),
        TokenizeError::ClosingBracket => String::from_str("Unmatched brackets"),
        TokenizeError::OpenQuote => String::from_str("Unmatched quotes at the end"),
        TokenizeError::OpenBrace => String::from_str("Unmatched braces at the end"),
        TokenizeError::OpenBracket => String::from_str("Unmatched brackets at the end"),
        TokenizeError::Empty => String::from_str("Empty Command"),
    }
}

/// Everything the engine asks of its surroundings: the identity and server
/// context live inside the implementation, and the engine addresses
/// consumers, predicates, executors and permissions by name.
///
/// `consume` carries the no-partial-commit contract that makes backtracking
/// tractable: an implementation either commits to popping some tokens off the
/// top of the stack and returns a value, or pops nothing and declines.
pub trait CommandHost {
    /// Whether the invoking identity holds a permission.
    fn has_permission(&self, permission: &str) -> bool;

    /// Evaluates a named requirement predicate against the identity.
    fn require(&self, predicate: &str) -> bool;

    /// Asks a named consumer to parse tokens off the top of the stack (the
    /// end of the vector). Declining must leave the stack untouched, and a
    /// consumer may only pop: what remains is a prefix of what was there.
    fn consume(&self, consumer: &str, args: &mut Vec<String>) -> (r: Option<ArgValue>)
        ensures
            r is None ==> final(args)@ == old(args)@,
            final(args)@.len() <= old(args)@.len(),
            final(args)@ == old(args)@.take(final(args)@.len() as int),
    ;

    /// Asks a named consumer for completions of the full original line.
    fn suggest(&self, consumer: &str, input: &str) -> Result<Option<Vec<String>>, CommandError>;

    /// Runs a named leaf executor with the fully parsed arguments.
    fn execute(&self, executor: &str, args: &ConsumedArgs) -> Result<(), CommandError>;
}

/// A registry entry: a command owns its tree; an alias points at the primary
/// name, always in one hop.
pub enum Command {
    /// The primary entry, owning the grammar.
    Tree(CommandTree),
    /// An alias of the primary name.
    Alias(String),
}

/// Stores registered command trees and dispatches commands to them.
///
/// Both maps are association lists with map semantics; the permission map is
/// kept 1:1 with the command-name keyspace, aliases included.
pub struct CommandDispatcher {
    /// Command name or alias, to tree or alias target.
    pub commands: Vec<(String, Command)>,
    /// Command name or alias, to required permission string.
    pub permissions: Vec<(String, String)>,
}

/// The name-to-entry map of the registry.
pub open spec fn commands_map(d: CommandDispatcher) -> Map<Seq<char>, Command> {
    map_of(d.commands@)
}

/// The name-to-permission map of the registry.
pub open spec fn permissions_map(d: CommandDispatcher) -> Map<Seq<char>, Seq<char>> {
    Map::new(
        |k: Seq<char>| map_of(d.permissions@).contains_key(k),
        |k: Seq<char>| map_of(d.permissions@)[k]@,
    )
}

/// Every stored tree is well-formed.
pub open spec fn dispatcher_wf(d: CommandDispatcher) -> bool {
    forall|k: Seq<char>|
        #[trigger] commands_map(d).contains_key(k) ==> (commands_map(d)[k] matches Command::Tree(
            t,
        ) ==> tree_wf(t))
}

/// Unregistering `name` removes exactly the entries that are `name` itself
/// or an alias pointing at `name`.
pub open spec fn unregister_hits(cmds: Map<Seq<char>, Command>, k: Seq<char>, name: Seq<char>) -> bool {
    cmds.contains_key(k) && (k == name || (cmds[k] matches Command::Alias(t) && t@ == name))
}

impl Default for CommandDispatcher {
    /// An empty registry.
    fn default() -> (d: CommandDispatcher)
        ensures
            commands_map(d) == Map::<Seq<char>, Command>::empty(),
            map_of(d.permissions@) == Map::<Seq<char>, String>::empty(),
            dispatcher_wf(d),
    {
        CommandDispatcher { commands: Vec::new(), permissions: Vec::new() }
    }
}

impl CommandDispatcher {
    /// Registers a command tree under every one of its names: the first
    /// declared name becomes primary and owns the tree, every other name
    /// becomes an alias of it, and the permission string is copied under
    /// every name so permission lookup is one hop. Re-registering a name
    /// replaces the earlier entries (last writer wins).
    pub fn register(&mut self, tree: CommandTree, permission: String)
        requires
            tree_wf(tree),
            dispatcher_wf(*old(self)),
        ensures
            dispatcher_wf(*final(self)),
            // the primary name owns the tree and its permission
            commands_map(*final(self)).contains_key(tree.names@[0]@),
            commands_map(*final(self))[tree.names@[0]@] == Command::Tree(tree),
            permissions_map(*final(self)).contains_key(tree.names@[0]@),
            permissions_map(*final(self))[tree.names@[0]@] == permission@,
            // every other declared name aliases the primary name
            forall|i: int|
                1 <= i < tree.names@.len() && (#[trigger] tree.names@[i])@ != tree.names@[0]@
                    ==> commands_map(*final(self)).contains_key(tree.names@[i]@)
                    && (commands_map(*final(self))[tree.names@[i]@] matches Command::Alias(t)
                    && t@ == tree.names@[0]@) && permissions_map(*final(self)).contains_key(
                    tree.names@[i]@,
                ) && permissions_map(*final(self))[tree.names@[i]@] == permission@,
            // names not declared by this tree are untouched
            forall|k: Seq<char>|
                !(exists|i: int| 0 <= i < tree.names@.len() && (#[trigger] tree.names@[i])@ == k)
                    ==> commands_map(*final(self)).contains_key(k) == commands_map(
                    *old(self),
                ).contains_key(k) && (commands_map(*old(self)).contains_key(k) ==> commands_map(
                    *final(self),
                )[k] == commands_map(*old(self))[k]) && permissions_map(
                    *final(self),
                ).contains_key(k) == permissions_map(*old(self)).contains_key(k) && (
                permissions_map(*old(self)).contains_key(k) ==> permissions_map(*final(self))[k]
                    == permissions_map(*old(self))[k]),
    {
        let primary: String = clone_string(&tree.names[0]);
        let ghost names = tree.names@;
        let ghost primary_v = names[0]@;
        let mut i: usize = 1;
        while i < tree.names.len()
            invariant
                tree_wf(tree),
                dispatcher_wf(*old(self)),
                dispatcher_wf(*self),
                primary@ == names[0]@,
                names == tree.names@,
                primary_v == names[0]@,
                1 <= i <= names.len(),
                forall|j: int|
                    1 <= j < i && (#[trigger] names[j])@ != primary_v ==> commands_map(
                        *self,
                    ).contains_key(names[j]@) && (commands_map(*self)[names[j]@] matches
                        Command::Alias(t) && t@ == primary_v) && map_of(
                        self.permissions@,
                    ).contains_key(names[j]@) && map_of(self.permissions@)[names[j]@]@
                        == permission@,
                forall|k: Seq<char>|
                    !(exists|j: int| 1 <= j < i && (#[trigger] names[j])@ == k) ==> commands_map(
                        *self,
                    ).contains_key(k) == commands_map(*old(self)).contains_key(k) && (commands_map(
                        *old(self),
                    ).contains_key(k) ==> commands_map(*self)[k] == commands_map(*old(self))[k])
                        && map_of(self.permissions@).contains_key(k) == map_of(
                        old(self).permissions@,
                    ).contains_key(k) && (map_of(old(self).permissions@).contains_key(k) ==> map_of(
                        self.permissions@,
                    )[k] == map_of(old(self).permissions@)[k]),
            decreases names.len() - i,
        {
            let ghost pre = *self;
            let name = clone_string(&tree.names[i]);
            let name2 = clone_string(&tree.names[i]);
            let target = clone_string(&primary);
            let perm = clone_string(&permission);
            let ghost ni = names[i as int]@;
            kv_insert(&mut self.commands, name, Command::Alias(target));
            kv_insert(&mut self.permissions, name2, perm);
            i = i + 1;
            proof {
                assert(commands_map(*self) == commands_map(pre).insert(
                    ni,
                    commands_map(*self)[ni],
                ));
                assert forall|k: Seq<char>| #[trigger]
                    commands_map(*self).contains_key(k) implies (commands_map(*self)[k] matches
                    Command::Tree(t) ==> tree_wf(t)) by {
                    if k != ni {
                        assert(commands_map(pre).contains_key(k));
                        assert(commands_map(*self)[k] == commands_map(pre)[k]);
                    }
                }
                assert forall|k: Seq<char>|
                    !(exists|j: int| 1 <= j < i && (#[trigger] names[j])@ == k) implies (
                commands_map(*self).contains_key(k) == commands_map(*old(self)).contains_key(k) && (
                commands_map(*old(self)).contains_key(k) ==> commands_map(*self)[k] == commands_map(
                    *old(self),
                )[k]) && map_of(self.permissions@).contains_key(k) == map_of(
                    old(self).permissions@,
                ).contains_key(k) && (map_of(old(self).permissions@).contains_key(k) ==> map_of(
                    self.permissions@,
                )[k] == map_of(old(self).permissions@)[k])) by {
                    assert(ni != k) by {
                        if ni == k {
                            assert(1 <= i - 1 < i && (names[i - 1])@ == k);
                        }
                    }
                    assert(!(exists|j: int| 1 <= j < i - 1 && (#[trigger] names[j])@ == k)) by {
                        if exists|j: int| 1 <= j < i - 1 && (#[trigger] names[j])@ == k {
                            let j = choose|j: int| 1 <= j < i - 1 && (#[trigger] names[j])@ == k;
                            assert(1 <= j < i && (names[j])@ == k);
                        }
                    }
                }
            }
        }
        let ghost pre2 = *self;
        let primary2 = clone_string(&primary);
        kv_insert(&mut self.permissions, primary, permission);
        let ghost pre3 = *self;
        kv_insert(&mut self.commands, primary2, Command::Tree(tree));
        proof {
            assert forall|k: Seq<char>| #[trigger]
                commands_map(*self).contains_key(k) implies (commands_map(*self)[k] matches
                Command::Tree(t) ==> tree_wf(t)) by {
                if k != primary_v {
                    assert(commands_map(pre3).contains_key(k));
                    assert(commands_map(*self)[k] == commands_map(pre3)[k]);
                }
            }
            assert forall|j: int|
                1 <= j < names.len() && (#[trigger] names[j])@ != primary_v implies (commands_map(
                *self,
            ).contains_key(names[j]@) && (commands_map(*self)[names[j]@] matches Command::Alias(t)
                && t@ == primary_v) && permissions_map(*self).contains_key(names[j]@)
                && permissions_map(*self)[names[j]@] == permission@) by {
                assert(commands_map(pre2).contains_key(names[j]@));
            }
            assert forall|k: Seq<char>|
                !(exists|i2: int| 0 <= i2 < names.len() && (#[trigger] names[i2])@ == k) implies (
            commands_map(*self).contains_key(k) == commands_map(*old(self)).contains_key(k) && (
            commands_map(*old(self)).contains_key(k) ==> commands_map(*self)[k] == commands_map(
                *old(self),
            )[k]) && permissions_map(*self).contains_key(k) == permissions_map(
                *old(self),
            ).contains_key(k) && (permissions_map(*old(self)).contains_key(k) ==> permissions_map(
                *self,
            )[k] == permissions_map(*old(self))[k])) by {
                assert(primary_v != k) by {
                    if primary_v == k {
                        assert(0 <= 0 < names.len() && (names[0])@ == k);
                    }
                }
                assert(!(exists|j: int| 1 <= j < names.len() && (#[trigger] names[j])@ == k)) by {
                    if exists|j: int| 1 <= j < names.len() && (#[trigger] names[j])@ == k {
                        let j = choose|j: int| 1 <= j < names.len() && (#[trigger] names[j])@ == k;
                        assert(0 <= j < names.len() && (names[j])@ == k);
                    }
                }
                assert(commands_map(pre2).contains_key(k) == commands_map(
                    *old(self),
                ).contains_key(k));
                assert(commands_map(*old(self)).contains_key(k) ==> commands_map(pre2)[k]
                    == commands_map(*old(self))[k]);
                assert(map_of(pre2.permissions@).contains_key(k) == map_of(
                    old(self).permissions@,
                ).contains_key(k));
                assert(map_of(old(self).permissions@).contains_key(k) ==> map_of(
                    pre2.permissions@,
                )[k] == map_of(old(self).permissions@)[k]);
                assert(commands_map(pre3) == commands_map(pre2));
                assert(commands_map(*self) == commands_map(pre3).insert(
                    primary_v,
                    commands_map(*self)[primary_v],
                ));
                assert(map_of(self.permissions@) == map_of(pre2.permissions@).insert(
                    primary_v,
                    map_of(self.permissions@)[primary_v],
                ));
            }
        }
    }

    /// Removes a command by its primary name: the entry itself, every alias
    /// pointing at it, and the permission entries of everything removed.
    /// Removing an unknown name is a no-op. No orphaned alias remains.
    pub fn unregister(&mut self, name: &str)
        requires
            dispatcher_wf(*old(self)),
        ensures
            dispatcher_wf(*final(self)),
            forall|k: Seq<char>|
                #[trigger] commands_map(*final(self)).contains_key(k) <==> (commands_map(
                    *old(self),
                ).contains_key(k) && !unregister_hits(commands_map(*old(self)), k, name@)),
            forall|k: Seq<char>|
                commands_map(*final(self)).contains_key(k) ==> #[trigger] commands_map(
                    *final(self),
                )[k] == commands_map(*old(self))[k],
            forall|k: Seq<char>|
                #[trigger] permissions_map(*final(self)).contains_key(k) <==> (permissions_map(
                    *old(self),
                ).contains_key(k) && !unregister_hits(commands_map(*old(self)), k, name@)),
            forall|k: Seq<char>|
                permissions_map(*final(self)).contains_key(k) ==> #[trigger] permissions_map(
                    *final(self),
                )[k] == permissions_map(*old(self))[k],
    {
        let ghost old_cmds = commands_map(*old(self));
        let ghost old_perms = map_of(old(self).permissions@);
        let mut to_remove: Vec<String> = Vec::new();
        let mut j: usize = 0;
        while j < self.commands.len()
            invariant
                *self == *old(self),
                old_cmds == commands_map(*self),
                j <= self.commands@.len(),
                forall|x: int|
                    0 <= x < to_remove@.len() ==> unregister_hits(
                        old_cmds,
                        (#[trigger] to_remove@[x])@,
                        name@,
                    ),
                forall|x: int|
                    0 <= x < j && unregister_hits(
                        old_cmds,
                        (#[trigger] self.commands@[x].0)@,
                        name@,
                    ) ==> (exists|y: int|
                        0 <= y < to_remove@.len() && (#[trigger] to_remove@[y])@
                            == self.commands@[x].0@),
            decreases self.commands@.len() - j,
        {
            let ghost pre_removes = to_remove@;
            let key = clone_string(&self.commands[j].0);
            let hit = if str_eq(key.as_str(), name) {
                proof {
                    crate::kvlist::lemma_map_of_contains(self.commands@, key@);
                }
                true
            } else {
                match kv_get(&self.commands, key.as_str()) {
                    Some(Command::Alias(t)) => str_eq(t.as_str(), name),
                    _ => false,
                }
            };
            if hit {
                to_remove.push(key);
            }
            j = j + 1;
            proof {
                assert forall|x: int|
                    0 <= x < j && unregister_hits(
                        old_cmds,
                        (#[trigger] self.commands@[x].0)@,
                        name@,
                    ) implies (exists|y: int|
                    0 <= y < to_remove@.len() && (#[trigger] to_remove@[y])@
                        == self.commands@[x].0@) by {
                    if x < j - 1 {
                        let y = choose|y: int|
                            0 <= y < pre_removes.len() && (#[trigger] pre_removes[y])@
                                == self.commands@[x].0@;
                        assert(0 <= y < to_remove@.len() && (to_remove@[y])@
                            == self.commands@[x].0@);
                    } else {
                        assert(hit);
                        let y = to_remove@.len() - 1;
                        assert(0 <= y < to_remove@.len() && (to_remove@[y])@
                            == self.commands@[x].0@);
                    }
                }
            }
        }
        let mut idx: usize = 0;
        while idx < to_remove.len()
            invariant
                dispatcher_wf(*old(self)),
                old_cmds == commands_map(*old(self)),
                old_perms == map_of(old(self).permissions@),
                idx <= to_remove@.len(),
                forall|x: int|
                    0 <= x < to_remove@.len() ==> unregister_hits(
                        old_cmds,
                        (#[trigger] to_remove@[x])@,
                        name@,
                    ),
                forall|k: Seq<char>|
                    #[trigger] commands_map(*self).contains_key(k) <==> (old_cmds.contains_key(k)
                        && !(exists|y: int|
                        0 <= y < idx && (#[trigger] to_remove@[y])@ == k)),
                forall|k: Seq<char>|
                    commands_map(*self).contains_key(k) ==> #[trigger] commands_map(*self)[k]
                        == old_cmds[k],
                forall|k: Seq<char>|
                    #[trigger] map_of(self.permissions@).contains_key(k) <==> (
                    old_perms.contains_key(k) && !(exists|y: int|
                        0 <= y < idx && (#[trigger] to_remove@[y])@ == k)),
                forall|k: Seq<char>|
                    map_of(self.permissions@).contains_key(k) ==> #[trigger] map_of(
                        self.permissions@,
                    )[k] == old_perms[k],
                forall|x: int|
                    0 <= x < old(self).commands@.len() && unregister_hits(
                        old_cmds,
                        (#[trigger] old(self).commands@[x].0)@,
                        name@,
                    ) ==> (exists|y: int|
                        0 <= y < to_remove@.len() && (#[trigger] to_remove@[y])@ == old(
                            self,
                        ).commands@[x].0@),
            decreases to_remove@.len() - idx,
        {
            let ghost pre_cmds = commands_map(*self);
            let ghost pre_perms = map_of(self.permissions@);
            let key = clone_string(&to_remove[idx]);
            let mut commands: Vec<(String, Command)> = Vec::new();
            core::mem::swap(&mut commands, &mut self.commands);
            self.commands = kv_remove(commands, key.as_str());
            let mut permissions: Vec<(String, String)> = Vec::new();
            core::mem::swap(&mut permissions, &mut self.permissions);
            self.permissions = kv_remove(permissions, key.as_str());
            let ghost kv = to_remove@[idx as int]@;
            idx = idx + 1;
            proof {
                assert(commands_map(*self) == pre_cmds.remove(kv));
                assert(map_of(self.permissions@) == pre_perms.remove(kv));
                assert forall|k: Seq<char>|
                    #[trigger] commands_map(*self).contains_key(k) <==> (old_cmds.contains_key(k)
                        && !(exists|y: int|
                        0 <= y < idx && (#[trigger] to_remove@[y])@ == k)) by {
                    if k == kv {
                        assert((to_remove@[idx - 1])@ == k);
                    } else {
                        assert((exists|y: int| 0 <= y < idx && (#[trigger] to_remove@[y])@ == k)
                            <==> (exists|y: int|
                            0 <= y < idx - 1 && (#[trigger] to_remove@[y])@ == k)) by {
                            if exists|y: int| 0 <= y < idx && (#[trigger] to_remove@[y])@ == k {
                                let y = choose|y: int|
                                    0 <= y < idx && (#[trigger] to_remove@[y])@ == k;
                                assert(y != idx - 1);
                                assert(0 <= y < idx - 1 && (to_remove@[y])@ == k);
                            }
                        }
                    }
                }
                assert forall|k: Seq<char>|
                    #[trigger] map_of(self.permissions@).contains_key(k) <==> (
                    old_perms.contains_key(k) && !(exists|y: int|
                        0 <= y < idx && (#[trigger] to_remove@[y])@ == k)) by {
                    if k == kv {
                        assert((to_remove@[idx - 1])@ == k);
                    } else {
                        assert((exists|y: int| 0 <= y < idx && (#[trigger] to_remove@[y])@ == k)
                            <==> (exists|y: int|
                            0 <= y < idx - 1 && (#[trigger] to_remove@[y])@ == k)) by {
                            if exists|y: int| 0 <= y < idx && (#[trigger] to_remove@[y])@ == k {
                                let y = choose|y: int|
                                    0 <= y < idx && (#[trigger] to_remove@[y])@ == k;
                                assert(y != idx - 1);
                                assert(0 <= y < idx - 1 && (to_remove@[y])@ == k);
                            }
                        }
                    }
                }
            }
        }
        proof {
            assert forall|k: Seq<char>|
                #[trigger] commands_map(*self).contains_key(k) <==> (old_cmds.contains_key(k)
                    && !unregister_hits(old_cmds, k, name@)) by {
                if old_cmds.contains_key(k) && unregister_hits(old_cmds, k, name@) {
                    crate::kvlist::lemma_map_of_contains(old(self).commands@, k);
                    let x = choose|x: int|
                        0 <= x < old(self).commands@.len() && (#[trigger] old(
                            self,
                        ).commands@[x].0)@ == k;
                    assert(exists|y: int|
                        0 <= y < to_remove@.len() && (#[trigger] to_remove@[y])@ == k);
                } else if old_cmds.contains_key(k) && !unregister_hits(old_cmds, k, name@) {
                    assert(!(exists|y: int|
                        0 <= y < to_remove@.len() && (#[trigger] to_remove@[y])@ == k)) by {
                        if exists|y: int| 0 <= y < to_remove@.len() && (#[trigger] to_remove@[y])@
                            == k {
                            let y = choose|y: int|
                                0 <= y < to_remove@.len() && (#[trigger] to_remove@[y])@ == k;
                            assert(unregister_hits(old_cmds, k, name@));
                        }
                    }
                }
            }
            assert forall|k: Seq<char>|
                #[trigger] map_of(self.permissions@).contains_key(k) <==> (
                old_perms.contains_key(k) && !unregister_hits(old_cmds, k, name@)) by {
                if old_perms.contains_key(k) && unregister_hits(old_cmds, k, name@) {
                    crate::kvlist::lemma_map_of_contains(old(self).commands@, k);
                    let x = choose|x: int|
                        0 <= x < old(self).commands@.len() && (#[trigger] old(
                            self,
                        ).commands@[x].0)@ == k;
                    assert(exists|y: int|
                        0 <= y < to_remove@.len() && (#[trigger] to_remove@[y])@ == k);
                } else if old_perms.contains_key(k) && !unregister_hits(old_cmds, k, name@) {
                    assert(!(exists|y: int|
                        0 <= y < to_remove@.len() && (#[trigger] to_remove@[y])@ == k)) by {
                        if exists|y: int| 0 <= y < to_remove@.len() && (#[trigger] to_remove@[y])@
                            == k {
                            let y = choose|y: int|
                                0 <= y < to_remove@.len() && (#[trigger] to_remove@[y])@ == k;
                            assert(unregister_hits(old_cmds, k, name@));
                        }
                    }
                }
            }
            assert forall|k: Seq<char>| #[trigger]
                commands_map(*self).contains_key(k) implies (commands_map(*self)[k] matches
                Command::Tree(t) ==> tree_wf(t)) by {
                assert(old_cmds.contains_key(k));
                assert(commands_map(*self)[k] == old_cmds[k]);
            }
        }
    }

    /// Resolves a key to its tree: directly, or through one alias hop.
    /// An alias pointing at a missing or non-primary entry is an internal
    /// inconsistency and fails with a generic message.
    pub fn get_tree(&self, key: &str) -> (r: Result<&CommandTree, CommandError>)
        requires
            dispatcher_wf(*self),
        ensures
            match r {
                Ok(t) => {
                    &&& tree_wf(*t)
                    &&& commands_map(*self).contains_key(key@)
                    &&& spec_resolve_tree(commands_map(*self), key@) == Some(*t)
                    &&& match commands_map(*self)[key@] {
                        Command::Tree(t2) => *t == t2,
                        Command::Alias(target) => commands_map(*self).contains_key(target@)
                            && commands_map(*self)[target@] == Command::Tree(*t),
                    }
                },
                Err(e) => {
                    &&& e matches CommandError::CommandFailed(m)
                    &&& spec_resolve_tree(commands_map(*self), key@) is None
                    &&& (!commands_map(*self).contains_key(key@) ==> m@ == "Command not found"@)
                },
            },
    {
        let cmd = match kv_get(&self.commands, key) {
            Some(c) => c,
            None => {
                return Err(
                    CommandError::CommandFailed(String::from_str("Command not found")),
                );
            },
        };
        proof {
            crate::kvlist::lemma_map_of_value(self.commands@, key@);
        }
        match cmd {
            Command::Tree(tree) => Ok(tree),
            Command::Alias(target) => {
                match kv_get(&self.commands, target.as_str()) {
                    Some(Command::Tree(tree)) => {
                        proof {
                            crate::kvlist::lemma_map_of_value(self.commands@, target@);
                        }
                        Ok(tree)
                    },
                    _ => Err(
                        CommandError::CommandFailed(
                            String::from_str("Internal Error (See logs for details)"),
                        ),
                    ),
                }
            },
        }
    }
}

/// Copies a string.
fn clone_string(s: &String) -> (r: String)
    ensures
        r@ == s@,
{
    s.clone()
}

/// Copies a token stack.
fn clone_strings(v: &Vec<String>) -> (r: Vec<String>)
    ensures
        r.deep_view() == v.deep_view(),
        r@.len() == v@.len(),
        forall|i: int| 0 <= i < v@.len() ==> (#[trigger] r@[i])@ == v@[i]@,
{
    let mut r: Vec<String> = Vec::new();
    let mut i: usize = 0;
    while i < v.len()
        invariant
            i <= v@.len(),
            r@.len() == i,
            forall|x: int| 0 <= x < i ==> (#[trigger] r@[x])@ == v@[x]@,
        decreases v@.len() - i,
    {
        r.push(clone_string(&v[i]));
        i = i + 1;
    }
    proof {
        assert(r.deep_view() =~= v.deep_view());
    }
    r
}

/// The tokens of a stack in front-first order: the top of the stack (the
/// vector's end) is the first token.
pub open spec fn spec_stack_front(args: Seq<Seq<char>>) -> Seq<Seq<char>> {
    Seq::new(args.len(), |i: int| args[args.len() - 1 - i])
}

/// If a path is nothing but literal keywords ending in one leaf, the
/// keywords, in order; otherwise nothing.
pub open spec fn spec_literal_words(nodes: Seq<Node>, p: Seq<usize>) -> Option<Seq<Seq<char>>>
    decreases p.len(),
{
    if p.len() == 0 {
        None
    } else {
        match nodes[p[0] as int].node_type {
            NodeType::ExecuteLeaf { .. } => if p.len() == 1 {
                Some(Seq::empty())
            } else {
                None
            },
            NodeType::Literal { string } => match spec_literal_words(nodes, p.skip(1)) {
                Some(ws) => Some(seq![string@] + ws),
                None => None,
            },
            _ => None,
        }
    }
}

/// The tree a key resolves to: directly, or through one alias hop.
pub open spec fn spec_resolve_tree(m: Map<Seq<char>, Command>, key: Seq<char>) -> Option<
    CommandTree,
> {
    if m.contains_key(key) {
        match m[key] {
            Command::Tree(t) => Some(t),
            Command::Alias(target) => if m.contains_key(target@) {
                match m[target@] {
                    Command::Tree(t) => Some(t),
                    Command::Alias(_) => None,
                }
            } else {
                None
            },
        }
    } else {
        None
    }
}

/// Every path of the tree is a literal-keyword path, and none of them reads
/// exactly the given tokens: no path can match, whatever the host does.
pub open spec fn spec_no_literal_match(t: CommandTree, args: Seq<Seq<char>>) -> bool {
    forall|i: int|
        0 <= i < spec_tree_paths(t).len() ==> (spec_literal_words(
            t.nodes@,
            #[trigger] spec_tree_paths(t)[i],
        ) matches Some(w) && w != args)
}

/// The run of literal keywords a path begins with, up to its first
/// non-literal node.
pub open spec fn spec_literal_prefix(nodes: Seq<Node>, p: Seq<usize>) -> Seq<Seq<char>>
    decreases p.len(),
{
    if p.len() == 0 {
        Seq::empty()
    } else {
        match nodes[p[0] as int].node_type {
            NodeType::Literal { string } => seq![string@] + spec_literal_prefix(
                nodes,
                p.skip(1),
            ),
            _ => Seq::empty(),
        }
    }
}

/// Whether the token list `b` starts with the tokens `a`.
pub open spec fn spec_starts_with_tokens(a: Seq<Seq<char>>, b: Seq<Seq<char>>) -> bool {
    b.len() >= a.len() && b.take(a.len() as int) == a
}

/// A path's literal prefix is no longer than the path, and each of its
/// entries is the keyword of the literal node at that position.
proof fn lemma_literal_prefix_props(nodes: Seq<Node>, p: Seq<usize>)
    ensures
        spec_literal_prefix(nodes, p).len() <= p.len(),
        forall|x: int|
            0 <= x < spec_literal_prefix(nodes, p).len() ==> (nodes[(#[trigger] p[x]) as int].node_type
                matches NodeType::Literal { string } && string@ == spec_literal_prefix(
                nodes,
                p,
            )[x]),
        spec_literal_prefix(nodes, p).len() < p.len() ==> !(nodes[p[spec_literal_prefix(
            nodes,
            p,
        ).len() as int] as int].node_type is Literal),
    decreases p.len(),
{
    if p.len() > 0 {
        match nodes[p[0] as int].node_type {
            NodeType::Literal { string } => {
                lemma_literal_prefix_props(nodes, p.skip(1));
                assert(spec_literal_prefix(nodes, p).len() < p.len() ==> p.skip(1)[
                    spec_literal_prefix(nodes, p.skip(1)).len() as int] == p[spec_literal_prefix(
                    nodes,
                    p,
                ).len() as int]);
                let l = spec_literal_prefix(nodes, p);
                let l1 = spec_literal_prefix(nodes, p.skip(1));
                assert forall|x: int|
                    0 <= x < l.len() implies (nodes[(#[trigger] p[x]) as int].node_type matches
                    NodeType::Literal { string: s2 } && s2@ == l[x]) by {
                    if x > 0 {
                        assert(p.skip(1)[x - 1] == p[x]);
                        assert(l[x] == l1[x - 1]);
                    }
                }
            },
            _ => {},
        }
    }
}

impl CommandDispatcher {
    /// Attempts one precomputed path against a fresh copy of the token
    /// stack and a fresh argument map, so the caller's stack is untouched
    /// whatever a consumer does.
    ///
    /// `Ok(true)` means the path matched fully — every token consumed, every
    /// requirement met, the leaf reached with an empty stack — and its
    /// executor ran successfully. `Ok(false)` means this path does not match:
    /// never an error, the search just moves on. For a path of literal
    /// keywords the outcome is exact: it matches precisely when the stack
    /// holds exactly those keywords, trailing tokens rejected.
    fn try_is_fitting_path<H: CommandHost>(
        host: &H,
        path: &Vec<usize>,
        tree: &CommandTree,
        raw_args: &Vec<String>,
    ) -> (r: Result<bool, CommandError>)
        requires
            tree_wf(*tree),
            forall|k: int| 0 <= k < path@.len() ==> #[trigger] path@[k] < tree.nodes@.len(),
        ensures
            (spec_literal_words(tree.nodes@, path@) matches Some(words) && spec_stack_front(
                raw_args.deep_view(),
            ) != words) ==> r == Ok::<bool, CommandError>(false),
            (spec_literal_words(tree.nodes@, path@) matches Some(words) && spec_stack_front(
                raw_args.deep_view(),
            ) == words) ==> r != Ok::<bool, CommandError>(false),
            !spec_starts_with_tokens(
                spec_literal_prefix(tree.nodes@, path@),
                spec_stack_front(raw_args.deep_view()),
            ) ==> r == Ok::<bool, CommandError>(false),
    {
        let ghost orig = raw_args.deep_view();
        let ghost whole = spec_literal_words(tree.nodes@, path@);
        let ghost front = spec_stack_front(raw_args.deep_view());
        let ghost lpref = spec_literal_prefix(tree.nodes@, path@);
        let mut stack = clone_strings(raw_args);
        let mut parsed = ConsumedArgs::new();
        let mut k: usize = 0;
        proof {
            lemma_literal_prefix_props(tree.nodes@, path@);
            assert(path@.skip(0) =~= path@);
            assert(front.take(0) =~= lpref.take(0));
            assert(front.skip(0) =~= front);
            if whole is Some {
                let words = whole->0;
                assert(words.take(0) =~= Seq::<Seq<char>>::empty());
                assert(spec_stack_front(orig) =~= words.take(0) + spec_stack_front(
                    stack.deep_view(),
                ));
            }
        }
        while k < path.len()
            invariant
                tree_wf(*tree),
                forall|x: int| 0 <= x < path@.len() ==> #[trigger] path@[x] < tree.nodes@.len(),
                k <= path@.len(),
                orig == raw_args.deep_view(),
                whole == spec_literal_words(tree.nodes@, path@),
                whole matches Some(words) ==> {
                    &&& k <= words.len()
                    &&& spec_literal_words(tree.nodes@, path@.skip(k as int)) == Some(
                        words.skip(k as int),
                    )
                    &&& spec_stack_front(orig) == words.take(k as int) + spec_stack_front(
                        stack.deep_view(),
                    )
                },
                front == spec_stack_front(orig),
                lpref == spec_literal_prefix(tree.nodes@, path@),
                k <= lpref.len() ==> (front.len() >= k && front.take(k as int) == lpref.take(
                    k as int,
                ) && spec_stack_front(stack.deep_view()) == front.skip(k as int)),
                k > lpref.len() ==> spec_starts_with_tokens(lpref, front),
            decreases path@.len() - k,
        {
            let i = path[k];
            let ghost pre_stack = stack.deep_view();
            match &tree.nodes[i].node_type {
                NodeType::ExecuteLeaf { executor } => {
                    if stack.len() == 0 {
                        proof {
                            lemma_literal_prefix_props(tree.nodes@, path@);
                            assert(k >= lpref.len()) by {
                                if k < lpref.len() {
                                    assert(tree.nodes@[path@[k as int] as int].node_type
                                        is Literal);
                                }
                            }
                            assert(spec_starts_with_tokens(lpref, front)) by {
                                if k == lpref.len() {
                                    assert(front.take(lpref.len() as int) =~= lpref) by {
                                        assert(lpref.take(lpref.len() as int) =~= lpref);
                                    }
                                }
                            }
                            if whole is Some {
                                let words = whole->0;
                                assert(path@.skip(k as int)[0] == path@[k as int]);
                                assert(words.skip(k as int) =~= Seq::<Seq<char>>::empty());
                                assert(words.take(k as int) =~= words);
                                assert(spec_stack_front(stack.deep_view())
                                    =~= Seq::<Seq<char>>::empty());
                                assert(spec_stack_front(orig) =~= words);
                            }
                        }
                        return match host.execute(executor.as_str(), &parsed) {
                            Ok(_) => Ok(true),
                            Err(e) => Err(e),
                        };
                    } else {
                        proof {
                            if whole is Some {
                                let words = whole->0;
                                assert(path@.skip(k as int)[0] == path@[k as int]);
                                assert(words.skip(k as int) =~= Seq::<Seq<char>>::empty());
                                assert(words.len() == k);
                                assert(spec_stack_front(stack.deep_view()).len() > 0);
                                assert(spec_stack_front(orig).len() > words.len());
                            }
                        }
                        return Ok(false);
                    }
                },
                NodeType::Literal { string } => {
                    proof {
                        if whole is Some {
                            let words = whole->0;
                            assert(path@.skip(k as int)[0] == path@[k as int]);
                            assert(path@.skip(k as int).skip(1) =~= path@.skip(k + 1));
                            assert(words.skip(k as int)[0] == string@);
                            assert(words.skip(k as int).skip(1) =~= words.skip(k + 1));
                            assert(k < words.len());
                            assert(spec_stack_front(orig).len() == words.take(k as int).len()
                                + spec_stack_front(stack.deep_view()).len());
                        }
                    }
                    match stack.pop() {
                        Some(tok) => {
                            if !str_eq(tok.as_str(), string.as_str()) {
                                proof {
                                    if whole is Some {
                                        let words = whole->0;
                                        assert(spec_stack_front(pre_stack)[0] == tok@);
                                        assert(spec_stack_front(orig)[k as int] == tok@);
                                        if spec_stack_front(orig) == words {
                                            assert(words[k as int] == string@) by {
                                                assert(words.skip(k as int)[0] == words[k as int]);
                                            }
                                        }
                                    }
                                }
                                return Ok(false);
                            }
                            proof {
                                lemma_literal_prefix_props(tree.nodes@, path@);
                                if k < lpref.len() {
                                    assert(spec_stack_front(pre_stack) == front.skip(k as int));
                                    assert(front.skip(k as int)[0] == front[k as int]);
                                    assert(spec_stack_front(pre_stack)[0] == tok@);
                                    assert(front[k as int] == tok@);
                                    assert(tok@ == string@);
                                    assert(string@ == lpref[k as int]);
                                    assert(front.take(k + 1) =~= lpref.take(k + 1));
                                    assert(stack.deep_view() == pre_stack.drop_last());
                                    assert(spec_stack_front(stack.deep_view())
                                        =~= spec_stack_front(pre_stack).skip(1));
                                    assert(front.skip(k as int).skip(1) =~= front.skip(k + 1));
                                } else {
                                    assert(k > lpref.len()) by {
                                        if k == lpref.len() {
                                            assert(k < path@.len());
                                            assert(tree.nodes@[path@[k as int] as int].node_type
                                                is Literal);
                                        }
                                    }
                                }
                                if whole is Some {
                                    let words = whole->0;
                                    assert(spec_literal_words(
                                        tree.nodes@,
                                        path@.skip(k + 1),
                                    ) == Some(words.skip(k + 1)));
                                    assert(stack.deep_view() == pre_stack.drop_last());
                                    assert(spec_stack_front(pre_stack)[0] == tok@);
                                    assert(words.skip(k as int)[0] == words[k as int]);
                                    assert(spec_stack_front(stack.deep_view())
                                        =~= spec_stack_front(pre_stack).skip(1));
                                    assert(words.take(k + 1) =~= words.take(k as int).push(
                                        words[k as int],
                                    ));
                                    assert(spec_stack_front(orig) =~= words.take(k + 1)
                                        + spec_stack_front(stack.deep_view())) by {
                                        assert(spec_stack_front(orig) == words.take(k as int)
                                            + spec_stack_front(pre_stack));
                                        assert(tok@ == string@);
                                        assert(words[k as int] == string@);
                                    }
                                }
                            }
                        },
                        None => {
                            proof {
                                if whole is Some {
                                    let words = whole->0;
                                    assert(spec_stack_front(stack.deep_view()).len() == 0);
                                    assert(spec_stack_front(orig).len() == k);
                                    assert(k < words.len());
                                    if spec_stack_front(orig) == words {
                                        assert(false);
                                    }
                                }
                            }
                            return Ok(false);
                        },
                    }
                },
                NodeType::Argument { name, consumer } => {
                    proof {
                        lemma_literal_prefix_props(tree.nodes@, path@);
                        assert(k >= lpref.len()) by {
                            if k < lpref.len() {
                                assert(tree.nodes@[path@[k as int] as int].node_type is Literal);
                            }
                        }
                        if k == lpref.len() {
                            assert(spec_starts_with_tokens(lpref, front)) by {
                                assert(front.take(lpref.len() as int) =~= lpref) by {
                                    assert(lpref.take(lpref.len() as int) =~= lpref);
                                }
                            }
                        }
                    }
                    match host.consume(consumer.as_str(), &mut stack) {
                        Some(value) => {
                            parsed.insert(clone_string(name), value);
                        },
                        None => {
                            return Ok(false);
                        },
                    }
                },
                NodeType::Require { predicate } => {
                    proof {
                        lemma_literal_prefix_props(tree.nodes@, path@);
                        assert(k >= lpref.len()) by {
                            if k < lpref.len() {
                                assert(tree.nodes@[path@[k as int] as int].node_type is Literal);
                            }
                        }
                        if k == lpref.len() {
                            assert(spec_starts_with_tokens(lpref, front)) by {
                                assert(front.take(lpref.len() as int) =~= lpref) by {
                                    assert(lpref.take(lpref.len() as int) =~= lpref);
                                }
                            }
                        }
                    }
                    if !host.require(predicate.as_str()) {
                        return Ok(false);
                    }
                },
            }
            k = k + 1;
        }
        proof {
            if whole is Some {
                let words = whole->0;
                assert(path@.skip(path@.len() as int) =~= Seq::<usize>::empty());
                assert(spec_literal_words(tree.nodes@, path@.skip(path@.len() as int)) is None);
            }
        }
        Ok(false)
    }

    /// Executes a command line: tokenize, look the key up, resolve one
    /// alias hop, check the permission, then try every precomputed path in
    /// declaration order against a fresh stack copy; the first fully
    /// matching path executes and wins. No consumer runs before the
    /// permission check passes, and a failed path leaks nothing into the
    /// next attempt.
    pub fn dispatch<H: CommandHost>(&self, host: &H, cmd: &str) -> (r: Result<(), CommandError>)
        requires
            dispatcher_wf(*self),
        ensures
            spec_tokenize(cmd@) matches Err(e) ==> (r matches Err(ce) && ce matches
                CommandError::CommandFailed(m) && m@ == spec_tokenize_message(e)),
            spec_tokenize(cmd@) matches Ok(toks) ==> {
                &&& !commands_map(*self).contains_key(toks[0]) ==> (r matches Err(ce) && ce
                    matches CommandError::CommandFailed(m) && m@ == "Command "@ + toks[0]
                    + " does not exist"@)
                &&& (commands_map(*self).contains_key(toks[0]) && !permissions_map(
                    *self,
                ).contains_key(toks[0])) ==> (r matches Err(ce) && ce matches
                    CommandError::CommandFailed(m) && m@ == "Permission for Command not found"@)
                &&& r is Ok ==> (commands_map(*self).contains_key(toks[0]) && permissions_map(
                    *self,
                ).contains_key(toks[0]))
                &&& spec_resolve_tree(commands_map(*self), toks[0]) matches Some(tree) ==> ((
                permissions_map(*self).contains_key(toks[0]) && spec_no_literal_match(
                    tree,
                    toks.skip(1),
                )) ==> (r == Err::<(), CommandError>(CommandError::PermissionDenied) || (r matches
                    Err(ce) && ce matches CommandError::CommandFailed(m) && m@
                    == "Invalid Syntax. Usage: "@ + spec_usage(tree))))
            },
            r is Ok ==> spec_tokenize(cmd@) is Ok,
    {
        let (key, raw_args) = match split_parts(cmd) {
            Ok(parts) => parts,
            Err(e) => {
                return Err(CommandError::CommandFailed(tokenize_error_text(e)));
            },
        };
        if !kv_contains(&self.commands, key.as_str()) {
            let msg = String::from_str("Command ").concat(key.as_str()).concat(
                " does not exist",
            );
            return Err(CommandError::CommandFailed(msg));
        }
        let permission = match kv_get(&self.permissions, key.as_str()) {
            Some(p) => p,
            None => {
                return Err(
                    CommandError::CommandFailed(
                        String::from_str("Permission for Command not found"),
                    ),
                );
            },
        };
        if !host.has_permission(permission.as_str()) {
            return Err(CommandError::PermissionDenied);
        }
        let tree = match self.get_tree(key.as_str()) {
            Ok(t) => t,
            Err(e) => {
                return Err(e);
            },
        };
        let paths = tree.iter_paths();
        let mut p: usize = 0;
        while p < paths.len()
            invariant
                tree_wf(*tree),
                forall|x: int, y: int|
                    0 <= x < paths@.len() && 0 <= y < paths@[x]@.len() ==> #[trigger] paths@[x]@[y]
                        < tree.nodes@.len(),
                paths.deep_view() == spec_tree_paths(*tree),
                spec_tokenize(cmd@) is Ok,
                key@ == spec_tokenize(cmd@)->Ok_0[0],
                raw_args.deep_view() == crate::tokenizer::spec_arg_stack(
                    spec_tokenize(cmd@)->Ok_0,
                ),
                commands_map(*self).contains_key(key@),
                permissions_map(*self).contains_key(key@),
                spec_resolve_tree(commands_map(*self), key@) == Some(*tree),
            decreases paths@.len() - p,
        {
            let r = Self::try_is_fitting_path(host, &paths[p], tree, &raw_args);
            proof {
                if spec_no_literal_match(*tree, spec_tokenize(cmd@)->Ok_0.skip(1)) {
                    let toks = spec_tokenize(cmd@)->Ok_0;
                    assert(spec_literal_words(tree.nodes@, spec_tree_paths(*tree)[p as int])
                        matches Some(w) && w != toks.skip(1));
                    assert(paths.deep_view()[p as int] == paths@[p as int].deep_view());
                    assert(paths@[p as int].deep_view() =~= paths@[p as int]@);
                    assert(paths@[p as int]@ == spec_tree_paths(*tree)[p as int]);
                    assert(spec_stack_front(raw_args.deep_view()) =~= toks.skip(1)) by {
                        let stack = crate::tokenizer::spec_arg_stack(toks);
                        assert(stack.len() == toks.len() - 1);
                        assert forall|i: int|
                            0 <= i < stack.len() implies spec_stack_front(stack)[i] == toks.skip(
                            1,
                        )[i] by {
                            assert(spec_stack_front(stack)[i] == stack[stack.len() - 1 - i]);
                            assert(stack[stack.len() - 1 - i] == toks[toks.len() - 1 - (stack.len()
                                - 1 - i)]);
                        }
                    }
                    assert(r == Ok::<bool, CommandError>(false));
                }
            }
            match r {
                Ok(true) => {
                    return Ok(());
                },
                Ok(false) => {},
                Err(e) => {
                    return Err(e);
                },
            }
            p = p + 1;
        }
        let msg = String::from_str("Invalid Syntax. Usage: ").concat(tree.usage().as_str());
        Err(CommandError::CommandFailed(msg))
    }
}

/// A strictly sorted suggestion list: strictly ascending in lexicographic
/// order, hence free of duplicates.
pub open spec fn spec_sorted_suggestions(l: Seq<String>) -> bool {
    forall|i: int, j: int| 0 <= i < j < l.len() ==> lex_lt((#[trigger] l[i])@, (#[trigger] l[j])@)
}

/// Whether some element of the list reads `v`.
pub open spec fn spec_suggestion_present(l: Seq<String>, v: Seq<char>) -> bool {
    exists|i: int| 0 <= i < l.len() && (#[trigger] l[i])@ == v
}

/// Inserts a suggestion into its sorted position, dropping a duplicate.
fn insert_sorted_dedup(list: &mut Vec<String>, s: String)
    requires
        spec_sorted_suggestions(old(list)@),
    ensures
        spec_sorted_suggestions(final(list)@),
        forall|v: Seq<char>|
            #[trigger] spec_suggestion_present(final(list)@, v) <==> (spec_suggestion_present(
                old(list)@,
                v,
            ) || v == s@),
{
    let sc = str_to_chars(s.as_str());
    let mut idx: usize = 0;
    while idx < list.len()
        invariant
            spec_sorted_suggestions(list@),
            *list == *old(list),
            sc@ == s@,
            idx <= list@.len(),
            forall|x: int| 0 <= x < idx ==> lex_lt((#[trigger] list@[x])@, s@),
        ensures
            spec_sorted_suggestions(list@),
            *list == *old(list),
            sc@ == s@,
            idx <= list@.len(),
            forall|x: int| 0 <= x < idx ==> lex_lt((#[trigger] list@[x])@, s@),
            idx < list@.len() ==> !lex_lt((list@[idx as int])@, s@),
        decreases list@.len() - idx,
    {
        let ec = str_to_chars(list[idx].as_str());
        if chars_lt(&ec, &sc) {
            idx = idx + 1;
        } else {
            break ;
        }
    }
    if idx < list.len() {
        if str_eq(list[idx].as_str(), s.as_str()) {
            proof {
                assert forall|v: Seq<char>|
                    #[trigger] spec_suggestion_present(list@, v) <==> (spec_suggestion_present(
                        old(list)@,
                        v,
                    ) || v == s@) by {
                    if v == s@ {
                        assert((list@[idx as int])@ == v);
                    }
                }
            }
            return ;
        }
    }
    let ghost pre = list@;
    let ghost gidx = idx as int;
    list.insert(idx, s);
    proof {
        assert(list@ == pre.insert(gidx, s));
        assert forall|i: int, j: int|
            0 <= i < j < list@.len() implies lex_lt((#[trigger] list@[i])@, (#[trigger] list@[j])@)
            by {
            if j < gidx {
                assert(list@[i] == pre[i] && list@[j] == pre[j]);
            } else if i < gidx && j == gidx {
                assert(list@[i] == pre[i]);
                assert(lex_lt(pre[i]@, s@));
            } else if i < gidx && j > gidx {
                assert(list@[i] == pre[i] && list@[j] == pre[j - 1]);
                if gidx < j - 1 {
                    assert(lex_lt(pre[gidx]@, pre[j - 1]@));
                    assert(lex_lt(pre[i]@, pre[gidx]@));
                    lemma_lex_trans(pre[i]@, pre[gidx]@, pre[j - 1]@);
                } else {
                    lemma_lex_total(s@, pre[gidx]@);
                    assert(lex_lt(pre[i]@, s@));
                }
            } else if i == gidx && j > gidx {
                assert(list@[j] == pre[j - 1]);
                lemma_lex_total(s@, pre[gidx]@);
                if gidx < j - 1 {
                    assert(lex_lt(pre[gidx]@, pre[j - 1]@));
                    lemma_lex_trans(s@, pre[gidx]@, pre[j - 1]@);
                }
            } else {
                assert(i > gidx);
                assert(list@[i] == pre[i - 1] && list@[j] == pre[j - 1]);
            }
        }
        assert forall|v: Seq<char>|
            #[trigger] spec_suggestion_present(list@, v) <==> (spec_suggestion_present(pre, v) || v
                == s@) by {
            if spec_suggestion_present(list@, v) {
                let i = choose|i: int| 0 <= i < list@.len() && (#[trigger] list@[i])@ == v;
                if i < gidx {
                    assert((pre[i])@ == v);
                } else if i > gidx {
                    assert((pre[i - 1])@ == v);
                }
            }
            if spec_suggestion_present(pre, v) {
                let i = choose|i: int| 0 <= i < pre.len() && (#[trigger] pre[i])@ == v;
                if i < gidx {
                    assert((list@[i])@ == v);
                } else {
                    assert((list@[i + 1])@ == v);
                }
            }
            if v == s@ {
                assert((list@[gidx])@ == v);
            }
        }
    }
}

impl CommandDispatcher {
    /// Walks one path for suggestion purposes: stops at the first argument
    /// whose consumer declines with an exhausted stack and asks it to
    /// complete the full original line; any other dead end yields nothing.
    fn try_find_suggestions_on_path<H: CommandHost>(
        host: &H,
        path: &Vec<usize>,
        tree: &CommandTree,
        raw_args: &Vec<String>,
        input: &str,
    ) -> (r: Result<Option<Vec<String>>, CommandError>)
        requires
            tree_wf(*tree),
            forall|k: int| 0 <= k < path@.len() ==> #[trigger] path@[k] < tree.nodes@.len(),
        ensures
            spec_literal_words(tree.nodes@, path@) is Some ==> r == Ok::<
                Option<Vec<String>>,
                CommandError,
            >(None),
    {
        let ghost whole = spec_literal_words(tree.nodes@, path@);
        let mut stack = clone_strings(raw_args);
        let mut parsed = ConsumedArgs::new();
        let mut k: usize = 0;
        proof {
            assert(path@.skip(0) =~= path@);
        }
        while k < path.len()
            invariant
                tree_wf(*tree),
                forall|x: int| 0 <= x < path@.len() ==> #[trigger] path@[x] < tree.nodes@.len(),
                k <= path@.len(),
                whole == spec_literal_words(tree.nodes@, path@),
                whole is Some ==> spec_literal_words(tree.nodes@, path@.skip(k as int)) is Some,
            decreases path@.len() - k,
        {
            proof {
                if whole is Some {
                    assert(path@.skip(k as int)[0] == path@[k as int]);
                    assert(path@.skip(k as int).skip(1) =~= path@.skip(k + 1));
                }
            }
            let i = path[k];
            match &tree.nodes[i].node_type {
                NodeType::ExecuteLeaf { .. } => {
                    return Ok(None);
                },
                NodeType::Literal { string } => {
                    match stack.pop() {
                        Some(tok) => {
                            if !str_eq(tok.as_str(), string.as_str()) {
                                return Ok(None);
                            }
                        },
                        None => {
                            return Ok(None);
                        },
                    }
                },
                NodeType::Argument { name, consumer } => {
                    match host.consume(consumer.as_str(), &mut stack) {
                        Some(value) => {
                            parsed.insert(clone_string(name), value);
                        },
                        None => {
                            return if stack.len() == 0 {
                                host.suggest(consumer.as_str(), input)
                            } else {
                                Ok(None)
                            };
                        },
                    }
                },
                NodeType::Require { predicate } => {
                    if !host.require(predicate.as_str()) {
                        return Ok(None);
                    }
                },
            }
            k = k + 1;
        }
        Ok(None)
    }

    /// Collects server-side completions for a partial line: every path of
    /// the key's tree is explored, the contributions of all paths are
    /// unioned, deduplicated and sorted; any failure degrades to an empty
    /// list. The result is strictly sorted, so it never repeats an entry.
    pub fn find_suggestions<H: CommandHost>(&self, host: &H, cmd: &str) -> (r: Vec<String>)
        requires
            dispatcher_wf(*self),
        ensures
            spec_sorted_suggestions(r@),
            spec_tokenize(cmd@) is Err ==> r@.len() == 0,
            (spec_tokenize(cmd@) matches Ok(toks) && !commands_map(*self).contains_key(toks[0]))
                ==> r@.len() == 0,
    {
        let (key, raw_args) = match split_parts(cmd) {
            Ok(parts) => parts,
            Err(_) => {
                return Vec::new();
            },
        };
        let tree = match self.get_tree(key.as_str()) {
            Ok(t) => t,
            Err(_) => {
                return Vec::new();
            },
        };
        let paths = tree.iter_paths();
        let mut suggestions: Vec<String> = Vec::new();
        let mut p: usize = 0;
        while p < paths.len()
            invariant
                tree_wf(*tree),
                forall|x: int, y: int|
                    0 <= x < paths@.len() && 0 <= y < paths@[x]@.len() ==> #[trigger] paths@[x]@[y]
                        < tree.nodes@.len(),
                spec_sorted_suggestions(suggestions@),
            decreases paths@.len() - p,
        {
            match Self::try_find_suggestions_on_path(host, &paths[p], tree, &raw_args, cmd) {
                Err(_) => {
                    return Vec::new();
                },
                Ok(Some(mut new_suggestions)) => {
                    let mut q: usize = 0;
                    while q < new_suggestions.len()
                        invariant
                            q <= new_suggestions@.len(),
                            spec_sorted_suggestions(suggestions@),
                        decreases new_suggestions@.len() - q,
                    {
                        let sug = clone_string(&new_suggestions[q]);
                        insert_sorted_dedup(&mut suggestions, sug);
                        q = q + 1;
                    }
                },
                Ok(None) => {},
            }
            p = p + 1;
        }
        suggestions
    }
}

/// Law: registering a tree under its names and then unregistering the
/// primary name leaves no trace — neither the primary name nor any alias
/// remains in the command registry or in the permission map.
///
/// `mid` is any registry state that `register` leaves behind for `tree`, and
/// `fin` any state that `unregister` of the primary name then leaves behind,
/// as their contracts describe them.
pub proof fn lemma_register_unregister_clears(
    mid: CommandDispatcher,
    fin: CommandDispatcher,
    tree: CommandTree,
)
    requires
        tree.names@.len() > 0,
        // what register guarantees of mid
        commands_map(mid).contains_key(tree.names@[0]@),
        commands_map(mid)[tree.names@[0]@] is Tree,
        forall|i: int|
            1 <= i < tree.names@.len() && (#[trigger] tree.names@[i])@ != tree.names@[0]@
                ==> commands_map(mid).contains_key(tree.names@[i]@) && (commands_map(
                mid,
            )[tree.names@[i]@] matches Command::Alias(t) && t@ == tree.names@[0]@),
        // what unregister of the primary name guarantees of fin
        forall|k: Seq<char>|
            #[trigger] commands_map(fin).contains_key(k) <==> (commands_map(mid).contains_key(k)
                && !unregister_hits(commands_map(mid), k, tree.names@[0]@)),
        forall|k: Seq<char>|
            #[trigger] permissions_map(fin).contains_key(k) <==> (permissions_map(
                mid,
            ).contains_key(k) && !unregister_hits(commands_map(mid), k, tree.names@[0]@)),
    ensures
        forall|i: int|
            0 <= i < tree.names@.len() ==> !commands_map(fin).contains_key(
                (#[trigger] tree.names@[i])@,
            ) && !permissions_map(fin).contains_key(tree.names@[i]@),
{
    assert forall|i: int|
        0 <= i < tree.names@.len() implies !commands_map(fin).contains_key(
        (#[trigger] tree.names@[i])@,
    ) && !permissions_map(fin).contains_key(tree.names@[i]@) by {
        let k = tree.names@[i]@;
        if k == tree.names@[0]@ {
            assert(unregister_hits(commands_map(mid), k, tree.names@[0]@));
        } else {
            assert(unregister_hits(commands_map(mid), k, tree.names@[0]@));
        }
    }
}

} // verus!
