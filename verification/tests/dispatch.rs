use std::cell::{Cell, RefCell};

use command_core::consumers::AskServerStringArgConsumer;

use command_core::dispatcher::{
    ArgValue, CommandDispatcher, CommandError, CommandHost, ConsumedArgs,
};
use command_core::tree::{argument, literal, require, CommandTree};

/// A scriptable host for the dispatcher: consumers, predicates, executors
/// and permissions by name, with counters for the properties under test.
struct TestHost {
    allow: bool,
    consume_calls: Cell<u32>,
    executed: RefCell<Vec<String>>,
}

impl TestHost {
    fn new(allow: bool) -> TestHost {
        TestHost {
            allow,
            consume_calls: Cell::new(0),
            executed: RefCell::new(Vec::new()),
        }
    }
}

impl CommandHost for TestHost {
    fn has_permission(&self, _permission: &str) -> bool {
        self.allow
    }

    fn require(&self, predicate: &str) -> bool {
        predicate == "always"
    }

    fn consume(&self, consumer: &str, args: &mut Vec<String>) -> Option<ArgValue> {
        self.consume_calls.set(self.consume_calls.get() + 1);
        match consumer {
            // pops one token
            "simple" => args.pop().map(ArgValue::Simple),
            // pops one token that parses as a number
            "num" => {
                let tok = args.last()?.clone();
                let n: i64 = tok.parse().ok()?;
                args.pop();
                Some(ArgValue::Num(n))
            }
            // misbehaving consumer: pops a token and then declines anyway
            "bad" => {
                args.pop();
                None
            }
            // consumes the whole rest of the stack as a message
            "msg" => {
                if args.is_empty() {
                    return None;
                }
                let mut words = Vec::new();
                while let Some(w) = args.pop() {
                    words.push(w);
                }
                Some(ArgValue::Msg(words.join(" ")))
            }
            _ => None,
        }
    }

    fn suggest(
        &self,
        consumer: &str,
        _input: &str,
    ) -> Result<Option<Vec<String>>, CommandError> {
        match consumer {
            "c1" => Ok(Some(vec!["bob".to_string(), "alice".to_string()])),
            "c2" => Ok(Some(vec!["bob".to_string(), "carol".to_string()])),
            _ => Ok(None),
        }
    }

    fn execute(&self, executor: &str, _args: &ConsumedArgs) -> Result<(), CommandError> {
        self.executed.borrow_mut().push(executor.to_string());
        Ok(())
    }
}

fn names(list: &[&str]) -> Vec<String> {
    list.iter().map(|s| s.to_string()).collect()
}

/// Path determinism: with two competing paths both matching the same input,
/// dispatch always selects the path declared first, however often it runs.
#[test]
fn first_declared_path_wins_every_time() {
    let tree = CommandTree::new(names(&["t"]), "test")
        .child(literal("x").execute("first"))
        .child(literal("x").execute("second"));
    let mut d = CommandDispatcher::default();
    d.register(tree, "perm".to_string());
    let host = TestHost::new(true);
    for _ in 0..5 {
        d.dispatch(&host, "t x").unwrap();
    }
    assert_eq!(*host.executed.borrow(), vec!["first"; 5]);
}

/// No partial consumption leak: a consumer that pops and then declines on
/// one path leaves the next path's attempt with an untouched stack.
#[test]
fn failed_attempt_leaks_nothing_into_the_next() {
    let tree = CommandTree::new(names(&["t"]), "test")
        .child(argument("a", "bad").execute("bad_exec"))
        .child(literal("go").execute("go_exec"));
    let mut d = CommandDispatcher::default();
    d.register(tree, "perm".to_string());
    let host = TestHost::new(true);
    d.dispatch(&host, "t go").unwrap();
    assert_eq!(*host.executed.borrow(), vec!["go_exec"]);
}

/// Permission short-circuit: for a denied identity no argument consumer is
/// ever invoked.
#[test]
fn denied_identity_invokes_no_consumer() {
    let tree = CommandTree::new(names(&["t"]), "test")
        .child(argument("a", "simple").execute("e"));
    let mut d = CommandDispatcher::default();
    d.register(tree, "perm".to_string());
    let host = TestHost::new(false);
    let r = d.dispatch(&host, "t anything");
    assert_eq!(r.unwrap_err(), CommandError::PermissionDenied);
    assert_eq!(host.consume_calls.get(), 0);
    assert!(host.executed.borrow().is_empty());
}

/// Trailing-token rejection: reaching the leaf with tokens left over fails
/// the dispatch with a usage message, never silently succeeding.
#[test]
fn trailing_tokens_fail_with_usage() {
    let tree = CommandTree::new(names(&["tp"]), "teleport").child(
        argument("target", "simple").child(
            argument("x", "num").child(
                argument("y", "num").child(argument("z", "num").execute("tp_exec")),
            ),
        ),
    );
    let mut d = CommandDispatcher::default();
    d.register(tree, "perm".to_string());
    let host = TestHost::new(true);
    let err = d.dispatch(&host, "tp @s 0 0 0 extra").unwrap_err();
    match err {
        CommandError::CommandFailed(msg) => {
            assert!(msg.starts_with("Invalid Syntax. Usage: "), "got: {msg}");
            assert!(msg.contains("tp <target> <x> <y> <z>"), "got: {msg}");
        }
        other => panic!("expected CommandFailed, got {other:?}"),
    }
    assert!(host.executed.borrow().is_empty());
    // the same line without the trailing token succeeds
    d.dispatch(&host, "tp @s 0 0 0").unwrap();
    assert_eq!(*host.executed.borrow(), vec!["tp_exec"]);
}

/// Alias/unregister invariant: registering under two names and then
/// unregistering the primary removes both names from the registry and the
/// permission map.
#[test]
fn unregister_removes_primary_and_aliases() {
    let tree = CommandTree::new(names(&["foo", "f"]), "test")
        .child(literal("x").execute("e"));
    let mut d = CommandDispatcher::default();
    d.register(tree, "perm.foo".to_string());
    let host = TestHost::new(true);
    // both names dispatch before unregistration
    d.dispatch(&host, "foo x").unwrap();
    d.dispatch(&host, "f x").unwrap();
    d.unregister("foo");
    for key in ["foo", "f"] {
        let err = d.dispatch(&host, &format!("{key} x")).unwrap_err();
        match err {
            CommandError::CommandFailed(msg) => {
                assert_eq!(msg, format!("Command {key} does not exist"));
            }
            other => panic!("expected CommandFailed, got {other:?}"),
        }
    }
    assert!(d.commands.is_empty());
    assert!(d.permissions.is_empty());
}

/// Suggestion union: two paths offering distinct next-token sets for the
/// same prefix yield the deduplicated, sorted union of both sets.
#[test]
fn suggestions_union_dedup_sorted() {
    let tree = CommandTree::new(names(&["t"]), "test")
        .child(argument("a", "c1").execute("e1"))
        .child(argument("b", "c2").execute("e2"));
    let mut d = CommandDispatcher::default();
    d.register(tree, "perm".to_string());
    let host = TestHost::new(true);
    let suggestions = d.find_suggestions(&host, "t");
    assert_eq!(
        suggestions,
        vec!["alice".to_string(), "bob".to_string(), "carol".to_string()]
    );
}

/// An unknown command key fails with its name in the message.
#[test]
fn unknown_command_fails() {
    let d = CommandDispatcher::default();
    let host = TestHost::new(true);
    let err = d.dispatch(&host, "nosuch thing").unwrap_err();
    assert_eq!(
        err,
        CommandError::CommandFailed("Command nosuch does not exist".to_string())
    );
}

/// A tokenizer failure surfaces as a command failure with the tokenizer's
/// message.
#[test]
fn tokenizer_error_message_passes_through() {
    let d = CommandDispatcher::default();
    let host = TestHost::new(true);
    let err = d.dispatch(&host, "ban \"player").unwrap_err();
    assert_eq!(
        err,
        CommandError::CommandFailed("Unmatched quotes at the end".to_string())
    );
}

/// Requirement nodes gate their subtree without consuming tokens.
#[test]
fn require_node_gates_without_consuming() {
    let tree = CommandTree::new(names(&["t"]), "test")
        .child(require("never").child(literal("x").execute("guarded")))
        .child(literal("x").execute("fallback"));
    let mut d = CommandDispatcher::default();
    d.register(tree, "perm".to_string());
    let host = TestHost::new(true);
    d.dispatch(&host, "t x").unwrap();
    assert_eq!(*host.executed.borrow(), vec!["fallback"]);
}

/// Re-registering a primary name replaces the tree wholesale.
#[test]
fn reregistering_replaces_the_tree() {
    let mut d = CommandDispatcher::default();
    let host = TestHost::new(true);
    let t1 = CommandTree::new(names(&["t"]), "one").child(literal("a").execute("old"));
    d.register(t1, "perm".to_string());
    let t2 = CommandTree::new(names(&["t"]), "two").child(literal("a").execute("new"));
    d.register(t2, "perm".to_string());
    d.dispatch(&host, "t a").unwrap();
    assert_eq!(*host.executed.borrow(), vec!["new"]);
}

/// The error renderer produces the canonical user-facing messages.
#[test]
fn error_messages_render() {
    assert_eq!(
        CommandError::InvalidConsumption(Some("x".to_string())).into_component("cmd"),
        "Internal error (See logs for details)"
    );
    assert_eq!(
        CommandError::InvalidRequirement.into_component("cmd"),
        "Internal error (See logs for details)"
    );
    assert!(CommandError::PermissionDenied
        .into_component("cmd")
        .starts_with("I'm sorry, but you do not have permission"));
    assert_eq!(
        CommandError::CommandFailed("just this".to_string()).into_component("cmd"),
        "just this"
    );
}

/// The ask-server string consumer pops exactly one token and its stored
/// value reads back out.
#[test]
fn ask_server_string_consumer_round_trip() {
    let c = AskServerStringArgConsumer;
    let mut stack = vec!["second".to_string(), "first".to_string()];
    let v = c.consume(&mut stack).unwrap();
    assert_eq!(v, ArgValue::Simple("first".to_string()));
    assert_eq!(stack, vec!["second".to_string()]);
    let mut args = ConsumedArgs::new();
    args.insert("name".to_string(), v);
    assert_eq!(
        AskServerStringArgConsumer::find_arg(&args, "name").unwrap().as_str(),
        "first"
    );
    assert!(AskServerStringArgConsumer::find_arg(&args, "missing").is_err());
    let mut empty: Vec<String> = Vec::new();
    assert!(c.consume(&mut empty).is_none());
}
