//! The abstract syntax of a script file: options, variable initializers,
//! functions, commands and event triggers, each with the source position it
//! came from.

use vstd::prelude::*;

verus! {

/// A source position, 1-based.
#[derive(Clone, Copy, Debug, PartialEq, Eq, Structural)]
pub struct Span {
    /// Line number, starting at 1.
    pub line: usize,
    /// Column number, starting at 1.
    pub col: usize,
}

/// One parsed script file.
#[verifier::ext_equal]
#[derive(Debug)]
pub struct Script {
    /// Options declared in the script.
    pub options: Vec<OptionEntry>,
    /// Variable initializers declared in the script.
    pub variables: Vec<VarInit>,
    /// Function definitions.
    pub functions: Vec<FunctionDef>,
    /// Command definitions.
    pub commands: Vec<CommandDef>,
    /// Event triggers.
    pub triggers: Vec<Trigger>,
}

/// One event trigger: a header and its body.
#[verifier::ext_equal]
#[derive(Debug)]
pub struct Trigger {
    /// The trigger's header.
    pub header: TriggerHeader,
    /// The trigger's statements.
    pub body: Block,
    /// Where the trigger starts.
    pub span: Span,
}

/// The head of a trigger.
#[verifier::ext_equal]
#[derive(Debug)]
pub struct TriggerHeader {
    /// The raw text after `on ` and before `:`.
    pub raw: String,
    /// The parsed event match, once an event registry has seen the header.
    pub event: Option<ParsedEvent>,
}

/// A recognized event with its arguments.
#[verifier::ext_equal]
#[derive(Clone, Debug)]
pub struct ParsedEvent {
    /// The canonical event name.
    pub event_name: String,
    /// Raw arguments of the event pattern.
    pub args: Vec<String>,
}

/// A sequence of statements at one indentation level.
#[verifier::ext_equal]
#[derive(Debug)]
pub struct Block {
    /// The statements, in order.
    pub statements: Vec<Stmt>,
}

/// One statement.
#[verifier::ext_equal]
#[derive(Debug)]
pub enum Stmt {
    /// An unparsed effect line.
    Raw {
        /// The line's trimmed text.
        raw: String,
        /// Where it stands.
        span: Span,
    },
    /// A conditional with an optional else branch.
    If {
        /// The raw condition text.
        condition_raw: String,
        /// The then branch.
        then_block: Block,
        /// The else branch, if any.
        else_block: Option<Block>,
        /// Where it stands.
        span: Span,
    },
    /// `loop all players:`
    LoopAllPlayers {
        /// The loop body.
        body: Block,
        /// Where it stands.
        span: Span,
    },
    /// `loop <count> times:`
    LoopTimes {
        /// The raw count expression.
        count_raw: String,
        /// The loop body.
        body: Block,
        /// Where it stands.
        span: Span,
    },
    /// `loop <list-expr>:`
    LoopList {
        /// The raw list expression.
        list_raw: String,
        /// The loop body.
        body: Block,
        /// Where it stands.
        span: Span,
    },
}

/// One `key: value` entry of an options block.
#[verifier::ext_equal]
#[derive(Clone, Debug)]
pub struct OptionEntry {
    /// The option's key.
    pub key: String,
    /// The option's raw value.
    pub value_raw: String,
    /// Where it stands.
    pub span: Span,
}

/// One entry of a variables block.
#[verifier::ext_equal]
#[derive(Clone, Debug)]
pub struct VarInit {
    /// The raw variable key.
    pub key_raw: String,
    /// The raw initial value.
    pub value_raw: String,
    /// Where it stands.
    pub span: Span,
}

/// One parameter of a function definition.
#[verifier::ext_equal]
#[derive(Clone, Debug)]
pub struct Param {
    /// The parameter's name.
    pub name: String,
    /// The parameter's declared type, if any.
    pub ty: Option<String>,
}

/// One function definition.
#[verifier::ext_equal]
#[derive(Debug)]
pub struct FunctionDef {
    /// The function's name.
    pub name: String,
    /// The parameters, in order.
    pub params: Vec<Param>,
    /// The declared return type, if any.
    pub return_type: Option<String>,
    /// The function's body.
    pub body: Block,
    /// Where it stands.
    pub span: Span,
}

/// One argument of a command definition.
#[verifier::ext_equal]
#[derive(Clone, Debug)]
pub struct CommandArg {
    /// The argument's name.
    pub name: String,
    /// The argument's declared type, if any.
    pub ty: Option<String>,
    /// Whether the argument may be omitted.
    pub optional: bool,
}

/// One command definition.
#[verifier::ext_equal]
#[derive(Debug)]
pub struct CommandDef {
    /// The command's name, without the leading slash.
    pub name: String,
    /// The declared arguments, in order.
    pub args: Vec<CommandArg>,
    /// Alternative names.
    pub aliases: Vec<String>,
    /// The permission required to run the command, if any.
    pub permission: Option<String>,
    /// The statements run on invocation.
    pub trigger: Block,
    /// Where it stands.
    pub span: Span,
}

/// Copies a statement.
pub fn clone_stmt(s: &Stmt) -> (r: Stmt)
    decreases s,
{
    match s {
        Stmt::Raw { raw, span } => Stmt::Raw { raw: raw.clone(), span: *span },
        Stmt::If { condition_raw, then_block, else_block, span } => {
            let eb = match else_block {
                Some(b) => {
                    proof {
                        assert(decreases_to!(s => b));
                    }
                    Some(clone_block(b))
                },
                None => None,
            };
            Stmt::If {
                condition_raw: condition_raw.clone(),
                then_block: clone_block(then_block),
                else_block: eb,
                span: *span,
            }
        },
        Stmt::LoopAllPlayers { body, span } => Stmt::LoopAllPlayers {
            body: clone_block(body),
            span: *span,
        },
        Stmt::LoopTimes { count_raw, body, span } => Stmt::LoopTimes {
            count_raw: count_raw.clone(),
            body: clone_block(body),
            span: *span,
        },
        Stmt::LoopList { list_raw, body, span } => Stmt::LoopList {
            list_raw: list_raw.clone(),
            body: clone_block(body),
            span: *span,
        },
    }
}

/// Copies a block, statement for statement.
pub fn clone_block(b: &Block) -> (r: Block)
    ensures
        r.statements@.len() == b.statements@.len(),
    decreases b,
{
    let mut statements: Vec<Stmt> = Vec::new();
    let mut i: usize = 0;
    while i < b.statements.len()
        invariant
            i <= b.statements@.len(),
            statements@.len() == i,
        decreases b.statements@.len() - i,
    {
        proof {
            assert(decreases_to!(b => b.statements@[i as int]));
        }
        statements.push(clone_stmt(&b.statements[i]));
        i = i + 1;
    }
    Block { statements }
}

/// Copies a parsed event.
pub fn clone_parsed_event(pe: &ParsedEvent) -> (r: ParsedEvent)
    ensures
        r.event_name@ == pe.event_name@,
        r.args@.len() == pe.args@.len(),
{
    let mut args: Vec<String> = Vec::new();
    let mut i: usize = 0;
    while i < pe.args.len()
        invariant
            i <= pe.args@.len(),
            args@.len() == i,
            forall|x: int| 0 <= x < i ==> #[trigger] args@[x] == pe.args@[x],
        decreases pe.args@.len() - i,
    {
        args.push(pe.args[i].clone());
        i = i + 1;
    }
    ParsedEvent { event_name: pe.event_name.clone(), args }
}

/// Trigger fidelity: same raw header text, span, statement count, and the
/// same parsed event by name and argument count.
pub open spec fn trigger_like(a: Trigger, b: Trigger) -> bool {
    &&& a.header.raw@ == b.header.raw@
    &&& a.span == b.span
    &&& a.body.statements@.len() == b.body.statements@.len()
    &&& (a.header.event is Some) == (b.header.event is Some)
    &&& (a.header.event matches Some(pe) ==> (b.header.event matches Some(qe) && pe.event_name@
        == qe.event_name@ && pe.args@.len() == qe.args@.len()))
}

/// Copies a trigger; the copy reads as the original.
pub fn clone_trigger(t: &Trigger) -> (r: Trigger)
    ensures
        trigger_like(r, *t),
        r.header.raw@ == t.header.raw@,
        r.span == t.span,
{
    let event = match &t.header.event {
        Some(pe) => Some(clone_parsed_event(pe)),
        None => None,
    };
    Trigger {
        header: TriggerHeader { raw: t.header.raw.clone(), event },
        body: clone_block(&t.body),
        span: t.span,
    }
}

} // verus!
