//! Concrete argument consumers of the engine itself. Hosts wire these into
//! their [`crate::dispatcher::CommandHost`] implementation under the
//! consumer names their trees use.

use vstd::prelude::*;

use crate::dispatcher::{ArgValue, CommandError, ConsumedArgs};
use vstd::string::StringExecFns;

verus! {

/// A single-word string argument whose completions are asked of the server
/// rather than computed client-side.
pub struct AskServerStringArgConsumer;

impl AskServerStringArgConsumer {
    /// Pops exactly one token off the top of the stack as a plain string;
    /// declines, without touching the stack, when no token is left.
    pub fn consume(&self, args: &mut Vec<String>) -> (r: Option<ArgValue>)
        ensures
            old(args)@.len() == 0 ==> r is None && final(args)@ == old(args)@,
            old(args)@.len() > 0 ==> final(args)@ == old(args)@.drop_last() && r == Some(
                ArgValue::Simple(old(args)@.last()),
            ),
    {
        match args.pop() {
            Some(s) => Some(ArgValue::Simple(s)),
            None => None,
        }
    }

    /// Reads this consumer's value back out of a parsed argument map: the
    /// plain string stored under `name`, or the consumption fault naming the
    /// argument when the map holds no plain string there.
    pub fn find_arg<'a>(args: &'a ConsumedArgs, name: &str) -> (r: Result<&'a String, CommandError>)
        ensures
            match r {
                Ok(s) => args.spec_map().contains_key(name@) && (args.spec_map()[name@] matches
                    ArgValue::Simple(v) && v == *s),
                Err(e) => {
                    &&& !(args.spec_map().contains_key(name@) && args.spec_map()[name@] is Simple)
                    &&& e matches CommandError::InvalidConsumption(n)
                    &&& n matches Some(ns) && ns@ == name@
                },
            },
    {
        match args.get(name) {
            Some(ArgValue::Simple(data)) => Ok(data),
            _ => Err(
                CommandError::InvalidConsumption(Some(String::from_str(name))),
            ),
        }
    }
}

} // verus!
