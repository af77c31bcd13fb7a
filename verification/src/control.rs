//! The control plane: commands that mutate the rule store at runtime, given
//! as a command name and a set of query parameters.

use crate::store::{InterceptAction, RuleStore};
use vstd::prelude::*;
use vstd::string::StringExecFns;

verus! {

/// The outcome of one control command, as the caller must answer it.
pub enum ControlOutcome {
    /// `block` with a `route` parameter: the rule was stored; answer success
    /// with `message` as the body.
    Blocked { message: String },
    /// `unblock` with a `route` parameter: the rule was removed if present;
    /// `existed` reports whether the call was a no-op; answer success with
    /// `message` as the body.
    Unblocked { message: String, existed: bool },
    /// `block` or `unblock` without a `route` parameter: answer with a
    /// client-error status; the store is unchanged.
    MissingRoute,
    /// Any other command: answer with a not-found status; the store is
    /// unchanged.
    UnknownCommand,
}

/// The confirmation body for a `block` command.
pub open spec fn block_message(route: Seq<char>) -> Seq<char> {
    "Route '"@ + route + "' blocked"@
}

/// The confirmation body for an `unblock` command.
pub open spec fn unblock_message(route: Seq<char>) -> Seq<char> {
    "Route '"@ + route + "' unblocked"@
}

/// The value of the first parameter named `key`, or none if no parameter is
/// named `key`.
pub open spec fn param_value(params: Seq<(String, String)>, key: Seq<char>) -> Option<Seq<char>>
    decreases params.len(),
{
    if params.len() == 0 {
        None
    } else if params[0].0@ == key {
        Some(params[0].1@)
    } else {
        param_value(params.drop_first(), key)
    }
}

/// Returns the value of the first parameter named `key`, if any.
fn find_param<'a>(params: &'a Vec<(String, String)>, key: &str) -> (r: Option<&'a String>)
    ensures
        match r {
            Some(v) => param_value(params@, key@) == Some(v@),
            None => param_value(params@, key@) is None,
        },
{
    let key_owned = key.to_owned();
    let n = params.len();
    let mut i: usize = 0;
    proof {
        assert(params@.skip(0) =~= params@);
    }
    while i < n
        invariant
            i <= n,
            n == params@.len(),
            key_owned@ == key@,
            param_value(params@, key@) == param_value(params@.skip(i as int), key@),
        decreases n - i,
    {
        proof {
            assert(params@.skip(i as int).drop_first() =~= params@.skip(i as int + 1));
            assert(params@.skip(i as int)[0] == params@[i as int]);
        }
        if params[i].0 == key_owned {
            return Some(&params[i].1);
        }
        i += 1;
    }
    proof {
        assert(params@.skip(n as int) =~= Seq::<(String, String)>::empty());
    }
    None
}

/// Applies one control command to the store. `block` with a `route` parameter
/// stores a `Block` rule for that route; `unblock` with a `route` parameter
/// removes the rule for that route whether or not one is present; either
/// command without a `route` parameter, and any other command, changes
/// nothing.
pub fn handle_control(store: &mut RuleStore, command: &str, params: &Vec<(String, String)>) -> (r:
    ControlOutcome)
    ensures
        match r {
            ControlOutcome::Blocked { message } => {
                &&& command@ == "block"@
                &&& match param_value(params@, "route"@) {
                    Some(rt) => {
                        &&& final(store).rules() == old(store).rules().insert(
                            rt,
                            InterceptAction::Block,
                        )
                        &&& message@ == block_message(rt)
                    },
                    None => false,
                }
            },
            ControlOutcome::Unblocked { message, existed } => {
                &&& command@ == "unblock"@
                &&& match param_value(params@, "route"@) {
                    Some(rt) => {
                        &&& final(store).rules() == old(store).rules().remove(rt)
                        &&& existed == old(store).rules().dom().contains(rt)
                        &&& message@ == unblock_message(rt)
                    },
                    None => false,
                }
            },
            ControlOutcome::MissingRoute => {
                &&& (command@ == "block"@ || command@ == "unblock"@)
                &&& param_value(params@, "route"@) is None
                &&& final(store).rules() == old(store).rules()
            },
            ControlOutcome::UnknownCommand => {
                &&& command@ != "block"@
                &&& command@ != "unblock"@
                &&& final(store).rules() == old(store).rules()
            },
        },
{
    let cmd = command.to_owned();
    if cmd == "block".to_owned() {
        match find_param(params, "route") {
            Some(route) => {
                store.insert(route.clone(), InterceptAction::Block);
                let mut message = String::from_str("Route '");
                message.append(route.as_str());
                message.append("' blocked");
                ControlOutcome::Blocked { message }
            },
            None => ControlOutcome::MissingRoute,
        }
    } else if cmd == "unblock".to_owned() {
        match find_param(params, "route") {
            Some(route) => {
                let existed = store.remove(route.as_str());
                let mut message = String::from_str("Route '");
                message.append(route.as_str());
                message.append("' unblocked");
                ControlOutcome::Unblocked { message, existed }
            },
            None => ControlOutcome::MissingRoute,
        }
    } else {
        ControlOutcome::UnknownCommand
    }
}

/// The HTTP status that answers a control outcome: success for an applied
/// command, a client error for a missing `route` parameter, and not-found
/// for an unknown command.
pub fn control_status(outcome: &ControlOutcome) -> (s: u16)
    ensures
        s == (match outcome {
            ControlOutcome::Blocked { .. } => 200u16,
            ControlOutcome::Unblocked { .. } => 200u16,
            ControlOutcome::MissingRoute => 400u16,
            ControlOutcome::UnknownCommand => 404u16,
        }),
{
    match outcome {
        ControlOutcome::Blocked { .. } => 200,
        ControlOutcome::Unblocked { .. } => 200,
        ControlOutcome::MissingRoute => 400,
        ControlOutcome::UnknownCommand => 404,
    }
}

} // verus!
