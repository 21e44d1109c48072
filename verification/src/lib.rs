//! Verified core of a remote administrative console manager: a session
//! state machine with single-retry reconnect, a dual-grammar status
//! parser, a nickname moderation filter, and the control-loop decision
//! logic that turns a status snapshot into rendering, enforcement and
//! shutdown actions.

use vstd::prelude::*;

pub mod commands;
pub mod control;
pub mod database_api;
pub mod env;
pub mod json;
pub mod moderation;
pub mod query;
pub mod render;
pub mod session;
pub mod status;
pub mod structured;
pub mod text;

verus! {

/// Lexicographic order on character sequences: `a` comes strictly
/// before `b` when `a` is a proper prefix of `b`, or the first
/// differing character of `a` is smaller.
pub open spec fn lex_less(a: Seq<char>, b: Seq<char>) -> bool
    decreases a.len(),
{
    if b.len() == 0 {
        false
    } else if a.len() == 0 {
        true
    } else if a[0] != b[0] {
        a[0] < b[0]
    } else {
        lex_less(a.skip(1), b.skip(1))
    }
}

} // verus!
