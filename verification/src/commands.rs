//! Operator command logic: the restart scheduling toggle, the reply
//! text of the ad-hoc console command, and the account-mode choice.

use vstd::prelude::*;

verus! {

use crate::session::{session_error_text, SessionError};
use crate::text::{chars_to_string, push_str_chars, str_to_chars};

/// Whether a named account is resolved against the online service or
/// derived offline.
#[derive(Clone, Copy, PartialEq, Eq, Structural, Debug)]
pub enum OfflineOnline {
    Offline,
    Online,
}

impl OfflineOnline {
    /// Returns true iff the variant is Online.
    pub fn is_online(self) -> (r: bool)
        ensures
            r == (self == OfflineOnline::Online),
    {
        match self {
            OfflineOnline::Offline => false,
            OfflineOnline::Online => true,
        }
    }
}

/// Toggles the restart-requested flag on an operator's request and
/// says what happened: a request schedules a restart unless one is
/// already scheduled; a cancellation clears one if it exists.
pub fn schedule_restart(cancel: bool, restart_scheduled: &mut bool) -> (r: String)
    ensures
        cancel && *old(restart_scheduled) ==> !*final(restart_scheduled) && r@
            == "The scheduled restart has been cancelled."@,
        cancel && !*old(restart_scheduled) ==> !*final(restart_scheduled) && r@
            == "There is no restart scheduled."@,
        !cancel && *old(restart_scheduled) ==> *final(restart_scheduled) && r@
            == "There is already a restart scheduled."@,
        !cancel && !*old(restart_scheduled) ==> *final(restart_scheduled) && r@
            == "A restart has been scheduled - it will occur as soon as everyone logs off."@,
{
    if cancel && *restart_scheduled {
        *restart_scheduled = false;
        "The scheduled restart has been cancelled.".to_owned()
    } else if cancel {
        "There is no restart scheduled.".to_owned()
    } else if *restart_scheduled {
        "There is already a restart scheduled.".to_owned()
    } else {
        *restart_scheduled = true;
        "A restart has been scheduled - it will occur as soon as everyone logs off.".to_owned()
    }
}

/// The most characters of a console response that fit one reply,
/// leaving room for the surrounding frame.
pub const RUN_REPLY_MAX: usize = 1983;

/// A response over the limit is cut and marked with an ellipsis; the
/// reply then holds exactly the limit.
pub open spec fn truncated_response(s: Seq<char>) -> Seq<char> {
    if s.len() > 1983 {
        s.take(1980) + "..."@
    } else {
        s
    }
}

/// The reply to a successful ad-hoc console command: the (possibly
/// truncated) response in a code block.
pub open spec fn run_reply(s: Seq<char>) -> Seq<char> {
    "Success:\n```\n"@ + truncated_response(s) + "\n```"@
}

pub fn run_success_reply(response: &str) -> (r: String)
    ensures
        r@ == run_reply(response@),
{
    let chars = str_to_chars(response);
    let mut out: Vec<char> = Vec::new();
    push_str_chars(&mut out, "Success:\n```\n");
    let limit: usize = if chars.len() > RUN_REPLY_MAX {
        1980
    } else {
        chars.len()
    };
    let ghost mid = out@;
    let mut i: usize = 0;
    while i < limit
        invariant
            i <= limit <= chars@.len(),
            out@ == mid + chars@.take(i as int),
        decreases limit - i,
    {
        out.push(chars[i]);
        i = i + 1;
        proof {
            assert(out@ =~= mid + chars@.take(i as int));
        }
    }
    if chars.len() > RUN_REPLY_MAX {
        push_str_chars(&mut out, "...");
    } else {
        proof {
            assert(chars@.take(chars@.len() as int) =~= chars@);
        }
    }
    push_str_chars(&mut out, "\n```");
    proof {
        assert(out@ =~= run_reply(response@));
    }
    chars_to_string(&out)
}

/// The reply to a failed ad-hoc console command, one fixed text per
/// error class.
pub fn run_error_reply(e: &SessionError) -> (r: String)
    ensures
        r@ == session_error_text(*e),
{
    match e {
        SessionError::Auth => "Invalid authentication (check bot config).".to_owned(),
        SessionError::CommandTooLong => "Command too long.".to_owned(),
        SessionError::Transport => "The server is closed.".to_owned(),
    }
}

} // verus!
