//! The control loop's per-tick decisions: what text to render, whether
//! the restart-requested flag is cleared, which enforcement commands
//! are issued against violators, and whether a shutdown is triggered.
//! The recurring task that owns the transport performs the actions;
//! everything it must decide is computed here.

use vstd::prelude::*;

verus! {

use crate::moderation::{is_violator, spec_is_violator, spec_strip_markup, strip_markup};
use crate::query::{spec_message, QueryError};
use crate::render::{offline_text, render_offline, render_online, spec_online_text};
use crate::status::{status_wf, PlayerData, PlayerDataView, ServerStatus};
use crate::text::{chars_to_string, push_str_chars};

/// The console command that forces a violator's nickname to the
/// placeholder.
pub open spec fn rename_cmd(name: Seq<char>) -> Seq<char> {
    "styled-nicknames set "@ + name + " I MADE BOOL SAD"@
}

/// The console command that removes a violator.
pub open spec fn kick_cmd(name: Seq<char>) -> Seq<char> {
    "kick "@ + name + " nice try"@
}

/// The console command that shuts the server down.
pub open spec fn shutdown_cmd() -> Seq<char> {
    "stop"@
}

pub fn rename_command(name: &str) -> (r: String)
    ensures
        r@ == rename_cmd(name@),
{
    let mut out: Vec<char> = Vec::new();
    push_str_chars(&mut out, "styled-nicknames set ");
    push_str_chars(&mut out, name);
    push_str_chars(&mut out, " I MADE BOOL SAD");
    chars_to_string(&out)
}

pub fn kick_command(name: &str) -> (r: String)
    ensures
        r@ == kick_cmd(name@),
{
    let mut out: Vec<char> = Vec::new();
    push_str_chars(&mut out, "kick ");
    push_str_chars(&mut out, name);
    push_str_chars(&mut out, " nice try");
    chars_to_string(&out)
}

pub fn shutdown_command() -> (r: String)
    ensures
        r@ == shutdown_cmd(),
{
    "stop".to_owned()
}

/// The base names of the violators among the players from `i` on, in
/// list order: those whose stripped nickname matches the policy.
pub open spec fn violators_from(list: Seq<PlayerDataView>, i: int) -> Seq<Seq<char>>
    decreases list.len() - i,
{
    if 0 <= i && i < list.len() {
        let rest = violators_from(list, i + 1);
        match list[i].nickname {
            Some(nick) => if spec_is_violator(spec_strip_markup(nick)) {
                seq![list[i].name] + rest
            } else {
                rest
            },
            None => rest,
        }
    } else {
        Seq::empty()
    }
}

/// The base names of all violators of a snapshot.
pub open spec fn violator_names(list: Seq<PlayerDataView>) -> Seq<Seq<char>> {
    violators_from(list, 0)
}

/// The enforcement list pairs a rename and a kick command for each
/// violator, in order.
pub open spec fn enforcement_matches(cmds: Seq<(String, String)>, names: Seq<Seq<char>>) -> bool {
    &&& cmds.len() == names.len()
    &&& forall|k: int|
        0 <= k < names.len() ==> (#[trigger] cmds[k]).0@ == rename_cmd(names[k]) && cmds[k].1@
            == kick_cmd(names[k])
}

/// Everything one tick decides. The task that owns the transport
/// renders `text` (with the update timestamp appended), clears the
/// restart-requested flag when `clear_restart` holds, issues the
/// `enforcement` command pairs best-effort, and issues one shutdown
/// command when `shutdown` holds.
pub struct TickPlan {
    pub text: String,
    pub clear_restart: bool,
    pub enforcement: Vec<(String, String)>,
    pub shutdown: bool,
}

/// Decides one tick from the status query's result and the
/// restart-requested flag.
///
/// An unreachable server renders the offline text and unconditionally
/// clears the restart-requested flag; a failed query renders its error
/// text, distinct from the offline text; a reachable server renders
/// the summary, enforces against every violator, and triggers exactly
/// one shutdown when nobody is connected and a restart is requested.
#[verifier::loop_isolation(false)]
pub fn plan_tick(status: &Result<ServerStatus, QueryError>, restart_scheduled: bool) -> (r:
    TickPlan)
    requires
        match *status {
            Ok(ServerStatus::Online(o)) => status_wf(o@) && (o@.tps matches Some(t)
                ==> forall|k: int| 0 <= k < t.len() ==> t[k] > i64::MIN),
            _ => true,
        },
    ensures
        match *status {
            Ok(st) => match st {
                ServerStatus::Offline => {
                    &&& r.text@ == offline_text()
                    &&& r.clear_restart
                    &&& r.enforcement@.len() == 0
                    &&& !r.shutdown
                },
                ServerStatus::Online(o) => {
                    &&& r.text@ == spec_online_text(o@)
                    &&& !r.clear_restart
                    &&& enforcement_matches(r.enforcement@, violator_names(o@.list))
                    &&& r.shutdown == (o@.current_players == 0 && restart_scheduled)
                },
            },
            Err(e) => {
                &&& r.text@ == spec_message(e)
                &&& !r.clear_restart
                &&& r.enforcement@.len() == 0
                &&& !r.shutdown
            },
        },
{
    match status {
        Ok(ServerStatus::Offline) => TickPlan {
            text: render_offline(),
            clear_restart: true,
            enforcement: Vec::new(),
            shutdown: false,
        },
        Ok(ServerStatus::Online(o)) => {
            let text = render_online(o);
            let ghost views = o.list@.map_values(|p: PlayerData| p@);
            let n = o.list.len();
            let mut enforcement: Vec<(String, String)> = Vec::new();
            let ghost mut names_so_far = Seq::<Seq<char>>::empty();
            let mut i: usize = 0;
            while i < n
                invariant
                    i <= n,
                    violators_from(views, 0) == names_so_far + violators_from(views, i as int),
                    enforcement_matches(enforcement@, names_so_far),
                decreases n - i,
            {
                proof {
                    assert(views[i as int] == o.list@[i as int]@);
                }
                let p = &o.list[i];
                match &p.nickname {
                    Some(nick) => {
                        let stripped = strip_markup(nick.as_str());
                        if is_violator(stripped.as_str()) {
                            let cmds = (rename_command(p.name.as_str()), kick_command(
                                p.name.as_str(),
                            ));
                            enforcement.push(cmds);
                            proof {
                                names_so_far = names_so_far.push(views[i as int].name);
                                assert(names_so_far.drop_last() + (seq![views[i as int].name]
                                    + violators_from(views, i + 1)) =~= names_so_far
                                    + violators_from(views, i + 1));
                            }
                        }
                    },
                    None => {},
                }
                i = i + 1;
            }
            proof {
                assert(violators_from(views, n as int) =~= Seq::<Seq<char>>::empty());
                assert(names_so_far + violators_from(views, n as int) =~= names_so_far);
            }
            TickPlan {
                text,
                clear_restart: false,
                enforcement,
                shutdown: o.current_players == 0 && restart_scheduled,
            }
        },
        Err(e) => TickPlan {
            text: e.message(),
            clear_restart: false,
            enforcement: Vec::new(),
            shutdown: false,
        },
    }
}

/// The restart-requested flag after one tick: a tick that observed
/// "offline" clears it, and no tick ever sets it.
pub open spec fn flag_after_tick(flag: bool, cleared: bool) -> bool {
    if cleared {
        false
    } else {
        flag
    }
}

/// The flag after the first `i` of a run of ticks, where `clears[k]`
/// says whether tick `k` observed "offline".
pub open spec fn flag_at(flag0: bool, clears: Seq<bool>, i: int) -> bool
    decreases i,
{
    if i <= 0 {
        flag0
    } else {
        flag_after_tick(flag_at(flag0, clears, i - 1), clears[i - 1])
    }
}

/// The flag after one tick of the plan.
pub fn next_restart_flag(flag: bool, plan: &TickPlan) -> (r: bool)
    ensures
        r == flag_after_tick(flag, plan.clear_restart),
{
    if plan.clear_restart {
        false
    } else {
        flag
    }
}

/// Law: once a tick observes "offline", the restart-requested flag
/// reads false at every later tick, until it is explicitly set again
/// from outside the loop (which this run of ticks does not model).
pub proof fn lemma_flag_stays_cleared(flag0: bool, clears: Seq<bool>, k: int, j: int)
    requires
        0 <= k < clears.len(),
        clears[k],
        k < j <= clears.len(),
    ensures
        !flag_at(flag0, clears, j),
    decreases j,
{
    if j > k + 1 {
        lemma_flag_stays_cleared(flag0, clears, k, j - 1);
    }
}

// ------------------------------------------------------------------
// The rendered-message cache.
// ------------------------------------------------------------------
/// The cached reference to the rendered status message: the channel it
/// lives in and its identifier there.
#[derive(Clone, Copy, PartialEq, Eq, Structural, Debug)]
pub struct MessageRef {
    pub channel_id: u64,
    pub message_id: u64,
}

/// Where a render goes: edit the cached message, or create a new one
/// in the configured channel (whose reference is then cached).
#[derive(Clone, Copy, PartialEq, Eq, Structural, Debug)]
pub enum RenderTarget {
    Edit(MessageRef),
    CreateIn(u64),
}

/// The read-then-maybe-write discipline of the cache: edit the cached
/// message if a reference exists, else create one.
pub fn choose_render_target(cache: &Option<MessageRef>, list_channel_id: u64) -> (r: RenderTarget)
    ensures
        match *cache {
            Some(mr) => r == RenderTarget::Edit(mr),
            None => r == RenderTarget::CreateIn(list_channel_id),
        },
{
    match cache {
        Some(mr) => RenderTarget::Edit(*mr),
        None => RenderTarget::CreateIn(list_channel_id),
    }
}

/// A reference restored at startup is kept only if it points into the
/// configured channel; one for another channel is stale and dropped.
pub fn validate_cache(cache: Option<MessageRef>, list_channel_id: u64) -> (r: Option<MessageRef>)
    ensures
        match cache {
            Some(mr) => r == (if mr.channel_id == list_channel_id {
                Some(mr)
            } else {
                None::<MessageRef>
            }),
            None => r is None,
        },
{
    match cache {
        Some(mr) => {
            if mr.channel_id == list_channel_id {
                Some(mr)
            } else {
                None
            }
        },
        None => None,
    }
}

} // verus!
