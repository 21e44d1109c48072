//! Rendering the status summary: the offline text, the online summary
//! with the moderated player list and the optional performance block,
//! and the "last updated" suffix appended to every render.

use vstd::prelude::*;

verus! {

use crate::moderation::{moderate_nickname, spec_is_violator, spec_strip_markup};
use crate::status::{status_wf, OnlineServerStatus, OnlineStatusView, PlayerData, PlayerDataView};
use crate::text::{
    chars_to_string, dec_digits, digit_char, int_dec_digits, push_i64_dec, push_str_chars,
    push_u64_dec,
};

/// The text rendered when the server is not reachable.
pub open spec fn offline_text() -> Seq<char> {
    "The server is offline."@
}

pub fn render_offline() -> (r: String)
    ensures
        r@ == offline_text(),
{
    "The server is offline.".to_owned()
}

/// The line rendered for one player: the name, and in parentheses the
/// stripped nickname — or the placeholder, for a violator.
pub open spec fn spec_player_line(p: PlayerDataView) -> Seq<char> {
    match p.nickname {
        None => p.name,
        Some(nick) => {
            let stripped = spec_strip_markup(nick);
            let shown = if spec_is_violator(stripped) {
                "I MADE BOOL SAD"@
            } else {
                stripped
            };
            p.name + " ("@ + shown + ")"@
        },
    }
}

/// The player lines from `i` on, joined with newlines.
pub open spec fn spec_player_block(list: Seq<PlayerDataView>, i: int) -> Seq<char>
    decreases list.len() - i,
{
    if 0 <= i && i < list.len() {
        if i + 1 == list.len() {
            spec_player_line(list[i])
        } else {
            spec_player_line(list[i]) + "\n"@ + spec_player_block(list, i + 1)
        }
    } else {
        Seq::empty()
    }
}

/// A run of spaces.
pub open spec fn spaces(n: int) -> Seq<char>
    decreases n,
{
    if n <= 0 {
        Seq::empty()
    } else {
        seq![' '] + spaces(n - 1)
    }
}

/// A performance sample in hundredths, shown with two decimals and
/// padded with spaces to a width of five.
pub open spec fn centi_text(v: int) -> Seq<char> {
    let a = if v < 0 {
        -v
    } else {
        v
    };
    let body = (if v < 0 {
        seq!['-']
    } else {
        Seq::empty()
    }) + dec_digits(a / 100) + seq!['.', digit_char((a % 100) / 10), digit_char(a % 10)];
    spaces(5 - body.len()) + body
}

/// The performance block: a header naming the five windows, then the
/// five samples separated by single spaces.
pub open spec fn spec_tps_block(t: Seq<int>) -> Seq<char>
    recommends
        t.len() == 5,
{
    "\nTPS info: ```\n5s    10s   1m    5m    15m  \n"@ + centi_text(t[0]) + " "@ + centi_text(
        t[1],
    ) + " "@ + centi_text(t[2]) + " "@ + centi_text(t[3]) + " "@ + centi_text(t[4]) + "```"@
}

/// The whole online summary: the counts, the player block when anyone
/// is connected, and the performance block when available.
pub open spec fn spec_online_text(st: OnlineStatusView) -> Seq<char> {
    let head = "The server is online. There are "@ + int_dec_digits(st.current_players) + "/"@
        + int_dec_digits(st.max_players) + " connected players"@;
    let mid = if st.current_players > 0 {
        ": ```\n"@ + spec_player_block(st.list, 0) + "```"@
    } else {
        ".\n"@
    };
    let tail = match st.tps {
        Some(t) => spec_tps_block(t),
        None => Seq::empty(),
    };
    head + mid + tail
}

fn push_player_line(out: &mut Vec<char>, p: &PlayerData)
    ensures
        final(out)@ == old(out)@ + spec_player_line(p@),
{
    push_str_chars(out, p.name.as_str());
    match &p.nickname {
        None => {
            proof {
                assert(out@ =~= old(out)@ + spec_player_line(p@));
            }
        },
        Some(nick) => {
            let (shown, _bad) = moderate_nickname(nick.as_str());
            push_str_chars(out, " (");
            push_str_chars(out, shown.as_str());
            push_str_chars(out, ")");
            proof {
                assert(out@ =~= old(out)@ + spec_player_line(p@));
            }
        },
    }
}

#[verifier::loop_isolation(false)]
fn push_player_block(out: &mut Vec<char>, list: &Vec<PlayerData>)
    ensures
        final(out)@ == old(out)@ + spec_player_block(
            list@.map_values(|p: PlayerData| p@),
            0,
        ),
{
    let ghost views = list@.map_values(|p: PlayerData| p@);
    let n = list.len();
    let mut i: usize = 0;
    while i < n
        invariant
            i <= n,
            out@ + spec_player_block(views, i as int) == old(out)@ + spec_player_block(views, 0),
        decreases n - i,
    {
        proof {
            assert(views[i as int] == list@[i as int]@);
        }
        push_player_line(out, &list[i]);
        if i + 1 < n {
            push_str_chars(out, "\n");
            proof {
                reveal_strlit("\n");
                assert(out@ + spec_player_block(views, i + 1) =~= old(out)@ + spec_player_block(
                    views,
                    0,
                ));
            }
        } else {
            proof {
                assert(spec_player_block(views, i + 1) =~= Seq::<char>::empty());
                assert(out@ + spec_player_block(views, i + 1) =~= old(out)@ + spec_player_block(
                    views,
                    0,
                ));
            }
        }
        i = i + 1;
    }
    proof {
        assert(spec_player_block(views, n as int) =~= Seq::<char>::empty());
        assert(out@ =~= out@ + spec_player_block(views, n as int));
    }
}

fn push_centi(out: &mut Vec<char>, v: i64)
    requires
        v > i64::MIN,
    ensures
        final(out)@ == old(out)@ + centi_text(v as int),
{
    let a: i64 = if v < 0 {
        -v
    } else {
        v
    };
    let mut body: Vec<char> = Vec::new();
    if v < 0 {
        body.push('-');
    }
    push_u64_dec(&mut body, (a / 100) as u64);
    body.push('.');
    body.push(crate::text::digit_to_char((((a % 100) / 10) as u64)));
    body.push(crate::text::digit_to_char(((a % 10) as u64)));
    proof {
        assert(body@ =~= (if (v as int) < 0 {
            seq!['-']
        } else {
            Seq::<char>::empty()
        }) + dec_digits((a / 100) as int) + seq![
            '.',
            digit_char(((a % 100) / 10) as int),
            digit_char((a % 10) as int),
        ]);
    }
    let mut pad: usize = 0;
    let blen = body.len();
    while pad < 5 && pad + blen < 5
        invariant
            pad <= 5,
            blen < 5 ==> pad + blen <= 5,
            blen >= 5 ==> pad == 0,
            out@ == old(out)@ + spaces(pad as int),
            blen == body@.len(),
        decreases 5 - pad,
    {
        out.push(' ');
        pad = pad + 1;
        proof {
            assert(spaces(pad as int) =~= spaces(pad - 1) + seq![' ']) by {
                lemma_spaces_snoc(pad as int);
            }
            assert(out@ =~= old(out)@ + spaces(pad as int));
        }
    }
    proof {
        assert(spaces(5 - body@.len()) =~= spaces(pad as int));
    }
    let mut k: usize = 0;
    while k < blen
        invariant
            k <= blen,
            blen == body@.len(),
            out@ == old(out)@ + spaces(5 - body@.len()) + body@.take(k as int),
        decreases blen - k,
    {
        out.push(body[k]);
        k = k + 1;
        proof {
            assert(out@ =~= old(out)@ + spaces(5 - body@.len()) + body@.take(k as int));
        }
    }
    proof {
        assert(body@.take(blen as int) =~= body@);
        assert(out@ =~= old(out)@ + centi_text(v as int));
    }
}

proof fn lemma_spaces_snoc(n: int)
    requires
        n >= 1,
    ensures
        spaces(n) =~= spaces(n - 1) + seq![' '],
    decreases n,
{
    if n > 1 {
        lemma_spaces_snoc(n - 1);
        assert(spaces(n) =~= seq![' '] + spaces(n - 1));
    }
}

/// Renders the online summary. The snapshot must be well formed (five
/// performance samples when present); the sample bound is a machine
/// limit of the signed representation.
#[verifier::rlimit(100)]
pub fn render_online(st: &OnlineServerStatus) -> (r: String)
    requires
        status_wf(st@),
        st@.tps matches Some(t) ==> forall|k: int| 0 <= k < t.len() ==> t[k] > i64::MIN,
    ensures
        r@ == spec_online_text(st@),
{
    let mut out: Vec<char> = Vec::new();
    push_str_chars(&mut out, "The server is online. There are ");
    push_i64_dec(&mut out, st.current_players as i64);
    push_str_chars(&mut out, "/");
    push_i64_dec(&mut out, st.max_players as i64);
    push_str_chars(&mut out, " connected players");
    if st.current_players > 0 {
        push_str_chars(&mut out, ": ```\n");
        push_player_block(&mut out, &st.list);
        push_str_chars(&mut out, "```");
    } else {
        push_str_chars(&mut out, ".\n");
    }
    match &st.tps {
        Some(t) => {
            proof {
                assert(st@.tps->Some_0.len() == 5);
                assert(st@.tps->Some_0[0] == t@[0] as int && st@.tps->Some_0[0] > i64::MIN);
                assert(st@.tps->Some_0[1] == t@[1] as int && st@.tps->Some_0[1] > i64::MIN);
                assert(st@.tps->Some_0[2] == t@[2] as int && st@.tps->Some_0[2] > i64::MIN);
                assert(st@.tps->Some_0[3] == t@[3] as int && st@.tps->Some_0[3] > i64::MIN);
                assert(st@.tps->Some_0[4] == t@[4] as int && st@.tps->Some_0[4] > i64::MIN);
            }
            push_str_chars(&mut out, "\nTPS info: ```\n5s    10s   1m    5m    15m  \n");
            push_centi(&mut out, t[0]);
            push_str_chars(&mut out, " ");
            push_centi(&mut out, t[1]);
            push_str_chars(&mut out, " ");
            push_centi(&mut out, t[2]);
            push_str_chars(&mut out, " ");
            push_centi(&mut out, t[3]);
            push_str_chars(&mut out, " ");
            push_centi(&mut out, t[4]);
            push_str_chars(&mut out, "```");
        },
        None => {},
    }
    proof {
        assert(out@ =~= spec_online_text(st@));
    }
    chars_to_string(&out)
}

/// The rendered text with the "last updated" timestamp suffix that
/// every render carries.
pub open spec fn spec_with_last_update(text: Seq<char>, ts: int) -> Seq<char> {
    text + "\n\nLast update: <t:"@ + dec_digits(ts) + ":T>"@
}

pub fn with_last_update(text: &str, ts: u64) -> (r: String)
    ensures
        r@ == spec_with_last_update(text@, ts as int),
{
    let mut out: Vec<char> = Vec::new();
    push_str_chars(&mut out, text);
    push_str_chars(&mut out, "\n\nLast update: <t:");
    push_u64_dec(&mut out, ts);
    push_str_chars(&mut out, ":T>");
    proof {
        assert(out@ =~= spec_with_last_update(text@, ts as int));
    }
    chars_to_string(&out)
}

} // verus!
