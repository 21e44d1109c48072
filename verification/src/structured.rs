//! The structured response grammar: the status query's self-describing
//! JSON payload. An object carries the two counts, the player list
//! (name, optional nickname, optional identifier; unknown fields are
//! ignored), and an optional five-sample performance vector.

use vstd::prelude::*;

verus! {

use crate::json::{json_view, parse_json_text, spec_json_text, JsonValue, JsonView};
use crate::status::{status_wf, OnlineServerStatus, OnlineStatusView, PlayerData, PlayerDataView};
use crate::text::{all_dec_digits, digit_val, digits_val, parse_digits, str_eq, str_to_chars};

// ------------------------------------------------------------------
// Object member lookup.
// ------------------------------------------------------------------
/// How many members at or after `i` are named `name`.
pub open spec fn member_count_from(
    ms: Seq<(Seq<char>, JsonView)>,
    name: Seq<char>,
    i: int,
) -> int
    decreases ms.len() - i,
{
    if 0 <= i && i < ms.len() {
        (if ms[i].0 == name {
            1int
        } else {
            0int
        }) + member_count_from(ms, name, i + 1)
    } else {
        0
    }
}

/// How many members are named `name`.
pub open spec fn member_count(ms: Seq<(Seq<char>, JsonView)>, name: Seq<char>) -> int {
    member_count_from(ms, name, 0)
}

/// The value of the first member at or after `i` named `name`.
pub open spec fn member_lookup_from(
    ms: Seq<(Seq<char>, JsonView)>,
    name: Seq<char>,
    i: int,
) -> Option<JsonView>
    decreases ms.len() - i,
{
    if 0 <= i && i < ms.len() {
        if ms[i].0 == name {
            Some(ms[i].1)
        } else {
            member_lookup_from(ms, name, i + 1)
        }
    } else {
        None
    }
}

/// The value of the first member named `name`.
pub open spec fn member_lookup(ms: Seq<(Seq<char>, JsonView)>, name: Seq<char>) -> Option<
    JsonView,
> {
    member_lookup_from(ms, name, 0)
}

fn member_count_exec(members: &Vec<(String, JsonValue)>, name: &str) -> (r: usize)
    ensures
        r == member_count(crate::json::member_views_of(members@), name@),
{
    let ghost ms = crate::json::member_views_of(members@);
    let n = members.len();
    let mut count: usize = 0;
    let mut i: usize = 0;
    while i < n
        invariant
            i <= n,
            n == members@.len(),
            ms == crate::json::member_views_of(members@),
            count <= i,
            member_count_from(ms, name@, 0) == count + member_count_from(ms, name@, i as int),
        decreases n - i,
    {
        proof {
            assert(ms[i as int].0 == members@[i as int].0@);
        }
        if str_eq(members[i].0.as_str(), name) {
            count = count + 1;
        }
        i = i + 1;
    }
    count
}

fn member_find_exec<'a>(members: &'a Vec<(String, JsonValue)>, name: &str) -> (r: Option<
    &'a JsonValue,
>)
    ensures
        ({
            let ms = crate::json::member_views_of(members@);
            match r {
                Some(v) => member_lookup(ms, name@) == Some(json_view(*v)),
                None => member_lookup(ms, name@) is None,
            }
        }),
{
    let ghost ms = crate::json::member_views_of(members@);
    let n = members.len();
    let mut i: usize = 0;
    while i < n
        invariant
            i <= n,
            n == members@.len(),
            ms == crate::json::member_views_of(members@),
            member_lookup_from(ms, name@, 0) == member_lookup_from(ms, name@, i as int),
        decreases n - i,
    {
        proof {
            assert(ms[i as int].0 == members@[i as int].0@);
            assert(ms[i as int].1 == json_view(members@[i as int].1));
        }
        if str_eq(members[i].0.as_str(), name) {
            return Some(&members[i].1);
        }
        i = i + 1;
    }
    None
}

// ------------------------------------------------------------------
// Number token conversions.
// ------------------------------------------------------------------
/// The 32-bit integer denoted by a number token: an optional minus and
/// digits, nothing else, within range.
pub open spec fn spec_i32_of_num(t: Seq<char>) -> Option<int> {
    if t.len() == 0 {
        None
    } else {
        let neg = t[0] == '-';
        let d = if neg {
            t.skip(1)
        } else {
            t
        };
        if d.len() == 0 || !all_dec_digits(d) {
            None
        } else {
            let v = if neg {
                -digits_val(d)
            } else {
                digits_val(d)
            };
            if i32::MIN <= v <= i32::MAX {
                Some(v)
            } else {
                None
            }
        }
    }
}

fn i32_of_num(token: &str) -> (r: Option<i32>)
    ensures
        match r {
            Some(v) => spec_i32_of_num(token@) == Some(v as int),
            None => spec_i32_of_num(token@) is None,
        },
{
    let t = str_to_chars(token);
    if t.len() == 0 {
        return None;
    }
    let neg = t[0] == '-';
    let start: usize = if neg {
        1
    } else {
        0
    };
    proof {
        if neg {
            assert(t@.subrange(1, t@.len() as int) =~= t@.skip(1));
        } else {
            assert(t@.subrange(0, t@.len() as int) =~= t@);
        }
    }
    match parse_digits(&t, start, t.len()) {
        None => None,
        Some(v) => {
            if neg {
                if v <= 0x8000_0000u64 {
                    Some((-(v as i64)) as i32)
                } else {
                    None
                }
            } else {
                if v <= 0x7FFF_FFFFu64 {
                    Some(v as i32)
                } else {
                    None
                }
            }
        },
    }
}

/// First position of `c` at or after `i`, or the length.
pub open spec fn find_char(s: Seq<char>, c: char, i: int) -> int
    decreases s.len() - i,
{
    if 0 <= i && i < s.len() {
        if s[i] == c {
            i
        } else {
            find_char(s, c, i + 1)
        }
    } else {
        s.len() as int
    }
}

/// The value of a number token in hundredths, rounded half-up on the
/// third fractional digit. Exponent notation and integer parts above
/// `u32::MAX` are not accepted.
pub open spec fn spec_centi_of_num(t: Seq<char>) -> Option<int> {
    if t.len() == 0 {
        None
    } else {
        let neg = t[0] == '-';
        let d = if neg {
            t.skip(1)
        } else {
            t
        };
        if find_char(d, 'e', 0) < d.len() || find_char(d, 'E', 0) < d.len() {
            None
        } else {
            let dot = find_char(d, '.', 0);
            let ipart = d.subrange(0, dot);
            let fpart = if dot < d.len() {
                d.skip(dot + 1)
            } else {
                Seq::empty()
            };
            if ipart.len() == 0 || !all_dec_digits(ipart) || !all_dec_digits(fpart) || (dot
                < d.len() && fpart.len() == 0) {
                None
            } else if digits_val(ipart) > u32::MAX {
                None
            } else {
                let f1 = if fpart.len() > 0 {
                    digit_val(fpart[0])
                } else {
                    0
                };
                let f2 = if fpart.len() > 1 {
                    digit_val(fpart[1])
                } else {
                    0
                };
                let f3 = if fpart.len() > 2 {
                    digit_val(fpart[2])
                } else {
                    0
                };
                let r2 = (f1 * 100 + f2 * 10 + f3 + 5) / 10;
                let mag = digits_val(ipart) * 100 + r2;
                Some(
                    if neg {
                        -mag
                    } else {
                        mag
                    },
                )
            }
        }
    }
}

#[verifier::loop_isolation(false)]
#[verifier::rlimit(60)]
fn centi_of_num(token: &str) -> (r: Option<i64>)
    ensures
        match r {
            Some(v) => spec_centi_of_num(token@) == Some(v as int),
            None => spec_centi_of_num(token@) is None,
        },
{
    let t = str_to_chars(token);
    let n = t.len();
    if n == 0 {
        return None;
    }
    let neg = t[0] == '-';
    let start: usize = if neg {
        1
    } else {
        0
    };
    let ghost d = if neg {
        t@.skip(1)
    } else {
        t@
    };
    proof {
        assert(d.len() == n - start);
        assert(forall|m: int| 0 <= m < d.len() ==> #[trigger] d[m] == t@[m + start]);
    }
    // scan for an exponent marker and the first dot
    let mut dot: usize = n - start;
    let mut seen_dot = false;
    let mut i: usize = start;
    while i < n
        invariant
            start <= i <= n,
            start <= 1 <= n,
            n == t@.len(),
            d.len() == n - start,
            forall|m: int| 0 <= m < d.len() ==> #[trigger] d[m] == t@[m + start],
            forall|m: int| 0 <= m < i - start ==> d[m] != 'e' && #[trigger] d[m] != 'E',
            seen_dot ==> dot < i - start && d[dot as int] == '.' && (forall|m: int|
                0 <= m < dot ==> #[trigger] d[m] != '.'),
            !seen_dot ==> dot == n - start && (forall|m: int|
                0 <= m < i - start ==> #[trigger] d[m] != '.'),
        decreases n - i,
    {
        let c = t[i];
        if c == 'e' || c == 'E' {
            proof {
                assert(d[i - start] == c);
                lemma_find_char_at(d, c, 0, i - start);
            }
            return None;
        }
        if c == '.' && !seen_dot {
            dot = i - start;
            seen_dot = true;
        }
        i = i + 1;
    }
    proof {
        lemma_find_char_none(d, 'e', 0);
        lemma_find_char_none(d, 'E', 0);
        if seen_dot {
            lemma_find_char_at(d, '.', 0, dot as int);
        } else {
            lemma_find_char_none(d, '.', 0);
        }
        assert(find_char(d, '.', 0) == dot);
    }
    // integer part
    let ipart_end = start + dot;
    proof {
        assert(t@.subrange(start as int, ipart_end as int) =~= d.subrange(0, dot as int));
    }
    let ival = match parse_digits(&t, start, ipart_end) {
        None => {
            return None;
        },
        Some(v) => v,
    };
    // fraction part
    if seen_dot && ipart_end + 1 == n {
        proof {
            assert(d.skip(dot + 1) =~= Seq::<char>::empty());
        }
        return None;
    }
    let fstart = if seen_dot {
        ipart_end + 1
    } else {
        n
    };
    let ghost fpart = if (dot as int) < d.len() {
        d.skip(dot + 1)
    } else {
        Seq::<char>::empty()
    };
    proof {
        assert(fpart.len() == n - fstart);
        assert(forall|m: int| 0 <= m < fpart.len() ==> #[trigger] fpart[m] == t@[m + fstart]);
    }
    let mut f1: u64 = 0;
    let mut f2: u64 = 0;
    let mut f3: u64 = 0;
    let mut k: usize = fstart;
    while k < n
        invariant
            fstart <= k <= n,
            n == t@.len(),
            fstart <= n,
            fpart.len() == n - fstart,
            forall|m: int| 0 <= m < fpart.len() ==> #[trigger] fpart[m] == t@[m + fstart],
            forall|m: int| 0 <= m < k - fstart ==> crate::text::is_dec_digit(#[trigger] fpart[m]),
            f1 == (if k - fstart > 0 {
                digit_val(fpart[0])
            } else {
                0
            }),
            f2 == (if k - fstart > 1 {
                digit_val(fpart[1])
            } else {
                0
            }),
            f3 == (if k - fstart > 2 {
                digit_val(fpart[2])
            } else {
                0
            }),
        decreases n - k,
    {
        let c = t[k];
        if !('0' <= c && c <= '9') {
            proof {
                assert(!crate::text::is_dec_digit(fpart[k - fstart]));
            }
            return None;
        }
        let dv = c as u64 - '0' as u64;
        if k == fstart {
            f1 = dv;
        } else if k == fstart + 1 {
            f2 = dv;
        } else if k == fstart + 2 {
            f3 = dv;
        }
        k = k + 1;
    }
    let r2: u64 = (f1 * 100 + f2 * 10 + f3 + 5) / 10;
    let mag: i64 = (ival as i64) * 100 + (r2 as i64);
    if neg {
        Some(-mag)
    } else {
        Some(mag)
    }
}

proof fn lemma_find_char_at(s: Seq<char>, c: char, i: int, at: int)
    requires
        0 <= i <= at < s.len(),
        s[at] == c,
        forall|m: int| i <= m < at ==> s[m] != c,
    ensures
        find_char(s, c, i) == at,
    decreases at - i,
{
    if i < at {
        lemma_find_char_at(s, c, i + 1, at);
    }
}

proof fn lemma_find_char_none(s: Seq<char>, c: char, i: int)
    requires
        0 <= i <= s.len(),
        forall|m: int| i <= m < s.len() ==> s[m] != c,
    ensures
        find_char(s, c, i) == s.len(),
    decreases s.len() - i,
{
    if i < s.len() {
        lemma_find_char_none(s, c, i + 1);
    }
}

// ------------------------------------------------------------------
// Field extraction.
// ------------------------------------------------------------------
/// An optional string field: absent or null is `Some(None)`, a string
/// is `Some(Some(..))`, a repeated field or any other type is an error
/// (`None`).
pub open spec fn spec_opt_str_field(ms: Seq<(Seq<char>, JsonView)>, name: Seq<char>) -> Option<
    Option<Seq<char>>,
> {
    if member_count(ms, name) > 1 {
        None
    } else {
        match member_lookup(ms, name) {
            None => Some(None),
            Some(JsonView::Null) => Some(None),
            Some(JsonView::Str(s)) => Some(Some(s)),
            Some(_) => None,
        }
    }
}

/// One player entry: an object with a required string `name`, optional
/// string `nickname` and `uuid`; unknown fields are ignored.
pub open spec fn spec_player_of(v: JsonView) -> Option<PlayerDataView> {
    match v {
        JsonView::Obj(ms) => {
            if member_count(ms, "name"@) != 1 {
                None
            } else {
                match member_lookup(ms, "name"@) {
                    Some(JsonView::Str(n)) => {
                        match (spec_opt_str_field(ms, "nickname"@), spec_opt_str_field(
                            ms,
                            "uuid"@,
                        )) {
                            (Some(nick), Some(uuid)) => Some(
                                PlayerDataView { name: n, nickname: nick, uuid: uuid },
                            ),
                            _ => None,
                        }
                    },
                    _ => None,
                }
            }
        },
        _ => None,
    }
}

/// The player entries denoted by the list's elements from `i` on.
pub open spec fn spec_players_from(items: Seq<JsonView>, i: int) -> Option<Seq<PlayerDataView>>
    decreases items.len() - i,
{
    if 0 <= i && i < items.len() {
        match spec_player_of(items[i]) {
            None => None,
            Some(p) => match spec_players_from(items, i + 1) {
                None => None,
                Some(rest) => Some(seq![p] + rest),
            },
        }
    } else {
        Some(Seq::empty())
    }
}

/// The performance samples denoted by the vector's elements from `i`
/// on: every element must be a number.
pub open spec fn spec_centis_from(items: Seq<JsonView>, i: int) -> Option<Seq<int>>
    decreases items.len() - i,
{
    if 0 <= i && i < items.len() {
        match items[i] {
            JsonView::Num(t) => match spec_centi_of_num(t) {
                None => None,
                Some(c) => match spec_centis_from(items, i + 1) {
                    None => None,
                    Some(rest) => Some(seq![c] + rest),
                },
            },
            _ => None,
        }
    } else {
        Some(Seq::empty())
    }
}

/// The performance field: null is "not present"; otherwise an array of
/// exactly five numbers.
pub open spec fn spec_tps_of(v: JsonView) -> Option<Option<Seq<int>>> {
    match v {
        JsonView::Null => Some(None),
        JsonView::Arr(items) => {
            if items.len() != 5 {
                None
            } else {
                match spec_centis_from(items, 0) {
                    None => None,
                    Some(c) => Some(Some(c)),
                }
            }
        },
        _ => None,
    }
}

/// The status snapshot denoted by a parsed payload: an object with
/// integer `current_players` and `max_players`, a `list` of players,
/// and an optional `tps` vector; unknown fields are ignored, repeated
/// recognized fields are an error.
pub open spec fn spec_status_of(v: JsonView) -> Option<OnlineStatusView> {
    match v {
        JsonView::Obj(ms) => {
            if member_count(ms, "current_players"@) != 1 || member_count(ms, "max_players"@) != 1
                || member_count(ms, "list"@) != 1 || member_count(ms, "tps"@) > 1 {
                None
            } else {
                let cur = match member_lookup(ms, "current_players"@) {
                    Some(JsonView::Num(t)) => spec_i32_of_num(t),
                    _ => None,
                };
                let mx = match member_lookup(ms, "max_players"@) {
                    Some(JsonView::Num(t)) => spec_i32_of_num(t),
                    _ => None,
                };
                let lst = match member_lookup(ms, "list"@) {
                    Some(JsonView::Arr(items)) => spec_players_from(items, 0),
                    _ => None,
                };
                let tps = match member_lookup(ms, "tps"@) {
                    None => Some(None),
                    Some(tv) => spec_tps_of(tv),
                };
                match (cur, mx, lst, tps) {
                    (Some(c), Some(m), Some(l), Some(t)) => Some(
                        OnlineStatusView { current_players: c, max_players: m, list: l, tps: t },
                    ),
                    _ => None,
                }
            }
        },
        _ => None,
    }
}

/// The whole structured grammar: a JSON text denoting a status
/// snapshot.
pub open spec fn spec_parse_structured(s: Seq<char>) -> Option<OnlineStatusView> {
    match spec_json_text(s) {
        None => None,
        Some(v) => spec_status_of(v),
    }
}

/// The views of a list of player entries.
pub open spec fn player_views(l: Seq<PlayerData>) -> Seq<PlayerDataView> {
    l.map_values(|p: PlayerData| p@)
}

fn opt_str_field(members: &Vec<(String, JsonValue)>, name: &str) -> (r: Result<
    Option<String>,
    (),
>)
    ensures
        ({
            let ms = crate::json::member_views_of(members@);
            match r {
                Ok(o) => spec_opt_str_field(ms, name@) == Some(
                    match o {
                        Some(s) => Some(s@),
                        None => None::<Seq<char>>,
                    },
                ),
                Err(_) => spec_opt_str_field(ms, name@) is None,
            }
        }),
{
    if member_count_exec(members, name) > 1 {
        return Err(());
    }
    match member_find_exec(members, name) {
        None => Ok(None),
        Some(v) => match v {
            JsonValue::Null => Ok(None),
            JsonValue::Str(s) => Ok(Some(s.clone())),
            _ => Err(()),
        },
    }
}

fn player_of(v: &JsonValue) -> (r: Result<PlayerData, ()>)
    ensures
        match r {
            Ok(p) => spec_player_of(json_view(*v)) == Some(p@),
            Err(_) => spec_player_of(json_view(*v)) is None,
        },
{
    match v {
        JsonValue::Obj(members) => {
            proof {
                crate::json::lemma_obj_view(*members);
            }
            if member_count_exec(members, "name") != 1 {
                return Err(());
            }
            let name = match member_find_exec(members, "name") {
                Some(JsonValue::Str(n)) => n.clone(),
                _ => {
                    return Err(());
                },
            };
            let nickname = match opt_str_field(members, "nickname") {
                Ok(o) => o,
                Err(_) => {
                    return Err(());
                },
            };
            let uuid = match opt_str_field(members, "uuid") {
                Ok(o) => o,
                Err(_) => {
                    return Err(());
                },
            };
            Ok(PlayerData { name, nickname, uuid })
        },
        _ => Err(()),
    }
}

#[verifier::loop_isolation(false)]
fn players_of(items: &Vec<JsonValue>) -> (r: Result<Vec<PlayerData>, ()>)
    ensures
        match r {
            Ok(l) => spec_players_from(crate::json::views_of(items@), 0) == Some(
                player_views(l@),
            ),
            Err(_) => spec_players_from(crate::json::views_of(items@), 0) is None,
        },
{
    let ghost views = crate::json::views_of(items@);
    let n = items.len();
    let mut out: Vec<PlayerData> = Vec::new();
    let mut i: usize = 0;
    while i < n
        invariant
            i <= n,
            n == items@.len(),
            views == crate::json::views_of(items@),
            spec_players_from(views, 0) == (match spec_players_from(views, i as int) {
                None => None::<Seq<PlayerDataView>>,
                Some(rest) => Some(player_views(out@) + rest),
            }),
        decreases n - i,
    {
        proof {
            assert(views[i as int] == json_view(items@[i as int]));
        }
        let ghost prev_out = out@;
        match player_of(&items[i]) {
            Ok(p) => {
                out.push(p);
            },
            Err(_) => {
                return Err(());
            },
        }
        i = i + 1;
        proof {
            if spec_players_from(views, i as int) is Some {
                let rest = spec_players_from(views, i as int)->Some_0;
                let p = spec_player_of(views[i - 1])->Some_0;
                assert(player_views(out@) =~= player_views(prev_out).push(p));
                assert(player_views(out@) + rest =~= player_views(prev_out) + (seq![p] + rest));
            }
        }
    }
    proof {
        assert(player_views(out@) + Seq::<PlayerDataView>::empty() =~= player_views(out@));
    }
    Ok(out)
}

#[verifier::loop_isolation(false)]
fn tps_of(v: &JsonValue) -> (r: Result<Option<Vec<i64>>, ()>)
    ensures
        match r {
            Ok(o) => spec_tps_of(json_view(*v)) == Some(
                match o {
                    Some(c) => Some(c@.map_values(|x: i64| x as int)),
                    None => None::<Seq<int>>,
                },
            ),
            Err(_) => spec_tps_of(json_view(*v)) is None,
        },
        r matches Ok(Some(c)) ==> c@.len() == 5,
{
    match v {
        JsonValue::Null => Ok(None),
        JsonValue::Arr(items) => {
            proof {
                crate::json::lemma_arr_view(*items);
            }
            let ghost views = crate::json::views_of(items@);
            let n = items.len();
            if n != 5 {
                return Err(());
            }
            let mut out: Vec<i64> = Vec::new();
            let mut i: usize = 0;
            while i < n
                invariant
                    i <= n,
                    n == items@.len(),
                    out@.len() == i,
                    views == crate::json::views_of(items@),
                    spec_centis_from(views, 0) == (match spec_centis_from(views, i as int) {
                        None => None::<Seq<int>>,
                        Some(rest) => Some(out@.map_values(|x: i64| x as int) + rest),
                    }),
                decreases n - i,
            {
                proof {
                    assert(views[i as int] == json_view(items@[i as int]));
                }
                let ghost prev_out = out@;
                match &items[i] {
                    JsonValue::Num(t) => {
                        match centi_of_num(t.as_str()) {
                            Some(c) => {
                                out.push(c);
                            },
                            None => {
                                return Err(());
                            },
                        }
                    },
                    _ => {
                        return Err(());
                    },
                }
                i = i + 1;
                proof {
                    if spec_centis_from(views, i as int) is Some {
                        let rest = spec_centis_from(views, i as int)->Some_0;
                        let c = spec_centi_of_num(views[i - 1]->Num_0)->Some_0;
                        assert(out@.map_values(|x: i64| x as int) =~= prev_out.map_values(
                            |x: i64| x as int,
                        ).push(c));
                        assert(out@.map_values(|x: i64| x as int) + rest =~= prev_out.map_values(
                            |x: i64| x as int,
                        ) + (seq![c] + rest));
                    }
                }
            }
            proof {
                assert(out@.map_values(|x: i64| x as int) + Seq::<int>::empty()
                    =~= out@.map_values(|x: i64| x as int));
            }
            Ok(Some(out))
        },
        _ => Err(()),
    }
}

fn status_of(v: &JsonValue) -> (r: Result<OnlineServerStatus, ()>)
    ensures
        match r {
            Ok(st) => spec_status_of(json_view(*v)) == Some(st@) && status_wf(st@),
            Err(_) => spec_status_of(json_view(*v)) is None,
        },
{
    match v {
        JsonValue::Obj(members) => {
            proof {
                crate::json::lemma_obj_view(*members);
            }
            if member_count_exec(members, "current_players") != 1 || member_count_exec(
                members,
                "max_players",
            ) != 1 || member_count_exec(members, "list") != 1 || member_count_exec(members, "tps")
                > 1 {
                return Err(());
            }
            let current_players = match member_find_exec(members, "current_players") {
                Some(JsonValue::Num(t)) => match i32_of_num(t.as_str()) {
                    Some(c) => c,
                    None => {
                        return Err(());
                    },
                },
                _ => {
                    return Err(());
                },
            };
            let max_players = match member_find_exec(members, "max_players") {
                Some(JsonValue::Num(t)) => match i32_of_num(t.as_str()) {
                    Some(c) => c,
                    None => {
                        return Err(());
                    },
                },
                _ => {
                    return Err(());
                },
            };
            let list = match member_find_exec(members, "list") {
                Some(JsonValue::Arr(items)) => {
                    proof {
                        crate::json::lemma_arr_view(*items);
                    }
                    match players_of(items) {
                        Ok(l) => l,
                        Err(_) => {
                            return Err(());
                        },
                    }
                },
                _ => {
                    return Err(());
                },
            };
            let tps = match member_find_exec(members, "tps") {
                None => None,
                Some(tv) => match tps_of(tv) {
                    Ok(o) => o,
                    Err(_) => {
                        return Err(());
                    },
                },
            };
            let st = OnlineServerStatus { current_players, max_players, list, tps };
            proof {
                assert(st@.list =~= player_views(st.list@));
                match &st.tps {
                    Some(c) => {
                        assert(st@.tps->Some_0 =~= c@.map_values(|x: i64| x as int));
                    },
                    None => {},
                }
            }
            Ok(st)
        },
        _ => Err(()),
    }
}

/// Parses a raw structured response into a snapshot: a JSON object
/// with the two counts, the player list and an optional five-sample
/// performance vector. Fails exactly when the text is not well-formed
/// JSON or does not denote such a snapshot.
pub fn parse_structured(response: &str) -> (r: Option<OnlineServerStatus>)
    ensures
        match r {
            Some(st) => spec_parse_structured(response@) == Some(st@) && status_wf(st@),
            None => spec_parse_structured(response@) is None,
        },
{
    let chars = str_to_chars(response);
    match parse_json_text(&chars) {
        None => None,
        Some(v) => match status_of(&v) {
            Ok(st) => Some(st),
            Err(_) => None,
        },
    }
}

/// Law: parsing the same well-formed structured payload twice yields
/// equal snapshots — the grammar denotes one snapshot per payload.
pub proof fn lemma_structured_parse_idempotent(
    s: Seq<char>,
    r1: OnlineStatusView,
    r2: OnlineStatusView,
)
    requires
        spec_parse_structured(s) == Some(r1),
        spec_parse_structured(s) == Some(r2),
    ensures
        r1 == r2,
{
}

} // verus!
