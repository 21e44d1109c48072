//! The status snapshot produced by one poll of the console, and the
//! unstructured response grammar: a fixed header line stating the
//! player counts, optionally followed by a comma-and-space-separated
//! name list. Extracted names are sorted lexicographically.

use vstd::prelude::*;

verus! {

use crate::text::{
    all_dec_digits, chars_to_string, digits_val, is_dec_digit, names_sorted, parse_digits,
    sort_names, str_to_chars, str_views,
};
use vstd::std_specs::cmp::PartialEqSpec;

/// One connected player: display name, optional raw nickname, optional
/// stable identifier. Reconstructed on every poll; no identity persists
/// across snapshots.
pub struct PlayerData {
    pub name: String,
    pub nickname: Option<String>,
    pub uuid: Option<String>,
}

/// Mathematical image of a [`PlayerData`].
#[verifier::ext_equal]
pub struct PlayerDataView {
    pub name: Seq<char>,
    pub nickname: Option<Seq<char>>,
    pub uuid: Option<Seq<char>>,
}

impl View for PlayerData {
    type V = PlayerDataView;

    open spec fn view(&self) -> PlayerDataView {
        PlayerDataView {
            name: self.name@,
            nickname: match self.nickname {
                Some(n) => Some(n@),
                None => None,
            },
            uuid: match self.uuid {
                Some(u) => Some(u@),
                None => None,
            },
        }
    }
}

/// A reachable server: counts, ordered player list, and an optional
/// five-sample performance vector, here in hundredths of a tick per
/// second.
pub struct OnlineServerStatus {
    pub current_players: i32,
    pub max_players: i32,
    pub list: Vec<PlayerData>,
    pub tps: Option<Vec<i64>>,
}

/// Mathematical image of an [`OnlineServerStatus`].
#[verifier::ext_equal]
pub struct OnlineStatusView {
    pub current_players: int,
    pub max_players: int,
    pub list: Seq<PlayerDataView>,
    pub tps: Option<Seq<int>>,
}

impl View for OnlineServerStatus {
    type V = OnlineStatusView;

    open spec fn view(&self) -> OnlineStatusView {
        OnlineStatusView {
            current_players: self.current_players as int,
            max_players: self.max_players as int,
            list: self.list@.map_values(|p: PlayerData| p@),
            tps: match self.tps {
                Some(v) => Some(v@.map_values(|x: i64| x as int)),
                None => None,
            },
        }
    }
}

/// A performance vector holds exactly five samples (5s, 10s, 1m, 5m,
/// 15m windows).
pub open spec fn status_wf(s: OnlineStatusView) -> bool {
    match s.tps {
        Some(t) => t.len() == 5,
        None => true,
    }
}

/// The result of one status poll: the server is reachable (with a
/// snapshot) or not reachable at all.
pub enum ServerStatus {
    Offline,
    Online(OnlineServerStatus),
}

/// Mathematical image of a [`ServerStatus`].
pub enum StatusView {
    Offline,
    Online(OnlineStatusView),
}

impl View for ServerStatus {
    type V = StatusView;

    open spec fn view(&self) -> StatusView {
        match self {
            ServerStatus::Offline => StatusView::Offline,
            ServerStatus::Online(s) => StatusView::Online(s@),
        }
    }
}

/// The names of the players of a snapshot, in list order.
pub open spec fn player_names(l: Seq<PlayerDataView>) -> Seq<Seq<char>> {
    l.map_values(|p: PlayerDataView| p.name)
}

// ------------------------------------------------------------------
// Whitespace trimming.
// ------------------------------------------------------------------
/// ASCII whitespace.
pub open spec fn is_ws(c: char) -> bool {
    c == ' ' || c == '\t' || c == '\n' || c == '\r' || c == '\u{B}' || c == '\u{C}'
}

pub open spec fn trim_start_spec(s: Seq<char>) -> Seq<char>
    decreases s.len(),
{
    if s.len() > 0 && is_ws(s[0]) {
        trim_start_spec(s.skip(1))
    } else {
        s
    }
}

pub open spec fn trim_end_spec(s: Seq<char>) -> Seq<char>
    decreases s.len(),
{
    if s.len() > 0 && is_ws(s.last()) {
        trim_end_spec(s.drop_last())
    } else {
        s
    }
}

/// The sequence with leading and trailing whitespace removed.
pub open spec fn trim_spec(s: Seq<char>) -> Seq<char> {
    trim_end_spec(trim_start_spec(s))
}

fn is_ws_exec(c: char) -> (r: bool)
    ensures
        r == is_ws(c),
{
    c == ' ' || c == '\t' || c == '\n' || c == '\r' || c == '\u{B}' || c == '\u{C}'
}

/// Removes leading and trailing whitespace.
fn trim_chars(v: &Vec<char>) -> (r: Vec<char>)
    ensures
        r@ == trim_spec(v@),
{
    let n = v.len();
    let mut lo: usize = 0;
    proof {
        assert(v@.skip(0) =~= v@);
    }
    while lo < n && is_ws_exec(v[lo])
        invariant
            lo <= n,
            n == v@.len(),
            trim_start_spec(v@) == trim_start_spec(v@.skip(lo as int)),
        decreases n - lo,
    {
        proof {
            assert(v@.skip(lo as int)[0] == v@[lo as int]);
            assert(v@.skip(lo as int).skip(1) =~= v@.skip(lo + 1));
        }
        lo = lo + 1;
    }
    proof {
        let s2 = v@.skip(lo as int);
        assert(s2.len() > 0 ==> !is_ws(s2[0])) by {
            if lo < n {
                assert(s2[0] == v@[lo as int]);
            }
        }
        assert(trim_start_spec(s2) == s2);
    }
    let ghost s2 = v@.skip(lo as int);
    let mut hi: usize = n - lo;
    proof {
        assert(s2.take(hi as int) =~= s2);
    }
    while hi > 0 && is_ws_exec(v[lo + hi - 1])
        invariant
            hi <= n - lo,
            lo <= n,
            n == v@.len(),
            s2 == v@.skip(lo as int),
            trim_end_spec(s2) == trim_end_spec(s2.take(hi as int)),
        decreases hi,
    {
        proof {
            let t = s2.take(hi as int);
            assert(t.last() == v@[lo + hi - 1]);
            assert(t.drop_last() =~= s2.take(hi - 1));
        }
        hi = hi - 1;
    }
    proof {
        let t = s2.take(hi as int);
        assert(t.len() > 0 ==> !is_ws(t.last())) by {
            if hi > 0 {
                assert(t.last() == v@[lo + hi - 1]);
            }
        }
        assert(trim_end_spec(t) == t);
    }
    let mut r: Vec<char> = Vec::new();
    let mut i: usize = 0;
    while i < hi
        invariant
            i <= hi,
            hi + lo <= n,
            n == v@.len(),
            r@ == v@.subrange(lo as int, lo + i),
        decreases hi - i,
    {
        r.push(v[lo + i]);
        i = i + 1;
        proof {
            assert(r@ =~= v@.subrange(lo as int, lo + i));
        }
    }
    proof {
        assert(r@ =~= s2.take(hi as int));
    }
    r
}

// ------------------------------------------------------------------
// The unstructured grammar.
// ------------------------------------------------------------------
/// A name character: ASCII letter, digit or underscore.
pub open spec fn is_word_char(c: char) -> bool {
    is_dec_digit(c) || ('a' <= c && c <= 'z') || ('A' <= c && c <= 'Z') || c == '_'
}

/// Length of the run of decimal digits starting at `i`.
pub open spec fn digit_run(s: Seq<char>, i: int) -> int
    recommends
        0 <= i <= s.len(),
    decreases s.len() - i,
{
    if i < s.len() && is_dec_digit(s[i]) {
        1 + digit_run(s, i + 1)
    } else {
        0
    }
}

/// Length of the run of name characters starting at `i`.
pub open spec fn word_run(s: Seq<char>, i: int) -> int
    recommends
        0 <= i <= s.len(),
    decreases s.len() - i,
{
    if i < s.len() && is_word_char(s[i]) {
        1 + word_run(s, i + 1)
    } else {
        0
    }
}

/// `lit` occurs in `s` starting at position `i`.
pub open spec fn matches_at(s: Seq<char>, i: int, lit: Seq<char>) -> bool {
    0 <= i && i + lit.len() <= s.len() && s.subrange(i, i + lit.len()) == lit
}

/// The comma-and-space-separated name list filling `s[i..]`: one or
/// more names of word characters, exactly ", " between them, nothing
/// after.
pub open spec fn names_from(s: Seq<char>, i: int) -> Option<Seq<Seq<char>>>
    recommends
        0 <= i <= s.len(),
    decreases s.len() - i,
{
    let r = word_run(s, i);
    if r <= 0 {
        None
    } else {
        let j = i + r;
        if j == s.len() {
            Some(seq![s.subrange(i, j)])
        } else if j + 2 <= s.len() && s[j] == ',' && s[j + 1] == ' ' {
            match names_from(s, j + 2) {
                None => None,
                Some(rest) => Some(seq![s.subrange(i, j)] + rest),
            }
        } else {
            None
        }
    }
}

/// The unstructured status grammar, applied to a trimmed response:
/// `There are {N} of a max of {M} players online:` optionally followed
/// by a space and a name list. Yields the two counts and the names in
/// response order.
pub open spec fn spec_parse_unstructured(s: Seq<char>) -> Option<(int, int, Seq<Seq<char>>)> {
    let p1 = "There are "@;
    let p2 = " of a max of "@;
    let p3 = " players online:"@;
    if !matches_at(s, 0, p1) {
        None
    } else {
        let d1 = p1.len() as int;
        let r1 = digit_run(s, d1);
        if r1 == 0 {
            None
        } else if !matches_at(s, d1 + r1, p2) {
            None
        } else {
            let d2 = d1 + r1 + p2.len();
            let r2 = digit_run(s, d2);
            if r2 == 0 {
                None
            } else if !matches_at(s, d2 + r2, p3) {
                None
            } else {
                let rest = d2 + r2 + p3.len();
                let n1 = digits_val(s.subrange(d1, d1 + r1));
                let n2 = digits_val(s.subrange(d2, d2 + r2));
                if rest == s.len() {
                    Some((n1, n2, Seq::empty()))
                } else if s[rest] == ' ' {
                    match names_from(s, rest + 1) {
                        None => None,
                        Some(names) => Some((n1, n2, names)),
                    }
                } else {
                    None
                }
            }
        }
    }
}

pub(crate) fn match_lit(s: &Vec<char>, i: usize, lit: &str) -> (r: bool)
    requires
        i <= s@.len(),
    ensures
        r == matches_at(s@, i as int, lit@),
{
    let ll = lit.unicode_len();
    let sl = s.len();
    if sl - i < ll {
        proof {
            assert(!matches_at(s@, i as int, lit@));
        }
        return false;
    }
    let mut k: usize = 0;
    while k < ll
        invariant
            k <= ll,
            i + ll <= sl,
            sl == s@.len(),
            ll == lit@.len(),
            s@.subrange(i as int, i + k) == lit@.take(k as int),
        decreases ll - k,
    {
        if s[i + k] != lit.get_char(k) {
            proof {
                assert(s@.subrange(i as int, i + ll as int)[k as int] == s@[i + k]);
                assert(s@.subrange(i as int, i + ll as int) != lit@) by {
                    assert(s@.subrange(i as int, i + ll as int)[k as int] != lit@[k as int]);
                }
            }
            return false;
        }
        k = k + 1;
        proof {
            assert(s@.subrange(i as int, i + k) =~= lit@.take(k as int));
        }
    }
    proof {
        assert(s@.subrange(i as int, i + ll as int) =~= lit@);
    }
    true
}

fn digit_run_exec(s: &Vec<char>, i: usize) -> (r: usize)
    requires
        i <= s@.len(),
    ensures
        i + r <= s@.len(),
        r == digit_run(s@, i as int),
{
    let mut j: usize = i;
    while j < s.len() && '0' <= s[j] && s[j] <= '9'
        invariant
            i <= j <= s@.len(),
            digit_run(s@, i as int) == j - i + digit_run(s@, j as int),
        decreases s@.len() - j,
    {
        j = j + 1;
    }
    j - i
}

fn word_run_exec(s: &Vec<char>, i: usize) -> (r: usize)
    requires
        i <= s@.len(),
    ensures
        i + r <= s@.len(),
        r == word_run(s@, i as int),
{
    let mut j: usize = i;
    while j < s.len() && (('0' <= s[j] && s[j] <= '9') || ('a' <= s[j] && s[j] <= 'z') || ('A'
        <= s[j] && s[j] <= 'Z') || s[j] == '_')
        invariant
            i <= j <= s@.len(),
            word_run(s@, i as int) == j - i + word_run(s@, j as int),
        decreases s@.len() - j,
    {
        j = j + 1;
    }
    j - i
}

fn subrange_string(s: &Vec<char>, a: usize, b: usize) -> (r: String)
    requires
        a <= b <= s@.len(),
    ensures
        r@ == s@.subrange(a as int, b as int),
{
    let mut v: Vec<char> = Vec::new();
    let mut i: usize = a;
    while i < b
        invariant
            a <= i <= b <= s@.len(),
            v@ == s@.subrange(a as int, i as int),
        decreases b - i,
    {
        v.push(s[i]);
        i = i + 1;
        proof {
            assert(v@ =~= s@.subrange(a as int, i as int));
        }
    }
    chars_to_string(&v)
}

fn collect_names(s: &Vec<char>, i: usize) -> (r: Option<Vec<String>>)
    requires
        i <= s@.len(),
    ensures
        match r {
            Some(v) => names_from(s@, i as int) == Some(str_views(v@)),
            None => names_from(s@, i as int) is None,
        },
    decreases s@.len() - i,
{
    let n = s.len();
    let run = word_run_exec(s, i);
    if run == 0 {
        return None;
    }
    proof {
        assert(i + run <= n);
    }
    let j = i + run;
    let name = subrange_string(s, i, j);
    if j == n {
        let mut v: Vec<String> = Vec::new();
        v.push(name);
        proof {
            assert(str_views(v@) =~= seq![s@.subrange(i as int, j as int)]);
        }
        Some(v)
    } else if n - j >= 2 && s[j] == ',' && s[j + 1] == ' ' {
        match collect_names(s, j + 2) {
            None => None,
            Some(rest) => {
                let mut v: Vec<String> = Vec::new();
                v.push(name);
                let mut rest = rest;
                v.append(&mut rest);
                proof {
                    let tail = names_from(s@, j + 2 as int)->Some_0;
                    assert(str_views(v@) =~= seq![s@.subrange(i as int, j as int)] + tail);
                }
                Some(v)
            },
        }
    } else {
        None
    }
}

/// What a successful unstructured parse of `response` guarantees about
/// the snapshot `st`: the counts are the ones of the trimmed line, the
/// players carry exactly the extracted names, sorted lexicographically,
/// with neither nickname nor identifier, and no performance vector is
/// available in this mode.
pub open spec fn unstructured_parse_ok(response: Seq<char>, st: OnlineStatusView) -> bool {
    let t = trim_spec(response);
    &&& spec_parse_unstructured(t) matches Some(p)
    &&& st.current_players == spec_parse_unstructured(t)->Some_0.0
    &&& st.max_players == spec_parse_unstructured(t)->Some_0.1
    &&& names_sorted(player_names(st.list))
    &&& player_names(st.list).to_multiset() == spec_parse_unstructured(t)->Some_0.2.to_multiset()
    &&& forall|k: int|
        0 <= k < st.list.len() ==> (#[trigger] st.list[k]).nickname is None && st.list[k].uuid
            is None
    &&& st.tps is None
    &&& status_wf(st)
}

/// Parses a raw unstructured response (whitespace-trimmed first) into
/// a snapshot. The names are sorted lexicographically; entries carry
/// neither nickname nor identifier, and no performance vector is
/// available in this mode. Fails exactly when the trimmed text does
/// not match the grammar or a count does not fit a 32-bit integer.
pub fn parse_unstructured(response: &str) -> (r: Option<OnlineServerStatus>)
    ensures
        ({
            let t = trim_spec(response@);
            match r {
                Some(st) => unstructured_parse_ok(response@, st@),
                None => spec_parse_unstructured(t) matches Some(p) ==> (p.0 > i32::MAX || p.1
                    > i32::MAX),
            }
        }),
{
    let raw = str_to_chars(response);
    let s = trim_chars(&raw);
    let ghost t = s@;
    let p1 = "There are ";
    let p2 = " of a max of ";
    let p3 = " players online:";
    if !match_lit(&s, 0, p1) {
        return None;
    }
    let d1 = p1.unicode_len();
    proof {
        reveal_strlit("There are ");
        assert(d1 <= t.len());
    }
    let r1 = digit_run_exec(&s, d1);
    if r1 == 0 {
        return None;
    }
    if !match_lit(&s, d1 + r1, p2) {
        return None;
    }
    let d2 = d1 + r1 + p2.unicode_len();
    proof {
        reveal_strlit(" of a max of ");
        assert(d2 <= t.len());
    }
    let r2 = digit_run_exec(&s, d2);
    if r2 == 0 {
        return None;
    }
    if !match_lit(&s, d2 + r2, p3) {
        return None;
    }
    let rest = d2 + r2 + p3.unicode_len();
    proof {
        reveal_strlit(" players online:");
        assert(rest <= t.len());
    }
    let n1 = match parse_digits(&s, d1, d1 + r1) {
        Some(v) => v,
        None => {
            proof {
                lemma_digit_run_digits(t, d1 as int, r1 as int);
            }
            return None;
        },
    };
    let n2 = match parse_digits(&s, d2, d2 + r2) {
        Some(v) => v,
        None => {
            proof {
                lemma_digit_run_digits(t, d2 as int, r2 as int);
            }
            return None;
        },
    };
    if n1 > i32::MAX as u64 || n2 > i32::MAX as u64 {
        return None;
    }
    let names: Vec<String> = if rest == s.len() {
        Vec::new()
    } else if s[rest] == ' ' {
        match collect_names(&s, rest + 1) {
            Some(v) => v,
            None => {
                return None;
            },
        }
    } else {
        return None;
    };
    let ghost unsorted = names@;
    let sorted = sort_names(&names);
    let ghost sorted_seq = sorted@;
    let mut list: Vec<PlayerData> = Vec::new();
    let mut k: usize = 0;
    while k < sorted.len()
        invariant
            k <= sorted@.len(),
            sorted@ == sorted_seq,
            list@.len() == k,
            forall|m: int|
                0 <= m < k ==> (#[trigger] list@[m])@.name == sorted_seq[m]@ && list@[m]@.nickname
                    is None && list@[m]@.uuid is None,
        decreases sorted@.len() - k,
    {
        let name = sorted[k].clone();
        list.push(PlayerData { name, nickname: None, uuid: None });
        k = k + 1;
    }
    let st = OnlineServerStatus {
        current_players: n1 as i32,
        max_players: n2 as i32,
        list,
        tps: None,
    };
    proof {
        assert(player_names(st@.list) =~= str_views(sorted_seq));
        if rest == t.len() {
            assert(str_views(unsorted) =~= Seq::<Seq<char>>::empty());
            assert(spec_parse_unstructured(t)->Some_0.2 =~= Seq::<Seq<char>>::empty());
        }
    }
    Some(st)
}


// ------------------------------------------------------------------
// Equality of snapshots.
// ------------------------------------------------------------------
/// The view of an optional string.
pub open spec fn opt_view(o: Option<String>) -> Option<Seq<char>> {
    match o {
        Some(s) => Some(s@),
        None => None,
    }
}

fn opt_string_eq(a: &Option<String>, b: &Option<String>) -> (r: bool)
    ensures
        r == (opt_view(*a) == opt_view(*b)),
{
    match a {
        None => match b {
            None => true,
            Some(_) => false,
        },
        Some(x) => match b {
            None => false,
            Some(y) => {
                let e = *x == *y;
                proof {
                    if e {
                        assert(opt_view(*a) == opt_view(*b));
                    } else {
                        assert(opt_view(*a) != opt_view(*b));
                    }
                }
                e
            },
        },
    }
}

impl PartialEq for PlayerData {
    fn eq(&self, other: &PlayerData) -> (r: bool) {
        let name_eq = self.name == other.name;
        let nick_eq = opt_string_eq(&self.nickname, &other.nickname);
        let uuid_eq = opt_string_eq(&self.uuid, &other.uuid);
        let r = name_eq && nick_eq && uuid_eq;
        proof {
            assert(name_eq == (self.name@ == other.name@));
            assert(nick_eq == (self@.nickname == other@.nickname));
            assert(uuid_eq == (self@.uuid == other@.uuid));
            if r {
                assert(self@ =~= other@);
            } else {
                assert(self@ != other@) by {
                    if self@ == other@ {
                        assert(self@.name == other@.name);
                        assert(self@.nickname == other@.nickname);
                        assert(self@.uuid == other@.uuid);
                    }
                }
            }
        }
        r
    }
}

impl vstd::std_specs::cmp::PartialEqSpecImpl for PlayerData {
    open spec fn obeys_eq_spec() -> bool {
        true
    }

    open spec fn eq_spec(&self, other: &PlayerData) -> bool {
        self@ == other@
    }
}

impl PartialEq for OnlineServerStatus {
    fn eq(&self, other: &OnlineServerStatus) -> (r: bool) {
        let counts_eq = self.current_players == other.current_players && self.max_players
            == other.max_players;
        let list_eq = self.list == other.list;
        let tps_eq = match (&self.tps, &other.tps) {
            (None, None) => true,
            (Some(a), Some(b)) => *a == *b,
            _ => false,
        };
        let r = counts_eq && list_eq && tps_eq;
        proof {
            if list_eq {
                assert(self@.list =~= other@.list) by {
                    assert(forall|k: int|
                        0 <= k < self.list@.len() ==> #[trigger] self.list@[k]@
                            == other.list@[k]@);
                }
            } else {
                assert(self@.list != other@.list) by {
                    if self.list@.len() == other.list@.len() {
                        let k = choose|k: int|
                            0 <= k < self.list@.len() && !self.list@[k].eq_spec(&other.list@[k]);
                        assert(self@.list[k] != other@.list[k]);
                    } else {
                        assert(self@.list.len() != other@.list.len());
                    }
                }
            }
            match (&self.tps, &other.tps) {
                (Some(a), Some(b)) => {
                    if tps_eq {
                        assert(self@.tps->Some_0 =~= other@.tps->Some_0) by {
                            assert(forall|k: int|
                                0 <= k < a@.len() ==> #[trigger] a@[k] == b@[k]);
                        }
                    } else {
                        assert(self@.tps != other@.tps) by {
                            if a@.len() == b@.len() {
                                let k = choose|k: int|
                                    0 <= k < a@.len() && !a@[k].eq_spec(&b@[k]);
                                assert(self@.tps->Some_0[k] != other@.tps->Some_0[k]);
                            } else {
                                assert(self@.tps->Some_0.len() != other@.tps->Some_0.len());
                            }
                        }
                    }
                },
                _ => {},
            }
            if r {
                assert(self@ =~= other@);
            } else {
                assert(self@ != other@) by {
                    if self@ == other@ {
                        assert(self@.current_players == other@.current_players);
                        assert(self@.max_players == other@.max_players);
                        assert(self@.list == other@.list);
                        assert(self@.tps == other@.tps);
                    }
                }
            }
        }
        r
    }
}

impl vstd::std_specs::cmp::PartialEqSpecImpl for OnlineServerStatus {
    open spec fn obeys_eq_spec() -> bool {
        true
    }

    open spec fn eq_spec(&self, other: &OnlineServerStatus) -> bool {
        self@ == other@
    }
}

impl PartialEq for ServerStatus {
    fn eq(&self, other: &ServerStatus) -> (r: bool) {
        match (self, other) {
            (ServerStatus::Offline, ServerStatus::Offline) => true,
            (ServerStatus::Online(a), ServerStatus::Online(b)) => a == b,
            _ => false,
        }
    }
}

impl vstd::std_specs::cmp::PartialEqSpecImpl for ServerStatus {
    open spec fn obeys_eq_spec() -> bool {
        true
    }

    open spec fn eq_spec(&self, other: &ServerStatus) -> bool {
        self@ == other@
    }
}

proof fn lemma_digit_run_digits(s: Seq<char>, i: int, r: int)
    requires
        0 <= i,
        0 <= r,
        i + r <= s.len(),
        r == digit_run(s, i),
    ensures
        all_dec_digits(s.subrange(i, i + r)),
    decreases r,
{
    if r > 0 {
        lemma_digit_run_digits(s, i + 1, r - 1);
        let sub = s.subrange(i, i + r);
        let sub2 = s.subrange(i + 1, i + r);
        assert forall|m: int| 0 <= m < sub.len() implies is_dec_digit(#[trigger] sub[m]) by {
            if m == 0 {
                assert(sub[0] == s[i]);
            } else {
                assert(sub[m] == sub2[m - 1]);
                assert(is_dec_digit(sub2[m - 1]));
            }
        }
    } else {
        assert(s.subrange(i, i + r).len() == 0);
    }
}

} // verus!
