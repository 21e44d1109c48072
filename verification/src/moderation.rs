//! The nickname moderation filter. A nickname is first stripped of a
//! fixed vocabulary of inline formatting tokens, then tested against
//! the naming policy: three or more backticks, an embedded URL, or an
//! invite domain — each tolerant of arbitrary non-alphanumeric "noise"
//! characters interleaved between the matched characters.

use vstd::prelude::*;

verus! {

use crate::status::matches_at;

/// A noise character: anything but an ASCII letter or digit. The
/// interleaving-noise class is deliberately broad, to defeat simple
/// obfuscation.
pub open spec fn is_noise(c: char) -> bool {
    !(('0' <= c && c <= '9') || ('a' <= c && c <= 'z') || ('A' <= c && c <= 'Z'))
}

fn is_noise_exec(c: char) -> (r: bool)
    ensures
        r == is_noise(c),
{
    !(('0' <= c && c <= '9') || ('a' <= c && c <= 'z') || ('A' <= c && c <= 'Z'))
}

/// The rest of an interleaved occurrence: from position `i`, the
/// characters `lit[j..]` appear in order, with only noise characters
/// between consecutive ones.
pub open spec fn tail_match(s: Seq<char>, i: int, lit: Seq<char>, j: int) -> bool
    decreases s.len() - i,
{
    if j >= lit.len() {
        true
    } else if 0 <= i && i < s.len() && 0 <= j {
        (s[i] == lit[j] && tail_match(s, i + 1, lit, j + 1)) || (is_noise(s[i]) && tail_match(
            s,
            i + 1,
            lit,
            j,
        ))
    } else {
        false
    }
}

/// An interleaved occurrence of `lit` exists somewhere in `s`.
pub open spec fn pattern_found(s: Seq<char>, lit: Seq<char>) -> bool {
    exists|i: int| 0 <= i < s.len() && s[i] == lit[0] && tail_match(s, i + 1, lit, 1)
}

/// The naming policy: three backticks, a URL, or the invite domain,
/// each with arbitrary interleaved noise.
pub open spec fn spec_is_violator(s: Seq<char>) -> bool {
    ||| pattern_found(s, "http://"@)
    ||| pattern_found(s, "https://"@)
    ||| pattern_found(s, "discord.gg"@)
    ||| pattern_found(s, "```"@)
}

/// Decides whether an interleaved occurrence of `lit` exists in `s`,
/// by a state-set scan from the end of the text.
#[verifier::loop_isolation(false)]
fn pattern_found_exec(s: &Vec<char>, lit: &Vec<char>) -> (r: bool)
    requires
        lit@.len() >= 1,
    ensures
        r == pattern_found(s@, lit@),
{
    let n = s.len();
    let l = lit.len();
    // row[j] == tail_match(s@, i, lit@, j), maintained from i == n down
    let mut row: Vec<bool> = Vec::new();
    let mut j: usize = 0;
    while j < l
        invariant
            j <= l,
            row@.len() == j,
            forall|m: int| 0 <= m < j ==> row@[m] == tail_match(s@, n as int, lit@, m),
        decreases l - j,
    {
        row.push(false);
        j = j + 1;
    }
    row.push(true);
    let mut found = false;
    let mut i: usize = n;
    while i > 0
        invariant
            i <= n,
            row@.len() == l + 1,
            forall|m: int| 0 <= m <= l ==> row@[m] == tail_match(s@, i as int, lit@, m),
            found == exists|st: int|
                i <= st < n && s@[st] == lit@[0] && tail_match(s@, st + 1, lit@, 1),
        decreases i,
    {
        i = i - 1;
        let c = s[i];
        if c == lit[0] && row[1] {
            found = true;
        }
        proof {
            if found {
                if s@[i as int] == lit@[0] && tail_match(s@, i + 1, lit@, 1) {
                    assert(exists|st: int|
                        i <= st < n && s@[st] == lit@[0] && tail_match(s@, st + 1, lit@, 1)) by {
                        assert(i <= i < n && s@[i as int] == lit@[0] && tail_match(
                            s@,
                            i + 1,
                            lit@,
                            1,
                        ));
                    }
                }
            }
        }
        let noise = is_noise_exec(c);
        let mut next: Vec<bool> = Vec::new();
        let mut m: usize = 0;
        while m < l
            invariant
                m <= l,
                next@.len() == m,
                row@.len() == l + 1,
                forall|q: int| 0 <= q <= l ==> row@[q] == tail_match(s@, i + 1, lit@, q),
                noise == is_noise(s@[i as int]),
                c == s@[i as int],
                forall|q: int| 0 <= q < m ==> next@[q] == tail_match(s@, i as int, lit@, q),
            decreases l - m,
        {
            let v = (c == lit[m] && row[m + 1]) || (noise && row[m]);
            next.push(v);
            m = m + 1;
        }
        next.push(true);
        row = next;
    }
    found
}

// ------------------------------------------------------------------
// Formatting-token stripping.
// ------------------------------------------------------------------
/// First position of '>' at or after `i`, or the length.
pub open spec fn find_gt(s: Seq<char>, i: int) -> int
    decreases s.len() - i,
{
    if 0 <= i && i < s.len() {
        if s[i] == '>' {
            i
        } else {
            find_gt(s, i + 1)
        }
    } else {
        s.len() as int
    }
}

/// Where a token named `name` starting (after `<` or `</`) at `i`
/// ends: the name itself, then either `>` directly or a `:`-argument
/// up to the next `>`. Yields the position after the closing `>`.
pub open spec fn try_name(s: Seq<char>, i: int, name: Seq<char>) -> Option<int> {
    if matches_at(s, i, name) {
        let k = i + name.len();
        if k < s.len() && s[k] == '>' {
            Some(k + 1)
        } else if k < s.len() && s[k] == ':' {
            let p = find_gt(s, k + 1);
            if p < s.len() {
                Some(p + 1)
            } else {
                None
            }
        } else {
            None
        }
    } else {
        None
    }
}

/// The fixed vocabulary of token names, tried in order.
pub open spec fn tag_body_end(s: Seq<char>, i: int) -> Option<int> {
    if try_name(s, i, "color"@) is Some {
        try_name(s, i, "color"@)
    } else if try_name(s, i, "c"@) is Some {
        try_name(s, i, "c"@)
    } else if try_name(s, i, "yellow"@) is Some {
        try_name(s, i, "yellow"@)
    } else if try_name(s, i, "dark_blue"@) is Some {
        try_name(s, i, "dark_blue"@)
    } else if try_name(s, i, "dark_purple"@) is Some {
        try_name(s, i, "dark_purple"@)
    } else if try_name(s, i, "gold"@) is Some {
        try_name(s, i, "gold"@)
    } else if try_name(s, i, "red"@) is Some {
        try_name(s, i, "red"@)
    } else if try_name(s, i, "aqua"@) is Some {
        try_name(s, i, "aqua"@)
    } else if try_name(s, i, "gray"@) is Some {
        try_name(s, i, "gray"@)
    } else if try_name(s, i, "light_purple"@) is Some {
        try_name(s, i, "light_purple"@)
    } else if try_name(s, i, "white"@) is Some {
        try_name(s, i, "white"@)
    } else if try_name(s, i, "dark_gray"@) is Some {
        try_name(s, i, "dark_gray"@)
    } else if try_name(s, i, "green"@) is Some {
        try_name(s, i, "green"@)
    } else if try_name(s, i, "dark_green"@) is Some {
        try_name(s, i, "dark_green"@)
    } else if try_name(s, i, "blue"@) is Some {
        try_name(s, i, "blue"@)
    } else if try_name(s, i, "dark_aqua"@) is Some {
        try_name(s, i, "dark_aqua"@)
    } else if try_name(s, i, "black"@) is Some {
        try_name(s, i, "black"@)
    } else if try_name(s, i, "gradient"@) is Some {
        try_name(s, i, "gradient"@)
    } else if try_name(s, i, "gr"@) is Some {
        try_name(s, i, "gr"@)
    } else if try_name(s, i, "rainbow"@) is Some {
        try_name(s, i, "rainbow"@)
    } else if try_name(s, i, "rb"@) is Some {
        try_name(s, i, "rb"@)
    } else if try_name(s, i, "reset"@) is Some {
        try_name(s, i, "reset"@)
    } else {
        None
    }
}

/// Where the formatting token starting at `i` ends: a `<`, an optional
/// `/`, a known name and its closing `>`.
pub open spec fn tag_end(s: Seq<char>, i: int) -> Option<int> {
    if 0 <= i && i < s.len() && s[i] == '<' {
        let j = if i + 1 < s.len() && s[i + 1] == '/' {
            i + 2
        } else {
            i + 1
        };
        tag_body_end(s, j)
    } else {
        None
    }
}

/// The text from `i` on with every formatting token removed.
pub open spec fn strip_from(s: Seq<char>, i: int) -> Seq<char>
    decreases s.len() - i,
{
    if 0 <= i && i < s.len() {
        match tag_end(s, i) {
            Some(e) => {
                let e2 = if i < e && e <= s.len() {
                    e
                } else {
                    i + 1
                };
                strip_from(s, e2)
            },
            None => seq![s[i]] + strip_from(s, i + 1),
        }
    } else {
        Seq::empty()
    }
}

/// The nickname with every formatting token removed.
pub open spec fn spec_strip_markup(s: Seq<char>) -> Seq<char> {
    strip_from(s, 0)
}

fn find_gt_exec(s: &Vec<char>, i: usize) -> (r: usize)
    requires
        i <= s@.len(),
    ensures
        i <= r <= s@.len(),
        r == find_gt(s@, i as int),
        r < s@.len() ==> s@[r as int] == '>',
{
    let n = s.len();
    let mut j: usize = i;
    while j < n && s[j] != '>'
        invariant
            i <= j <= n,
            n == s@.len(),
            find_gt(s@, i as int) == find_gt(s@, j as int),
        decreases n - j,
    {
        j = j + 1;
    }
    j
}

fn try_name_exec(s: &Vec<char>, i: usize, name: &str) -> (r: Option<usize>)
    requires
        i <= s@.len(),
    ensures
        match r {
            Some(e) => try_name(s@, i as int, name@) == Some(e as int) && i < e <= s@.len(),
            None => try_name(s@, i as int, name@) is None,
        },
{
    if !crate::status::match_lit(s, i, name) {
        return None;
    }
    let nl = name.unicode_len();
    let n = s.len();
    proof {
        assert(i + nl <= n);
    }
    let k = i + nl;
    if k < n && s[k] == '>' {
        Some(k + 1)
    } else if k < n && s[k] == ':' {
        let p = find_gt_exec(s, k + 1);
        if p < n {
            Some(p + 1)
        } else {
            None
        }
    } else {
        None
    }
}

fn tag_body_end_exec(s: &Vec<char>, i: usize) -> (r: Option<usize>)
    requires
        i <= s@.len(),
    ensures
        match r {
            Some(e) => tag_body_end(s@, i as int) == Some(e as int) && i < e <= s@.len(),
            None => tag_body_end(s@, i as int) is None,
        },
{
    if let Some(e) = try_name_exec(s, i, "color") {
        return Some(e);
    }
    if let Some(e) = try_name_exec(s, i, "c") {
        return Some(e);
    }
    if let Some(e) = try_name_exec(s, i, "yellow") {
        return Some(e);
    }
    if let Some(e) = try_name_exec(s, i, "dark_blue") {
        return Some(e);
    }
    if let Some(e) = try_name_exec(s, i, "dark_purple") {
        return Some(e);
    }
    if let Some(e) = try_name_exec(s, i, "gold") {
        return Some(e);
    }
    if let Some(e) = try_name_exec(s, i, "red") {
        return Some(e);
    }
    if let Some(e) = try_name_exec(s, i, "aqua") {
        return Some(e);
    }
    if let Some(e) = try_name_exec(s, i, "gray") {
        return Some(e);
    }
    if let Some(e) = try_name_exec(s, i, "light_purple") {
        return Some(e);
    }
    if let Some(e) = try_name_exec(s, i, "white") {
        return Some(e);
    }
    if let Some(e) = try_name_exec(s, i, "dark_gray") {
        return Some(e);
    }
    if let Some(e) = try_name_exec(s, i, "green") {
        return Some(e);
    }
    if let Some(e) = try_name_exec(s, i, "dark_green") {
        return Some(e);
    }
    if let Some(e) = try_name_exec(s, i, "blue") {
        return Some(e);
    }
    if let Some(e) = try_name_exec(s, i, "dark_aqua") {
        return Some(e);
    }
    if let Some(e) = try_name_exec(s, i, "black") {
        return Some(e);
    }
    if let Some(e) = try_name_exec(s, i, "gradient") {
        return Some(e);
    }
    if let Some(e) = try_name_exec(s, i, "gr") {
        return Some(e);
    }
    if let Some(e) = try_name_exec(s, i, "rainbow") {
        return Some(e);
    }
    if let Some(e) = try_name_exec(s, i, "rb") {
        return Some(e);
    }
    if let Some(e) = try_name_exec(s, i, "reset") {
        return Some(e);
    }
    None
}

/// Removes every formatting token from a nickname.
#[verifier::loop_isolation(false)]
pub fn strip_markup(nick: &str) -> (r: String)
    ensures
        r@ == spec_strip_markup(nick@),
{
    let s = crate::text::str_to_chars(nick);
    let n = s.len();
    let mut out: Vec<char> = Vec::new();
    let mut i: usize = 0;
    while i < n
        invariant
            i <= n,
            spec_strip_markup(s@) == out@ + strip_from(s@, i as int),
        decreases n - i,
    {
        let ghost prev = i as int;
        let tag = if s[i] == '<' {
            let j = if i + 1 < n && s[i + 1] == '/' {
                i + 2
            } else {
                i + 1
            };
            tag_body_end_exec(&s, j)
        } else {
            None
        };
        match tag {
            Some(e) => {
                i = e;
            },
            None => {
                out.push(s[i]);
                i = i + 1;
                proof {
                    assert(out@ + strip_from(s@, i as int) =~= out@.drop_last() + (seq![
                        s@[prev],
                    ] + strip_from(s@, i as int)));
                }
            },
        }
    }
    proof {
        assert(out@ + strip_from(s@, n as int) =~= out@);
    }
    crate::text::chars_to_string(&out)
}

/// Tests a stripped nickname against the naming policy.
pub fn is_violator(stripped: &str) -> (r: bool)
    ensures
        r == spec_is_violator(stripped@),
{
    let s = crate::text::str_to_chars(stripped);
    let p1 = crate::text::str_to_chars("http://");
    let p2 = crate::text::str_to_chars("https://");
    let p3 = crate::text::str_to_chars("discord.gg");
    let p4 = crate::text::str_to_chars("```");
    proof {
        reveal_strlit("http://");
        reveal_strlit("https://");
        reveal_strlit("discord.gg");
        reveal_strlit("```");
    }
    pattern_found_exec(&s, &p1) || pattern_found_exec(&s, &p2) || pattern_found_exec(&s, &p3)
        || pattern_found_exec(&s, &p4)
}

/// The fixed placeholder shown in place of a violating nickname.
pub fn placeholder_nickname() -> (r: &'static str)
    ensures
        r@ == "I MADE BOOL SAD"@,
{
    "I MADE BOOL SAD"
}

/// Applies the whole filter to a raw nickname: strips the markup,
/// tests the policy, and yields the display text — the stripped
/// nickname, or the placeholder for a violator — along with the
/// verdict.
pub fn moderate_nickname(nick: &str) -> (r: (String, bool))
    ensures
        r.1 == spec_is_violator(spec_strip_markup(nick@)),
        !r.1 ==> r.0@ == spec_strip_markup(nick@),
        r.1 ==> r.0@ == "I MADE BOOL SAD"@,
{
    let stripped = strip_markup(nick);
    let bad = is_violator(stripped.as_str());
    if bad {
        (placeholder_nickname().to_owned(), true)
    } else {
        (stripped, false)
    }
}

// ------------------------------------------------------------------
// Laws of the policy.
// ------------------------------------------------------------------
proof fn lemma_literal_tail(s: Seq<char>, i: int, lit: Seq<char>, j: int)
    requires
        0 <= i,
        0 <= j <= lit.len(),
        i + lit.len() - j <= s.len(),
        forall|m: int| j <= m < lit.len() ==> s[i + m - j] == lit[m],
    ensures
        tail_match(s, i, lit, j),
    decreases lit.len() - j,
{
    if j < lit.len() {
        assert(s[i] == lit[j]);
        lemma_literal_tail(s, i + 1, lit, j + 1);
    }
}

/// Law: a plain occurrence of the pattern — no noise interleaved at
/// all — is found by the interleaved matcher.
pub proof fn lemma_literal_found(s: Seq<char>, i: int, lit: Seq<char>)
    requires
        lit.len() >= 1,
        matches_at(s, i, lit),
    ensures
        pattern_found(s, lit),
{
    assert(forall|m: int|
        0 <= m < lit.len() ==> s[i + m] == #[trigger] s.subrange(i, i + lit.len())[m]);
    assert(s[i] == lit[0]);
    lemma_literal_tail(s, i + 1, lit, 1);
}

/// Law: a nickname that contains the literal substring `http://` or
/// `https://` anywhere is flagged as a violator.
pub proof fn lemma_url_literal_flagged(s: Seq<char>, i: int)
    requires
        matches_at(s, i, "http://"@) || matches_at(s, i, "https://"@),
    ensures
        spec_is_violator(s),
{
    reveal_strlit("http://");
    reveal_strlit("https://");
    if matches_at(s, i, "http://"@) {
        lemma_literal_found(s, i, "http://"@);
    } else {
        lemma_literal_found(s, i, "https://"@);
    }
}

/// Stripping is the identity on a nickname without markup: no
/// formatting token starts anywhere in it.
pub proof fn lemma_strip_plain(s: Seq<char>, i: int)
    requires
        0 <= i <= s.len(),
        forall|m: int| 0 <= m < s.len() ==> s[m] != '<',
    ensures
        strip_from(s, i) == s.skip(i),
    decreases s.len() - i,
{
    if i < s.len() {
        lemma_strip_plain(s, i + 1);
        assert(tag_end(s, i) is None);
        assert(seq![s[i]] + s.skip(i + 1) =~= s.skip(i));
    } else {
        assert(s.skip(i) =~= Seq::<char>::empty());
    }
}

/// Law: a markup-free nickname that contains the literal substring
/// `http://` or `https://` is flagged by the whole filter — stripping
/// leaves it unchanged and the policy matches.
pub proof fn lemma_plain_url_nickname_flagged(s: Seq<char>, i: int)
    requires
        forall|m: int| 0 <= m < s.len() ==> s[m] != '<',
        matches_at(s, i, "http://"@) || matches_at(s, i, "https://"@),
    ensures
        spec_is_violator(spec_strip_markup(s)),
{
    lemma_strip_plain(s, 0);
    assert(s.skip(0) =~= s);
    lemma_url_literal_flagged(s, i);
}

/// Law: a nickname in which none of the three trigger patterns occurs,
/// even interleaved, is never flagged.
pub proof fn lemma_clean_not_flagged(s: Seq<char>)
    requires
        !pattern_found(s, "http://"@),
        !pattern_found(s, "https://"@),
        !pattern_found(s, "discord.gg"@),
        !pattern_found(s, "```"@),
    ensures
        !spec_is_violator(s),
{
}

} // verus!
