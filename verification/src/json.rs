//! A verified parser for the structured status payload's carrier
//! format: JSON text (objects, arrays, strings with escapes, numbers,
//! literals). The parser is total and deterministic: the specification
//! functions define the grammar, and the executable parser returns
//! exactly what they denote.

use vstd::prelude::*;

verus! {

use crate::text::is_dec_digit;

/// A parsed JSON value. Number tokens are kept verbatim; string
/// contents are unescaped.
pub enum JsonValue {
    Null,
    Bool(bool),
    Num(String),
    Str(String),
    Arr(Vec<JsonValue>),
    Obj(Vec<(String, JsonValue)>),
}

/// Mathematical image of a [`JsonValue`].
pub enum JsonView {
    Null,
    Bool(bool),
    Num(Seq<char>),
    Str(Seq<char>),
    Arr(Seq<JsonView>),
    Obj(Seq<(Seq<char>, JsonView)>),
}

/// The image of a parsed value.
pub open spec fn json_view(v: JsonValue) -> JsonView
    decreases v, 1int,
{
    match v {
        JsonValue::Null => JsonView::Null,
        JsonValue::Bool(b) => JsonView::Bool(b),
        JsonValue::Num(t) => JsonView::Num(t@),
        JsonValue::Str(t) => JsonView::Str(t@),
        JsonValue::Arr(items) => JsonView::Arr(
            Seq::new(items@.len(), |k: int| json_elem_view(items, k)),
        ),
        JsonValue::Obj(members) => JsonView::Obj(
            Seq::new(members@.len(), |k: int| json_member_view(members, k)),
        ),
    }
}

/// The image of the `k`-th element of a parsed array.
pub open spec fn json_elem_view(items: Vec<JsonValue>, k: int) -> JsonView
    decreases items, 0int,
{
    if 0 <= k < items@.len() {
        json_view(items@[k])
    } else {
        JsonView::Null
    }
}

/// The image of the `k`-th member of a parsed object.
pub open spec fn json_member_view(members: Vec<(String, JsonValue)>, k: int) -> (
    Seq<char>,
    JsonView,
)
    decreases members, 0int,
{
    if 0 <= k < members@.len() {
        (members@[k].0@, json_view(members@[k].1))
    } else {
        (Seq::empty(), JsonView::Null)
    }
}

/// An array's image is the pointwise image of its elements.
pub proof fn lemma_arr_view(items: Vec<JsonValue>)
    ensures
        json_view(JsonValue::Arr(items)) == JsonView::Arr(views_of(items@)),
{
    let inner = json_view(JsonValue::Arr(items))->Arr_0;
    assert(inner =~= views_of(items@));
}

/// An object's image is the pointwise image of its members.
pub proof fn lemma_obj_view(members: Vec<(String, JsonValue)>)
    ensures
        json_view(JsonValue::Obj(members)) == JsonView::Obj(member_views_of(members@)),
{
    let inner = json_view(JsonValue::Obj(members))->Obj_0;
    assert(inner =~= member_views_of(members@));
}

// ------------------------------------------------------------------
// Lexical helpers.
// ------------------------------------------------------------------
/// JSON insignificant whitespace.
pub open spec fn is_json_ws(c: char) -> bool {
    c == ' ' || c == '\t' || c == '\n' || c == '\r'
}

/// Length of the whitespace run starting at `i`.
pub open spec fn ws_run(s: Seq<char>, i: int) -> nat
    decreases s.len() - i,
{
    if 0 <= i && i < s.len() && is_json_ws(s[i]) {
        (1 + ws_run(s, i + 1)) as nat
    } else {
        0
    }
}

/// The first non-whitespace position at or after `i` (at most the
/// text's end).
pub open spec fn skip_ws(s: Seq<char>, i: int) -> int {
    if i + ws_run(s, i) <= s.len() {
        i + ws_run(s, i)
    } else {
        s.len() as int
    }
}

/// Guards a parse-result position for use in a recursive descent: a
/// successful sub-parse always ends strictly past its start and within
/// the text, so this is the identity on every reachable input.
pub open spec fn advance(i: int, j: int, n: int) -> int {
    if i < j && j <= n {
        j
    } else {
        i + 1
    }
}

pub open spec fn is_hex_digit(c: char) -> bool {
    is_dec_digit(c) || ('a' <= c && c <= 'f') || ('A' <= c && c <= 'F')
}

pub open spec fn hex_digit_val(c: char) -> int {
    if is_dec_digit(c) {
        c as int - '0' as int
    } else if 'a' <= c && c <= 'f' {
        10 + c as int - 'a' as int
    } else {
        10 + c as int - 'A' as int
    }
}

/// The character denoted by a single-character escape, if any.
pub open spec fn simple_escape(c: char) -> Option<char> {
    if c == '"' {
        Some('"')
    } else if c == '\\' {
        Some('\\')
    } else if c == '/' {
        Some('/')
    } else if c == 'b' {
        Some('\u{8}')
    } else if c == 'f' {
        Some('\u{C}')
    } else if c == 'n' {
        Some('\n')
    } else if c == 'r' {
        Some('\r')
    } else if c == 't' {
        Some('\t')
    } else {
        None
    }
}

/// The code point of a `\uXXXX` escape whose four hex digits start at
/// `i`.
pub open spec fn hex4_val(s: Seq<char>, i: int) -> int {
    hex_digit_val(s[i]) * 0x1000 + hex_digit_val(s[i + 1]) * 0x100 + hex_digit_val(s[i + 2])
        * 0x10 + hex_digit_val(s[i + 3])
}

pub open spec fn hex4_ok(s: Seq<char>, i: int) -> bool {
    i + 4 <= s.len() && is_hex_digit(s[i]) && is_hex_digit(s[i + 1]) && is_hex_digit(s[i + 2])
        && is_hex_digit(s[i + 3])
}

/// The body of a string literal from position `i` (just past the
/// opening quote) to its closing quote: yields the unescaped contents
/// and the position after the closing quote. Control characters are
/// forbidden; `\uXXXX` escapes must denote a scalar value (surrogates
/// are rejected).
pub open spec fn spec_string_body(s: Seq<char>, i: int) -> Option<(Seq<char>, int)>
    decreases s.len() - i,
{
    if i < 0 || i >= s.len() {
        None
    } else if s[i] == '"' {
        Some((Seq::empty(), i + 1))
    } else if s[i] == '\\' {
        if i + 1 >= s.len() {
            None
        } else if s[i + 1] == 'u' {
            if hex4_ok(s, i + 2) {
                let code = hex4_val(s, i + 2);
                if 0xD800 <= code && code < 0xE000 {
                    None
                } else {
                    match spec_string_body(s, i + 6) {
                        None => None,
                        Some((rest, end)) => Some(
                            (seq![((code as u32) as char)] + rest, end),
                        ),
                    }
                }
            } else {
                None
            }
        } else {
            match simple_escape(s[i + 1]) {
                None => None,
                Some(c) => match spec_string_body(s, i + 2) {
                    None => None,
                    Some((rest, end)) => Some((seq![c] + rest, end)),
                },
            }
        }
    } else if (s[i] as u32) < 0x20 {
        None
    } else {
        match spec_string_body(s, i + 1) {
            None => None,
            Some((rest, end)) => Some((seq![s[i]] + rest, end)),
        }
    }
}

/// Length of the run of decimal digits starting at `i`.
pub open spec fn dec_run(s: Seq<char>, i: int) -> nat
    decreases s.len() - i,
{
    if 0 <= i && i < s.len() && is_dec_digit(s[i]) {
        (1 + dec_run(s, i + 1)) as nat
    } else {
        0
    }
}

/// End of the number token starting at `i`, per the JSON number
/// grammar: optional minus, integer part without redundant leading
/// zero, optional fraction, optional exponent.
pub open spec fn spec_number_end(s: Seq<char>, i: int) -> Option<int> {
    let j0 = if 0 <= i && i < s.len() && s[i] == '-' {
        i + 1
    } else {
        i
    };
    if !(0 <= j0 && j0 < s.len() && is_dec_digit(s[j0])) {
        None
    } else {
        let j1 = if s[j0] == '0' {
            j0 + 1
        } else {
            j0 + dec_run(s, j0)
        };
        let j2 = if j1 < s.len() && s[j1] == '.' {
            if dec_run(s, j1 + 1) == 0 {
                j1 + 1
            } else {
        j1 + 1 + dec_run(s, j1 + 1)
            }
        } else {
            j1
        };
        if j1 < s.len() && s[j1] == '.' && dec_run(s, j1 + 1) == 0 {
            None
        } else {
            let j3 = if j2 < s.len() && (s[j2] == 'e' || s[j2] == 'E') {
                let j2s = if j2 + 1 < s.len() && (s[j2 + 1] == '+' || s[j2 + 1] == '-') {
                    j2 + 2
                } else {
                    j2 + 1
                };
                if dec_run(s, j2s) == 0 {
                    j2
                } else {
                    j2s + dec_run(s, j2s)
                }
            } else {
                j2
            };
            if j2 < s.len() && (s[j2] == 'e' || s[j2] == 'E') && ({
                let j2s = if j2 + 1 < s.len() && (s[j2 + 1] == '+' || s[j2 + 1] == '-') {
                    j2 + 2
                } else {
                    j2 + 1
                };
                dec_run(s, j2s) == 0
            }) {
                None
            } else {
                Some(j3)
            }
        }
    }
}

// ------------------------------------------------------------------
// The value grammar.
// ------------------------------------------------------------------
/// `lit` occurs in `s` at position `i`.
pub open spec fn lit_at(s: Seq<char>, i: int, lit: Seq<char>) -> bool {
    0 <= i && i + lit.len() <= s.len() && s.subrange(i, i + lit.len()) == lit
}

/// One JSON value starting exactly at `i`: yields its image and the
/// position just past it.
pub open spec fn spec_value(s: Seq<char>, i: int) -> Option<(JsonView, int)>
    decreases s.len() - i, 0int,
{
    if i < 0 || i >= s.len() {
        None
    } else if s[i] == 'n' {
        if lit_at(s, i, "null"@) {
            Some((JsonView::Null, i + 4))
        } else {
            None
        }
    } else if s[i] == 't' {
        if lit_at(s, i, "true"@) {
            Some((JsonView::Bool(true), i + 4))
        } else {
            None
        }
    } else if s[i] == 'f' {
        if lit_at(s, i, "false"@) {
            Some((JsonView::Bool(false), i + 5))
        } else {
            None
        }
    } else if s[i] == '"' {
        match spec_string_body(s, i + 1) {
            None => None,
            Some((content, end)) => Some((JsonView::Str(content), end)),
        }
    } else if s[i] == '[' {
        let k = skip_ws(s, i + 1);
        if k < s.len() && s[k] == ']' {
            Some((JsonView::Arr(Seq::empty()), k + 1))
        } else {
            match spec_elems(s, k) {
                None => None,
                Some((items, end)) => Some((JsonView::Arr(items), end)),
            }
        }
    } else if s[i] == '{' {
        let k = skip_ws(s, i + 1);
        if k < s.len() && s[k] == '}' {
            Some((JsonView::Obj(Seq::empty()), k + 1))
        } else {
            match spec_members(s, k) {
                None => None,
                Some((members, end)) => Some((JsonView::Obj(members), end)),
            }
        }
    } else if s[i] == '-' || is_dec_digit(s[i]) {
        match spec_number_end(s, i) {
            None => None,
            Some(end) => Some((JsonView::Num(s.subrange(i, end)), end)),
        }
    } else {
        None
    }
}

/// One or more array elements starting at `i` (whitespace already
/// skipped), up to and including the closing bracket.
pub open spec fn spec_elems(s: Seq<char>, i: int) -> Option<(Seq<JsonView>, int)>
    decreases s.len() - i, 1int,
{
    if i < 0 || i >= s.len() {
        None
    } else {
        match spec_value(s, i) {
            None => None,
            Some((v, jraw)) => {
                let j = advance(i, jraw, s.len() as int);
                let k = skip_ws(s, j);
                if k < s.len() && s[k] == ']' {
                    Some((seq![v], k + 1))
                } else if k < s.len() && s[k] == ',' {
                    match spec_elems(s, skip_ws(s, k + 1)) {
                        None => None,
                        Some((rest, end)) => Some((seq![v] + rest, end)),
                    }
                } else {
                    None
                }
            },
        }
    }
}

/// One or more object members starting at `i` (whitespace already
/// skipped), up to and including the closing brace.
pub open spec fn spec_members(s: Seq<char>, i: int) -> Option<(Seq<(Seq<char>, JsonView)>, int)>
    decreases s.len() - i, 1int,
{
    if i < 0 || i >= s.len() || s[i] != '"' {
        None
    } else {
        match spec_string_body(s, i + 1) {
            None => None,
            Some((key, jraw)) => {
                let j = advance(i, jraw, s.len() as int);
                let k = skip_ws(s, j);
                if !(k < s.len() && s[k] == ':') {
                    None
                } else {
                    let k2 = skip_ws(s, k + 1);
                    match spec_value(s, k2) {
                        None => None,
                        Some((v, j2raw)) => {
                            let j2 = advance(i, j2raw, s.len() as int);
                            let k3 = skip_ws(s, j2);
                            if k3 < s.len() && s[k3] == '}' {
                                Some((seq![(key, v)], k3 + 1))
                            } else if k3 < s.len() && s[k3] == ',' {
                                match spec_members(s, skip_ws(s, k3 + 1)) {
                                    None => None,
                                    Some((rest, end)) => Some((seq![(key, v)] + rest, end)),
                                }
                            } else {
                                None
                            }
                        },
                    }
                }
            },
        }
    }
}

/// A whole JSON text: one value, surrounded by nothing but
/// whitespace.
pub open spec fn spec_json_text(s: Seq<char>) -> Option<JsonView> {
    let i = skip_ws(s, 0);
    match spec_value(s, i) {
        None => None,
        Some((v, j)) => {
            if skip_ws(s, j) == s.len() {
                Some(v)
            } else {
                None
            }
        },
    }
}

/// The images of a list of parsed values.
pub open spec fn views_of(items: Seq<JsonValue>) -> Seq<JsonView> {
    Seq::new(items.len(), |k: int| json_view(items[k]))
}

/// The images of a list of parsed members.
pub open spec fn member_views_of(members: Seq<(String, JsonValue)>) -> Seq<
    (Seq<char>, JsonView),
> {
    Seq::new(members.len(), |k: int| (members[k].0@, json_view(members[k].1)))
}

// ------------------------------------------------------------------
// The executable parser.
// ------------------------------------------------------------------
/// Relies on `char::from_u32`: `Some` exactly on Unicode scalar values
/// (not a surrogate, at most 0x10FFFF), yielding the character with
/// that code point.
#[verifier::external_body]
fn char_from_u32(x: u32) -> (r: Option<char>)
    ensures
        r matches Some(c) ==> c == ((x as u32) as char),
        r is None <==> ((0xD800 <= x && x < 0xE000) || x > 0x10FFFF),
{
    char::from_u32(x)
}

fn ws_skip_exec(s: &Vec<char>, i: usize) -> (r: usize)
    requires
        i <= s@.len(),
    ensures
        i <= r <= s@.len(),
        r == skip_ws(s@, i as int),
{
    let n = s.len();
    let mut j: usize = i;
    while j < n && (s[j] == ' ' || s[j] == '\t' || s[j] == '\n' || s[j] == '\r')
        invariant
            i <= j <= n,
            n == s@.len(),
            ws_run(s@, i as int) == j - i + ws_run(s@, j as int),
        decreases n - j,
    {
        j = j + 1;
    }
    proof {
        assert(ws_run(s@, j as int) == 0);
    }
    j
}

fn hex_val_exec(c: char) -> (r: Option<u32>)
    ensures
        r matches Some(v) <==> is_hex_digit(c),
        r matches Some(v) ==> v == hex_digit_val(c) && v < 16,
{
    if '0' <= c && c <= '9' {
        Some(c as u32 - '0' as u32)
    } else if 'a' <= c && c <= 'f' {
        Some(10 + (c as u32 - 'a' as u32))
    } else if 'A' <= c && c <= 'F' {
        Some(10 + (c as u32 - 'A' as u32))
    } else {
        None
    }
}

fn string_body_exec(s: &Vec<char>, start: usize) -> (r: Option<(Vec<char>, usize)>)
    requires
        start <= s@.len(),
    ensures
        match r {
            Some(p) => spec_string_body(s@, start as int) == Some((p.0@, p.1 as int)) && start
                < p.1 <= s@.len(),
            None => spec_string_body(s@, start as int) is None,
        },
{
    let n = s.len();
    let mut i: usize = start;
    let mut out: Vec<char> = Vec::new();
    loop
        invariant
            start <= i <= n,
            n == s@.len(),
            spec_string_body(s@, start as int) == (match spec_string_body(s@, i as int) {
                None => None::<(Seq<char>, int)>,
                Some(p) => Some((out@ + p.0, p.1)),
            }),
        decreases n - i,
    {
        if i >= n {
            return None;
        }
        let c = s[i];
        if c == '"' {
            proof {
                assert(out@ + Seq::<char>::empty() =~= out@);
            }
            return Some((out, i + 1));
        }
        let ghost prev_i = i as int;
        let ghost prev_out = out@;
        if c == '\\' {
            if n - i < 2 {
                return None;
            }
            let e = s[i + 1];
            if e == 'u' {
                if n - i < 6 {
                    proof {
                        assert(!hex4_ok(s@, i + 2));
                    }
                    return None;
                }
                let h0 = hex_val_exec(s[i + 2]);
                let h1 = hex_val_exec(s[i + 3]);
                let h2 = hex_val_exec(s[i + 4]);
                let h3 = hex_val_exec(s[i + 5]);
                let (v0, v1, v2, v3) = match (h0, h1, h2, h3) {
                    (Some(v0), Some(v1), Some(v2), Some(v3)) => (v0, v1, v2, v3),
                    _ => {
                        proof {
                            assert(!hex4_ok(s@, i + 2));
                        }
                        return None;
                    },
                };
                let code: u32 = v0 * 0x1000 + v1 * 0x100 + v2 * 0x10 + v3;
                proof {
                    assert(hex4_ok(s@, i + 2));
                    assert(code == hex4_val(s@, i + 2));
                }
                if 0xD800 <= code && code < 0xE000 {
                    return None;
                }
                let ch = match char_from_u32(code) {
                    Some(ch) => ch,
                    None => {
                        proof {
                            assert(false);
                        }
                        ' '
                    },
                };
                out.push(ch);
                i = i + 6;
                proof {
                    if spec_string_body(s@, i as int) is Some {
                        let p = spec_string_body(s@, i as int)->Some_0;
                        assert(out@ + p.0 =~= prev_out + (seq![ch] + p.0));
                    }
                }
            } else {
                let ch = match e {
                    '"' => '"',
                    '\\' => '\\',
                    '/' => '/',
                    'b' => '\u{8}',
                    'f' => '\u{C}',
                    'n' => '\n',
                    'r' => '\r',
                    't' => '\t',
                    _ => {
                        proof {
                            assert(simple_escape(s@[i + 1]) is None);
                        }
                        return None;
                    },
                };
                proof {
                    assert(simple_escape(s@[i + 1]) == Some(ch));
                }
                out.push(ch);
                i = i + 2;
                proof {
                    if spec_string_body(s@, i as int) is Some {
                        let p = spec_string_body(s@, i as int)->Some_0;
                        assert(out@ + p.0 =~= prev_out + (seq![ch] + p.0));
                    }
                }
            }
        } else if (c as u32) < 0x20 {
            return None;
        } else {
            out.push(c);
            i = i + 1;
            proof {
                if spec_string_body(s@, i as int) is Some {
                    let p = spec_string_body(s@, i as int)->Some_0;
                    assert(out@ + p.0 =~= prev_out + (seq![c] + p.0));
                }
            }
        }
    }
}

fn dec_run_exec(s: &Vec<char>, i: usize) -> (r: usize)
    requires
        i <= s@.len(),
    ensures
        i + r <= s@.len(),
        r == dec_run(s@, i as int),
{
    let n = s.len();
    let mut j: usize = i;
    while j < n && '0' <= s[j] && s[j] <= '9'
        invariant
            i <= j <= n,
            n == s@.len(),
            dec_run(s@, i as int) == j - i + dec_run(s@, j as int),
        decreases n - j,
    {
        j = j + 1;
    }
    j - i
}

fn number_end_exec(s: &Vec<char>, i: usize) -> (r: Option<usize>)
    requires
        i < s@.len(),
        s@[i as int] == '-' || is_dec_digit(s@[i as int]),
    ensures
        match r {
            Some(end) => spec_number_end(s@, i as int) == Some(end as int) && i < end
                <= s@.len(),
            None => spec_number_end(s@, i as int) is None,
        },
{
    let n = s.len();
    let j0 = if s[i] == '-' {
        i + 1
    } else {
        i
    };
    if j0 >= n || !('0' <= s[j0] && s[j0] <= '9') {
        return None;
    }
    let j1 = if s[j0] == '0' {
        j0 + 1
    } else {
        j0 + dec_run_exec(s, j0)
    };
    let j2 = if j1 < n && s[j1] == '.' {
        let fr = dec_run_exec(s, j1 + 1);
        if fr == 0 {
            return None;
        }
        j1 + 1 + fr
    } else {
        j1
    };
    let j3 = if j2 < n && (s[j2] == 'e' || s[j2] == 'E') {
        let j2s = if j2 + 1 < n && (s[j2 + 1] == '+' || s[j2 + 1] == '-') {
            j2 + 2
        } else {
            j2 + 1
        };
        let er = dec_run_exec(s, j2s);
        if er == 0 {
            return None;
        }
        j2s + er
    } else {
        j2
    };
    Some(j3)
}

fn subrange_chars_string(s: &Vec<char>, a: usize, b: usize) -> (r: String)
    requires
        a <= b <= s@.len(),
    ensures
        r@ == s@.subrange(a as int, b as int),
{
    let mut v: Vec<char> = Vec::new();
    let mut i: usize = a;
    while i < b
        invariant
            a <= i <= b <= s@.len(),
            v@ == s@.subrange(a as int, i as int),
        decreases b - i,
    {
        v.push(s[i]);
        i = i + 1;
        proof {
            assert(v@ =~= s@.subrange(a as int, i as int));
        }
    }
    crate::text::chars_to_string(&v)
}

fn lit_at_exec(s: &Vec<char>, i: usize, lit: &str) -> (r: bool)
    requires
        i <= s@.len(),
    ensures
        r == lit_at(s@, i as int, lit@),
{
    let ll = lit.unicode_len();
    let sl = s.len();
    if sl - i < ll {
        proof {
            assert(!lit_at(s@, i as int, lit@));
        }
        return false;
    }
    let mut k: usize = 0;
    while k < ll
        invariant
            k <= ll,
            i + ll <= sl,
            sl == s@.len(),
            ll == lit@.len(),
            s@.subrange(i as int, i + k) == lit@.take(k as int),
        decreases ll - k,
    {
        if s[i + k] != lit.get_char(k) {
            proof {
                assert(s@.subrange(i as int, i + ll as int)[k as int] == s@[i + k]);
                assert(s@.subrange(i as int, i + ll as int) != lit@) by {
                    assert(s@.subrange(i as int, i + ll as int)[k as int] != lit@[k as int]);
                }
            }
            return false;
        }
        k = k + 1;
        proof {
            assert(s@.subrange(i as int, i + k) =~= lit@.take(k as int));
        }
    }
    proof {
        assert(s@.subrange(i as int, i + ll as int) =~= lit@);
    }
    true
}

/// Parses one JSON value starting exactly at `i`.
fn parse_value(s: &Vec<char>, i: usize) -> (r: Option<(JsonValue, usize)>)
    requires
        i <= s@.len(),
    ensures
        match r {
            Some(p) => spec_value(s@, i as int) == Some((json_view(p.0), p.1 as int)) && i < p.1
                <= s@.len(),
            None => spec_value(s@, i as int) is None,
        },
    decreases s@.len() - i, 0int,
{
    let n = s.len();
    if i >= n {
        return None;
    }
    let c = s[i];
    if c == 'n' {
        if lit_at_exec(s, i, "null") {
            proof {
                reveal_strlit("null");
            }
            Some((JsonValue::Null, i + 4))
        } else {
            None
        }
    } else if c == 't' {
        if lit_at_exec(s, i, "true") {
            proof {
                reveal_strlit("true");
            }
            Some((JsonValue::Bool(true), i + 4))
        } else {
            None
        }
    } else if c == 'f' {
        if lit_at_exec(s, i, "false") {
            proof {
                reveal_strlit("false");
            }
            Some((JsonValue::Bool(false), i + 5))
        } else {
            None
        }
    } else if c == '"' {
        match string_body_exec(s, i + 1) {
            None => None,
            Some((content, end)) => {
                let text = crate::text::chars_to_string(&content);
                Some((JsonValue::Str(text), end))
            },
        }
    } else if c == '[' {
        let k = ws_skip_exec(s, i + 1);
        if k < n && s[k] == ']' {
            let items: Vec<JsonValue> = Vec::new();
            proof {
                lemma_arr_view(items);
                assert(views_of(items@) =~= Seq::<JsonView>::empty());
            }
            Some((JsonValue::Arr(items), k + 1))
        } else {
            match parse_elems(s, k) {
                None => None,
                Some((items, end)) => {
                    proof {
                        lemma_arr_view(items);
                    }
                    Some((JsonValue::Arr(items), end))
                },
            }
        }
    } else if c == '{' {
        let k = ws_skip_exec(s, i + 1);
        if k < n && s[k] == '}' {
            let members: Vec<(String, JsonValue)> = Vec::new();
            proof {
                lemma_obj_view(members);
                assert(member_views_of(members@) =~= Seq::<(Seq<char>, JsonView)>::empty());
            }
            Some((JsonValue::Obj(members), k + 1))
        } else {
            match parse_members(s, k) {
                None => None,
                Some((members, end)) => {
                    proof {
                        lemma_obj_view(members);
                    }
                    Some((JsonValue::Obj(members), end))
                },
            }
        }
    } else if c == '-' || ('0' <= c && c <= '9') {
        match number_end_exec(s, i) {
            None => None,
            Some(end) => {
                let token = subrange_chars_string(s, i, end);
                Some((JsonValue::Num(token), end))
            },
        }
    } else {
        None
    }
}

/// Parses the elements of a non-empty array, closing bracket included.
fn parse_elems(s: &Vec<char>, i: usize) -> (r: Option<(Vec<JsonValue>, usize)>)
    requires
        i <= s@.len(),
    ensures
        match r {
            Some(p) => spec_elems(s@, i as int) == Some((views_of(p.0@), p.1 as int)) && i < p.1
                <= s@.len(),
            None => spec_elems(s@, i as int) is None,
        },
    decreases s@.len() - i, 1int,
{
    let n = s.len();
    if i >= n {
        return None;
    }
    match parse_value(s, i) {
        None => None,
        Some((v, j)) => {
            proof {
                assert(advance(i as int, j as int, s@.len() as int) == j as int);
            }
            let k = ws_skip_exec(s, j);
            if k < n && s[k] == ']' {
                let mut items: Vec<JsonValue> = Vec::new();
                items.push(v);
                proof {
                    assert(views_of(items@) =~= seq![json_view(items@[0])]);
                }
                Some((items, k + 1))
            } else if k < n && s[k] == ',' {
                let k2 = ws_skip_exec(s, k + 1);
                match parse_elems(s, k2) {
                    None => None,
                    Some((rest, end)) => {
                        let mut items: Vec<JsonValue> = Vec::new();
                        items.push(v);
                        let mut rest = rest;
                        let ghost rest_snap = rest@;
                        items.append(&mut rest);
                        proof {
                            assert(views_of(items@) =~= seq![json_view(items@[0])] + views_of(
                                rest_snap,
                            ));
                        }
                        Some((items, end))
                    },
                }
            } else {
                None
            }
        },
    }
}

/// Parses the members of a non-empty object, closing brace included.
fn parse_members(s: &Vec<char>, i: usize) -> (r: Option<(Vec<(String, JsonValue)>, usize)>)
    requires
        i <= s@.len(),
    ensures
        match r {
            Some(p) => spec_members(s@, i as int) == Some((member_views_of(p.0@), p.1 as int))
                && i < p.1 <= s@.len(),
            None => spec_members(s@, i as int) is None,
        },
    decreases s@.len() - i, 1int,
{
    let n = s.len();
    if i >= n || s[i] != '"' {
        return None;
    }
    match string_body_exec(s, i + 1) {
        None => None,
        Some((key_chars, j)) => {
            proof {
                assert(advance(i as int, j as int, s@.len() as int) == j as int);
            }
            let key = crate::text::chars_to_string(&key_chars);
            let k = ws_skip_exec(s, j);
            if !(k < n && s[k] == ':') {
                None
            } else {
                let k2 = ws_skip_exec(s, k + 1);
                match parse_value(s, k2) {
                    None => None,
                    Some((v, j2)) => {
                        proof {
                            assert(advance(i as int, j2 as int, s@.len() as int) == j2 as int);
                        }
                        let k3 = ws_skip_exec(s, j2);
                        if k3 < n && s[k3] == '}' {
                            let mut members: Vec<(String, JsonValue)> = Vec::new();
                            members.push((key, v));
                            proof {
                                assert(member_views_of(members@) =~= seq![
                                    (members@[0].0@, json_view(members@[0].1)),
                                ]);
                            }
                            Some((members, k3 + 1))
                        } else if k3 < n && s[k3] == ',' {
                            let k4 = ws_skip_exec(s, k3 + 1);
                            match parse_members(s, k4) {
                                None => None,
                                Some((rest, end)) => {
                                    let mut members: Vec<(String, JsonValue)> = Vec::new();
                                    members.push((key, v));
                                    let mut rest = rest;
                                    let ghost rest_snap = rest@;
                                    members.append(&mut rest);
                                    proof {
                                        assert(member_views_of(members@) =~= seq![
                                            (members@[0].0@, json_view(members@[0].1)),
                                        ] + member_views_of(rest_snap));
                                    }
                                    Some((members, end))
                                },
                            }
                        } else {
                            None
                        }
                    },
                }
            }
        },
    }
}

/// Parses a whole JSON text: one value surrounded by nothing but
/// whitespace.
pub fn parse_json_text(s: &Vec<char>) -> (r: Option<JsonValue>)
    ensures
        match r {
            Some(v) => spec_json_text(s@) == Some(json_view(v)),
            None => spec_json_text(s@) is None,
        },
{
    let i = ws_skip_exec(s, 0);
    match parse_value(s, i) {
        None => None,
        Some((v, j)) => {
            let k = ws_skip_exec(s, j);
            if k == s.len() {
                Some(v)
            } else {
                None
            }
        },
    }
}

} // verus!
