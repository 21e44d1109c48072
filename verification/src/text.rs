//! Character-level text utilities shared by the parser, the moderation
//! filter and the renderer. All library text is modelled as `Seq<char>`.

use vstd::prelude::*;

verus! {

use crate::lex_less;
use vstd::multiset::Multiset;

/// Collects the characters of a string slice into a vector.
pub fn str_to_chars(s: &str) -> (r: Vec<char>)
    ensures
        r@ == s@,
{
    let n = s.unicode_len();
    let mut r: Vec<char> = Vec::new();
    let mut i: usize = 0;
    while i < n
        invariant
            i <= n,
            n == s@.len(),
            r@ == s@.take(i as int),
        decreases n - i,
    {
        r.push(s.get_char(i));
        i = i + 1;
        proof {
            assert(r@ =~= s@.take(i as int));
        }
    }
    proof {
        assert(r@ =~= s@);
    }
    r
}

/// Relies on `core::iter::Iterator::collect` for `String`: collecting
/// an iterator of characters yields the string of exactly those
/// characters, in order.
#[verifier::external_body]
pub(crate) fn chars_to_string(v: &Vec<char>) -> (s: String)
    ensures
        s@ == v@,
{
    v.iter().collect()
}

/// Appends every character of `s` to `out`.
pub fn push_str_chars(out: &mut Vec<char>, s: &str)
    ensures
        final(out)@ == old(out)@ + s@,
{
    let n = s.unicode_len();
    let mut i: usize = 0;
    while i < n
        invariant
            i <= n,
            n == s@.len(),
            out@ == old(out)@ + s@.take(i as int),
        decreases n - i,
    {
        out.push(s.get_char(i));
        i = i + 1;
        proof {
            assert(old(out)@ + s@.take(i as int) =~= (old(out)@ + s@.take(i - 1)).push(
                s@[i - 1],
            ));
        }
    }
    proof {
        assert(old(out)@ + s@.take(n as int) =~= old(out)@ + s@);
    }
}

// ------------------------------------------------------------------
// Decimal digits: recognition, value, and rendering.
// ------------------------------------------------------------------
/// An ASCII decimal digit.
pub open spec fn is_dec_digit(c: char) -> bool {
    '0' <= c && c <= '9'
}

/// Numeric value of a decimal digit character.
pub open spec fn digit_val(c: char) -> int {
    c as int - '0' as int
}

/// Every character of `s` is a decimal digit.
pub open spec fn all_dec_digits(s: Seq<char>) -> bool {
    forall|i: int| 0 <= i < s.len() ==> is_dec_digit(#[trigger] s[i])
}

/// The number denoted by a sequence of decimal digits, most
/// significant first.
pub open spec fn digits_val(s: Seq<char>) -> int
    decreases s.len(),
{
    if s.len() == 0 {
        0
    } else {
        digits_val(s.drop_last()) * 10 + digit_val(s.last())
    }
}

/// The digit character for a value below ten.
pub open spec fn digit_char(d: int) -> char {
    if d == 0 {
        '0'
    } else if d == 1 {
        '1'
    } else if d == 2 {
        '2'
    } else if d == 3 {
        '3'
    } else if d == 4 {
        '4'
    } else if d == 5 {
        '5'
    } else if d == 6 {
        '6'
    } else if d == 7 {
        '7'
    } else if d == 8 {
        '8'
    } else {
        '9'
    }
}

/// The usual decimal rendering of a non-negative number, without
/// leading zeros (`0` renders as "0").
pub open spec fn dec_digits(n: int) -> Seq<char>
    recommends
        n >= 0,
    decreases n,
{
    if n < 10 {
        seq![digit_char(n)]
    } else {
        dec_digits(n / 10) + seq![digit_char(n % 10)]
    }
}

/// The decimal rendering of an integer, with a leading minus sign when
/// negative.
pub open spec fn int_dec_digits(v: int) -> Seq<char> {
    if v < 0 {
        seq!['-'] + dec_digits(-v)
    } else {
        dec_digits(v)
    }
}

pub fn digit_to_char(d: u64) -> (c: char)
    requires
        d < 10,
    ensures
        c == digit_char(d as int),
{
    match d {
        0 => '0',
        1 => '1',
        2 => '2',
        3 => '3',
        4 => '4',
        5 => '5',
        6 => '6',
        7 => '7',
        8 => '8',
        _ => '9',
    }
}

/// Appends the decimal rendering of `n` to `out`.
pub fn push_u64_dec(out: &mut Vec<char>, n: u64)
    ensures
        final(out)@ == old(out)@ + dec_digits(n as int),
    decreases n,
{
    if n < 10 {
        out.push(digit_to_char(n));
        proof {
            assert(out@ =~= old(out)@ + dec_digits(n as int));
        }
    } else {
        push_u64_dec(out, n / 10);
        out.push(digit_to_char(n % 10));
        proof {
            assert(out@ =~= old(out)@ + dec_digits(n as int));
        }
    }
}

/// Appends the decimal rendering of `v`, sign included, to `out`.
pub fn push_i64_dec(out: &mut Vec<char>, v: i64)
    requires
        v > i64::MIN,
    ensures
        final(out)@ == old(out)@ + int_dec_digits(v as int),
{
    if v < 0 {
        out.push('-');
        push_u64_dec(out, (-v) as u64);
        proof {
            assert(out@ =~= old(out)@ + int_dec_digits(v as int));
        }
    } else {
        push_u64_dec(out, v as u64);
    }
}

proof fn lemma_digits_val_nonneg(s: Seq<char>)
    requires
        all_dec_digits(s),
    ensures
        digits_val(s) >= 0,
    decreases s.len(),
{
    if s.len() > 0 {
        assert(all_dec_digits(s.drop_last())) by {
            assert(forall|i: int|
                0 <= i < s.len() - 1 ==> #[trigger] s.drop_last()[i] == s[i]);
        }
        lemma_digits_val_nonneg(s.drop_last());
    }
}

proof fn lemma_digits_val_prefix_le(s: Seq<char>, i: int)
    requires
        all_dec_digits(s),
        0 <= i <= s.len(),
    ensures
        digits_val(s.take(i)) <= digits_val(s),
    decreases s.len() - i,
{
    if i < s.len() {
        lemma_digits_val_prefix_le(s, i + 1);
        let t = s.take(i + 1);
        assert(t.drop_last() =~= s.take(i));
        assert(all_dec_digits(s.take(i))) by {
            assert(forall|j: int| 0 <= j < i ==> #[trigger] s.take(i)[j] == s[j]);
        }
        lemma_digits_val_nonneg(s.take(i));
        assert(digits_val(t) == digits_val(s.take(i)) * 10 + digit_val(t.last()));
        assert(digits_val(s.take(i)) * 10 >= digits_val(s.take(i)));
        assert(digit_val(t.last()) >= 0);
    } else {
        assert(s.take(i) =~= s);
    }
}

/// Reads the digits `s[start..end]` as a decimal number. Fails when the
/// range is empty, holds a non-digit, or denotes a value above
/// `u32::MAX`.
pub fn parse_digits(s: &Vec<char>, start: usize, end: usize) -> (r: Option<u64>)
    requires
        start <= end <= s@.len(),
    ensures
        ({
            let t = s@.subrange(start as int, end as int);
            match r {
                Some(v) => t.len() > 0 && all_dec_digits(t) && v == digits_val(t) && v
                    <= u32::MAX,
                None => t.len() == 0 || !all_dec_digits(t) || digits_val(t) > u32::MAX,
            }
        }),
{
    let ghost t = s@.subrange(start as int, end as int);
    if start == end {
        return None;
    }
    let mut acc: u64 = 0;
    let mut i: usize = start;
    while i < end
        invariant
            start <= i <= end <= s@.len(),
            t == s@.subrange(start as int, end as int),
            all_dec_digits(t.take(i - start)),
            acc == digits_val(t.take(i - start)),
            acc <= u32::MAX,
        decreases end - i,
    {
        let c = s[i];
        if !('0' <= c && c <= '9') {
            proof {
                assert(t[i - start] == c);
                assert(!is_dec_digit(t[i - start]));
            }
            return None;
        }
        let d: u64 = (c as u64) - ('0' as u64);
        proof {
            assert(d == digit_val(c));
            assert(t.take(i + 1 - start).drop_last() =~= t.take(i - start));
            assert(t.take(i + 1 - start).last() == t[i - start]);
            assert(t[i - start] == c);
        }
        let next: u64 = acc * 10 + d;
        if next > 0xFFFF_FFFF {
            proof {
                assert(digits_val(t.take(i + 1 - start)) == next);
                assert(all_dec_digits(t) ==> digits_val(t) > u32::MAX) by {
                    if all_dec_digits(t) {
                        lemma_digits_val_prefix_le(t, i + 1 - start);
                    }
                }
            }
            return None;
        }
        acc = next;
        i = i + 1;
    }
    proof {
        assert(t.take(end - start) =~= t);
    }
    Some(acc)
}

// ------------------------------------------------------------------
// Lexicographic comparison and sorting of names.
// ------------------------------------------------------------------
/// Non-strict lexicographic order.
pub open spec fn lex_leq(a: Seq<char>, b: Seq<char>) -> bool {
    lex_less(a, b) || a == b
}

/// The order is total: of two sequences, one is less or they are
/// equal.
pub proof fn lemma_lex_total(a: Seq<char>, b: Seq<char>)
    ensures
        lex_less(a, b) || lex_less(b, a) || a == b,
    decreases a.len(),
{
    if a.len() == 0 || b.len() == 0 {
        if a.len() == b.len() {
            assert(a =~= b);
        }
    } else {
        if a[0] == b[0] {
            lemma_lex_total(a.skip(1), b.skip(1));
            if a.skip(1) == b.skip(1) && a.len() == b.len() {
                assert forall|i: int| 0 <= i < a.len() implies a[i] == b[i] by {
                    if i >= 1 {
                        assert(a[i] == a.skip(1)[i - 1]);
                        assert(b[i] == b.skip(1)[i - 1]);
                    }
                }
                assert(a =~= b);
            }
        }
    }
}

/// The order is transitive.
pub proof fn lemma_lex_trans(a: Seq<char>, b: Seq<char>, c: Seq<char>)
    requires
        lex_leq(a, b),
        lex_leq(b, c),
    ensures
        lex_leq(a, c),
    decreases a.len() + b.len() + c.len(),
{
    if a == b || b == c {
    } else {
        if b.len() == 0 {
            assert(!lex_less(b, c) || c.len() > 0);
            if a.len() == 0 {
                assert(a =~= b);
            }
        } else if a.len() == 0 {
            assert(lex_less(a, c) == (c.len() > 0));
            if c.len() == 0 {
                assert(!lex_less(b, c));
            }
        } else {
            assert(c.len() > 0);
            if a[0] == b[0] && b[0] == c[0] {
                assert(lex_leq(a.skip(1), b.skip(1)));
                assert(lex_leq(b.skip(1), c.skip(1)));
                lemma_lex_trans(a.skip(1), b.skip(1), c.skip(1));
                if a.skip(1) == c.skip(1) && a.len() == c.len() {
                    assert forall|i: int| 0 <= i < a.len() implies a[i] == c[i] by {
                        if i >= 1 {
                            assert(a[i] == a.skip(1)[i - 1]);
                            assert(c[i] == c.skip(1)[i - 1]);
                        }
                    }
                    assert(a =~= c);
                }
            }
        }
    }
}

/// Compares two strings in lexicographic (code point) order.
pub fn str_lex_leq(a: &str, b: &str) -> (r: bool)
    ensures
        r == lex_leq(a@, b@),
{
    let la = a.unicode_len();
    let lb = b.unicode_len();
    let mut i: usize = 0;
    proof {
        assert(a@.skip(0) =~= a@);
        assert(b@.skip(0) =~= b@);
        assert(a@.take(0) =~= b@.take(0));
    }
    while i < la && i < lb
        invariant
            i <= la,
            i <= lb,
            la == a@.len(),
            lb == b@.len(),
            a@.take(i as int) == b@.take(i as int),
            lex_less(a@, b@) == lex_less(a@.skip(i as int), b@.skip(i as int)),
        decreases la - i,
    {
        let ca = a.get_char(i);
        let cb = b.get_char(i);
        if ca != cb {
            proof {
                let sa = a@.skip(i as int);
                let sb = b@.skip(i as int);
                assert(sa[0] == a@[i as int]);
                assert(sb[0] == b@[i as int]);
                assert(lex_less(sa, sb) == (a@[i as int] < b@[i as int]));
                assert(a@ != b@) by {
                    assert(a@[i as int] != b@[i as int]);
                }
            }
            return (ca as u32) < (cb as u32);
        }
        proof {
            let sa = a@.skip(i as int);
            let sb = b@.skip(i as int);
            assert(sa.len() > 0 && sb.len() > 0);
            assert(sa[0] == a@[i as int] && sb[0] == b@[i as int]);
            assert(sa.skip(1) =~= a@.skip(i + 1));
            assert(sb.skip(1) =~= b@.skip(i + 1));
            assert(a@.take(i + 1) =~= b@.take(i + 1)) by {
                assert(forall|j: int|
                    0 <= j < i ==> a@.take(i + 1)[j] == #[trigger] a@.take(i as int)[j]);
                assert(forall|j: int|
                    0 <= j < i ==> b@.take(i + 1)[j] == #[trigger] b@.take(i as int)[j]);
            }
        }
        i = i + 1;
    }
    if la == lb {
        proof {
            assert(a@.take(i as int) =~= a@);
            assert(b@.take(i as int) =~= b@);
        }
        true
    } else if la < lb {
        proof {
            assert(i == la);
            assert(a@.skip(i as int).len() == 0);
            assert(b@.skip(i as int).len() > 0);
        }
        true
    } else {
        proof {
            assert(i == lb);
            assert(b@.skip(i as int).len() == 0);
            assert(a@ != b@) by {
                assert(a@.len() != b@.len());
            }
        }
        false
    }
}

/// Compares two strings for equality of their character sequences.
pub fn str_eq(a: &str, b: &str) -> (r: bool)
    ensures
        r == (a@ == b@),
{
    let la = a.unicode_len();
    let lb = b.unicode_len();
    if la != lb {
        proof {
            assert(a@ != b@) by {
                assert(a@.len() != b@.len());
            }
        }
        return false;
    }
    let mut i: usize = 0;
    while i < la
        invariant
            i <= la,
            la == a@.len(),
            la == b@.len(),
            a@.take(i as int) == b@.take(i as int),
        decreases la - i,
    {
        if a.get_char(i) != b.get_char(i) {
            proof {
                assert(a@ != b@) by {
                    assert(a@[i as int] != b@[i as int]);
                }
            }
            return false;
        }
        proof {
            assert(a@.take(i + 1) =~= b@.take(i + 1)) by {
                assert(forall|j: int|
                    0 <= j < i ==> a@.take(i + 1)[j] == #[trigger] a@.take(i as int)[j]);
                assert(forall|j: int|
                    0 <= j < i ==> b@.take(i + 1)[j] == #[trigger] b@.take(i as int)[j]);
                assert(a@.take(i + 1)[i as int] == b@.take(i + 1)[i as int]);
            }
        }
        i = i + 1;
    }
    proof {
        assert(a@.take(la as int) =~= a@);
        assert(b@.take(la as int) =~= b@);
    }
    true
}

/// The views of a vector of strings.
pub open spec fn str_views(v: Seq<String>) -> Seq<Seq<char>> {
    v.map_values(|s: String| s@)
}

/// Pairwise lexicographic sortedness.
pub open spec fn names_sorted(s: Seq<Seq<char>>) -> bool {
    forall|i: int, j: int| 0 <= i < j < s.len() ==> lex_leq(#[trigger] s[i], #[trigger] s[j])
}

proof fn lemma_insert_multiset<A>(s: Seq<A>, i: int, x: A)
    requires
        0 <= i <= s.len(),
    ensures
        s.insert(i, x).to_multiset() == s.to_multiset().insert(x),
{
    broadcast use vstd::seq_lib::group_to_multiset_ensures;

    let left = s.take(i);
    let right = s.skip(i);
    assert(s.insert(i, x) =~= left + (seq![x] + right));
    assert(s =~= left + right);
    vstd::seq_lib::lemma_multiset_commutative(left, seq![x] + right);
    vstd::seq_lib::lemma_multiset_commutative(seq![x], right);
    vstd::seq_lib::lemma_multiset_commutative(left, right);
    assert(seq![x].to_multiset() =~= Multiset::empty().insert(x)) by {
        assert(seq![x].drop_first() =~= Seq::<A>::empty());
    }
    assert(s.insert(i, x).to_multiset() =~= s.to_multiset().insert(x));
}

/// Sorts a list of names lexicographically. The result is sorted and
/// holds exactly the input names, multiplicity included.
pub fn sort_names(v: &Vec<String>) -> (r: Vec<String>)
    ensures
        names_sorted(str_views(r@)),
        str_views(r@).to_multiset() == str_views(v@).to_multiset(),
{
    broadcast use vstd::seq_lib::group_to_multiset_ensures;

    let mut r: Vec<String> = Vec::new();
    let mut k: usize = 0;
    while k < v.len()
        invariant
            k <= v@.len(),
            names_sorted(str_views(r@)),
            str_views(r@).to_multiset() == str_views(v@.take(k as int)).to_multiset(),
        decreases v@.len() - k,
    {
        let x = v[k].clone();
        let ghost old_r = r@;
        // find the first position whose element is not below `x`
        let mut j: usize = 0;
        while j < r.len()
            invariant_except_break
                j <= r@.len(),
                r@ == old_r,
                forall|m: int| 0 <= m < j ==> !lex_leq(x@, #[trigger] str_views(r@)[m]),
            ensures
                j <= r@.len(),
                r@ == old_r,
                forall|m: int| 0 <= m < j ==> !lex_leq(x@, #[trigger] str_views(r@)[m]),
                j < r@.len() ==> lex_leq(x@, str_views(r@)[j as int]),
            decreases r@.len() - j,
        {
            if str_lex_leq(x.as_str(), r[j].as_str()) {
                break ;
            }
            j = j + 1;
        }
        proof {
            assert forall|m: int| 0 <= m < j implies lex_leq(#[trigger] str_views(r@)[m], x@) by {
                lemma_lex_total(x@, str_views(r@)[m]);
            }
        }
        r.insert(j, x);
        proof {
            assert(str_views(r@) =~= str_views(old_r).insert(j as int, x@));
            lemma_insert_multiset(str_views(old_r), j as int, x@);
            // sortedness after the insertion
            let s1 = str_views(old_r);
            let s2 = str_views(r@);
            assert(forall|m: int| 0 <= m < j ==> #[trigger] s2[m] == s1[m]);
            assert(s2[j as int] == x@);
            assert(forall|m: int| j < m < s2.len() ==> #[trigger] s2[m] == s1[m - 1]);
            assert forall|p: int, q: int| 0 <= p < q < s2.len() implies lex_leq(
                #[trigger] s2[p],
                #[trigger] s2[q],
            ) by {
                if p < j && q == j {
                    assert(lex_leq(s1[p], x@));
                } else if p == j && q > j {
                    assert(s2[q] == s1[q - 1]);
                    assert(lex_leq(x@, s1[j as int]));
                    if q - 1 > j {
                        assert(lex_leq(s1[j as int], s1[q - 1]));
                        lemma_lex_trans(x@, s1[j as int], s1[q - 1]);
                    }
                } else if p < j && q > j {
                    assert(s2[p] == s1[p] && s2[q] == s1[q - 1]);
                    if p == q - 1 {
                        assert(s2[p] == s2[q]);
                    }
                }
            }
            // the multiset now covers one more input element
            assert(str_views(v@.take(k + 1)) =~= str_views(v@.take(k as int)).push(v@[k as int]@));
            vstd::seq_lib::to_multiset_build(str_views(v@.take(k as int)), v@[k as int]@);
            assert(str_views(r@).to_multiset() =~= str_views(v@.take(k + 1)).to_multiset());
        }
        k = k + 1;
    }
    proof {
        assert(v@.take(k as int) =~= v@);
    }
    r
}

} // verus!
