//! String primitives the identifier types are built on: lexicographic
//! ordering, equality, case folding, splitting on a separator character and
//! concatenation, each specified over the character sequence of the string.
use vstd::prelude::*;

verus! {

/// Case-folds one character the way ASCII lowercasing does: the letters
/// `'A'..='Z'` move to `'a'..='z'`, every other character is unchanged.
pub open spec fn lower_char(c: char) -> char {
    if 'A' <= c && c <= 'Z' {
        ((c as u8) + 32) as char
    } else {
        c
    }
}

/// The character sequence of `s`, case-folded.
pub open spec fn lower_chars(s: Seq<char>) -> Seq<char> {
    s.map_values(|c: char| lower_char(c))
}

/// Strict lexicographic order on character sequences, by code point; a
/// proper prefix comes before every extension of it.
pub open spec fn lex_lt(a: Seq<char>, b: Seq<char>) -> bool
    decreases a.len(),
{
    if b.len() == 0 {
        false
    } else if a.len() == 0 {
        true
    } else if a[0] != b[0] {
        (a[0] as int) < (b[0] as int)
    } else {
        lex_lt(a.drop_first(), b.drop_first())
    }
}

/// How often `c` occurs in `s`.
pub open spec fn count_char(s: Seq<char>, c: char) -> nat
    decreases s.len(),
{
    if s.len() == 0 {
        0
    } else {
        (if s[0] == c {
            1nat
        } else {
            0nat
        }) + count_char(s.drop_first(), c)
    }
}

/// A sequence holds `c` exactly as often as `count_char` says: zero
/// occurrences and `contains` agree.
pub proof fn lemma_count_zero_not_contains(s: Seq<char>, c: char)
    ensures
        count_char(s, c) == 0 <==> !s.contains(c),
    decreases s.len(),
{
    if s.len() > 0 {
        lemma_count_zero_not_contains(s.drop_first(), c);
        assert(s.contains(c) <==> s[0] == c || s.drop_first().contains(c)) by {
            if s.contains(c) {
                let i = choose|i: int| 0 <= i < s.len() && s[i] == c;
                if i > 0 {
                    assert(s.drop_first()[i - 1] == c);
                }
            }
            if s.drop_first().contains(c) {
                let i = choose|i: int| 0 <= i < s.drop_first().len() && s.drop_first()[i] == c;
                assert(s[i + 1] == c);
            }
        }
    }
}

pub proof fn lemma_lex_lt_irreflexive(a: Seq<char>)
    ensures
        !lex_lt(a, a),
    decreases a.len(),
{
    if a.len() > 0 {
        lemma_lex_lt_irreflexive(a.drop_first());
    }
}

pub proof fn lemma_lex_lt_asymmetric(a: Seq<char>, b: Seq<char>)
    ensures
        !(lex_lt(a, b) && lex_lt(b, a)),
    decreases a.len(),
{
    if a.len() > 0 && b.len() > 0 && a[0] == b[0] {
        lemma_lex_lt_asymmetric(a.drop_first(), b.drop_first());
    }
}

pub proof fn lemma_lex_lt_transitive(a: Seq<char>, b: Seq<char>, c: Seq<char>)
    requires
        lex_lt(a, b),
        lex_lt(b, c),
    ensures
        lex_lt(a, c),
    decreases a.len(),
{
    if a.len() > 0 && b.len() > 0 && c.len() > 0 && a[0] == b[0] && b[0] == c[0] {
        lemma_lex_lt_transitive(a.drop_first(), b.drop_first(), c.drop_first());
    }
}

/// Two sequences that neither order puts first are equal.
pub proof fn lemma_lex_lt_connected(a: Seq<char>, b: Seq<char>)
    requires
        !lex_lt(a, b),
        !lex_lt(b, a),
    ensures
        a == b,
    decreases a.len(),
{
    if a.len() == 0 || b.len() == 0 {
        assert(a =~= b);
    } else {
        assert(a[0] == b[0]) by {
            if a[0] != b[0] {
                assert((a[0] as int) < (b[0] as int) || (b[0] as int) < (a[0] as int));
            }
        }
        lemma_lex_lt_connected(a.drop_first(), b.drop_first());
        assert forall|i: int| 0 <= i < a.len() implies a[i] == b[i] by {
            if i > 0 {
                assert(a.drop_first()[i - 1] == b.drop_first()[i - 1]);
            }
        }
        assert(a =~= b);
    }
}

/// Shared prefixes do not decide the order: comparison continues on the
/// remainders.
pub proof fn lemma_lex_lt_common_prefix(a: Seq<char>, b: Seq<char>, i: int)
    requires
        0 <= i <= a.len(),
        i <= b.len(),
        forall|j: int| 0 <= j < i ==> a[j] == b[j],
    ensures
        lex_lt(a, b) == lex_lt(a.subrange(i, a.len() as int), b.subrange(i, b.len() as int)),
    decreases i,
{
    if i == 0 {
        assert(a.subrange(0, a.len() as int) =~= a);
        assert(b.subrange(0, b.len() as int) =~= b);
    } else {
        assert(a.len() > 0 && b.len() > 0 && a[0] == b[0]);
        assert(a.drop_first().subrange(i - 1, a.drop_first().len() as int) =~= a.subrange(
            i,
            a.len() as int,
        ));
        assert(b.drop_first().subrange(i - 1, b.drop_first().len() as int) =~= b.subrange(
            i,
            b.len() as int,
        ));
        lemma_lex_lt_common_prefix(a.drop_first(), b.drop_first(), i - 1);
    }
}

/// Index of the first occurrence of `c` in `s`, the length if there is none.
pub open spec fn first_index_of(s: Seq<char>, c: char) -> int
    decreases s.len(),
{
    if s.len() == 0 {
        0
    } else if s[0] == c {
        0
    } else {
        1 + first_index_of(s.drop_first(), c)
    }
}

/// The parts before and after the first occurrence of `c`.
pub open spec fn split_at_sep(s: Seq<char>, c: char) -> (Seq<char>, Seq<char>) {
    (s.subrange(0, first_index_of(s, c)), s.subrange(first_index_of(s, c) + 1, s.len() as int))
}

/// The first occurrence in a framed concatenation sits right after the
/// frame's prefix.
pub proof fn lemma_first_index_concat(x: Seq<char>, y: Seq<char>, c: char)
    requires
        !x.contains(c),
    ensures
        first_index_of(x + seq![c] + y, c) == x.len(),
    decreases x.len(),
{
    let s = x + seq![c] + y;
    if x.len() == 0 {
        assert(s[0] == c);
    } else {
        assert(x[0] != c);
        assert(s[0] == x[0]);
        assert(s.drop_first() =~= x.drop_first() + seq![c] + y);
        assert(!x.drop_first().contains(c)) by {
            if x.drop_first().contains(c) {
                let i = choose|i: int| 0 <= i < x.drop_first().len() && x.drop_first()[i] == c;
                assert(x[i + 1] == c);
            }
        }
        lemma_first_index_concat(x.drop_first(), y, c);
    }
}

/// Strict lexicographic comparison of two strings.
pub fn str_lt(a: &str, b: &str) -> (r: bool)
    ensures
        r == lex_lt(a@, b@),
{
    let a_len = a.unicode_len();
    let b_len = b.unicode_len();
    let min: usize = if a_len < b_len {
        a_len
    } else {
        b_len
    };
    let mut i: usize = 0;
    while i < min
        invariant
            0 <= i <= min,
            forall|j: int| 0 <= j < i ==> a@[j] == b@[j],
        decreases min - i,
    {
        let ca = a.get_char(i);
        let cb = b.get_char(i);
        if ca != cb {
            proof {
                lemma_lex_lt_common_prefix(a@, b@, i as int);
            }
            return (ca as u32) < (cb as u32);
        }
        i = i + 1;
    }
    proof {
        lemma_lex_lt_common_prefix(a@, b@, min as int);
    }
    a_len < b_len
}

/// Equality of two strings, decided through the order.
pub fn str_eq(a: &str, b: &str) -> (r: bool)
    ensures
        r == (a@ == b@),
{
    let r = !str_lt(a, b) && !str_lt(b, a);
    proof {
        if r {
            lemma_lex_lt_connected(a@, b@);
        } else {
            lemma_lex_lt_irreflexive(a@);
        }
    }
    r
}

/// Relies on `str::to_ascii_lowercase`: ASCII upper-case letters are mapped
/// to lower case and every other character is returned unchanged.
#[verifier::external_body]
pub(crate) fn to_ascii_lower(s: &str) -> (r: String)
    ensures
        r@ == lower_chars(s@),
{
    s.to_ascii_lowercase()
}

/// Concatenation of three strings.
pub fn join3(a: &str, b: &str, c: &str) -> (r: String)
    ensures
        r@ == a@ + b@ + c@,
{
    let mut s = String::from_str(a);
    s.append(b);
    s.append(c);
    s
}

/// Splits `s` at its single occurrence of `sep`; a string with no or more
/// than one occurrence is refused.
pub fn split_once_exact(s: &str, sep: char) -> (r: Option<(String, String)>)
    ensures
        r is Some <==> count_char(s@, sep) == 1,
        r matches Some(p) ==> s@ == p.0@ + seq![sep] + p.1@ && !p.0@.contains(sep)
            && !p.1@.contains(sep),
        r matches Some(p) ==> p.0@ == split_at_sep(s@, sep).0 && p.1@ == split_at_sep(s@, sep).1,
{
    let len = s.unicode_len();
    let mut first: Option<usize> = None;
    let mut i: usize = 0;
    while i < len
        invariant
            0 <= i <= len,
            len == s@.len(),
            match first {
                Some(k) => k < i && s@[k as int] == sep && count_char(s@.subrange(0, i as int), sep)
                    == 1,
                None => count_char(s@.subrange(0, i as int), sep) == 0,
            },
        decreases len - i,
    {
        let c = s.get_char(i);
        proof {
            lemma_count_snoc(s@.subrange(0, i as int), s@[i as int], sep);
            assert(s@.subrange(0, i as int).push(s@[i as int]) =~= s@.subrange(0, i as int + 1));
        }
        if c == sep {
            match first {
                None => {
                    first = Some(i);
                },
                Some(_) => {
                    proof {
                        lemma_count_prefix_le(s@, i as int + 1, sep);
                    }
                    return None;
                },
            }
        }
        i = i + 1;
    }
    proof {
        assert(s@.subrange(0, len as int) =~= s@);
    }
    match first {
        None => None,
        Some(k) => {
            let before = s.substring_char(0, k);
            let after = s.substring_char(k + 1, len);
            proof {
                assert(s@ =~= before@ + seq![sep] + after@);
                lemma_count_parts(s@, k as int, sep);
                lemma_count_zero_not_contains(before@, sep);
                lemma_count_zero_not_contains(after@, sep);
                lemma_first_index_concat(before@, after@, sep);
                assert(s@.subrange(0, k as int) =~= before@);
                assert(s@.subrange(k as int + 1, s@.len() as int) =~= after@);
            }
            Some((String::from_str(before), String::from_str(after)))
        },
    }
}

/// Appending one character adds its occurrences to the count.
pub proof fn lemma_count_snoc(s: Seq<char>, c: char, sep: char)
    ensures
        count_char(s.push(c), sep) == count_char(s, sep) + (if c == sep {
            1nat
        } else {
            0nat
        }),
    decreases s.len(),
{
    if s.len() == 0 {
        assert(s.push(c).drop_first() =~= s);
    } else {
        assert(s.push(c).drop_first() =~= s.drop_first().push(c));
        lemma_count_snoc(s.drop_first(), c, sep);
    }
}

/// A prefix never holds more occurrences than the whole.
pub proof fn lemma_count_prefix_le(s: Seq<char>, i: int, sep: char)
    requires
        0 <= i <= s.len(),
    ensures
        count_char(s.subrange(0, i), sep) <= count_char(s, sep),
    decreases s.len() - i,
{
    if i < s.len() {
        lemma_count_snoc(s.subrange(0, i), s[i], sep);
        assert(s.subrange(0, i).push(s[i]) =~= s.subrange(0, i + 1));
        lemma_count_prefix_le(s, i + 1, sep);
    } else {
        assert(s.subrange(0, s.len() as int) =~= s);
    }
}

/// The occurrence count splits around a known occurrence.
pub proof fn lemma_count_parts(s: Seq<char>, k: int, sep: char)
    requires
        0 <= k < s.len(),
        s[k] == sep,
    ensures
        count_char(s, sep) == count_char(s.subrange(0, k), sep) + 1 + count_char(
            s.subrange(k + 1, s.len() as int),
            sep,
        ),
    decreases k,
{
    if k == 0 {
        assert(s.subrange(0, 0) =~= Seq::<char>::empty());
        assert(s.drop_first() =~= s.subrange(1, s.len() as int));
    } else {
        assert(s.drop_first().subrange(0, k - 1) =~= s.subrange(1, k));
        assert(s.drop_first().subrange(k - 1 + 1, s.drop_first().len() as int) =~= s.subrange(
            k + 1,
            s.len() as int,
        ));
        lemma_count_parts(s.drop_first(), k - 1, sep);
        lemma_count_first_rest(s, sep);
        assert(s.subrange(0, k).drop_first() =~= s.subrange(1, k));
        lemma_count_first_rest(s.subrange(0, k), sep);
    }
}

/// Unfolds the count at the first character.
pub proof fn lemma_count_first_rest(s: Seq<char>, sep: char)
    requires
        s.len() > 0,
    ensures
        count_char(s, sep) == (if s[0] == sep {
            1nat
        } else {
            0nat
        }) + count_char(s.drop_first(), sep),
{
}

} // verus!
