//! What searching, trimming and lower casing do, position by position.

use vstd::prelude::*;
use vstd::utf8::is_ascii_chars;

use crate::text::{
    ascii_lower, ascii_lowercase, first_index, is_white_space, last_index, lemma_first_index,
    lemma_last_index, lowercase, occurrences, trimmed, trimmed_end, trimmed_start,
    unicode_lowercase,
};

verus! {

/// White space is what these twenty-five code points stand for.
pub proof fn law_white_space(c: char)
    ensures
        is_white_space(c) <==> set![
            0x9int, 0xa, 0xb, 0xc, 0xd, 0x20, 0x85, 0xa0, 0x1680, 0x2000, 0x2001, 0x2002, 0x2003,
            0x2004, 0x2005, 0x2006, 0x2007, 0x2008, 0x2009, 0x200a, 0x2028, 0x2029, 0x202f, 0x205f,
            0x3000,
        ].contains(c as int),
{
}

/// Trimming takes white space off both ends, all of it, and nothing else.
pub proof fn law_trimmed(s: Seq<char>)
    ensures
        exists|a: int, b: int|
            #![trigger s.subrange(a, b)]
            {
                &&& 0 <= a <= b <= s.len()
                &&& trimmed(s) == s.subrange(a, b)
                &&& forall|i: int| 0 <= i < a ==> is_white_space(#[trigger] s[i])
                &&& forall|i: int| b <= i < s.len() ==> is_white_space(#[trigger] s[i])
                &&& a < b ==> !is_white_space(s[a]) && !is_white_space(s[b - 1])
            },
{
    let a = lemma_start(s);
    let t = trimmed_start(s);
    let n = lemma_end(t);
    let b = a + n;
    assert(t.take(n) == s.subrange(a, b));
    assert forall|i: int| b <= i < s.len() implies is_white_space(#[trigger] s[i]) by {
        assert(s[i] == t[i - a]);
    }
    if a < b {
        assert(s[a] == t[0]);
        assert(s[b - 1] == t[n - 1]);
    }
}

proof fn lemma_start(s: Seq<char>) -> (a: int)
    ensures
        0 <= a <= s.len(),
        trimmed_start(s) == s.skip(a),
        forall|i: int| 0 <= i < a ==> is_white_space(#[trigger] s[i]),
        a < s.len() ==> !is_white_space(s[a]),
    decreases s.len(),
{
    if s.len() > 0 && is_white_space(s[0]) {
        let d = s.drop_first();
        let k = lemma_start(d);
        assert(d.skip(k) == s.skip(k + 1));
        assert forall|i: int| 0 <= i < k + 1 implies is_white_space(#[trigger] s[i]) by {
            if i > 0 {
                assert(s[i] == d[i - 1]);
            }
        }
        k + 1
    } else {
        assert(s.skip(0) == s);
        0
    }
}

proof fn lemma_end(s: Seq<char>) -> (n: int)
    ensures
        0 <= n <= s.len(),
        trimmed_end(s) == s.take(n),
        forall|i: int| n <= i < s.len() ==> is_white_space(#[trigger] s[i]),
        n > 0 ==> !is_white_space(s[n - 1]),
    decreases s.len(),
{
    if s.len() > 0 && is_white_space(s.last()) {
        let d = s.drop_last();
        let k = lemma_end(d);
        assert(d.take(k) == s.take(k));
        assert forall|i: int| k <= i < s.len() implies is_white_space(#[trigger] s[i]) by {
            if i < s.len() - 1 {
                assert(s[i] == d[i]);
            }
        }
        k
    } else {
        assert(s.take(s.len() as int) == s);
        s.len() as int
    }
}

/// The first and the last place of a character are where it stands and where
/// it does not stand before, or after; where it stands nowhere, they are the
/// length and minus one.
pub proof fn law_first_and_last_place(s: Seq<char>, c: char)
    ensures
        s.contains(c) ==> 0 <= first_index(s, c) <= last_index(s, c) < s.len(),
        s.contains(c) ==> s[first_index(s, c)] == c && s[last_index(s, c)] == c,
        forall|i: int| 0 <= i < s.len() && #[trigger] s[i] == c ==> first_index(s, c) <= i <= last_index(s, c),
        !s.contains(c) ==> first_index(s, c) == s.len() && last_index(s, c) == -1,
{
    lemma_first_index(s, c);
    lemma_last_index(s, c);
    if s.contains(c) {
        let f = first_index(s, c);
        if last_index(s, c) < f {
            assert(s[f] != c);
        }
    }
    assert forall|i: int| 0 <= i < s.len() && #[trigger] s[i] == c implies first_index(s, c) <= i
        <= last_index(s, c) by {}
}

/// A character is counted once for every place where it stands.
pub proof fn law_occurrences(s: Seq<char>, c: char)
    ensures
        occurrences(s, c) == s.to_multiset().count(c),
        occurrences(s, c) > 1 <==> exists|i: int, j: int|
            0 <= i < j < s.len() && #[trigger] s[i] == c && #[trigger] s[j] == c,
    decreases s.len(),
{
    broadcast use vstd::seq_lib::group_to_multiset_ensures;

    lemma_count(s, c);
    crate::text::lemma_occurrences_contains(s, c);
    if s.len() > 0 {
        let d = s.drop_last();
        law_occurrences(d, c);
        crate::text::lemma_occurrences_contains(d, c);
        if occurrences(s, c) > 1 {
            if s.last() == c {
                let i = choose|i: int| 0 <= i < d.len() && d[i] == c;
                assert(s[i] == c && s[s.len() - 1] == c);
            } else {
                let (i, j) = choose|i: int, j: int|
                    0 <= i < j < d.len() && #[trigger] d[i] == c && #[trigger] d[j] == c;
                assert(s[i] == c && s[j] == c);
            }
        }
        if exists|i: int, j: int|
            0 <= i < j < s.len() && #[trigger] s[i] == c && #[trigger] s[j] == c {
            let (i, j) = choose|i: int, j: int|
                0 <= i < j < s.len() && #[trigger] s[i] == c && #[trigger] s[j] == c;
            assert(d[i] == c);
            if j < s.len() - 1 {
                assert(d[j] == c);
            }
        }
    }
}

proof fn lemma_count(s: Seq<char>, c: char)
    ensures
        occurrences(s, c) == s.to_multiset().count(c),
    decreases s.len(),
{
    broadcast use vstd::seq_lib::group_to_multiset_ensures;

    if s.len() > 0 {
        lemma_count(s.drop_last(), c);
        assert(s == s.drop_last().push(s.last()));
    } else {
        assert(s == Seq::<char>::empty());
    }
}

/// The small letters `a` to `z` stand thirty-two code points above the
/// letters `A` to `Z`; every other character is its own lower case.
pub proof fn law_ascii_lower(c: char)
    ensures
        0x41 <= c as int <= 0x5a ==> ascii_lower(c) as int == c as int + 0x20,
        !(0x41 <= c as int <= 0x5a) ==> ascii_lower(c) == c,
{
}

/// Lower casing the ASCII letters of a text changes each letter from `A` to
/// `Z` to the small letter, and nothing else.
pub proof fn law_ascii_lowercase(s: Seq<char>)
    ensures
        ascii_lowercase(s).len() == s.len(),
        forall|i: int|
            0 <= i < s.len() ==> (if 0x41 <= s[i] as int <= 0x5a {
                (#[trigger] ascii_lowercase(s)[i]) as int == s[i] as int + 0x20
            } else {
                ascii_lowercase(s)[i] == s[i]
            }),
{
    assert forall|i: int| 0 <= i < s.len() implies (if 0x41 <= s[i] as int <= 0x5a {
        (#[trigger] ascii_lowercase(s)[i]) as int == s[i] as int + 0x20
    } else {
        ascii_lowercase(s)[i] == s[i]
    }) by {
        law_ascii_lower(s[i]);
    }
}

/// The lower case form of an ASCII text has a character for each of its
/// characters: the small letter for a letter from `A` to `Z`, and otherwise
/// the character itself. Any other text is lower cased as a whole.
pub proof fn law_lowercase(s: Seq<char>)
    ensures
        is_ascii_chars(s) ==> lowercase(s).len() == s.len(),
        is_ascii_chars(s) ==> forall|i: int|
            0 <= i < s.len() ==> (if 0x41 <= s[i] as int <= 0x5a {
                (#[trigger] lowercase(s)[i]) as int == s[i] as int + 0x20
            } else {
                lowercase(s)[i] == s[i]
            }),
        !is_ascii_chars(s) ==> lowercase(s) == unicode_lowercase(s),
{
    assert forall|i: int| 0 <= i < s.len() implies ascii_lower(#[trigger] s[i]) as int == (
    if 0x41 <= s[i] as int <= 0x5a {
        s[i] as int + 0x20
    } else {
        s[i] as int
    }) by {
        law_ascii_lower(s[i]);
    }
}

/// Two ASCII texts have the same lower case form exactly where they differ at
/// most in the case of letters.
pub proof fn law_lowercase_merges_only_case(a: Seq<char>, b: Seq<char>)
    requires
        is_ascii_chars(a),
        is_ascii_chars(b),
    ensures
        lowercase(a) == lowercase(b) <==> a.len() == b.len() && forall|i: int|
            0 <= i < a.len() ==> {
                ||| #[trigger] a[i] == b[i]
                ||| 0x41 <= a[i] as int <= 0x5a && b[i] as int == a[i] as int + 0x20
                ||| 0x41 <= b[i] as int <= 0x5a && a[i] as int == b[i] as int + 0x20
            },
{
    law_lowercase(a);
    law_lowercase(b);
    let la = lowercase(a);
    let lb = lowercase(b);
    if la == lb {
        assert forall|i: int| 0 <= i < a.len() implies {
            ||| #[trigger] a[i] == b[i]
            ||| 0x41 <= a[i] as int <= 0x5a && b[i] as int == a[i] as int + 0x20
            ||| 0x41 <= b[i] as int <= 0x5a && a[i] as int == b[i] as int + 0x20
        } by {
            assert(la[i] == lb[i]);
            assert(la[i] as int == lb[i] as int);
        }
    } else if a.len() == b.len() {
        let i = choose|i: int| 0 <= i < la.len() && la[i] != lb[i];
        assert(la =~= lb || exists|i: int| 0 <= i < la.len() && la[i] != lb[i]);
        assert(la[i] as int != lb[i] as int);
        assert(a[i] == a[i]);
    }
}

} // verus!
