//! Character- and association-list utilities shared by the whole crate:
//! ASCII lowercasing and first-match lookup in a sequence of key/value pairs.
use vstd::prelude::*;

verus! {

/// The lowercase form of an ASCII character: letters `A`..`Z` map to
/// `a`..`z`, every other character is unchanged.
pub open spec fn lower_char(c: char) -> char {
    if 'A' <= c && c <= 'Z' {
        ((c as u32) + 32) as char
    } else {
        c
    }
}

/// A whole sequence of characters, lowercased character by character.
pub open spec fn lower(s: Seq<char>) -> Seq<char> {
    s.map_values(|c: char| lower_char(c))
}

/// Lowercases one character, ASCII-style.
pub fn lower_char_exec(c: char) -> (r: char)
    ensures
        r == lower_char(c),
{
    if 'A' <= c && c <= 'Z' {
        let u: u32 = c as u32;
        (((u + 32) as u8) as char)
    } else {
        c
    }
}

/// Relies on `String::push` from std: appends the given character to the
/// end of the string.
pub assume_specification[ String::push ](s: &mut String, c: char)
    ensures
        final(s)@ == old(s)@.push(c),
;

/// Lowercases a string, ASCII-style: `A`..`Z` become `a`..`z`, all other
/// characters stay as they are.
pub fn lowercase(s: &str) -> (r: String)
    ensures
        r@ == lower(s@),
{
    let n = s.unicode_len();
    let mut out = String::new();
    let mut i: usize = 0;
    while i < n
        invariant
            i <= n,
            n == s@.len(),
            out@ == lower(s@.take(i as int)),
        decreases n - i,
    {
        let c = s.get_char(i);
        out.push(lower_char_exec(c));
        i = i + 1;
        proof {
            assert(s@.take(i as int) =~= s@.take(i - 1).push(s@[i - 1]));
            assert(lower(s@.take(i as int)) =~= lower(s@.take(i - 1)).push(lower_char(s@[i - 1])));
        }
    }
    proof {
        assert(s@.take(n as int) =~= s@);
    }
    out
}

/// First-match lookup of `k` in an association list.
pub open spec fn assoc_lookup<V>(s: Seq<(Seq<char>, V)>, k: Seq<char>) -> Option<V>
    decreases s.len(),
{
    if s.len() == 0 {
        None
    } else if s[0].0 == k {
        Some(s[0].1)
    } else {
        assoc_lookup(s.drop_first(), k)
    }
}

/// No two pairs of the association list share a key.
pub open spec fn distinct_keys<V>(s: Seq<(Seq<char>, V)>) -> bool {
    forall|i: int, j: int| 0 <= i < j < s.len() ==> s[i].0 != s[j].0
}

/// A key held by no pair looks up to nothing.
pub proof fn lemma_lookup_absent<V>(s: Seq<(Seq<char>, V)>, k: Seq<char>)
    requires
        forall|i: int| 0 <= i < s.len() ==> s[i].0 != k,
    ensures
        assoc_lookup(s, k) is None,
    decreases s.len(),
{
    if s.len() > 0 {
        lemma_lookup_absent(s.drop_first(), k);
    }
}

/// A key that looks up to nothing is held by no pair.
pub proof fn lemma_lookup_none_absent<V>(s: Seq<(Seq<char>, V)>, k: Seq<char>)
    requires
        assoc_lookup(s, k) is None,
    ensures
        forall|i: int| 0 <= i < s.len() ==> s[i].0 != k,
    decreases s.len(),
{
    if s.len() > 0 {
        lemma_lookup_none_absent(s.drop_first(), k);
        assert(forall|i: int|
            1 <= i < s.len() ==> s[i] == s.drop_first()[i - 1] && s.drop_first()[i - 1].0 != k);
    }
}

/// A successful lookup comes from some pair of the list.
pub proof fn lemma_lookup_some_index<V>(s: Seq<(Seq<char>, V)>, k: Seq<char>)
    requires
        assoc_lookup(s, k) is Some,
    ensures
        exists|i: int|
            0 <= i < s.len() && s[i].0 == k && Some(s[i].1) == assoc_lookup(s, k),
    decreases s.len(),
{
    if s[0].0 == k {
        assert(0 <= 0 < s.len() && s[0].0 == k && Some(s[0].1) == assoc_lookup(s, k));
    } else {
        lemma_lookup_some_index(s.drop_first(), k);
        let i = choose|i: int|
            0 <= i < s.drop_first().len() && s.drop_first()[i].0 == k && Some(
                s.drop_first()[i].1,
            ) == assoc_lookup(s.drop_first(), k);
        assert(s[i + 1] == s.drop_first()[i]);
    }
}

/// The pair at the first index whose key is `k` is what lookup returns.
pub proof fn lemma_lookup_first_match<V>(s: Seq<(Seq<char>, V)>, k: Seq<char>, i: int)
    requires
        0 <= i < s.len(),
        s[i].0 == k,
        forall|j: int| 0 <= j < i ==> s[j].0 != k,
    ensures
        assoc_lookup(s, k) == Some(s[i].1),
    decreases s.len(),
{
    if i > 0 {
        lemma_lookup_first_match(s.drop_first(), k, i - 1);
    }
}

/// Appending a pair changes lookups of its key alone, and only where the
/// key was absent before.
pub proof fn lemma_lookup_push<V>(s: Seq<(Seq<char>, V)>, k2: Seq<char>, v: V, k: Seq<char>)
    ensures
        assoc_lookup(s.push((k2, v)), k) == (if assoc_lookup(s, k) is Some {
            assoc_lookup(s, k)
        } else if k == k2 {
            Some(v)
        } else {
            None::<V>
        }),
    decreases s.len(),
{
    if s.len() == 0 {
        assert(s.push((k2, v)).drop_first() =~= Seq::<(Seq<char>, V)>::empty());
    } else {
        assert(s.push((k2, v)).drop_first() =~= s.drop_first().push((k2, v)));
        lemma_lookup_push(s.drop_first(), k2, v, k);
    }
}

/// Overwriting the pair at an index with a pair of the same key changes
/// lookups of that key alone, when keys are distinct.
pub proof fn lemma_lookup_update<V>(s: Seq<(Seq<char>, V)>, i: int, v: V, k: Seq<char>)
    requires
        distinct_keys(s),
        0 <= i < s.len(),
    ensures
        assoc_lookup(s.update(i, (s[i].0, v)), k) == (if k == s[i].0 {
            Some(v)
        } else {
            assoc_lookup(s, k)
        }),
        distinct_keys(s.update(i, (s[i].0, v))),
    decreases s.len(),
{
    let t = s.update(i, (s[i].0, v));
    assert(forall|j: int| 0 <= j < s.len() ==> t[j].0 == s[j].0);
    if i == 0 {
        if k != s[0].0 {
            assert(t.drop_first() =~= s.drop_first());
        }
    } else {
        assert(t.drop_first() =~= s.drop_first().update(i - 1, (s[i].0, v)));
        assert(s.drop_first()[i - 1] == s[i]);
        lemma_lookup_update(s.drop_first(), i - 1, v, k);
        assert(t[0].0 == s[0].0);
        if k == s[i].0 {
            assert(s[0].0 != s[i].0);
        }
    }
}

/// Removing the pair at an index erases lookups of its key and keeps all
/// others, when keys are distinct.
pub proof fn lemma_lookup_remove<V>(s: Seq<(Seq<char>, V)>, i: int, k: Seq<char>)
    requires
        distinct_keys(s),
        0 <= i < s.len(),
    ensures
        assoc_lookup(s.remove(i), k) == (if k == s[i].0 {
            None::<V>
        } else {
            assoc_lookup(s, k)
        }),
        distinct_keys(s.remove(i)),
    decreases s.len(),
{
    let t = s.remove(i);
    if i == 0 {
        assert(t =~= s.drop_first());
        if k == s[0].0 {
            assert(forall|j: int| 0 <= j < t.len() ==> t[j].0 != k);
            lemma_lookup_absent(t, k);
        }
    } else {
        assert(t.drop_first() =~= s.drop_first().remove(i - 1));
        assert(s.drop_first()[i - 1] == s[i]);
        lemma_lookup_remove(s.drop_first(), i - 1, k);
        if k == s[i].0 {
            assert(s[0].0 != s[i].0);
        }
    }
}

} // verus!
