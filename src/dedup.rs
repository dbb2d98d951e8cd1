//! Dropping subtitles that repeat the (language, episode) of an earlier one.

use vstd::prelude::*;

use crate::media::Subtitle;
use crate::series::{same_series, SeriesInfo};

verus! {

/// What makes two subtitles duplicates of each other: language and episode.
pub open spec fn sub_key(x: Subtitle) -> (Seq<char>, Option<SeriesInfo>) {
    (x.lang.code@, x.series_info)
}

/// Some subtitle of `s` has key `k`.
pub open spec fn has_key(s: Seq<Subtitle>, k: (Seq<char>, Option<SeriesInfo>)) -> bool {
    exists|j: int| 0 <= j < s.len() && sub_key(#[trigger] s[j]) == k
}

/// `s` with every subtitle dropped whose key an earlier one has: the first
/// of each key stays, in its place.
pub open spec fn dedup(s: Seq<Subtitle>) -> Seq<Subtitle>
    decreases s.len(),
{
    if s.len() == 0 {
        s
    } else {
        let p = s.drop_last();
        if has_key(p, sub_key(s.last())) {
            dedup(p)
        } else {
            dedup(p).push(s.last())
        }
    }
}

/// No two subtitles of `s` have the same key.
pub open spec fn keys_distinct(s: Seq<Subtitle>) -> bool {
    forall|i: int, j: int|
        0 <= i < j < s.len() ==> sub_key(#[trigger] s[i]) != sub_key(#[trigger] s[j])
}

proof fn lemma_has_key_push(t: Seq<Subtitle>, x: Subtitle, k: (Seq<char>, Option<SeriesInfo>))
    ensures
        has_key(t.push(x), k) == (has_key(t, k) || sub_key(x) == k),
{
    if has_key(t, k) {
        let j = choose|j: int| 0 <= j < t.len() && sub_key(#[trigger] t[j]) == k;
        assert(t.push(x)[j] == t[j]);
    }
    if sub_key(x) == k {
        assert(t.push(x)[t.len() as int] == x);
    }
    if has_key(t.push(x), k) {
        let j = choose|j: int| 0 <= j < t.push(x).len() && sub_key(#[trigger] t.push(x)[j]) == k;
        if j < t.len() {
            assert(t[j] == t.push(x)[j]);
        }
    }
}

/// Deduplication keeps every key that occurs and makes up none.
pub proof fn lemma_dedup_has_key(s: Seq<Subtitle>, k: (Seq<char>, Option<SeriesInfo>))
    ensures
        has_key(dedup(s), k) == has_key(s, k),
    decreases s.len(),
{
    if s.len() > 0 {
        let p = s.drop_last();
        let x = s.last();
        assert(s =~= p.push(x));
        lemma_dedup_has_key(p, k);
        lemma_has_key_push(p, x, k);
        if !has_key(p, sub_key(x)) {
            lemma_has_key_push(dedup(p), x, k);
        }
    }
}

/// No two subtitles that deduplication keeps have the same key.
pub proof fn lemma_dedup_keys_distinct(s: Seq<Subtitle>)
    ensures
        keys_distinct(dedup(s)),
    decreases s.len(),
{
    if s.len() > 0 {
        let p = s.drop_last();
        let x = s.last();
        lemma_dedup_keys_distinct(p);
        if !has_key(p, sub_key(x)) {
            lemma_dedup_has_key(p, sub_key(x));
            let d = dedup(p);
            let e = d.push(x);
            assert forall|i: int, j: int| 0 <= i < j < e.len() implies sub_key(#[trigger] e[i])
                != sub_key(#[trigger] e[j]) by {
                if j == d.len() {
                    assert(e[i] == d[i]);
                    if sub_key(d[i]) == sub_key(x) {
                        assert(has_key(d, sub_key(x)));
                    }
                } else {
                    assert(e[i] == d[i] && e[j] == d[j]);
                }
            }
        }
    }
}

/// A sequence whose keys are already distinct is left as it is.
pub proof fn lemma_dedup_distinct_unchanged(s: Seq<Subtitle>)
    requires
        keys_distinct(s),
    ensures
        dedup(s) == s,
    decreases s.len(),
{
    if s.len() > 0 {
        let p = s.drop_last();
        let x = s.last();
        assert(keys_distinct(p)) by {
            assert forall|i: int, j: int| 0 <= i < j < p.len() implies sub_key(#[trigger] p[i])
                != sub_key(#[trigger] p[j]) by {
                assert(p[i] == s[i] && p[j] == s[j]);
            }
        }
        lemma_dedup_distinct_unchanged(p);
        if has_key(p, sub_key(x)) {
            let j = choose|j: int| 0 <= j < p.len() && sub_key(#[trigger] p[j]) == sub_key(x);
            assert(s[j] == p[j]);
            assert(sub_key(s[j]) != sub_key(s[s.len() - 1]));
        }
        assert(s =~= p.push(x));
    }
}

/// Deduplicating twice gives what deduplicating once gives.
pub proof fn lemma_dedup_idempotent(s: Seq<Subtitle>)
    ensures
        dedup(dedup(s)) == dedup(s),
{
    lemma_dedup_keys_distinct(s);
    lemma_dedup_distinct_unchanged(dedup(s));
}

/// Whether a subtitle before position `i` has the key of the one at `i`.
fn key_seen_before(subs: &Vec<Subtitle>, i: usize) -> (r: bool)
    requires
        i < subs@.len(),
    ensures
        r == has_key(subs@.subrange(0, i as int), sub_key(subs@[i as int])),
{
    let ghost prefix = subs@.subrange(0, i as int);
    let mut j: usize = 0;
    while j < i
        invariant
            i < subs@.len(),
            j <= i,
            prefix == subs@.subrange(0, i as int),
            forall|m: int| 0 <= m < j ==> sub_key(#[trigger] prefix[m]) != sub_key(subs@[i as int]),
        decreases i - j,
    {
        if subs[j].lang.same_language(&subs[i].lang) && same_series(
            subs[j].series_info,
            subs[i].series_info,
        ) {
            assert(prefix[j as int] == subs@[j as int]);
            return true;
        }
        assert(prefix[j as int] == subs@[j as int]);
        j = j + 1;
    }
    false
}

/// Keeps, of the subtitles that share a language and an episode, the first
/// one only; the order of those kept does not change.
pub fn remove_duplicate_languages(subs: &mut Vec<Subtitle>)
    ensures
        final(subs)@ == dedup(old(subs)@),
{
    let ghost orig = subs@;
    let n: usize = subs.len();
    let mut i: usize = 0;
    let mut k: usize = 0;
    proof {
        assert(orig.subrange(0, 0) =~= Seq::<Subtitle>::empty());
        assert(subs@ =~= dedup(orig.subrange(0, 0)) + orig.subrange(0, n as int));
    }
    while i < subs.len()
        invariant
            n == orig.len(),
            k <= n,
            i == dedup(orig.subrange(0, k as int)).len(),
            subs@ == dedup(orig.subrange(0, k as int)) + orig.subrange(k as int, n as int),
        decreases n - k,
    {
        let ghost d = dedup(orig.subrange(0, k as int));
        let ghost t = orig.subrange(0, k as int + 1);
        proof {
            assert(t.drop_last() =~= orig.subrange(0, k as int));
            assert(subs@[i as int] == orig[k as int]);
            assert(subs@.subrange(0, i as int) =~= d);
            lemma_dedup_has_key(orig.subrange(0, k as int), sub_key(orig[k as int]));
        }
        if key_seen_before(subs, i) {
            subs.remove(i);
            proof {
                assert(subs@ =~= dedup(t) + orig.subrange(k as int + 1, n as int));
            }
        } else {
            proof {
                assert(dedup(t) == d.push(orig[k as int]));
                assert(subs@ =~= dedup(t) + orig.subrange(k as int + 1, n as int));
            }
            i = i + 1;
        }
        k = k + 1;
    }
    proof {
        assert(orig.subrange(0, k as int) =~= orig) by {
            if k < n {
                assert(subs@.len() > i);
            }
        }
        assert(subs@ =~= dedup(orig));
    }
}

} // verus!
