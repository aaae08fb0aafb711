//! Searching lists: the first element that has a property, and bytes at a place.

use vstd::prelude::*;

verus! {

/// The first place from `from` on at which `hit` holds, or the end.
pub open spec fn first_hit<T>(items: Seq<T>, hit: spec_fn(T) -> bool, from: int) -> int
    decreases items.len() - from,
{
    if from < 0 || from >= items.len() {
        items.len() as int
    } else if hit(items[from]) {
        from
    } else {
        first_hit(items, hit, from + 1)
    }
}

pub proof fn lemma_first_hit<T>(items: Seq<T>, hit: spec_fn(T) -> bool, from: int)
    requires
        0 <= from <= items.len(),
    ensures
        from <= first_hit(items, hit, from) <= items.len(),
        first_hit(items, hit, from) < items.len() ==> hit(items[first_hit(items, hit, from)]),
        forall|k: int| from <= k < first_hit(items, hit, from) ==> !hit(#[trigger] items[k]),
    decreases items.len() - from,
{
    if from < items.len() && !hit(items[from]) {
        lemma_first_hit(items, hit, from + 1);
    }
}

/// Whether some bytes stand at a place.
pub fn bytes_stand(haystack: &[u8], at: usize, needle: &[u8]) -> (r: bool)
    requires
        at + needle@.len() <= haystack@.len(),
    ensures
        r == (haystack@.subrange(at as int, at + needle@.len()) == needle@),
{
    let total: usize = haystack.len();
    let mut i: usize = 0;
    while i < needle.len()
        invariant
            at + needle@.len() <= haystack@.len() == total,
            i <= needle@.len(),
            forall|k: int| 0 <= k < i ==> #[trigger] needle@[k] == haystack@[at + k],
        decreases needle@.len() - i,
    {
        if haystack[at + i] != needle[i] {
            proof {
                let part = haystack@.subrange(at as int, at + needle@.len());
                assert(part[i as int] != needle@[i as int]);
            }
            return false;
        }
        i += 1;
    }
    assert(haystack@.subrange(at as int, at + needle@.len()) =~= needle@);
    true
}

} // verus!
