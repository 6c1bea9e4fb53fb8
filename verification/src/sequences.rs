//! Facts about sequences that several modules use.

use vstd::prelude::*;

verus! {

/// What `filter_map` keeps of an element is among its results.
pub proof fn lemma_filter_map_keeps<A, B>(items: Seq<A>, f: spec_fn(A) -> Option<B>, i: int)
    requires
        0 <= i < items.len(),
        f(items[i]) is Some,
    ensures
        items.filter_map(f).contains(f(items[i])->Some_0),
    decreases items.len(),
{
    let rest = items.drop_last();
    let wanted = f(items[i])->Some_0;
    if i == items.len() - 1 {
        let all = rest.filter_map(f) + seq![wanted];
        assert(all[all.len() - 1] == wanted);
    } else {
        lemma_filter_map_keeps(rest, f, i);
        let k = choose|k: int| 0 <= k < rest.filter_map(f).len() && rest.filter_map(f)[k] == wanted;
        match f(items.last()) {
            Some(last) => {
                assert((rest.filter_map(f) + seq![last])[k] == wanted);
            },
            None => {},
        }
    }
}

/// Each result of `filter_map` is what it keeps of some element.
pub proof fn lemma_filter_map_source<A, B>(items: Seq<A>, f: spec_fn(A) -> Option<B>, k: int) -> (i:
    int)
    requires
        0 <= k < items.filter_map(f).len(),
    ensures
        0 <= i < items.len(),
        f(items[i]) == Some(items.filter_map(f)[k]),
{
    let kept = items.filter_map(f)[k];
    assert(items.filter_map(f).contains(kept));
    items.lemma_filter_map_contains(f, kept);
    let t = choose|t: A| #[trigger] items.contains(t) && f(t) == Some(kept);
    choose|i: int| 0 <= i < items.len() && items[i] == t
}

} // verus!
