//! Lists that are merged without repeating anything, and lists with gaps.
use vstd::prelude::*;

verus! {

/// `base`, then those of `extras` that are not there yet, each once.
pub open spec fn merged<A>(base: Seq<A>, extras: Seq<A>) -> Seq<A>
    decreases extras.len(),
{
    if extras.len() == 0 {
        base
    } else {
        let before = merged(base, extras.drop_last());
        if before.contains(extras.last()) {
            before
        } else {
            before.push(extras.last())
        }
    }
}

/// A merged list starts with `base`, and holds exactly what either list holds.
pub proof fn lemma_merged<A>(base: Seq<A>, extras: Seq<A>, x: A)
    ensures
        merged(base, extras).contains(x) <==> base.contains(x) || extras.contains(x),
        base.is_prefix_of(merged(base, extras)),
    decreases extras.len(),
{
    if extras.len() > 0 {
        lemma_merged(base, extras.drop_last(), x);
        let before = merged(base, extras.drop_last());
        let last = extras.last();
        assert(extras =~= extras.drop_last().push(last));
        if extras.contains(x) {
            let i = extras.index_of(x);
            if i < extras.len() - 1 {
                assert(extras.drop_last()[i] == x);
            }
        }
        if extras.drop_last().contains(x) {
            let i = extras.drop_last().index_of(x);
            assert(extras[i] == x);
        }
        assert(extras[extras.len() - 1] == last);
        if !before.contains(last) {
            assert(before.push(last)[before.len() as int] == last);
            if before.contains(x) {
                let i = before.index_of(x);
                assert(before.push(last)[i] == x);
            }
            if before.push(last).contains(x) {
                let i = before.push(last).index_of(x);
                if i < before.len() {
                    assert(before[i] == x);
                }
            }
        }
    }
}

/// Merging two lists one after the other is merging them as one list.
pub proof fn lemma_merged_parts<A>(base: Seq<A>, first: Seq<A>, second: Seq<A>)
    ensures
        merged(base, first + second) == merged(merged(base, first), second),
    decreases second.len(),
{
    if second.len() == 0 {
        assert(first + second =~= first);
    } else {
        assert((first + second).drop_last() =~= first + second.drop_last());
        lemma_merged_parts(base, first, second.drop_last());
    }
}

/// Where `base` repeats nothing, the merged list repeats nothing.
pub proof fn lemma_merged_repeats_nothing<A>(base: Seq<A>, extras: Seq<A>)
    requires
        base.no_duplicates(),
    ensures
        merged(base, extras).no_duplicates(),
    decreases extras.len(),
{
    if extras.len() > 0 {
        lemma_merged_repeats_nothing(base, extras.drop_last());
    }
}

/// A list that repeats nothing is merged into an empty one as it is.
pub proof fn lemma_merged_into_empty<A>(list: Seq<A>)
    requires
        list.no_duplicates(),
    ensures
        merged(Seq::empty(), list) == list,
    decreases list.len(),
{
    if list.len() > 0 {
        let front = list.drop_last();
        lemma_merged_into_empty(front);
        if front.contains(list.last()) {
            let i = front.index_of(list.last());
            assert(list[i] == list[list.len() - 1]);
        }
        assert(list =~= front.push(list.last()));
    }
}

/// The values that are there, in their order.
pub open spec fn kept<A>(list: Seq<Option<A>>) -> Seq<A>
    decreases list.len(),
{
    if list.len() == 0 {
        Seq::empty()
    } else {
        match list.last() {
            Some(x) => kept(list.drop_last()).push(x),
            None => kept(list.drop_last()),
        }
    }
}

/// A value that is missing hides no other: each that is there is kept, right
/// behind those that are there before it.
pub proof fn lemma_kept<A>(list: Seq<Option<A>>, i: int)
    requires
        0 <= i < list.len(),
    ensures
        kept(list.subrange(0, i)).is_prefix_of(kept(list)),
        list[i] is Some ==> {
            &&& kept(list.subrange(0, i)).len() < kept(list).len()
            &&& kept(list)[kept(list.subrange(0, i)).len() as int] == list[i]->0
        },
    decreases list.len(),
{
    if i == list.len() - 1 {
        assert(list.subrange(0, i) =~= list.drop_last());
    } else {
        lemma_kept(list.drop_last(), i);
        assert(list.drop_last().subrange(0, i) =~= list.subrange(0, i));
    }
}

/// Where nothing is missing everything is kept.
pub proof fn lemma_all_kept<A>(list: Seq<Option<A>>)
    requires
        forall|i: int| 0 <= i < list.len() ==> (#[trigger] list[i]) is Some,
    ensures
        kept(list) == list.map_values(|x: Option<A>| x->0),
    decreases list.len(),
{
    let f = |x: Option<A>| x->0;
    if list.len() > 0 {
        assert(list[list.len() - 1] is Some);
        lemma_all_kept(list.drop_last());
        assert(list.map_values(f) =~= list.drop_last().map_values(f).push(list.last()->0));
    } else {
        assert(list.map_values(f) =~= Seq::<A>::empty());
    }
}

/// Keeps the values that are there.
pub fn keep<A>(list: Vec<Option<A>>) -> (values: Vec<A>)
    ensures
        values@ == kept(list@),
{
    let ghost all = list@;
    let mut rest = list;
    let mut values: Vec<A> = Vec::new();
    let mut done: usize = 0;
    let total: usize = rest.len();
    assert(all.subrange(0, 0) =~= Seq::<Option<A>>::empty());
    while rest.len() > 0
        invariant
            done + rest@.len() == all.len(),
            all.len() == total,
            rest@ == all.subrange(done as int, all.len() as int),
            values@ == kept(all.subrange(0, done as int)),
        decreases rest@.len(),
    {
        let first = rest.remove(0);
        proof {
            let longer = all.subrange(0, done + 1);
            assert(longer.drop_last() =~= all.subrange(0, done as int));
            assert(longer.last() == first);
            assert(rest@ =~= all.subrange(done + 1, all.len() as int));
        }
        match first {
            Some(x) => {
                values.push(x);
            },
            None => {},
        }
        done += 1;
    }
    assert(all.subrange(0, done as int) =~= all);
    values
}

} // verus!
