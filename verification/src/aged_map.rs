//! A bounded table of peers in which the oldest entry makes room.
use vstd::prelude::*;
use crate::text_map::TextMap;

verus! {

/// A value with the age that decides which entry makes room: the smaller, the older.
pub struct Aged<V> {
    pub value: V,
    pub age: u64,
}

/// No entry is older than that of `key`.
pub open spec fn is_oldest<V>(map: Map<Seq<char>, Aged<V>>, key: Seq<char>) -> bool {
    &&& map.dom().contains(key)
    &&& forall|k: Seq<char>| #[trigger] map.dom().contains(k) ==> map[key].age <= map[k].age
}

/// `after` is `before` with room for `key`: where the table was full and `key`
/// is new, one oldest entry is gone, else nothing changed.
pub open spec fn has_room_for<V>(
    before: Map<Seq<char>, Aged<V>>,
    after: Map<Seq<char>, Aged<V>>,
    key: Seq<char>,
    cap: nat,
) -> bool {
    if before.len() >= cap && !before.dom().contains(key) && before.len() > 0 {
        exists|k: Seq<char>| is_oldest(before, k) && after == #[trigger] before.remove(k)
    } else {
        after == before
    }
}

fn oldest<V>(map: &TextMap<Aged<V>>) -> (key: String)
    requires
        map.wf(),
        map@.len() > 0,
    ensures
        is_oldest(map@, key@),
{
    let n: usize = map.len();
    proof {
        map.lemma_entries();
    }
    let mut best: usize = 0;
    let mut i: usize = 1;
    while i < n
        invariant
            map.wf(),
            n == map.keys().len(),
            n == map.values().len(),
            1 <= i <= n,
            best < i,
            forall|j: int| 0 <= j < i ==> map.values()[best as int].age <= (
            #[trigger] map.values()[j]).age,
        decreases n - i,
    {
        if map.value_at(i).age < map.value_at(best).age {
            best = i;
        }
        i += 1;
    }
    proof {
        map.lemma_entries();
        let key = map.keys()[best as int];
        assert forall|k: Seq<char>| #[trigger] map@.dom().contains(k) implies map@[key].age
            <= map@[k].age by {
            assert(map.keys().to_set().contains(k));
            let j = map.keys().index_of(k);
            assert(map.keys()[j] == k);
        }
    }
    map.key_at(best).clone()
}

/// Makes room for `key` in a table of at most `cap` entries.
pub fn make_room<V>(map: &mut TextMap<Aged<V>>, key: &String, cap: usize)
    requires
        old(map).wf(),
    ensures
        final(map).wf(),
        has_room_for(old(map)@, final(map)@, key@, cap as nat),
{
    let n: usize = map.len();
    if n >= cap && n > 0 && !map.contains(key) {
        let victim = oldest(map);
        map.remove(&victim);
        assert(is_oldest(old(map)@, victim@) && map@ == old(map)@.remove(victim@));
    }
}

/// Nothing is lost while there is room, or where the key is known already; a full
/// table loses one entry, and none that stays is older than the one that goes.
pub proof fn law_only_the_oldest_makes_room<V>(
    before: Map<Seq<char>, Aged<V>>,
    after: Map<Seq<char>, Aged<V>>,
    key: Seq<char>,
    cap: nat,
)
    requires
        has_room_for(before, after, key, cap),
        cap > 0,
    ensures
        before.len() < cap || before.dom().contains(key) ==> after == before,
        before.len() >= cap && !before.dom().contains(key) ==> exists|gone: Seq<char>|
            before.dom().contains(gone) && after == #[trigger] before.remove(gone) && (forall|
                k: Seq<char>,
            |
                #[trigger] after.dom().contains(k) ==> before[gone].age <= after[k].age),
{
    if before.len() >= cap && !before.dom().contains(key) {
        let gone = choose|k: Seq<char>| is_oldest(before, k) && after == #[trigger] before.remove(k);
        assert(after == before.remove(gone));
        assert forall|k: Seq<char>| #[trigger] after.dom().contains(k) implies before[gone].age
            <= after[k].age by {
            assert(before.dom().contains(k));
        }
    }
}

/// A table of at most `cap` entries stays one when an entry is put in after
/// room was made for it.
pub proof fn law_table_stays_bounded<V>(
    before: Map<Seq<char>, Aged<V>>,
    room: Map<Seq<char>, Aged<V>>,
    key: Seq<char>,
    entry: Aged<V>,
    cap: nat,
)
    requires
        before.dom().finite(),
        before.len() <= cap,
        cap > 0,
        has_room_for(before, room, key, cap),
    ensures
        room.insert(key, entry).dom().finite(),
        room.insert(key, entry).len() <= cap,
{
    if before.len() >= cap && !before.dom().contains(key) {
        let k = choose|k: Seq<char>| is_oldest(before, k) && room == #[trigger] before.remove(k);
        assert(room.dom() =~= before.dom().remove(k));
        assert(room.insert(key, entry).dom() =~= room.dom().insert(key));
    } else {
        assert(room.insert(key, entry).dom() =~= room.dom().insert(key));
    }
}

} // verus!
