//! The sheet store's mathematical model: the stored entries, a sequence of
//! name/grid pairs with pairwise-distinct names, are read in contracts as a
//! `Map` from the name's characters to the grid's cell characters.

use vstd::prelude::*;

verus! {

/// A grid of text cells: rows of cells, possibly ragged. Row 0 is the header.
pub type Grid = Vec<Vec<String>>;

/// One stored sheet: its name and its grid.
pub type Entry = (String, Grid);

/// The map from sheet name to grid that a sequence of entries denotes.
/// A later entry with the same name shadows an earlier one; under
/// `unique_keys` no shadowing occurs.
pub open spec fn store_map(e: Seq<Entry>) -> Map<Seq<char>, Seq<Seq<Seq<char>>>>
    decreases e.len(),
{
    if e.len() == 0 {
        Map::<Seq<char>, Seq<Seq<Seq<char>>>>::empty()
    } else {
        store_map(e.drop_last()).insert(e.last().0@, e.last().1.deep_view())
    }
}

/// All entry names are pairwise distinct.
pub open spec fn unique_keys(e: Seq<Entry>) -> bool {
    forall|i: int, j: int| 0 <= i < j < e.len() ==> e[i].0@ != e[j].0@
}

/// A name is in the map exactly when some entry carries it.
pub proof fn lemma_store_map_contains(e: Seq<Entry>, k: Seq<char>)
    ensures
        store_map(e).contains_key(k) <==> exists|i: int| 0 <= i < e.len() && e[i].0@ == k,
    decreases e.len(),
{
    if e.len() > 0 {
        lemma_store_map_contains(e.drop_last(), k);
        if e.last().0@ == k {
            assert(0 <= e.len() - 1 < e.len() && e[e.len() - 1].0@ == k);
        } else if store_map(e).contains_key(k) {
            let i = choose|i: int| 0 <= i < e.drop_last().len() && e.drop_last()[i].0@ == k;
            assert(0 <= i < e.len() && e[i].0@ == k);
        } else if exists|i: int| 0 <= i < e.len() && e[i].0@ == k {
            let i = choose|i: int| 0 <= i < e.len() && e[i].0@ == k;
            assert(i < e.len() - 1);
            assert(e.drop_last()[i].0@ == k);
        }
    }
}

/// Under distinct names, the map sends each entry's name to its grid.
pub proof fn lemma_store_map_get(e: Seq<Entry>, i: int)
    requires
        unique_keys(e),
        0 <= i < e.len(),
    ensures
        store_map(e).contains_key(e[i].0@),
        store_map(e)[e[i].0@] == e[i].1.deep_view(),
    decreases e.len(),
{
    if i == e.len() - 1 {
    } else {
        assert(unique_keys(e.drop_last())) by {
            assert(forall|x: int, y: int|
                0 <= x < y < e.drop_last().len() ==> e.drop_last()[x].0@ != e.drop_last()[y].0@);
        }
        lemma_store_map_get(e.drop_last(), i);
        assert(e.last().0@ != e[i].0@);
    }
}

/// Under distinct names, removing the entry at `i` removes exactly its name
/// from the map.
pub proof fn lemma_store_map_remove(e: Seq<Entry>, i: int)
    requires
        unique_keys(e),
        0 <= i < e.len(),
    ensures
        store_map(e.remove(i)) == store_map(e).remove(e[i].0@),
    decreases e.len(),
{
    if i == e.len() - 1 {
        assert(e.remove(i) =~= e.drop_last());
        lemma_store_map_contains(e.drop_last(), e[i].0@);
        assert(!store_map(e.drop_last()).contains_key(e[i].0@));
        assert(store_map(e.remove(i)) =~= store_map(e).remove(e[i].0@));
    } else {
        assert(unique_keys(e.drop_last()));
        lemma_store_map_remove(e.drop_last(), i);
        assert(e.remove(i).drop_last() =~= e.drop_last().remove(i));
        assert(e.remove(i).last() == e.last());
        assert(store_map(e.remove(i)) == store_map(e.drop_last().remove(i)).insert(
            e.last().0@,
            e.last().1.deep_view(),
        ));
        assert(e[i].0@ != e.last().0@);
        assert(store_map(e.drop_last()).remove(e[i].0@).insert(e.last().0@, e.last().1.deep_view())
            =~= store_map(e).remove(e[i].0@));
    }
}

/// Distinct names survive removing an entry.
pub proof fn lemma_unique_keys_remove(e: Seq<Entry>, i: int)
    requires
        unique_keys(e),
        0 <= i < e.len(),
    ensures
        unique_keys(e.remove(i)),
{
    assert(forall|x: int, y: int|
        0 <= x < y < e.remove(i).len() ==> e.remove(i)[x].0@ != e.remove(i)[y].0@) by {
        assert(forall|x: int|
            0 <= x < e.remove(i).len() ==> e.remove(i)[x] == (if x < i {
                e[x]
            } else {
                e[x + 1]
            }));
    }
}

/// Distinct names survive appending an entry whose name is new.
pub proof fn lemma_unique_keys_push(e: Seq<Entry>, x: Entry)
    requires
        unique_keys(e),
        forall|i: int| 0 <= i < e.len() ==> e[i].0@ != x.0@,
    ensures
        unique_keys(e.push(x)),
{
}

} // verus!
