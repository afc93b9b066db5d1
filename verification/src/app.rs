//! The sheet store and navigation state machine: named grids held in memory,
//! at most one of them active, and a row-selection cursor with wraparound.

use vstd::pervasive::unreached;
use vstd::prelude::*;

use crate::store::{
    lemma_store_map_contains, lemma_store_map_get, lemma_store_map_remove, lemma_unique_keys_push,
    lemma_unique_keys_remove, store_map, unique_keys, Grid,
};
use crate::text::{spec_dec, str_eq, usize_to_string};

verus! {

/// A named grid of text cells. Row 0 of `data` is conventionally the header
/// row; the remaining rows are the body rows.
#[derive(Debug)]
pub struct Sheet {
    pub name: String,
    pub data: Grid,
}

/// Fatal precondition violation: the caller asked to activate a sheet name
/// that is not in the store.
#[derive(Debug)]
pub struct MyError {}

/// The viewer core: the stored (inactive) sheets, the single active sheet,
/// and the current row selection.
pub struct App {
    /// Selected body-row index of the active sheet, if a selection was made.
    pub state: Option<usize>,
    /// The stored sheets, keyed by name; entry order carries no meaning.
    pub sheets: Vec<(String, Grid)>,
    /// The single active sheet, if one has been activated.
    pub current: Option<Sheet>,
}

/// The key under which `add_sheet` files a grid: the given name, or the
/// store's size rendered as decimal text when no name is given.
pub open spec fn added_key(name: Option<String>, store_len: nat) -> Seq<char> {
    match name {
        Option::Some(n) => n@,
        Option::None => spec_dec(store_len),
    }
}

/// One `next` step on a selected row index, over `n` body rows: advance by
/// one, wrapping the last row (and any stale out-of-range index) to row 0;
/// with no body rows, row 0 is recorded regardless.
pub open spec fn next_of(i: nat, n: nat) -> nat {
    if n == 0 {
        0
    } else if i + 1 < n {
        i + 1
    } else {
        0
    }
}

/// One `previous` step on a selected row index, over `n` body rows: step
/// back by one, wrapping row 0 to the last row; with no body rows, row 0 is
/// recorded regardless.
pub open spec fn prev_of(i: nat, n: nat) -> nat {
    if i == 0 {
        if n == 0 {
            0
        } else {
            (n - 1) as nat
        }
    } else {
        (i - 1) as nat
    }
}

/// The row that a `next` call selects: row 0 when nothing is selected yet,
/// otherwise one `next` step.
pub open spec fn next_index(sel: Option<usize>, n: nat) -> nat {
    match sel {
        Option::None => 0,
        Option::Some(i) => next_of(i as nat, n),
    }
}

/// The row that a `previous` call selects: row 0 when nothing is selected
/// yet, otherwise one `previous` step.
pub open spec fn prev_index(sel: Option<usize>, n: nat) -> nat {
    match sel {
        Option::None => 0,
        Option::Some(i) => prev_of(i as nat, n),
    }
}

/// `k` successive `next` steps from a selected row index.
pub open spec fn next_iter(i: nat, n: nat, k: nat) -> nat
    decreases k,
{
    if k == 0 {
        i
    } else {
        next_of(next_iter(i, n, (k - 1) as nat), n)
    }
}

/// `k` successive `previous` steps from a selected row index.
pub open spec fn prev_iter(i: nat, n: nat, k: nat) -> nat
    decreases k,
{
    if k == 0 {
        i
    } else {
        prev_of(prev_iter(i, n, (k - 1) as nat), n)
    }
}

/// What activating the sheet named `name` does: `post` is `pre` with that
/// sheet moved from the store to the active slot, the previously active
/// sheet (if any) filed back in the store under its own name, and the
/// selection untouched. When the active sheet's name was not also stored,
/// the combined collection of sheets is exactly the same map before and
/// after — no sheet lost, duplicated, or changed — and store and active
/// slot stay disjoint.
pub open spec fn switched(pre: App, post: App, name: Seq<char>) -> bool {
    &&& post.wf()
    &&& post.state == pre.state
    &&& post.current matches Some(s) && s.name@ == name && s.data.deep_view()
        == pre.store()[name]
    &&& post.store() == (match pre.current {
        Option::None => pre.store().remove(name),
        Option::Some(c) => pre.store().remove(name).insert(c.name@, c.data.deep_view()),
    })
    &&& pre.active_not_stored() ==> post.active_not_stored() && post.all_sheets()
        == pre.all_sheets()
}

impl App {
    /// The store as a map from sheet name to grid.
    pub open spec fn store(self) -> Map<Seq<char>, Seq<Seq<Seq<char>>>> {
        store_map(self.sheets@)
    }

    /// Well-formed: stored sheet names are pairwise distinct.
    pub open spec fn wf(self) -> bool {
        unique_keys(self.sheets@)
    }

    /// The active sheet's name is not also a key of the store.
    pub open spec fn active_not_stored(self) -> bool {
        match self.current {
            Option::None => true,
            Option::Some(c) => !self.store().contains_key(c.name@),
        }
    }

    /// Every sheet held anywhere: the store together with the active slot.
    pub open spec fn all_sheets(self) -> Map<Seq<char>, Seq<Seq<Seq<char>>>> {
        match self.current {
            Option::None => self.store(),
            Option::Some(c) => self.store().insert(c.name@, c.data.deep_view()),
        }
    }

    /// Number of body rows of the active sheet: its row count less the
    /// header row, or zero when no sheet is active or the grid is empty.
    pub open spec fn body_rows(self) -> nat {
        match self.current {
            Option::None => 0,
            Option::Some(s) => if s.data@.len() == 0 {
                0
            } else {
                (s.data@.len() - 1) as nat
            },
        }
    }

    /// A fresh viewer: nothing stored, nothing active, nothing selected.
    pub fn new() -> (app: App)
        ensures
            app.state is None,
            app.current is None,
            app.sheets@.len() == 0,
            app.store() == Map::<Seq<char>, Seq<Seq<Seq<char>>>>::empty(),
            app.wf(),
            app.active_not_stored(),
    {
        App { state: None, sheets: Vec::new(), current: None }
    }

    /// The index of the stored sheet with the given name, if any.
    fn find_sheet(&self, name: &str) -> (r: Option<usize>)
        ensures
            match r {
                Option::Some(i) => 0 <= i < self.sheets@.len() && self.sheets@[i as int].0@
                    == name@,
                Option::None => forall|j: int|
                    0 <= j < self.sheets@.len() ==> self.sheets@[j].0@ != name@,
            },
    {
        let mut i: usize = 0;
        while i < self.sheets.len()
            invariant
                i <= self.sheets@.len(),
                forall|j: int| 0 <= j < i ==> self.sheets@[j].0@ != name@,
            decreases self.sheets@.len() - i,
        {
            let entry = &self.sheets[i];
            if str_eq(entry.0.as_str(), name) {
                return Some(i);
            }
            i += 1;
        }
        None
    }

    /// Removes the stored entry with the given name and hands it out, name
    /// and grid together; with no such entry, nothing changes.
    fn take_entry(&mut self, name: &str) -> (r: Option<(String, Grid)>)
        requires
            old(self).wf(),
        ensures
            final(self).wf(),
            final(self).current == old(self).current,
            final(self).state == old(self).state,
            match r {
                Option::Some(e) => old(self).store().contains_key(name@) && e.0@ == name@
                    && e.1.deep_view() == old(self).store()[name@] && final(self).store() == old(
                    self,
                ).store().remove(name@),
                Option::None => !old(self).store().contains_key(name@) && *final(self) == *old(
                    self,
                ),
            },
    {
        proof {
            lemma_store_map_contains(self.sheets@, name@);
        }
        match self.find_sheet(name) {
            Some(i) => {
                proof {
                    lemma_store_map_get(self.sheets@, i as int);
                    lemma_store_map_remove(self.sheets@, i as int);
                    lemma_unique_keys_remove(self.sheets@, i as int);
                }
                Some(self.sheets.remove(i))
            },
            None => None,
        }
    }

    /// Atomically removes and returns the grid stored under `name`; an
    /// unknown name is reported as an error, and nothing changes.
    pub fn remove_and_take(&mut self, name: &str) -> (r: Result<Grid, MyError>)
        requires
            old(self).wf(),
        ensures
            final(self).wf(),
            final(self).current == old(self).current,
            final(self).state == old(self).state,
            match r {
                Result::Ok(g) => old(self).store().contains_key(name@) && g.deep_view() == old(
                    self,
                ).store()[name@] && final(self).store() == old(self).store().remove(name@),
                Result::Err(_) => !old(self).store().contains_key(name@) && *final(self) == *old(
                    self,
                ),
            },
    {
        match self.take_entry(name) {
            Some(e) => Ok(e.1),
            None => Err(MyError {}),
        }
    }

    /// Files a grid in the store under `key`, replacing any grid already
    /// filed under that name.
    fn store_insert(&mut self, key: String, grid: Grid)
        requires
            old(self).wf(),
        ensures
            final(self).wf(),
            final(self).store() == old(self).store().insert(key@, grid.deep_view()),
            final(self).current == old(self).current,
            final(self).state == old(self).state,
    {
        let ghost k: Seq<char> = key@;
        let ghost g: Seq<Seq<Seq<char>>> = grid.deep_view();
        match self.find_sheet(key.as_str()) {
            Some(i) => {
                proof {
                    lemma_store_map_get(self.sheets@, i as int);
                    lemma_store_map_remove(self.sheets@, i as int);
                    lemma_unique_keys_remove(self.sheets@, i as int);
                }
                let ghost e0 = self.sheets@;
                let _prev = self.sheets.remove(i);
                proof {
                    assert forall|j: int| 0 <= j < self.sheets@.len() implies self.sheets@[j].0@
                        != k by {
                        if j < i {
                            assert(self.sheets@[j] == e0[j]);
                        } else {
                            assert(self.sheets@[j] == e0[j + 1]);
                        }
                    }
                    lemma_unique_keys_push(self.sheets@, (key, grid));
                }
                let ghost e1 = self.sheets@;
                self.sheets.push((key, grid));
                proof {
                    assert(self.sheets@.drop_last() =~= e1);
                    assert(self.sheets@.last().0@ == k);
                    assert(final(self).store() =~= old(self).store().insert(k, g));
                }
            },
            None => {
                proof {
                    lemma_unique_keys_push(self.sheets@, (key, grid));
                }
                let ghost e1 = self.sheets@;
                self.sheets.push((key, grid));
                proof {
                    assert(self.sheets@.drop_last() =~= e1);
                    assert(self.sheets@.last().0@ == k);
                }
            },
        }
    }

    /// Files a grid under the given name, or under the store's current size
    /// rendered as text when no name is given; an existing grid under the
    /// same name is replaced. The active sheet and the selection are
    /// untouched; in particular, a grid filed under the active sheet's own
    /// name is shadowed by the active sheet until the next switch.
    pub fn add_sheet(&mut self, name: Option<String>, sheet: Grid)
        requires
            old(self).wf(),
        ensures
            final(self).wf(),
            final(self).store() == old(self).store().insert(
                added_key(name, old(self).sheets@.len() as nat),
                sheet.deep_view(),
            ),
            final(self).current == old(self).current,
            final(self).state == old(self).state,
            (match old(self).current {
                Option::None => true,
                Option::Some(c) => added_key(name, old(self).sheets@.len() as nat) != c.name@,
            }) ==> final(self).all_sheets() == old(self).all_sheets().insert(
                added_key(name, old(self).sheets@.len() as nat),
                sheet.deep_view(),
            ) && (old(self).active_not_stored() ==> final(self).active_not_stored()),
            (match old(self).current {
                Option::None => false,
                Option::Some(c) => added_key(name, old(self).sheets@.len() as nat) == c.name@,
            }) ==> final(self).all_sheets() == old(self).all_sheets(),
    {
        let ghost k: Seq<char> = added_key(name, old(self).sheets@.len() as nat);
        let ghost g: Seq<Seq<Seq<char>>> = sheet.deep_view();
        let key: String = match name {
            Some(n) => n,
            None => usize_to_string(self.sheets.len()),
        };
        self.store_insert(key, sheet);
        proof {
            match old(self).current {
                Option::Some(c) => {
                    if k != c.name@ {
                        assert(self.all_sheets() =~= old(self).all_sheets().insert(k, g));
                    } else {
                        assert(self.all_sheets() =~= old(self).all_sheets());
                    }
                },
                Option::None => {},
            }
        }
    }

    /// Makes the named stored sheet active, swapping the previously active
    /// sheet (if any) back into the store under its own name. The selection
    /// is deliberately not reset. The name must have been validated by the
    /// caller: activating an unknown name is a fatal caller fault.
    ///
    /// Swap invariant: when the active sheet's name is not also stored, the
    /// combined collection of sheets (store plus active slot) is exactly the
    /// same map before and after the switch — no sheet is lost, duplicated,
    /// or changed — and the store and the active slot stay disjoint.
    pub fn switch_sheet(&mut self, name: &str)
        requires
            old(self).wf(),
            old(self).store().contains_key(name@),
        ensures
            switched(*old(self), *final(self), name@),
    {
        let entry = match self.take_entry(name) {
            Some(e) => e,
            None => unreached(),
        };
        let prev = self.current.take();
        self.current = Some(Sheet { name: entry.0, data: entry.1 });
        match prev {
            Some(c) => {
                self.store_insert(c.name, c.data);
            },
            None => {},
        }
        proof {
            if old(self).active_not_stored() {
                match old(self).current {
                    Option::Some(c) => {
                        assert(c.name@ != name@);
                        assert(self.all_sheets() =~= old(self).all_sheets());
                    },
                    Option::None => {
                        assert(self.all_sheets() =~= old(self).all_sheets());
                    },
                }
            }
        }
    }

    /// Makes the named stored sheet active as `switch_sheet` does, but
    /// reports an unknown name as an error value instead of requiring the
    /// caller to have validated it; on an error nothing changes.
    pub fn try_switch_sheet(&mut self, name: &str) -> (r: Result<(), MyError>)
        requires
            old(self).wf(),
        ensures
            match r {
                Result::Ok(()) => old(self).store().contains_key(name@) && switched(
                    *old(self),
                    *final(self),
                    name@,
                ),
                Result::Err(_) => !old(self).store().contains_key(name@) && *final(self) == *old(
                    self,
                ),
            },
    {
        proof {
            lemma_store_map_contains(self.sheets@, name@);
        }
        match self.find_sheet(name) {
            Some(_i) => {
                self.switch_sheet(name);
                Ok(())
            },
            None => Err(MyError {}),
        }
    }

    /// Moves the selection to the next body row of the active sheet,
    /// wrapping the last row to row 0; selects row 0 when nothing was
    /// selected yet. Never fails, and touches nothing but the selection.
    pub fn next(&mut self)
        ensures
            final(self).sheets == old(self).sheets,
            final(self).current == old(self).current,
            final(self).state matches Some(i) && i as nat == next_index(
                old(self).state,
                old(self).body_rows(),
            ),
    {
        let n: usize = match &self.current {
            None => 0,
            Some(s) => {
                let l = s.data.len();
                if l == 0 {
                    0
                } else {
                    l - 1
                }
            },
        };
        let i: usize = match self.state {
            None => 0,
            Some(i) => {
                if n == 0 {
                    0
                } else if i < n - 1 {
                    i + 1
                } else {
                    0
                }
            },
        };
        self.state = Some(i);
    }

    /// Moves the selection to the previous body row of the active sheet,
    /// wrapping row 0 to the last row; selects row 0 when nothing was
    /// selected yet. Never fails, and touches nothing but the selection.
    pub fn previous(&mut self)
        ensures
            final(self).sheets == old(self).sheets,
            final(self).current == old(self).current,
            final(self).state matches Some(i) && i as nat == prev_index(
                old(self).state,
                old(self).body_rows(),
            ),
    {
        let n: usize = match &self.current {
            None => 0,
            Some(s) => {
                let l = s.data.len();
                if l == 0 {
                    0
                } else {
                    l - 1
                }
            },
        };
        let i: usize = match self.state {
            None => 0,
            Some(i) => {
                if i == 0 {
                    if n == 0 {
                        0
                    } else {
                        n - 1
                    }
                } else {
                    i - 1
                }
            },
        };
        self.state = Some(i);
    }
}

/// After `k <= n` `next` steps from row `i`, the selection sits `k` rows
/// further, modulo the body row count `n`.
proof fn lemma_next_iter_linear(i: nat, n: nat, k: nat)
    requires
        1 <= n,
        i < n,
        k <= n,
    ensures
        next_iter(i, n, k) == if i + k < n {
            i + k
        } else {
            (i + k - n) as nat
        },
    decreases k,
{
    if k > 0 {
        lemma_next_iter_linear(i, n, (k - 1) as nat);
    }
}

/// After `k <= n` `previous` steps from row `i`, the selection sits `k`
/// rows back, modulo the body row count `n`.
proof fn lemma_prev_iter_linear(i: nat, n: nat, k: nat)
    requires
        1 <= n,
        i < n,
        k <= n,
    ensures
        prev_iter(i, n, k) == if k <= i {
            (i - k) as nat
        } else {
            (i + n - k) as nat
        },
    decreases k,
{
    if k > 0 {
        lemma_prev_iter_linear(i, n, (k - 1) as nat);
    }
}

/// Navigation wraparound: over a sheet with `n >= 1` body rows, `n`
/// successive `next` steps from any selected row return the selection to
/// that row.
pub proof fn lemma_next_wraparound(i: nat, n: nat)
    requires
        1 <= n,
        i < n,
    ensures
        next_iter(i, n, n) == i,
{
    lemma_next_iter_linear(i, n, n);
}

/// Navigation wraparound: over a sheet with `n >= 1` body rows, `n`
/// successive `previous` steps from any selected row (row 0 included)
/// return the selection to that row.
pub proof fn lemma_previous_wraparound(i: nat, n: nat)
    requires
        1 <= n,
        i < n,
    ensures
        prev_iter(i, n, n) == i,
{
    lemma_prev_iter_linear(i, n, n);
}

/// A `next` step followed by a `previous` step is a no-op on any selected
/// row of a sheet with at least one body row.
pub proof fn lemma_next_previous_roundtrip(i: nat, n: nat)
    requires
        1 <= n,
        i < n,
    ensures
        prev_of(next_of(i, n), n) == i,
{
}

/// The first navigation call after a sheet becomes active selects row 0,
/// whichever direction it goes.
pub proof fn lemma_first_step_selects_zero(n: nat)
    ensures
        next_index(Option::<usize>::None, n) == 0,
        prev_index(Option::<usize>::None, n) == 0,
{
}

} // verus!
