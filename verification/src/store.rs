//! The table-backed entry store: rows keyed by an auto-assigned numeric id,
//! with point lookups, partial updates, deletes and a destructive bulk
//! replace. This is the model that the backing database table is held to.

use vstd::prelude::*;

use crate::entry::{
    EntryModel,
    EntrySummary,
    JournalEntry,
    StoreError,
    summary_of,
    with_content,
    with_summary,
    with_title,
};

verus! {

/// Position of the entry with the given id, or -1 if no entry has it.
pub open spec fn find_index(s: Seq<EntryModel>, id: u32) -> int
    decreases s.len(),
{
    if s.len() == 0 {
        -1
    } else if s[0].id == id {
        0
    } else {
        let r = find_index(s.drop_first(), id);
        if r < 0 {
            -1
        } else {
            r + 1
        }
    }
}

/// Whether some entry has the given id.
pub open spec fn contains_id(s: Seq<EntryModel>, id: u32) -> bool {
    find_index(s, id) >= 0
}

/// The entry with the given id; meaningful only when `contains_id` holds.
pub open spec fn entry_at(s: Seq<EntryModel>, id: u32) -> EntryModel {
    s[find_index(s, id)]
}

/// The entry with the given id, if any.
pub open spec fn lookup(s: Seq<EntryModel>, id: u32) -> Option<EntryModel> {
    if contains_id(s, id) {
        Some(entry_at(s, id))
    } else {
        None
    }
}

/// `find_index` finds an entry with the asked-for id if and only if one is
/// there.
pub proof fn lemma_find_index(s: Seq<EntryModel>, id: u32)
    ensures
        find_index(s, id) >= 0 ==> find_index(s, id) < s.len() && s[find_index(s, id)].id == id,
        find_index(s, id) < 0 ==> forall|i: int| 0 <= i < s.len() ==> s[i].id != id,
    decreases s.len(),
{
    if s.len() == 0 {
    } else if s[0].id == id {
    } else {
        lemma_find_index(s.drop_first(), id);
        assert forall|i: int| find_index(s, id) < 0 && 0 <= i < s.len() implies s[i].id
            != id by {
            if i > 0 {
                assert(s.drop_first()[i - 1] == s[i]);
            }
        }
    }
}

/// `find_index` returns the position of the first entry with the given id.
pub proof fn lemma_find_index_first(s: Seq<EntryModel>, id: u32, i: int)
    requires
        0 <= i < s.len(),
        s[i].id == id,
        forall|j: int| 0 <= j < i ==> s[j].id != id,
    ensures
        find_index(s, id) == i,
    decreases i,
{
    if i == 0 {
    } else {
        assert(s[0].id != id);
        assert forall|j: int| 0 <= j < i - 1 implies s.drop_first()[j].id != id by {
            assert(s.drop_first()[j] == s[j + 1]);
        }
        assert(s.drop_first()[i - 1] == s[i]);
        lemma_find_index_first(s.drop_first(), id, i - 1);
    }
}

/// Ids strictly increase along the row order.
pub open spec fn sorted_ids(s: Seq<EntryModel>) -> bool {
    forall|i: int, j: int| 0 <= i < j < s.len() ==> s[i].id < s[j].id
}

/// The rows a bulk replace produces: the input order kept, ids assigned
/// 1, 2, 3, ... in that order.
pub open spec fn numbered_rows(rows: Seq<(String, String, String)>) -> Seq<EntryModel> {
    Seq::new(
        rows.len(),
        |i: int|
            EntryModel {
                id: (i + 1) as u32,
                title: rows[i].0@,
                summary: rows[i].1@,
                content: rows[i].2@,
            },
    )
}

/// The table-backed entry store. Ids are handed out in increasing order, so
/// the row order is insertion order and the newest entry sits at the end.
pub struct TableStore {
    entries: Vec<JournalEntry>,
}

impl View for TableStore {
    type V = Seq<EntryModel>;

    closed spec fn view(&self) -> Seq<EntryModel> {
        self.entries@.map_values(|e: JournalEntry| e@)
    }
}

impl TableStore {
    /// The store's well-formedness: ids strictly increase along the rows,
    /// which also keeps them unique.
    pub open spec fn inv(&self) -> bool {
        sorted_ids(self@)
    }

    /// The id the next insert will be given: one past the newest id, or 1
    /// for an empty store, as the backing table's integer primary key
    /// behaves.
    pub open spec fn next_id(&self) -> int {
        if self@.len() == 0 {
            1
        } else {
            self@[self@.len() - 1].id + 1
        }
    }

    /// An empty store.
    pub fn new() -> (s: TableStore)
        ensures
            s.inv(),
            s@ == Seq::<EntryModel>::empty(),
    {
        let s = TableStore { entries: Vec::new() };
        proof {
            assert(s@ =~= Seq::<EntryModel>::empty());
        }
        s
    }

    /// Insert a new entry; the store assigns and returns its id.
    pub fn insert(&mut self, title: String, summary: String, content: String) -> (id: u32)
        requires
            old(self).inv(),
            old(self).next_id() <= u32::MAX,
        ensures
            final(self).inv(),
            id == old(self).next_id(),
            final(self)@ == old(self)@.push(
                (EntryModel { id, title: title@, summary: summary@, content: content@ }),
            ),
    {
        let n = self.entries.len();
        let id: u32 = if n == 0 {
            1
        } else {
            self.entries[n - 1].id + 1
        };
        let e = JournalEntry { id, title, summary, content };
        let ghost pre = self@;
        self.entries.push(e);
        proof {
            assert(self@ =~= pre.push(e@));
            assert forall|i: int, j: int| 0 <= i < j < self@.len() implies self@[i].id
                < self@[j].id by {
                if j < pre.len() {
                } else {
                    if i < pre.len() - 1 {
                        assert(pre[i].id < pre[pre.len() - 1].id);
                    }
                }
            }
        }
        id
    }

    /// Fetch the entry with the given id; the body comes back as the raw
    /// stored markup.
    pub fn get(&self, id: u32) -> (r: Result<JournalEntry, StoreError>)
        ensures
            match r {
                Ok(e) => lookup(self@, id) == Some(e@),
                Err(err) => err == StoreError::NotFound && lookup(self@, id) is None,
            },
    {
        let n = self.entries.len();
        let mut i: usize = 0;
        while i < n
            invariant
                n == self.entries.len(),
                self@.len() == n,
                i <= n,
                forall|j: int| 0 <= j < i ==> self@[j].id != id,
            decreases n - i,
        {
            if self.entries[i].id == id {
                proof {
                    lemma_find_index_first(self@, id, i as int);
                }
                return Ok(self.entries[i].duplicate());
            }
            i = i + 1;
        }
        proof {
            lemma_find_index(self@, id);
        }
        Err(StoreError::NotFound)
    }

    /// Position of the row with the given id, if any.
    fn position_of(&self, id: u32) -> (r: Option<usize>)
        ensures
            match r {
                Some(i) => find_index(self@, id) == i && i < self@.len(),
                None => !contains_id(self@, id),
            },
    {
        let n = self.entries.len();
        let mut i: usize = 0;
        while i < n
            invariant
                n == self.entries.len(),
                self@.len() == n,
                i <= n,
                forall|j: int| 0 <= j < i ==> self@[j].id != id,
            decreases n - i,
        {
            if self.entries[i].id == id {
                proof {
                    lemma_find_index_first(self@, id, i as int);
                }
                return Some(i);
            }
            i = i + 1;
        }
        proof {
            lemma_find_index(self@, id);
        }
        None
    }

    /// Replace the row at `i` with `e`, keeping every other row.
    fn replace_at(&mut self, i: usize, e: JournalEntry)
        requires
            i < old(self)@.len(),
        ensures
            final(self)@ == old(self)@.update(i as int, e@),
    {
        let ghost pre = self@;
        self.entries.remove(i);
        self.entries.insert(i, e);
        proof {
            assert(self@ =~= pre.update(i as int, e@));
        }
    }

    /// Replace the title of the entry with the given id; everything else is
    /// untouched. `NotFound` exactly when no entry has the id.
    pub fn update_title(&mut self, id: u32, title: String) -> (r: Result<(), StoreError>)
        requires
            old(self).inv(),
        ensures
            final(self).inv(),
            match r {
                Ok(()) => contains_id(old(self)@, id) && final(self)@ == old(self)@.update(
                    find_index(old(self)@, id),
                    with_title(entry_at(old(self)@, id), title@),
                ),
                Err(err) => err == StoreError::NotFound && !contains_id(old(self)@, id) && final(self)@ == old(self)@,
            },
    {
        match self.position_of(id) {
            Some(i) => {
                let row = &self.entries[i];
                let e = JournalEntry {
                    id: row.id,
                    title,
                    summary: row.summary.clone(),
                    content: row.content.clone(),
                };
                self.replace_at(i, e);
                proof {
                    lemma_sorted_update(old(self)@, i as int, with_title(entry_at(old(self)@, id), title@));
                }
                Ok(())
            },
            None => Err(StoreError::NotFound),
        }
    }

    /// Replace the summary of the entry with the given id; everything else
    /// is untouched. `NotFound` exactly when no entry has the id.
    pub fn update_summary(&mut self, id: u32, summary: String) -> (r: Result<(), StoreError>)
        requires
            old(self).inv(),
        ensures
            final(self).inv(),
            match r {
                Ok(()) => contains_id(old(self)@, id) && final(self)@ == old(self)@.update(
                    find_index(old(self)@, id),
                    with_summary(entry_at(old(self)@, id), summary@),
                ),
                Err(err) => err == StoreError::NotFound && !contains_id(old(self)@, id) && final(self)@ == old(self)@,
            },
    {
        match self.position_of(id) {
            Some(i) => {
                let row = &self.entries[i];
                let e = JournalEntry {
                    id: row.id,
                    title: row.title.clone(),
                    summary,
                    content: row.content.clone(),
                };
                self.replace_at(i, e);
                proof {
                    lemma_sorted_update(
                        old(self)@,
                        i as int,
                        with_summary(entry_at(old(self)@, id), summary@),
                    );
                }
                Ok(())
            },
            None => Err(StoreError::NotFound),
        }
    }

    /// Replace the body of the entry with the given id; everything else is
    /// untouched. `NotFound` exactly when no entry has the id.
    pub fn update_content(&mut self, id: u32, content: String) -> (r: Result<(), StoreError>)
        requires
            old(self).inv(),
        ensures
            final(self).inv(),
            match r {
                Ok(()) => contains_id(old(self)@, id) && final(self)@ == old(self)@.update(
                    find_index(old(self)@, id),
                    with_content(entry_at(old(self)@, id), content@),
                ),
                Err(err) => err == StoreError::NotFound && !contains_id(old(self)@, id) && final(self)@ == old(self)@,
            },
    {
        match self.position_of(id) {
            Some(i) => {
                let row = &self.entries[i];
                let e = JournalEntry {
                    id: row.id,
                    title: row.title.clone(),
                    summary: row.summary.clone(),
                    content,
                };
                self.replace_at(i, e);
                proof {
                    lemma_sorted_update(
                        old(self)@,
                        i as int,
                        with_content(entry_at(old(self)@, id), content@),
                    );
                }
                Ok(())
            },
            None => Err(StoreError::NotFound),
        }
    }

    /// Remove the entry with the given id. Deleting an id that is not
    /// present is reported as `NotFound`, not silently ignored.
    pub fn delete(&mut self, id: u32) -> (r: Result<(), StoreError>)
        requires
            old(self).inv(),
        ensures
            final(self).inv(),
            match r {
                Ok(()) => contains_id(old(self)@, id) && final(self)@ == old(self)@.remove(
                    find_index(old(self)@, id),
                ),
                Err(err) => err == StoreError::NotFound && !contains_id(old(self)@, id) && final(self)@ == old(self)@,
            },
    {
        match self.position_of(id) {
            Some(i) => {
                let ghost pre = self@;
                self.entries.remove(i);
                proof {
                    assert(self@ =~= pre.remove(i as int));
                    lemma_sorted_remove(pre, i as int);
                }
                Ok(())
            },
            None => Err(StoreError::NotFound),
        }
    }

    /// Clear the store, then insert every given `(title, summary, content)`
    /// row in order, ids assigned afresh from 1. The backing table may be
    /// left empty if the process dies midway; the in-memory model is
    /// atomic. An empty input leaves the store empty.
    pub fn replace_all(&mut self, rows: &Vec<(String, String, String)>)
        requires
            old(self).inv(),
            rows@.len() < u32::MAX,
        ensures
            final(self).inv(),
            final(self)@ == numbered_rows(rows@),
    {
        self.entries.clear();
        proof {
            assert(self@ =~= Seq::<EntryModel>::empty());
            assert(self@ =~= numbered_rows(rows@.take(0)));
        }
        let n = rows.len();
        let mut i: usize = 0;
        while i < n
            invariant
                n == rows@.len(),
                n < u32::MAX,
                i <= n,
                self.inv(),
                self@ == numbered_rows(rows@.take(i as int)),
            decreases n - i,
        {
            let row = &rows[i];
            let title = row.0.clone();
            let summary = row.1.clone();
            let content = row.2.clone();
            proof {
                assert(self@.len() == i);
                if i > 0 {
                    assert(self@[i - 1].id == i);
                }
            }
            let ghost pre = self@;
            self.insert(title, summary, content);
            proof {
                assert(self@ =~= numbered_rows(rows@.take(i as int + 1)));
            }
            i = i + 1;
        }
        proof {
            assert(rows@.take(n as int) =~= rows@);
        }
    }

    /// Every entry's id, title and summary in row (insertion) order,
    /// oldest first, titles as stored.
    pub fn summaries_in_order(&self) -> (r: Vec<EntrySummary>)
        ensures
            r@.len() == self@.len(),
            forall|i: int| 0 <= i < r@.len() ==> r@[i]@ == summary_of(self@[i]),
    {
        let n = self.entries.len();
        let mut out: Vec<EntrySummary> = Vec::new();
        let mut i: usize = 0;
        while i < n
            invariant
                n == self.entries.len(),
                self@.len() == n,
                i <= n,
                out@.len() == i,
                forall|j: int| 0 <= j < i ==> out@[j]@ == summary_of(self@[j]),
            decreases n - i,
        {
            let row = &self.entries[i];
            out.push(
                EntrySummary { id: row.id, title: row.title.clone(), summary: row.summary.clone() },
            );
            i = i + 1;
        }
        out
    }

    /// The summary listing: every entry's id, title and summary, titles as
    /// stored, newest first.
    pub fn list_summaries(&self) -> (r: Vec<EntrySummary>)
        ensures
            r@.len() == self@.len(),
            forall|i: int|
                0 <= i < r@.len() ==> r@[i]@ == summary_of(self@[self@.len() - 1 - i]),
    {
        let n = self.entries.len();
        let mut out: Vec<EntrySummary> = Vec::new();
        let mut i: usize = n;
        while i > 0
            invariant
                n == self.entries.len(),
                self@.len() == n,
                i <= n,
                out@.len() == n - i,
                forall|j: int| 0 <= j < out@.len() ==> out@[j]@ == summary_of(self@[n - 1 - j]),
            decreases i,
        {
            i = i - 1;
            let row = &self.entries[i];
            out.push(
                EntrySummary { id: row.id, title: row.title.clone(), summary: row.summary.clone() },
            );
        }
        out
    }
}

/// Updating a row without changing its id keeps the ids sorted.
proof fn lemma_sorted_update(s: Seq<EntryModel>, i: int, e: EntryModel)
    requires
        sorted_ids(s),
        0 <= i < s.len(),
        e.id == s[i].id,
    ensures
        sorted_ids(s.update(i, e)),
{
}

/// Removing a row keeps the ids sorted.
proof fn lemma_sorted_remove(s: Seq<EntryModel>, i: int)
    requires
        sorted_ids(s),
        0 <= i < s.len(),
    ensures
        sorted_ids(s.remove(i)),
{
    let t = s.remove(i);
    assert forall|a: int, b: int| 0 <= a < b < t.len() implies t[a].id < t[b].id by {
        assert(t[a] == if a < i {
            s[a]
        } else {
            s[a + 1]
        });
        assert(t[b] == if b < i {
            s[b]
        } else {
            s[b + 1]
        });
    }
}

} // verus!
