//! The catalog service: the layer between a store and presentation. It
//! lists entry summaries newest first with normalized titles, and fetches a
//! single entry with its title normalized and its body rendered to HTML.
//! Summary listings do not render bodies; only detail fetches do.

use vstd::prelude::*;

use crate::entry::{EntryModel, EntrySummary, JournalEntry, StoreError, SummaryModel};
use crate::render::{html_of, render};
use crate::store::{TableStore, contains_id, entry_at, find_index, lookup};
use crate::text::{normalize, normalize_title};

verus! {

/// How an entry appears in the summary listing: its title normalized, its
/// summary as stored, no body.
pub open spec fn listed_summary(e: EntryModel) -> SummaryModel {
    SummaryModel { id: e.id, title: normalize(e.title), summary: e.summary }
}

/// The whole summary listing for a store's rows: newest first, titles
/// normalized.
pub open spec fn listed_summaries(s: Seq<EntryModel>) -> Seq<SummaryModel> {
    Seq::new(s.len(), |i: int| listed_summary(s[s.len() - 1 - i]))
}

/// How an entry comes back from a detail fetch: title normalized, body
/// rendered to HTML.
pub open spec fn rendered_entry(e: EntryModel) -> EntryModel {
    EntryModel { id: e.id, title: normalize(e.title), summary: e.summary, content: html_of(e.content) }
}

/// List every entry's summary, newest first, with normalized titles.
/// Bodies are not rendered here.
pub fn list_entries(store: &TableStore) -> (r: Vec<EntrySummary>)
    ensures
        r@.len() == store@.len(),
        forall|i: int| 0 <= i < r@.len() ==> r@[i]@ == listed_summaries(store@)[i],
{
    let base = store.list_summaries();
    let n = base.len();
    let mut out: Vec<EntrySummary> = Vec::new();
    let mut i: usize = 0;
    while i < n
        invariant
            n == base@.len(),
            base@.len() == store@.len(),
            forall|j: int|
                0 <= j < base@.len() ==> base@[j]@ == crate::entry::summary_of(
                    store@[store@.len() - 1 - j],
                ),
            i <= n,
            out@.len() == i,
            forall|j: int| 0 <= j < i ==> out@[j]@ == listed_summaries(store@)[j],
        decreases n - i,
    {
        let row = &base[i];
        out.push(
            EntrySummary {
                id: row.id,
                title: normalize_title(row.title.as_str()),
                summary: row.summary.clone(),
            },
        );
        i = i + 1;
    }
    out
}

/// Fetch one entry by id: its title normalized, its body rendered to HTML.
/// `NotFound` exactly when no entry has the id.
pub fn get_entry(store: &TableStore, id: u32) -> (r: Result<JournalEntry, StoreError>)
    ensures
        match r {
            Ok(e) => contains_id(store@, id) && e@ == rendered_entry(entry_at(store@, id)),
            Err(err) => err == StoreError::NotFound && !contains_id(store@, id),
        },
{
    match store.get(id) {
        Ok(e) => {
            let JournalEntry { id: eid, title, summary, content } = e;
            Ok(
                JournalEntry {
                    id: eid,
                    title: normalize_title(title.as_str()),
                    summary,
                    content: render(content.as_str()),
                },
            )
        },
        Err(err) => Err(err),
    }
}

/// Listing after an insert: the new entry's summary comes first and the
/// earlier listing follows unchanged, so the listing holds exactly the
/// inserted entries, newest first.
pub proof fn lemma_insert_then_list(pre: Seq<EntryModel>, e: EntryModel)
    ensures
        listed_summaries(pre.push(e)) == seq![listed_summary(e)] + listed_summaries(pre),
{
    assert(listed_summaries(pre.push(e)) =~= seq![listed_summary(e)] + listed_summaries(pre));
}

/// The listing is exactly the store's entries — one summary per entry,
/// none missing, none added — and, for a well-formed store, it comes
/// newest first: ids strictly decrease along it.
pub proof fn lemma_listing_newest_first(s: Seq<EntryModel>)
    requires
        crate::store::sorted_ids(s),
    ensures
        listed_summaries(s).len() == s.len(),
        forall|i: int|
            0 <= i < s.len() ==> listed_summaries(s)[i] == listed_summary(s[s.len() - 1 - i]),
        forall|i: int, j: int|
            0 <= i < j < s.len() ==> listed_summaries(s)[i].id > listed_summaries(s)[j].id,
{
    assert forall|i: int, j: int| 0 <= i < j < s.len() implies listed_summaries(s)[i].id
        > listed_summaries(s)[j].id by {
        assert(s[s.len() - 1 - j].id < s[s.len() - 1 - i].id);
    }
}

/// The listing and the detail view agree on every entry's title: both
/// apply the same normalization, so no entry shows one title in the list
/// and another on its own page.
pub proof fn lemma_title_consistency(s: Seq<EntryModel>, id: u32)
    requires
        contains_id(s, id),
    ensures
        listed_summaries(s)[s.len() - 1 - find_index(s, id)].title == rendered_entry(
            entry_at(s, id),
        ).title,
{
    crate::store::lemma_find_index(s, id);
}

/// Fetching right after an insert finds the entry just inserted: same
/// title and body as handed to the store. The store's invariant supplies
/// the freshness of the new id.
pub proof fn lemma_get_after_insert(pre: Seq<EntryModel>, e: EntryModel)
    requires
        forall|i: int| 0 <= i < pre.len() ==> pre[i].id != e.id,
    ensures
        lookup(pre.push(e), e.id) == Some(e),
{
    crate::store::lemma_find_index_first(pre.push(e), e.id, pre.len() as int);
}

/// An id no entry has is reported absent.
pub proof fn lemma_get_absent(s: Seq<EntryModel>, id: u32)
    requires
        forall|i: int| 0 <= i < s.len() ==> s[i].id != id,
    ensures
        lookup(s, id) is None,
{
    crate::store::lemma_find_index(s, id);
}

/// After a field update that keeps the entry's id, fetching that id finds
/// exactly the updated entry — in particular, after a content update the
/// title and summary come back unchanged.
pub proof fn lemma_get_after_update(s: Seq<EntryModel>, id: u32, e: EntryModel)
    requires
        crate::store::sorted_ids(s),
        contains_id(s, id),
        e.id == id,
    ensures
        lookup(s.update(find_index(s, id), e), id) == Some(e),
{
    let i = find_index(s, id);
    crate::store::lemma_find_index(s, id);
    let t = s.update(i, e);
    assert forall|j: int| 0 <= j < i implies t[j].id != id by {
        assert(s[j].id < s[i].id);
    }
    crate::store::lemma_find_index_first(t, id, i);
}

/// After a delete, fetching the deleted id reports it absent.
pub proof fn lemma_get_after_delete(s: Seq<EntryModel>, id: u32)
    requires
        crate::store::sorted_ids(s),
        contains_id(s, id),
    ensures
        lookup(s.remove(find_index(s, id)), id) is None,
{
    let i = find_index(s, id);
    crate::store::lemma_find_index(s, id);
    let t = s.remove(i);
    assert forall|j: int| 0 <= j < t.len() implies t[j].id != id by {
        if j < i {
            assert(s[j].id < s[i].id);
        } else {
            assert(t[j] == s[j + 1]);
            assert(s[i].id < s[j + 1].id);
        }
    }
    crate::store::lemma_find_index(t, id);
}

} // verus!
