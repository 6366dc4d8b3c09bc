//! The management tool's write path: each command, with any file contents
//! it needs already read, becomes one step on the table-backed store. The
//! surrounding tool only parses arguments, reads files and carries the
//! command here.

use vstd::prelude::*;
use vstd::string::*;

use crate::entry::{EntryModel, StoreError};
use crate::store::{TableStore, contains_id, entry_at, find_index};
use crate::text::{dec_digits, normalize, normalize_title, stem_title, title_from_stem, u32_to_string};

verus! {

/// One line of the listing output: `id: title`, the title normalized.
pub open spec fn line_for(e: EntryModel) -> Seq<char> {
    dec_digits(e.id as nat) + ": "@ + normalize(e.title) + "\n"@
}

/// The listing output: one line per entry, oldest first.
pub open spec fn list_lines(s: Seq<EntryModel>) -> Seq<char>
    decreases s.len(),
{
    if s.len() == 0 {
        Seq::empty()
    } else {
        line_for(s[0]) + list_lines(s.drop_first())
    }
}

/// Format the listing output for every entry of the store.
pub fn render_list(store: &TableStore) -> (r: String)
    ensures
        r@ == list_lines(store@),
{
    let rows = store.summaries_in_order();
    let n = rows.len();
    let mut out = String::new();
    let mut i: usize = 0;
    proof {
        assert(store@.skip(0) =~= store@);
        assert(Seq::<char>::empty() + list_lines(store@) =~= list_lines(store@));
    }
    while i < n
        invariant
            n == rows@.len(),
            rows@.len() == store@.len(),
            forall|j: int|
                0 <= j < rows@.len() ==> rows@[j]@ == crate::entry::summary_of(store@[j]),
            i <= n,
            out@ + list_lines(store@.skip(i as int)) == list_lines(store@),
        decreases n - i,
    {
        let row = &rows[i];
        let ghost pre = out@;
        proof {
            assert(store@.skip(i as int)[0] == store@[i as int]);
            assert(store@.skip(i as int).drop_first() =~= store@.skip(i as int + 1));
        }
        let mut line = u32_to_string(row.id);
        line.append(": ");
        let title = normalize_title(row.title.as_str());
        line.append(title.as_str());
        line.append("\n");
        out.append(line.as_str());
        proof {
            assert(out@ =~= pre + line_for(store@[i as int]));
            assert(pre + line_for(store@[i as int]) + list_lines(store@.skip(i as int + 1)) =~= pre
                + (line_for(store@[i as int]) + list_lines(store@.skip(i as int + 1))));
        }
        i = i + 1;
    }
    proof {
        assert(store@.skip(n as int) =~= Seq::<EntryModel>::empty());
        assert(out@ + Seq::<char>::empty() =~= out@);
    }
    out
}

/// The rows a bulk refresh produces from `(file stem, body)` pairs: titles
/// from the stems, every summary the placeholder text, ids afresh from 1.
pub open spec fn refresh_rows(files: Seq<(String, String)>) -> Seq<EntryModel> {
    Seq::new(
        files.len(),
        |i: int|
            EntryModel {
                id: (i + 1) as u32,
                title: stem_title(files[i].0@),
                summary: "Summary pending"@,
                content: files[i].1@,
            },
    )
}

/// One management command, with any file contents it needs already read.
pub enum Command {
    /// Insert a new entry; the title's hyphens become spaces, the body is
    /// the named file's contents.
    Add { title: String, summary: String, content: String },
    /// Print `id: title` for every entry, oldest first.
    List,
    /// Create the backing table; on the in-memory model there is nothing
    /// to set up.
    Init,
    /// Delete the entry with the given id; an absent id is an error.
    Remove { id: u32 },
    /// Bulk replace from `(file stem, body)` pairs; every summary becomes
    /// a placeholder. An empty directory empties the store.
    Refresh { files: Vec<(String, String)> },
    /// Replace one entry's summary.
    UpdateSummary { id: u32, summary: String },
    /// Replace one entry's body with the named file's contents.
    UpdateContent { id: u32, content: String },
    /// Replace one entry's title.
    UpdateTitle { id: u32, title: String },
}

/// Apply one management command to the store. Successful mutations return
/// an empty output; `List` returns its lines; `Init` reports done.
pub fn apply(store: &mut TableStore, cmd: Command) -> (r: Result<String, StoreError>)
    requires
        old(store).inv(),
        cmd matches Command::Add { title, summary, content } ==> old(store).next_id()
            <= u32::MAX,
        cmd matches Command::Refresh { files } ==> files@.len() < u32::MAX,
    ensures
        final(store).inv(),
        match cmd {
            Command::Add { title, summary, content } => r matches Ok(out) && out@
                == Seq::<char>::empty() && final(store)@ == old(store)@.push(
                (EntryModel {
                    id: old(store).next_id() as u32,
                    title: stem_title(title@),
                    summary: summary@,
                    content: content@,
                }),
            ),
            Command::List => final(store)@ == old(store)@ && (r matches Ok(out) && out@
                == list_lines(old(store)@)),
            Command::Init => final(store)@ == old(store)@ && (r matches Ok(out) && out@
                == "Done"@),
            Command::Remove { id } => match r {
                Ok(out) => out@ == Seq::<char>::empty() && contains_id(old(store)@, id) && final(store)@ == old(store)@.remove(find_index(old(store)@, id)),
                Err(err) => err == StoreError::NotFound && !contains_id(old(store)@, id) && final(store)@ == old(store)@,
            },
            Command::Refresh { files } => r matches Ok(out) && out@ == Seq::<char>::empty()
                && final(store)@ == refresh_rows(files@),
            Command::UpdateSummary { id, summary } => match r {
                Ok(out) => out@ == Seq::<char>::empty() && contains_id(old(store)@, id) && final(store)@ == old(store)@.update(
                    find_index(old(store)@, id),
                    crate::entry::with_summary(entry_at(old(store)@, id), summary@),
                ),
                Err(err) => err == StoreError::NotFound && !contains_id(old(store)@, id) && final(store)@ == old(store)@,
            },
            Command::UpdateContent { id, content } => match r {
                Ok(out) => out@ == Seq::<char>::empty() && contains_id(old(store)@, id) && final(store)@ == old(store)@.update(
                    find_index(old(store)@, id),
                    crate::entry::with_content(entry_at(old(store)@, id), content@),
                ),
                Err(err) => err == StoreError::NotFound && !contains_id(old(store)@, id) && final(store)@ == old(store)@,
            },
            Command::UpdateTitle { id, title } => match r {
                Ok(out) => out@ == Seq::<char>::empty() && contains_id(old(store)@, id) && final(store)@ == old(store)@.update(
                    find_index(old(store)@, id),
                    crate::entry::with_title(entry_at(old(store)@, id), title@),
                ),
                Err(err) => err == StoreError::NotFound && !contains_id(old(store)@, id) && final(store)@ == old(store)@,
            },
        },
{
    match cmd {
        Command::Add { title, summary, content } => {
            let t = title_from_stem(title.as_str());
            store.insert(t, summary, content);
            Ok(String::new())
        },
        Command::List => Ok(render_list(store)),
        Command::Init => Ok(String::from_str("Done")),
        Command::Remove { id } => {
            match store.delete(id) {
                Ok(()) => Ok(String::new()),
                Err(err) => Err(err),
            }
        },
        Command::Refresh { files } => {
            let n = files.len();
            let mut rows: Vec<(String, String, String)> = Vec::new();
            let mut i: usize = 0;
            while i < n
                invariant
                    n == files@.len(),
                    i <= n,
                    rows@.len() == i,
                    forall|j: int|
                        0 <= j < i ==> rows@[j].0@ == stem_title(files@[j].0@) && rows@[j].1@
                            == "Summary pending"@ && rows@[j].2@ == files@[j].1@,
                decreases n - i,
            {
                let pair = &files[i];
                rows.push(
                    (
                        title_from_stem(pair.0.as_str()),
                        String::from_str("Summary pending"),
                        pair.1.clone(),
                    ),
                );
                i = i + 1;
            }
            store.replace_all(&rows);
            proof {
                assert(crate::store::numbered_rows(rows@) =~= refresh_rows(files@));
            }
            Ok(String::new())
        },
        Command::UpdateSummary { id, summary } => {
            match store.update_summary(id, summary) {
                Ok(()) => Ok(String::new()),
                Err(err) => Err(err),
            }
        },
        Command::UpdateContent { id, content } => {
            match store.update_content(id, content) {
                Ok(()) => Ok(String::new()),
                Err(err) => Err(err),
            }
        },
        Command::UpdateTitle { id, title } => {
            match store.update_title(id, title) {
                Ok(()) => Ok(String::new()),
                Err(err) => Err(err),
            }
        },
    }
}

} // verus!
