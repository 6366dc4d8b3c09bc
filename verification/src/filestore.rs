//! The file-backed entry store: one markup file per entry, in directory
//! traversal order. Titles come from the file base names (hyphens become
//! spaces); entries carry no summary; an entry's lookup key is its
//! normalized title.

use vstd::prelude::*;

use crate::entry::StoreError;
use crate::render::{html_of, render};
use crate::text::{normalize, normalize_title, stem_title, title_from_stem};

verus! {

/// The mathematical view of a file-backed entry.
pub ghost struct FileEntryModel {
    pub title: Seq<char>,
    pub content: Seq<char>,
}

/// A file-backed entry: the title derived from the file's base name and
/// the raw markup body.
pub struct FileEntry {
    pub title: String,
    pub content: String,
}

impl View for FileEntry {
    type V = FileEntryModel;

    open spec fn view(&self) -> FileEntryModel {
        FileEntryModel { title: self.title@, content: self.content@ }
    }
}

/// The entry whose normalized title equals `key`, if any.
pub open spec fn key_lookup(s: Seq<FileEntryModel>, key: Seq<char>) -> Option<FileEntryModel>
    decreases s.len(),
{
    if s.len() == 0 {
        None
    } else if normalize(s[0].title) == key {
        Some(s[0])
    } else {
        key_lookup(s.drop_first(), key)
    }
}

/// If no entry's normalized title equals `key` among the first `i`, and
/// entry `i` matches, the lookup finds entry `i`.
proof fn lemma_key_lookup_first(s: Seq<FileEntryModel>, key: Seq<char>, i: int)
    requires
        0 <= i < s.len(),
        normalize(s[i].title) == key,
        forall|j: int| 0 <= j < i ==> normalize(s[j].title) != key,
    ensures
        key_lookup(s, key) == Some(s[i]),
    decreases i,
{
    if i == 0 {
    } else {
        assert forall|j: int| 0 <= j < i - 1 implies normalize(
            s.drop_first()[j].title,
        ) != key by {
            assert(s.drop_first()[j] == s[j + 1]);
        }
        assert(s.drop_first()[i - 1] == s[i]);
        lemma_key_lookup_first(s.drop_first(), key, i - 1);
    }
}

/// If no entry's normalized title equals `key`, the lookup comes up empty.
proof fn lemma_key_lookup_absent(s: Seq<FileEntryModel>, key: Seq<char>)
    requires
        forall|i: int| 0 <= i < s.len() ==> normalize(s[i].title) != key,
    ensures
        key_lookup(s, key) is None,
    decreases s.len(),
{
    if s.len() == 0 {
    } else {
        assert forall|i: int| 0 <= i < s.drop_first().len() implies normalize(
            s.drop_first()[i].title,
        ) != key by {
            assert(s.drop_first()[i] == s[i + 1]);
        }
        lemma_key_lookup_absent(s.drop_first(), key);
    }
}

/// The file-backed entry store.
pub struct FileStore {
    entries: Vec<FileEntry>,
}

impl View for FileStore {
    type V = Seq<FileEntryModel>;

    closed spec fn view(&self) -> Seq<FileEntryModel> {
        self.entries@.map_values(|e: FileEntry| e@)
    }
}

impl FileStore {
    /// Build the store from `(file stem, file body)` pairs in traversal
    /// order: each stem's hyphens become spaces in the title, each body is
    /// kept as the raw markup.
    pub fn from_files(files: &Vec<(String, String)>) -> (s: FileStore)
        ensures
            s@.len() == files@.len(),
            forall|i: int|
                0 <= i < files@.len() ==> s@[i] == (FileEntryModel {
                    title: stem_title(files@[i].0@),
                    content: files@[i].1@,
                }),
    {
        let n = files.len();
        let mut entries: Vec<FileEntry> = Vec::new();
        let mut i: usize = 0;
        while i < n
            invariant
                n == files@.len(),
                i <= n,
                entries@.len() == i,
                forall|j: int|
                    0 <= j < i ==> entries@[j]@ == (FileEntryModel {
                        title: stem_title(files@[j].0@),
                        content: files@[j].1@,
                    }),
            decreases n - i,
        {
            let pair = &files[i];
            entries.push(
                FileEntry { title: title_from_stem(pair.0.as_str()), content: pair.1.clone() },
            );
            i = i + 1;
        }
        FileStore { entries }
    }

    /// Every entry's title and rendered body, in store order. This is what
    /// the one-page dump of the whole journal shows.
    pub fn list_rendered(&self) -> (r: Vec<(String, String)>)
        ensures
            r@.len() == self@.len(),
            forall|i: int|
                0 <= i < r@.len() ==> r@[i].0@ == self@[i].title && r@[i].1@ == html_of(
                    self@[i].content,
                ),
    {
        let n = self.entries.len();
        let mut out: Vec<(String, String)> = Vec::new();
        let mut i: usize = 0;
        while i < n
            invariant
                n == self.entries.len(),
                self@.len() == n,
                i <= n,
                out@.len() == i,
                forall|j: int|
                    0 <= j < i ==> out@[j].0@ == self@[j].title && out@[j].1@ == html_of(
                        self@[j].content,
                    ),
            decreases n - i,
        {
            let e = &self.entries[i];
            out.push((e.title.clone(), render(e.content.as_str())));
            i = i + 1;
        }
        out
    }

    /// Fetch the first entry whose normalized title equals the normalized
    /// key; the body comes back as the raw stored markup. `NotFound`
    /// exactly when no entry matches.
    pub fn get(&self, key: &str) -> (r: Result<FileEntry, StoreError>)
        ensures
            match r {
                Ok(e) => key_lookup(self@, normalize(key@)) == Some(e@),
                Err(err) => err == StoreError::NotFound && key_lookup(self@, normalize(key@)) is None,
            },
    {
        let wanted = normalize_title(key);
        let n = self.entries.len();
        let mut i: usize = 0;
        while i < n
            invariant
                wanted@ == normalize(key@),
                n == self.entries.len(),
                self@.len() == n,
                i <= n,
                forall|j: int| 0 <= j < i ==> normalize(self@[j].title) != wanted@,
            decreases n - i,
        {
            let e = &self.entries[i];
            let candidate = normalize_title(e.title.as_str());
            if candidate == wanted {
                proof {
                    lemma_key_lookup_first(self@, wanted@, i as int);
                }
                return Ok(FileEntry { title: e.title.clone(), content: e.content.clone() });
            }
            i = i + 1;
        }
        proof {
            lemma_key_lookup_absent(self@, wanted@);
        }
        Err(StoreError::NotFound)
    }
}

} // verus!
