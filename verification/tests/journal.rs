//! End-to-end checks of the journal core: the store operations, the
//! catalog's listing and detail fetches, title normalization, rendering,
//! and the page and command-line output.

use journal::catalog::{get_entry, list_entries};
use journal::entry::JournalEntry;
use journal::pages::{
    render_dump_document, render_entry_document, HtmlTemplate, IndexTemplate, JournalEntriesPage,
    Page,
};
use journal::cli::{apply, render_list, Command};
use journal::entry::StoreError;
use journal::filestore::FileStore;
use journal::render::render;
use journal::store::TableStore;
use journal::text::{normalize_title, title_from_stem, u32_to_string};

#[test]
fn normalize_example() {
    assert_eq!(normalize_title("my first post"), "My First Post");
}

#[test]
fn normalize_idempotent_examples() {
    for t in [
        "my first post",
        "  leading and trailing  ",
        "tabs\tand\nnewlines",
        "Already Normal",
        "",
        "   ",
        "one",
    ] {
        let once = normalize_title(t);
        let twice = normalize_title(&once);
        assert_eq!(twice, once);
    }
}

#[test]
fn normalize_squeezes_whitespace() {
    assert_eq!(normalize_title("  my   first \t post "), "My First Post");
    assert_eq!(normalize_title(""), "");
    assert_eq!(normalize_title(" \t\n"), "");
}

#[test]
fn title_from_stem_replaces_hyphens() {
    assert_eq!(title_from_stem("hello-world"), "hello world");
    assert_eq!(title_from_stem("no-dash-here-"), "no dash here ");
    assert_eq!(title_from_stem("plain"), "plain");
}

#[test]
fn id_formatting() {
    assert_eq!(u32_to_string(0), "0");
    assert_eq!(u32_to_string(7), "7");
    assert_eq!(u32_to_string(42), "42");
    assert_eq!(u32_to_string(1000000), "1000000");
    assert_eq!(u32_to_string(u32::MAX), "4294967295");
}

fn store_with(entries: &[(&str, &str, &str)]) -> TableStore {
    let mut s = TableStore::new();
    for (t, su, c) in entries {
        s.insert(t.to_string(), su.to_string(), c.to_string());
    }
    s
}

#[test]
fn insert_then_list_newest_first() {
    let s = store_with(&[
        ("first post", "a", "one"),
        ("second post", "b", "two"),
        ("third post", "c", "three"),
    ]);
    let listed = list_entries(&s);
    assert_eq!(listed.len(), 3);
    assert_eq!(listed[0].id, 3);
    assert_eq!(listed[0].title, "Third Post");
    assert_eq!(listed[0].summary, "c");
    assert_eq!(listed[1].id, 2);
    assert_eq!(listed[1].title, "Second Post");
    assert_eq!(listed[2].id, 1);
    assert_eq!(listed[2].title, "First Post");
}

#[test]
fn insert_then_get_roundtrip() {
    let mut s = TableStore::new();
    let id = s.insert(
        "my post".to_string(),
        "sum".to_string(),
        "# Hi\n\nBody *text*.".to_string(),
    );
    assert_eq!(id, 1);
    let raw = s.get(id).expect("inserted entry must be found");
    assert_eq!(raw.title, "my post");
    assert_eq!(raw.content, "# Hi\n\nBody *text*.");
    let e = get_entry(&s, id).expect("inserted entry must be found");
    assert_eq!(e.title, "My Post");
    assert_eq!(e.summary, "sum");
    assert_eq!(e.content, render("# Hi\n\nBody *text*."));
    // Rendering is deterministic: fetching again gives the same body.
    let again = get_entry(&s, id).expect("still there");
    assert_eq!(again.content, e.content);
}

#[test]
fn get_absent_is_not_found() {
    let s = store_with(&[("a post", "s", "c")]);
    match get_entry(&s, 99) {
        Err(StoreError::NotFound) => {}
        _ => panic!("an id never inserted must report NotFound"),
    }
    let empty = TableStore::new();
    match get_entry(&empty, 1) {
        Err(StoreError::NotFound) => {}
        _ => panic!("an empty store has nothing to find"),
    }
}

#[test]
fn update_content_keeps_title_and_summary() {
    let mut s = store_with(&[("a post", "old summary", "old body")]);
    s.update_content(1, "new *body*".to_string())
        .expect("updating a present id succeeds");
    let e = get_entry(&s, 1).expect("still there");
    assert_eq!(e.title, "A Post");
    assert_eq!(e.summary, "old summary");
    assert_eq!(e.content, render("new *body*"));
}

#[test]
fn update_absent_is_not_found() {
    let mut s = TableStore::new();
    assert_eq!(
        s.update_summary(5, "s".to_string()),
        Err(StoreError::NotFound)
    );
    assert_eq!(
        s.update_content(5, "c".to_string()),
        Err(StoreError::NotFound)
    );
    assert_eq!(s.update_title(5, "t".to_string()), Err(StoreError::NotFound));
}

#[test]
fn delete_then_get_is_not_found() {
    let mut s = store_with(&[("a post", "s", "c"), ("b post", "s2", "c2")]);
    s.delete(1).expect("deleting a present id succeeds");
    match get_entry(&s, 1) {
        Err(StoreError::NotFound) => {}
        _ => panic!("a deleted id must report NotFound"),
    }
    // The other entry is untouched.
    assert_eq!(get_entry(&s, 2).expect("still there").title, "B Post");
    // Deleting again is an error, not a silent no-op.
    assert_eq!(s.delete(1), Err(StoreError::NotFound));
}

#[test]
fn end_to_end_example() {
    let mut s = TableStore::new();
    let id = s.insert(
        "hello world".to_string(),
        "intro".to_string(),
        "# Hi\n\nBody *text*.".to_string(),
    );
    let listed = list_entries(&s);
    assert_eq!(listed.len(), 1);
    assert_eq!(listed[0].title, "Hello World");
    assert_eq!(listed[0].summary, "intro");
    let e = get_entry(&s, id).expect("inserted entry must be found");
    assert!(e.content.contains("<h1>Hi</h1>"));
    assert!(e.content.contains("<em>text</em>"));
}

#[test]
fn refresh_with_empty_directory_empties_the_store() {
    let mut s = store_with(&[("a", "s", "c"), ("b", "s2", "c2")]);
    apply(&mut s, Command::Refresh { files: Vec::new() }).expect("refresh succeeds");
    assert_eq!(list_entries(&s).len(), 0);
    assert_eq!(render_list(&s), "");
}

#[test]
fn refresh_renumbers_from_one() {
    let mut s = store_with(&[("old", "s", "c")]);
    apply(
        &mut s,
        Command::Refresh {
            files: vec![
                ("first-note".to_string(), "body one".to_string()),
                ("second-note".to_string(), "body two".to_string()),
            ],
        },
    )
    .expect("refresh succeeds");
    let listed = list_entries(&s);
    assert_eq!(listed.len(), 2);
    assert_eq!(listed[0].id, 2);
    assert_eq!(listed[0].title, "Second Note");
    assert_eq!(listed[0].summary, "Summary pending");
    assert_eq!(listed[1].id, 1);
    assert_eq!(listed[1].title, "First Note");
}

#[test]
fn render_is_not_the_identity() {
    let html = render("# Hi");
    assert!(html.contains("<h1>Hi</h1>"));
    assert_ne!(html, "# Hi");
    assert_eq!(render(""), "");
}

#[test]
fn cli_add_and_list() {
    let mut s = TableStore::new();
    let out = apply(
        &mut s,
        Command::Add {
            title: "my-first-post".to_string(),
            summary: "intro".to_string(),
            content: "hello".to_string(),
        },
    )
    .expect("add succeeds");
    assert_eq!(out, "");
    let listing = apply(&mut s, Command::List).expect("list succeeds");
    assert_eq!(listing, "1: My First Post\n");
    let done = apply(&mut s, Command::Init).expect("init succeeds");
    assert_eq!(done, "Done");
}

#[test]
fn cli_remove_absent_errors() {
    let mut s = TableStore::new();
    assert_eq!(
        apply(&mut s, Command::Remove { id: 3 }),
        Err(StoreError::NotFound)
    );
}

#[test]
fn cli_update_commands() {
    let mut s = store_with(&[("a post", "old", "old body")]);
    apply(
        &mut s,
        Command::UpdateSummary {
            id: 1,
            summary: "new summary".to_string(),
        },
    )
    .expect("update succeeds");
    apply(
        &mut s,
        Command::UpdateTitle {
            id: 1,
            title: "renamed post".to_string(),
        },
    )
    .expect("update succeeds");
    let listed = list_entries(&s);
    assert_eq!(listed[0].title, "Renamed Post");
    assert_eq!(listed[0].summary, "new summary");
}

#[test]
fn error_messages() {
    assert_eq!(StoreError::NotFound.message(), "entry not found");
    assert_eq!(StoreError::ConnectionFailure.message(), "store unreachable");
    assert_eq!(StoreError::MalformedInput.message(), "malformed entry data");
    assert_eq!(
        StoreError::ConfigurationError.message(),
        "missing configuration value"
    );
}

#[test]
fn filestore_lookup_by_normalized_title() {
    let files = vec![
        ("hello-world".to_string(), "# Hello".to_string()),
        ("second-note".to_string(), "body".to_string()),
    ];
    let fs = FileStore::from_files(&files);
    let e = fs.get("Hello World").expect("key matches first file");
    assert_eq!(e.title, "hello world");
    assert_eq!(e.content, "# Hello");
    // Normalization only uppercases the first letter of each word, so
    // interior capitals must match the stored title.
    let e2 = fs.get("  second   NOTE ");
    assert!(e2.is_err());
    let e3 = fs.get("second note").expect("key matches second file");
    assert_eq!(e3.title, "second note");
    match fs.get("missing") {
        Err(StoreError::NotFound) => {}
        _ => panic!("an absent key must report NotFound"),
    }
}

#[test]
fn index_page_renders() {
    let body = HtmlTemplate(IndexTemplate).into_html();
    assert!(body.contains("<h1>Welcome</h1>"));
    assert!(body.contains("href=\"/journal\""));
}

#[test]
fn journal_entries_page_renders_each_entry() {
    let page = JournalEntriesPage {
        entries: vec![
            JournalEntry {
                id: 2,
                title: "Second Post".to_string(),
                summary: "two".to_string(),
                content: "<p>b</p>".to_string(),
            },
            JournalEntry {
                id: 1,
                title: "First Post".to_string(),
                summary: "one".to_string(),
                content: "<p>a</p>".to_string(),
            },
        ],
    };
    let body = page.render_page();
    assert_eq!(
        body,
        "<h1>Second Post</h1><p>two</p><h1>First Post</h1><p>one</p>"
    );
    let empty = JournalEntriesPage { entries: Vec::new() };
    assert_eq!(empty.render_page(), "");
}

#[test]
fn entry_document_wraps_title_and_body() {
    let doc = render_entry_document("My Post", "<h1>Hi</h1>");
    assert!(doc.starts_with("<!DOCTYPE html>"));
    assert!(doc.contains("<title>My Post</title>"));
    assert!(doc.contains("<section><h1>Hi</h1></section>"));
    assert!(doc.ends_with("</html>"));
}

#[test]
fn dump_document_lists_every_section() {
    let items = vec![
        ("a note".to_string(), "<p>one</p>".to_string()),
        ("b note".to_string(), "<p>two</p>".to_string()),
    ];
    let doc = render_dump_document(&items);
    assert!(doc.contains("<h1>a note</h1><p>one</p>"));
    assert!(doc.contains("<h1>b note</h1><p>two</p>"));
    assert!(doc.contains("hljs.highlightAll()"));
}

#[test]
fn filestore_list_rendered() {
    let files = vec![("a-note".to_string(), "# Top".to_string())];
    let fs = FileStore::from_files(&files);
    let listed = fs.list_rendered();
    assert_eq!(listed.len(), 1);
    assert_eq!(listed[0].0, "a note");
    assert!(listed[0].1.contains("<h1>Top</h1>"));
}
