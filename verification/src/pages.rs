//! The presentation adapter's read path: wrapping catalog results into the
//! HTML documents the site serves — the landing page, the journal listing,
//! the single-entry document, and the one-page dump of a file-backed
//! journal.

use vstd::prelude::*;

use crate::entry::{EntryModel, JournalEntry};

verus! {

/// A page that can render itself to an HTML body.
pub trait Page {
    /// The HTML body this page renders to.
    spec fn page_html(&self) -> Seq<char>;

    /// Render the page to its HTML body.
    fn render_page(&self) -> (r: String)
        ensures
            r@ == self.page_html(),
    ;
}

/// Wraps any page for handing to the HTTP layer as an HTML response body.
pub struct HtmlTemplate<T>(pub T);

impl<T: Page> HtmlTemplate<T> {
    /// The response body: the wrapped page's rendering.
    pub fn into_html(self) -> (r: String)
        ensures
            r@ == self.0.page_html(),
    {
        self.0.render_page()
    }
}

/// The landing page.
pub struct IndexTemplate;

impl Page for IndexTemplate {
    open spec fn page_html(&self) -> Seq<char> {
        "<main><header><a href=\"/\">Jon Karrer</a><nav><a href=\"/journal\">Journal</a><a href=\"/#projects\">Projects</a></nav></header><section><h1>Welcome</h1><p>Notes on building things with Rust.</p></section></main>"@
    }

    fn render_page(&self) -> (r: String)
    {
        String::from_str(
            "<main><header><a href=\"/\">Jon Karrer</a><nav><a href=\"/journal\">Journal</a><a href=\"/#projects\">Projects</a></nav></header><section><h1>Welcome</h1><p>Notes on building things with Rust.</p></section></main>",
        )
    }
}

/// The listing body: a heading and the summary for every entry, in the
/// order given.
pub open spec fn entries_html(es: Seq<EntryModel>) -> Seq<char>
    decreases es.len(),
{
    if es.len() == 0 {
        Seq::empty()
    } else {
        "<h1>"@ + es[0].title + "</h1><p>"@ + es[0].summary + "</p>"@ + entries_html(
            es.drop_first(),
        )
    }
}

/// The journal listing page: every entry's title and summary in the order
/// the catalog handed them over (newest first).
pub struct JournalEntriesPage {
    pub entries: Vec<JournalEntry>,
}

impl Page for JournalEntriesPage {
    open spec fn page_html(&self) -> Seq<char> {
        entries_html(self.entries@.map_values(|e: JournalEntry| e@))
    }

    fn render_page(&self) -> (r: String)
    {
        let ghost models = self.entries@.map_values(|e: JournalEntry| e@);
        let n = self.entries.len();
        let mut out = String::new();
        let mut i: usize = 0;
        proof {
            assert(models.skip(0) =~= models);
            assert(Seq::<char>::empty() + entries_html(models) =~= entries_html(models));
        }
        while i < n
            invariant
                n == self.entries.len(),
                models == self.entries@.map_values(|e: JournalEntry| e@),
                models.len() == n,
                i <= n,
                entries_html(models) == out@ + entries_html(models.skip(i as int)),
            decreases n - i,
        {
            let e = &self.entries[i];
            let ghost pre = out@;
            proof {
                assert(models.skip(i as int)[0] == models[i as int]);
                assert(models.skip(i as int).drop_first() =~= models.skip(i as int + 1));
            }
            out.append("<h1>");
            out.append(e.title.as_str());
            out.append("</h1><p>");
            out.append(e.summary.as_str());
            out.append("</p>");
            proof {
                assert(out@ =~= pre + ("<h1>"@ + models[i as int].title + "</h1><p>"@
                    + models[i as int].summary + "</p>"@));
                assert(pre + ("<h1>"@ + models[i as int].title + "</h1><p>"@
                    + models[i as int].summary + "</p>"@) + entries_html(models.skip(i as int + 1))
                    =~= pre + ("<h1>"@ + models[i as int].title + "</h1><p>"@
                    + models[i as int].summary + "</p>"@ + entries_html(models.skip(i as int + 1))));
            }
            i = i + 1;
        }
        proof {
            assert(models.skip(n as int) =~= Seq::<EntryModel>::empty());
            assert(out@ + Seq::<char>::empty() =~= out@);
        }
        out
    }
}

/// The single-entry document: a full HTML page around a rendered body,
/// with the site header, the title in the head, and a highlighter hook.
pub open spec fn entry_document(title: Seq<char>, body: Seq<char>) -> Seq<char> {
    "<!DOCTYPE html><html><head><meta charset=\"UTF-8\"><meta name=\"viewport\" content=\"width=device-width, initial-scale=1.0\"><link rel=\"stylesheet\" href=\"/styles/journal_entries.css\"><title>"@
        + title
        + "</title></head><body><main><header><a href=\"/\">Jon Karrer</a><nav><a href=\"/journal\">Journal</a><a href=\"/#projects\">Projects</a></nav></header><section>"@
        + body
        + "</section><footer><p>Jon Karrer</p><p>Built with Rust</p></footer></main><script>Prism.highlightAll();</script></body></html>"@
}

/// Wrap one entry's title and rendered body into the full document served
/// for it.
pub fn render_entry_document(title: &str, body: &str) -> (r: String)
    ensures
        r@ == entry_document(title@, body@),
{
    let mut out = String::from_str(
        "<!DOCTYPE html><html><head><meta charset=\"UTF-8\"><meta name=\"viewport\" content=\"width=device-width, initial-scale=1.0\"><link rel=\"stylesheet\" href=\"/styles/journal_entries.css\"><title>",
    );
    out.append(title);
    out.append(
        "</title></head><body><main><header><a href=\"/\">Jon Karrer</a><nav><a href=\"/journal\">Journal</a><a href=\"/#projects\">Projects</a></nav></header><section>",
    );
    out.append(body);
    out.append(
        "</section><footer><p>Jon Karrer</p><p>Built with Rust</p></footer></main><script>Prism.highlightAll();</script></body></html>",
    );
    proof {
        assert(out@ =~= entry_document(title@, body@));
    }
    out
}

/// The sections of the one-page dump: each entry's title as a heading,
/// followed by its rendered body.
pub open spec fn dump_sections(items: Seq<(Seq<char>, Seq<char>)>) -> Seq<char>
    decreases items.len(),
{
    if items.len() == 0 {
        Seq::empty()
    } else {
        "<h1>"@ + items[0].0 + "</h1>"@ + items[0].1 + dump_sections(items.drop_first())
    }
}

/// The one-page dump document: every section inside a minimal document
/// that pulls in a syntax highlighter.
pub open spec fn dump_document(items: Seq<(Seq<char>, Seq<char>)>) -> Seq<char> {
    "<html><link rel=\"stylesheet\" href=\"https://cdnjs.cloudflare.com/ajax/libs/highlight.js/11.9.0/styles/default.min.css\"><script src=\"https://cdnjs.cloudflare.com/ajax/libs/highlight.js/11.9.0/highlight.min.js\"></script><body>"@
        + dump_sections(items)
        + "<script>hljs.highlightAll();</script></body></html>"@
}

/// Render the whole journal as one page from `(title, rendered body)`
/// pairs, as the file-backed read path serves it.
pub fn render_dump_document(items: &Vec<(String, String)>) -> (r: String)
    ensures
        r@ == dump_document(items@.map_values(|p: (String, String)| (p.0@, p.1@))),
{
    let ghost models = items@.map_values(|p: (String, String)| (p.0@, p.1@));
    let n = items.len();
    let mut out = String::from_str(
        "<html><link rel=\"stylesheet\" href=\"https://cdnjs.cloudflare.com/ajax/libs/highlight.js/11.9.0/styles/default.min.css\"><script src=\"https://cdnjs.cloudflare.com/ajax/libs/highlight.js/11.9.0/highlight.min.js\"></script><body>",
    );
    let ghost head = out@;
    let mut i: usize = 0;
    proof {
        assert(models.skip(0) =~= models);
        assert(head + Seq::<char>::empty() =~= head);
    }
    while i < n
        invariant
            n == items@.len(),
            models == items@.map_values(|p: (String, String)| (p.0@, p.1@)),
            models.len() == n,
            i <= n,
            out@ + dump_sections(models.skip(i as int)) == head + dump_sections(models),
        decreases n - i,
    {
        let item = &items[i];
        let ghost pre = out@;
        proof {
            assert(models.skip(i as int)[0] == models[i as int]);
            assert(models.skip(i as int).drop_first() =~= models.skip(i as int + 1));
        }
        out.append("<h1>");
        out.append(item.0.as_str());
        out.append("</h1>");
        out.append(item.1.as_str());
        proof {
            assert(out@ =~= pre + ("<h1>"@ + models[i as int].0 + "</h1>"@ + models[i as int].1));
            assert(pre + ("<h1>"@ + models[i as int].0 + "</h1>"@ + models[i as int].1)
                + dump_sections(models.skip(i as int + 1)) =~= pre + ("<h1>"@ + models[i as int].0
                + "</h1>"@ + models[i as int].1 + dump_sections(models.skip(i as int + 1))));
        }
        i = i + 1;
    }
    out.append("<script>hljs.highlightAll();</script></body></html>");
    proof {
        assert(models.skip(n as int) =~= Seq::<(Seq<char>, Seq<char>)>::empty());
        assert(out@ =~= dump_document(models));
    }
    out
}

} // verus!
