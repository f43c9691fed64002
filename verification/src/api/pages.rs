//! Lists that come page by page.

use crate::api::rows;
use crate::api::rows::RowKind;
use crate::json;
use crate::json::Json;
use crate::library;
use crate::library::LibItem;
use crate::library::Row;
use crate::text;
use vstd::prelude::*;

verus! {

/// A walk over the pages of a list.
pub struct Pages {
    /// What has been read so far.
    pub rows: Vec<LibItem>,
    /// Where the next page stands.
    pub url: Option<String>,
    /// How many pages have been read, and how many at most.
    pub pages: usize,
    pub max_pages: usize,
    /// Where in the document the list stands, unless it is the document.
    pub nested: Option<String>,
    pub kind: RowKind,
}

/// The model of a walk.
pub ghost struct PagesView {
    pub rows: Seq<Row>,
    pub url: Option<Seq<char>>,
    pub pages: int,
    pub max_pages: int,
    pub nested: Option<Seq<char>>,
    pub kind: RowKind,
}

impl View for Pages {
    type V = PagesView;

    open spec fn view(&self) -> PagesView {
        PagesView {
            rows: library::rows(self.rows@),
            url: text::optional(self.url),
            pages: self.pages as int,
            max_pages: self.max_pages as int,
            nested: text::optional(self.nested),
            kind: self.kind,
        }
    }
}

impl PagesView {
    /// The page to ask for next: none once there are no more, or there have been
    /// enough.
    pub open spec fn wanted(self) -> Option<Seq<char>> {
        if self.pages < self.max_pages {
            self.url
        } else {
            None
        }
    }

    /// Where the list stands in a page's document.
    pub open spec fn list_in(self, doc: json::JsonView) -> json::JsonView {
        match self.nested {
            Some(key) => rows::under(doc, key),
            None => doc,
        }
    }

    /// The walk after a page: its rows are appended, and the next page is the
    /// one it names. A page that did not come ends the walk.
    pub open spec fn turned(self, page: Option<json::JsonView>) -> PagesView {
        match page {
            Some(doc) => PagesView {
                rows: self.rows + rows::rows_of(self.kind, rows::items_of(self.list_in(doc))),
                url: self.list_in(doc).text_field("next"@),
                pages: self.pages + 1,
                ..self
            },
            None => PagesView { url: None, ..self },
        }
    }
}

impl Pages {
    /// A walk that begins at `url`, behind the rows that are there already.
    pub fn new(
        rows: Vec<LibItem>,
        url: String,
        nested: Option<String>,
        max_pages: usize,
        kind: RowKind,
    ) -> (walk: Pages)
        ensures
            walk@ == (PagesView {
                rows: library::rows(rows@),
                url: Some(url@),
                pages: 0,
                max_pages: max_pages as int,
                nested: text::optional(nested),
                kind,
            }),
    {
        Pages { rows, url: Some(url), pages: 0, max_pages, nested, kind }
    }

    /// The page to ask for next.
    pub fn next(&self) -> (url: Option<String>)
        ensures
            text::optional(url) == self@.wanted(),
    {
        if self.pages < self.max_pages {
            match &self.url {
                Some(url) => Some(url.clone()),
                None => None,
            }
        } else {
            None
        }
    }

    /// The page that was asked for has come, or has not.
    pub fn turn(&mut self, page: Option<&Json>)
        requires
            old(self)@.wanted() is Some,
        ensures
            final(self)@ == old(self)@.turned(
                match page {
                    Some(doc) => Some(doc@),
                    None => None,
                },
            ),
            final(self).max_pages == old(self).max_pages,
    {
        let doc = match page {
            Some(doc) => doc,
            None => {
                self.url = None;
                return;
            },
        };
        let nothing = Json::Null;
        let list: &Json = match &self.nested {
            Some(key) => match doc.get(key.as_str()) {
                Some(inner) => inner,
                None => &nothing,
            },
            None => doc,
        };
        assert(list@ == self@.list_in(doc@));
        rows::append_rows(self.kind, list, &mut self.rows);
        self.url = match list.text_field("next") {
            Some(url) => Some(url.clone()),
            None => None,
        };
        self.pages = self.pages + 1;
    }
}

// ----------------------------------------------------------------------- laws

/// The walk after a run of pages that all came.
pub open spec fn leafed(p: PagesView, docs: Seq<json::JsonView>) -> PagesView
    decreases docs.len(),
{
    if docs.len() == 0 {
        p
    } else {
        leafed(p, docs.drop_last()).turned(Some(docs.last()))
    }
}

/// The rows on a run of pages, page by page.
pub open spec fn rows_on(p: PagesView, docs: Seq<json::JsonView>) -> Seq<Row>
    decreases docs.len(),
{
    if docs.len() == 0 {
        Seq::empty()
    } else {
        rows_on(p, docs.drop_last()) + rows::rows_of(
            p.kind,
            rows::items_of(p.list_in(docs.last())),
        )
    }
}

/// Reading page by page gives the rows of all the pages in order, and no more
/// pages are asked for than allowed.
pub proof fn law_pages_are_read_in_order(p: PagesView, docs: Seq<json::JsonView>)
    ensures
        leafed(p, docs).rows == p.rows + rows_on(p, docs),
        leafed(p, docs).pages == p.pages + docs.len(),
        leafed(p, docs).kind == p.kind,
        leafed(p, docs).nested == p.nested,
        leafed(p, docs).max_pages == p.max_pages,
        p.pages + docs.len() >= p.max_pages ==> leafed(p, docs).wanted() is None,
    decreases docs.len(),
{
    if docs.len() > 0 {
        law_pages_are_read_in_order(p, docs.drop_last());
        assert(leafed(p, docs).rows =~= p.rows + rows_on(p, docs));
    } else {
        assert(p.rows =~= p.rows + rows_on(p, docs));
    }
}

/// A page only adds rows: what was shown before stands where it stood.
pub proof fn law_rows_only_grow(p: PagesView, page: Option<json::JsonView>)
    ensures
        p.rows.len() <= p.turned(page).rows.len(),
        p.turned(page).rows.take(p.rows.len() as int) == p.rows,
{
    assert(p.turned(page).rows.take(p.rows.len() as int) =~= p.rows);
}

/// A page brings the rows of everything it lists, behind those that are there,
/// and the walk goes on to the page it names, as long as there may be more.
/// Where the list stands under a key of the document, it is read there.
pub proof fn law_a_page_brings_all_that_it_lists(
    p: PagesView,
    doc: json::JsonView,
    list: json::JsonView,
    items: Seq<json::JsonView>,
)
    requires
        match p.nested {
            Some(key) => doc.field(key) == Some(list),
            None => doc == list,
        },
        list.field("items"@) == Some(json::JsonView::List(items)),
    ensures
        p.turned(Some(doc)).rows == p.rows + rows::rows_of(p.kind, items),
        p.turned(Some(doc)).pages == p.pages + 1,
        list.field("next"@) matches Some(json::JsonView::Text(next)) ==> p.turned(
            Some(doc),
        ).wanted() == (if p.pages + 1 < p.max_pages {
            Some(next)
        } else {
            None
        }),
        !(list.field("next"@) matches Some(json::JsonView::Text(_))) ==> p.turned(
            Some(doc),
        ).wanted() is None,
{
}

/// A page that does not come ends the walk and takes nothing away.
pub proof fn law_a_missing_page_ends_the_walk(p: PagesView)
    ensures
        p.turned(None).wanted() is None,
        p.turned(None).rows == p.rows,
        p.turned(None).pages == p.pages,
{
}

/// What is modelled of a walk is what it holds.
pub proof fn law_a_walk_is_modelled_whole(walk: Pages)
    ensures
        walk@.rows == library::rows(walk.rows@),
        walk@.url is Some <==> walk.url is Some,
        walk.url matches Some(url) ==> walk@.url == Some(url@),
        walk@.pages == walk.pages,
        walk@.max_pages == walk.max_pages,
        walk@.nested is Some <==> walk.nested is Some,
        walk.nested matches Some(key) ==> walk@.nested == Some(key@),
        walk@.kind == walk.kind,
{
}

/// A page without the list it was asked for brings nothing and is the last.
pub proof fn law_a_page_without_its_list_is_the_last(
    p: PagesView,
    doc: json::JsonView,
    key: Seq<char>,
)
    requires
        p.nested == Some(key),
        doc.field(key) is None,
    ensures
        p.turned(Some(doc)).rows == p.rows,
        p.turned(Some(doc)).wanted() is None,
{
    assert(p.rows + Seq::empty() =~= p.rows);
    assert(rows::rows_of(p.kind, Seq::empty()) =~= Seq::empty());
}

} // verus!
