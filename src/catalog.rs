//! The upstream catalog's records, their mathematical model, and the
//! decisions of the paginated fetch.

use vstd::prelude::*;

verus! {

/// Number of records asked for in each page request.
pub const ARTIFACTS_PAGE_SIZE: usize = 50;

/// Model of one distributable file of a record.
pub struct FileModel {
    pub name: Seq<char>,
    pub filename: Seq<char>,
    pub media_type: Option<Seq<char>>,
    pub hash: Seq<char>,
    pub hash_algorithm: Seq<char>,
    pub url: Seq<char>,
    pub lang: Option<Seq<char>>,
    pub hidden: bool,
}

/// Model of a named external link of a record.
pub struct LinkModel {
    pub name: Seq<char>,
    pub url: Seq<char>,
}

/// Model of one cataloged record.
pub struct RecordModel {
    pub id: Seq<char>,
    pub title: Seq<char>,
    pub summary: Seq<char>,
    pub description: Option<Seq<char>>,
    pub url: Seq<char>,
    pub files: Seq<FileModel>,
    pub links: Seq<LinkModel>,
    pub people: Seq<Seq<char>>,
    pub identities: Seq<Seq<char>>,
    pub from_year: u32,
    pub to_year: Option<u32>,
    pub decades: Seq<u32>,
    pub collections: Seq<Seq<char>>,
}

pub open spec fn opt_text(o: Option<String>) -> Option<Seq<char>> {
    match o {
        Some(s) => Some(s@),
        None => None,
    }
}

pub open spec fn texts(v: Seq<String>) -> Seq<Seq<char>> {
    v.map_values(|s: String| s@)
}

/// A file of a record as the upstream catalog lists it.
pub struct FileResponse {
    pub name: String,
    pub filename: String,
    pub media_type: Option<String>,
    pub hash: String,
    pub hash_algorithm: String,
    pub url: String,
    pub lang: Option<String>,
    pub hidden: bool,
}

impl View for FileResponse {
    type V = FileModel;

    open spec fn view(&self) -> FileModel {
        FileModel {
            name: self.name@,
            filename: self.filename@,
            media_type: opt_text(self.media_type),
            hash: self.hash@,
            hash_algorithm: self.hash_algorithm@,
            url: self.url@,
            lang: opt_text(self.lang),
            hidden: self.hidden,
        }
    }
}

/// A link of a record as the upstream catalog lists it.
pub struct LinkResponse {
    pub name: String,
    pub url: String,
}

impl View for LinkResponse {
    type V = LinkModel;

    open spec fn view(&self) -> LinkModel {
        LinkModel { name: self.name@, url: self.url@ }
    }
}

/// A record as the upstream catalog lists it.
pub struct ArtifactResponse {
    pub id: String,
    pub title: String,
    pub summary: String,
    pub description: Option<String>,
    pub url: String,
    pub files: Vec<FileResponse>,
    pub links: Vec<LinkResponse>,
    pub people: Vec<String>,
    pub identities: Vec<String>,
    pub from_year: u32,
    pub to_year: Option<u32>,
    pub decades: Vec<u32>,
    pub collections: Vec<String>,
}

impl View for ArtifactResponse {
    type V = RecordModel;

    open spec fn view(&self) -> RecordModel {
        RecordModel {
            id: self.id@,
            title: self.title@,
            summary: self.summary@,
            description: opt_text(self.description),
            url: self.url@,
            files: self.files@.map_values(|f: FileResponse| f@),
            links: self.links@.map_values(|l: LinkResponse| l@),
            people: texts(self.people@),
            identities: texts(self.identities@),
            from_year: self.from_year,
            to_year: self.to_year,
            decades: self.decades@,
            collections: texts(self.collections@),
        }
    }
}

/// The models of a sequence of records.
pub open spec fn records_model(s: Seq<ArtifactResponse>) -> Seq<RecordModel> {
    s.map_values(|a: ArtifactResponse| a@)
}

/// One page of the catalog: its records and, unless it is the last page, the
/// opaque cursor of the next one.
pub struct ArtifactsPage {
    pub items: Vec<ArtifactResponse>,
    pub next_cursor: Option<String>,
}

/// A page request: how many records to ask for, and from which cursor.
pub struct PageRequest {
    pub limit: usize,
    pub cursor: Option<String>,
}

/// State of a sequential, cursor-chained fetch of the whole catalog.
///
/// The first request carries no cursor; each later request carries the cursor
/// of the page before it; the first page without a cursor ends the fetch.
pub struct CatalogPager {
    items: Vec<ArtifactResponse>,
    cursor: Option<String>,
    finished: bool,
}

impl CatalogPager {
    /// Records received so far, in page-arrival order.
    pub closed spec fn received(&self) -> Seq<RecordModel> {
        records_model(self.items@)
    }

    /// The cursor the next request carries.
    pub closed spec fn next_cursor(&self) -> Option<Seq<char>> {
        opt_text(self.cursor)
    }

    /// Whether a page without a cursor has arrived.
    pub closed spec fn is_finished(&self) -> bool {
        self.finished
    }

    pub fn new() -> (r: CatalogPager)
        ensures
            r.received() == Seq::<RecordModel>::empty(),
            r.next_cursor() is None,
            !r.is_finished(),
    {
        let r = CatalogPager { items: Vec::new(), cursor: None, finished: false };
        assert(r.received() =~= Seq::<RecordModel>::empty());
        r
    }

    /// The request to send next, or `None` once the fetch is complete.
    pub fn next_request(&self) -> (r: Option<PageRequest>)
        ensures
            self.is_finished() <==> r is None,
            r matches Some(q) ==> q.limit == ARTIFACTS_PAGE_SIZE && opt_text(q.cursor)
                == self.next_cursor(),
    {
        if self.finished {
            None
        } else {
            let cursor = match &self.cursor {
                Some(c) => Some(c.clone()),
                None => None,
            };
            Some(PageRequest { limit: ARTIFACTS_PAGE_SIZE, cursor })
        }
    }

    /// Takes in the page answering the last request: its records are appended,
    /// and its cursor, if any, is the next one to follow.
    pub fn receive(&mut self, page: ArtifactsPage)
        requires
            !old(self).is_finished(),
        ensures
            final(self).received() == old(self).received() + records_model(page.items@),
            final(self).next_cursor() == opt_text(page.next_cursor),
            final(self).is_finished() == (page.next_cursor is None),
    {
        let ArtifactsPage { items, next_cursor } = page;
        let mut items = items;
        let ghost before = self.items@;
        let ghost added = items@;
        self.items.append(&mut items);
        assert(records_model(self.items@) =~= records_model(before) + records_model(added));
        self.finished = next_cursor.is_none();
        self.cursor = next_cursor;
    }

    /// Every record received, in page-arrival order.
    pub fn into_items(self) -> (r: Vec<ArtifactResponse>)
        ensures
            records_model(r@) == self.received(),
    {
        self.items
    }
}

} // verus!
