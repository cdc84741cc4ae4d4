//! The metadata shape that is hashed: exactly the fields that prove a record's
//! content identity, per-file hashes included, with file contents left out.

use vstd::prelude::*;
use crate::catalog::{
    opt_text, texts, ArtifactResponse, FileModel, FileResponse, LinkModel, LinkResponse,
    RecordModel,
};

verus! {

pub struct FileMetadata {
    pub name: String,
    pub filename: String,
    pub media_type: Option<String>,
    pub hash: String,
    pub hash_algorithm: String,
    pub url: String,
    pub lang: Option<String>,
    pub hidden: bool,
}

impl View for FileMetadata {
    type V = FileModel;

    open spec fn view(&self) -> FileModel {
        FileModel {
            name: self.name@,
            filename: self.filename@,
            media_type: opt_text(self.media_type),
            hash: self.hash@,
            hash_algorithm: self.hash_algorithm@,
            url: self.url@,
            lang: opt_text(self.lang),
            hidden: self.hidden,
        }
    }
}

pub struct LinkMetadata {
    pub name: String,
    pub url: String,
}

impl View for LinkMetadata {
    type V = LinkModel;

    open spec fn view(&self) -> LinkModel {
        LinkModel { name: self.name@, url: self.url@ }
    }
}

pub struct ArtifactMetadata {
    pub id: String,
    pub url: String,
    pub title: String,
    pub summary: String,
    pub description: Option<String>,
    pub files: Vec<FileMetadata>,
    pub links: Vec<LinkMetadata>,
    pub people: Vec<String>,
    pub identities: Vec<String>,
    pub from_year: u32,
    pub to_year: Option<u32>,
    pub decades: Vec<u32>,
    pub collections: Vec<String>,
}

impl View for ArtifactMetadata {
    type V = RecordModel;

    open spec fn view(&self) -> RecordModel {
        RecordModel {
            id: self.id@,
            title: self.title@,
            summary: self.summary@,
            description: opt_text(self.description),
            url: self.url@,
            files: self.files@.map_values(|f: FileMetadata| f@),
            links: self.links@.map_values(|l: LinkMetadata| l@),
            people: texts(self.people@),
            identities: texts(self.identities@),
            from_year: self.from_year,
            to_year: self.to_year,
            decades: self.decades@,
            collections: texts(self.collections@),
        }
    }
}

/// The models of a sequence of projected records.
pub open spec fn metadata_model(s: Seq<ArtifactMetadata>) -> Seq<RecordModel> {
    s.map_values(|m: ArtifactMetadata| m@)
}

/// The projection of a record into the hashed shape. Every field of the
/// catalog's record takes part in content identity, so the model is unchanged.
pub open spec fn project(r: RecordModel) -> RecordModel {
    r
}

fn copy_opt_text(o: &Option<String>) -> (r: Option<String>)
    ensures
        opt_text(r) == opt_text(*o),
{
    match o {
        Some(s) => Some(s.clone()),
        None => None,
    }
}

fn copy_texts(v: &Vec<String>) -> (r: Vec<String>)
    ensures
        texts(r@) == texts(v@),
{
    let mut r: Vec<String> = Vec::new();
    let mut i: usize = 0;
    while i < v.len()
        invariant
            0 <= i <= v@.len(),
            texts(r@) =~= texts(v@.take(i as int)),
        decreases v@.len() - i,
    {
        r.push(v[i].clone());
        assert(texts(v@.take(i + 1)) =~= texts(v@.take(i as int)).push(v@[i as int]@));
        i = i + 1;
    }
    assert(v@.take(v@.len() as int) =~= v@);
    r
}

fn copy_numbers(v: &Vec<u32>) -> (r: Vec<u32>)
    ensures
        r@ == v@,
{
    let mut r: Vec<u32> = Vec::new();
    let mut i: usize = 0;
    while i < v.len()
        invariant
            0 <= i <= v@.len(),
            r@ =~= v@.take(i as int),
        decreases v@.len() - i,
    {
        r.push(v[i]);
        i = i + 1;
    }
    assert(v@.take(v@.len() as int) =~= v@);
    r
}

impl FileMetadata {
    pub fn from_response(f: &FileResponse) -> (r: FileMetadata)
        ensures
            r@ == f@,
    {
        FileMetadata {
            name: f.name.clone(),
            filename: f.filename.clone(),
            media_type: copy_opt_text(&f.media_type),
            hash: f.hash.clone(),
            hash_algorithm: f.hash_algorithm.clone(),
            url: f.url.clone(),
            lang: copy_opt_text(&f.lang),
            hidden: f.hidden,
        }
    }
}

impl LinkMetadata {
    pub fn from_response(l: &LinkResponse) -> (r: LinkMetadata)
        ensures
            r@ == l@,
    {
        LinkMetadata { name: l.name.clone(), url: l.url.clone() }
    }
}

impl ArtifactMetadata {
    /// Projects a catalog record into the hashed shape.
    pub fn from_response(a: &ArtifactResponse) -> (r: ArtifactMetadata)
        ensures
            r@ == project(a@),
    {
        let mut files: Vec<FileMetadata> = Vec::new();
        let mut i: usize = 0;
        while i < a.files.len()
            invariant
                0 <= i <= a.files@.len(),
                files@.map_values(|f: FileMetadata| f@) =~= a.files@.take(i as int).map_values(
                    |f: FileResponse| f@,
                ),
            decreases a.files@.len() - i,
        {
            files.push(FileMetadata::from_response(&a.files[i]));
            assert(a.files@.take(i + 1).map_values(|f: FileResponse| f@) =~= a.files@.take(
                i as int,
            ).map_values(|f: FileResponse| f@).push(a.files@[i as int]@));
            i = i + 1;
        }
        assert(a.files@.take(a.files@.len() as int) =~= a.files@);
        let mut links: Vec<LinkMetadata> = Vec::new();
        let mut j: usize = 0;
        while j < a.links.len()
            invariant
                0 <= j <= a.links@.len(),
                links@.map_values(|l: LinkMetadata| l@) =~= a.links@.take(j as int).map_values(
                    |l: LinkResponse| l@,
                ),
            decreases a.links@.len() - j,
        {
            links.push(LinkMetadata::from_response(&a.links[j]));
            assert(a.links@.take(j + 1).map_values(|l: LinkResponse| l@) =~= a.links@.take(
                j as int,
            ).map_values(|l: LinkResponse| l@).push(a.links@[j as int]@));
            j = j + 1;
        }
        assert(a.links@.take(a.links@.len() as int) =~= a.links@);
        let r = ArtifactMetadata {
            id: a.id.clone(),
            url: a.url.clone(),
            title: a.title.clone(),
            summary: a.summary.clone(),
            description: copy_opt_text(&a.description),
            files,
            links,
            people: copy_texts(&a.people),
            identities: copy_texts(&a.identities),
            from_year: a.from_year,
            to_year: a.to_year,
            decades: copy_numbers(&a.decades),
            collections: copy_texts(&a.collections),
        };
        assert(r@ =~= a@);
        r
    }
}

} // verus!
