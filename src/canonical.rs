//! The canonical (RFC 8785) JSON form of a catalog snapshot.
//!
//! Object keys appear in the order of their UTF-16 code units, arrays keep their
//! order, there is no insignificant whitespace, and integers are written as
//! plain decimals. String literals come from `serde_json_canonicalizer`.

use vstd::prelude::*;
use vstd::string::StringSliceAdditionalSpecFns;
use vstd::utf8::encode_scalar;
use crate::catalog::{FileModel, LinkModel, RecordModel};
use crate::metadata::{metadata_model, ArtifactMetadata, FileMetadata, LinkMetadata};

verus! {

pub open spec fn lit(s: &str) -> Seq<u8> {
    s.spec_bytes()
}

pub open spec fn hex_lower_digit(n: int) -> u8 {
    if n < 10 {
        (48 + n) as u8
    } else {
        (87 + n) as u8
    }
}

/// The bytes that stand for one character inside a JSON string literal.
pub open spec fn char_json(c: char) -> Seq<u8> {
    if c == '"' {
        seq![92u8, 34u8]
    } else if c == '\\' {
        seq![92u8, 92u8]
    } else if c == '\u{8}' {
        seq![92u8, 98u8]
    } else if c == '\u{c}' {
        seq![92u8, 102u8]
    } else if c == '\n' {
        seq![92u8, 110u8]
    } else if c == '\r' {
        seq![92u8, 114u8]
    } else if c == '\t' {
        seq![92u8, 116u8]
    } else if (c as u32) < 32 {
        seq![
            92u8,
            117u8,
            48u8,
            48u8,
            hex_lower_digit((c as u32) as int / 16),
            hex_lower_digit((c as u32) as int % 16),
        ]
    } else {
        encode_scalar(c as u32)
    }
}

pub open spec fn escaped_text(s: Seq<char>) -> Seq<u8>
    decreases s.len(),
{
    if s.len() == 0 {
        seq![]
    } else {
        escaped_text(s.drop_last()) + char_json(s.last())
    }
}

/// A JSON string literal holding `s`.
pub open spec fn json_string(s: Seq<char>) -> Seq<u8> {
    seq![34u8] + escaped_text(s) + seq![34u8]
}

/// The decimal digits of `n`, without leading zeros.
pub open spec fn decimal(n: nat) -> Seq<u8>
    decreases n,
{
    if n < 10 {
        seq![(48 + n) as u8]
    } else {
        decimal(n / 10) + seq![(48 + n % 10) as u8]
    }
}

/// Items separated by commas.
pub open spec fn join(items: Seq<Seq<u8>>) -> Seq<u8>
    decreases items.len(),
{
    if items.len() == 0 {
        seq![]
    } else if items.len() == 1 {
        items[0]
    } else {
        join(items.drop_last()) + seq![44u8] + items.last()
    }
}

pub open spec fn json_array(items: Seq<Seq<u8>>) -> Seq<u8> {
    seq![91u8] + join(items) + seq![93u8]
}

pub open spec fn json_bool(b: bool) -> Seq<u8> {
    if b {
        lit("true")
    } else {
        lit("false")
    }
}

pub open spec fn json_opt_string(o: Option<Seq<char>>) -> Seq<u8> {
    match o {
        Some(s) => json_string(s),
        None => lit("null"),
    }
}

pub open spec fn json_opt_number(o: Option<u32>) -> Seq<u8> {
    match o {
        Some(n) => decimal(n as nat),
        None => lit("null"),
    }
}

pub open spec fn json_strings(s: Seq<Seq<char>>) -> Seq<u8> {
    json_array(s.map_values(|t: Seq<char>| json_string(t)))
}

pub open spec fn json_numbers(s: Seq<u32>) -> Seq<u8> {
    json_array(s.map_values(|n: u32| decimal(n as nat)))
}

#[verifier::opaque]
pub open spec fn file_json(f: FileModel) -> Seq<u8> {
    lit("{\"filename\":") + json_string(f.filename) + lit(",\"hash\":") + json_string(f.hash) + lit(
        ",\"hash_algorithm\":",
    ) + json_string(f.hash_algorithm) + lit(",\"hidden\":") + json_bool(f.hidden) + lit(
        ",\"lang\":",
    ) + json_opt_string(f.lang) + lit(",\"media_type\":") + json_opt_string(f.media_type) + lit(
        ",\"name\":",
    ) + json_string(f.name) + lit(",\"url\":") + json_string(f.url) + lit("}")
}

pub open spec fn link_json(l: LinkModel) -> Seq<u8> {
    lit("{\"name\":") + json_string(l.name) + lit(",\"url\":") + json_string(l.url) + lit("}")
}

#[verifier::opaque]
pub open spec fn record_json(r: RecordModel) -> Seq<u8> {
    lit("{\"collections\":") + json_strings(r.collections) + lit(",\"decades\":") + json_numbers(
        r.decades,
    ) + lit(",\"description\":") + json_opt_string(r.description) + lit(",\"files\":")
        + json_array(r.files.map_values(|f: FileModel| file_json(f))) + lit(",\"from_year\":")
        + decimal(r.from_year as nat) + lit(",\"id\":") + json_string(r.id) + lit(
        ",\"identities\":",
    ) + json_strings(r.identities) + lit(",\"links\":") + json_array(
        r.links.map_values(|l: LinkModel| link_json(l)),
    ) + lit(",\"people\":") + json_strings(r.people) + lit(",\"summary\":") + json_string(
        r.summary,
    ) + lit(",\"title\":") + json_string(r.title) + lit(",\"to_year\":") + json_opt_number(
        r.to_year,
    ) + lit(",\"url\":") + json_string(r.url) + lit("}")
}

/// The canonical form of a snapshot: a JSON array of its records, in order.
pub open spec fn snapshot_json(s: Seq<RecordModel>) -> Seq<u8> {
    json_array(s.map_values(|r: RecordModel| record_json(r)))
}

proof fn lemma_join_push(s: Seq<Seq<u8>>, x: Seq<u8>)
    ensures
        join(s.push(x)) == if s.len() == 0 {
            x
        } else {
            join(s) + seq![44u8] + x
        },
{
    assert(s.push(x).drop_last() =~= s);
    if s.len() == 0 {
        assert(s.push(x)[0] == x);
    }
}

/// Relies on serde_json_canonicalizer::to_vec applied to a string: a quoted
/// literal in which `"` and `\` are escaped, backspace, form feed, line feed,
/// carriage return and tab take their short escapes, other control characters
/// take `\u00xx` with lowercase hex, and every other character is its UTF-8.
/// Its only failure is a failed write, and writing into a `Vec<u8>` does not fail.
#[verifier::external_body]
fn canonical_string(s: &str) -> (r: Option<Vec<u8>>)
    ensures
        r is Some,
        r matches Some(b) ==> b@ == json_string(s@),
{
    serde_json_canonicalizer::to_vec(&s).ok()
}

fn lit_bytes(s: &str) -> (r: Vec<u8>)
    ensures
        r@ == lit(s),
{
    let mut r: Vec<u8> = Vec::new();
    push_lit(&mut r, s);
    assert(r@ =~= lit(s));
    r
}

fn push_lit(out: &mut Vec<u8>, s: &str)
    ensures
        final(out)@ == old(out)@ + lit(s),
{
    let b = s.as_bytes();
    let mut i: usize = 0;
    while i < b.len()
        invariant
            0 <= i <= b@.len(),
            b@ == lit(s),
            out@ == old(out)@ + b@.take(i as int),
        decreases b@.len() - i,
    {
        out.push(b[i]);
        assert(b@.take(i + 1) =~= b@.take(i as int).push(b@[i as int]));
        i = i + 1;
    }
    assert(b@.take(b@.len() as int) =~= b@);
}

fn push_string(out: &mut Vec<u8>, s: &String)
    ensures
        final(out)@ == old(out)@ + json_string(s@),
{
    match canonical_string(s.as_str()) {
        Some(b) => {
            let mut b = b;
            out.append(&mut b);
        },
        None => {},
    }
}

fn push_opt_string(out: &mut Vec<u8>, o: &Option<String>)
    ensures
        final(out)@ == old(out)@ + json_opt_string(crate::catalog::opt_text(*o)),
{
    match o {
        Some(s) => push_string(out, s),
        None => {
            push_lit(out, "null");
        },
    }
}

fn push_decimal(out: &mut Vec<u8>, n: u32)
    ensures
        final(out)@ == old(out)@ + decimal(n as nat),
    decreases n,
{
    if n >= 10 {
        push_decimal(out, n / 10);
    }
    out.push(48u8 + (n % 10) as u8);
    assert(final(out)@ =~= old(out)@ + decimal(n as nat));
}

fn push_opt_number(out: &mut Vec<u8>, o: Option<u32>)
    ensures
        final(out)@ == old(out)@ + json_opt_number(o),
{
    match o {
        Some(n) => push_decimal(out, n),
        None => push_lit(out, "null"),
    }
}

fn push_bool(out: &mut Vec<u8>, b: bool)
    ensures
        final(out)@ == old(out)@ + json_bool(b),
{
    if b {
        push_lit(out, "true");
    } else {
        push_lit(out, "false");
    }
}

fn push_strings(out: &mut Vec<u8>, v: &Vec<String>)
    ensures
        final(out)@ == old(out)@ + json_strings(crate::catalog::texts(v@)),
{
    let ghost items = crate::catalog::texts(v@).map_values(|t: Seq<char>| json_string(t));
    out.push(91u8);
    let mut i: usize = 0;
    while i < v.len()
        invariant
            0 <= i <= v@.len(),
            items.len() == v@.len(),
            forall|k: int| 0 <= k < v@.len() ==> #[trigger] items[k] == json_string(v@[k]@),
            out@ == old(out)@ + seq![91u8] + join(items.take(i as int)),
        decreases v@.len() - i,
    {
        if i > 0 {
            out.push(44u8);
        }
        push_string(out, &v[i]);
        proof {
            lemma_join_push(items.take(i as int), items[i as int]);
            assert(items.take(i + 1) =~= items.take(i as int).push(items[i as int]));
        }
        assert(out@ =~= old(out)@ + seq![91u8] + join(items.take(i + 1)));
        i = i + 1;
    }
    out.push(93u8);
    assert(items.take(v@.len() as int) =~= items);
    assert(out@ =~= old(out)@ + json_strings(crate::catalog::texts(v@)));
}

fn push_numbers(out: &mut Vec<u8>, v: &Vec<u32>)
    ensures
        final(out)@ == old(out)@ + json_numbers(v@),
{
    let ghost items = v@.map_values(|n: u32| decimal(n as nat));
    out.push(91u8);
    let mut i: usize = 0;
    while i < v.len()
        invariant
            0 <= i <= v@.len(),
            items == v@.map_values(|n: u32| decimal(n as nat)),
            out@ == old(out)@ + seq![91u8] + join(items.take(i as int)),
        decreases v@.len() - i,
    {
        if i > 0 {
            out.push(44u8);
        }
        push_decimal(out, v[i]);
        proof {
            lemma_join_push(items.take(i as int), items[i as int]);
            assert(items.take(i + 1) =~= items.take(i as int).push(items[i as int]));
        }
        assert(out@ =~= old(out)@ + seq![91u8] + join(items.take(i + 1)));
        i = i + 1;
    }
    out.push(93u8);
    assert(items.take(v@.len() as int) =~= items);
    assert(out@ =~= old(out)@ + json_numbers(v@));
}

fn push_file(out: &mut Vec<u8>, f: &FileMetadata)
    ensures
        final(out)@ == old(out)@ + file_json(f@),
{
    let mut buf = lit_bytes("{\"filename\":");
    push_string(&mut buf, &f.filename);
    push_lit(&mut buf, ",\"hash\":");
    push_string(&mut buf, &f.hash);
    push_lit(&mut buf, ",\"hash_algorithm\":");
    push_string(&mut buf, &f.hash_algorithm);
    push_lit(&mut buf, ",\"hidden\":");
    push_bool(&mut buf, f.hidden);
    push_lit(&mut buf, ",\"lang\":");
    push_opt_string(&mut buf, &f.lang);
    push_lit(&mut buf, ",\"media_type\":");
    push_opt_string(&mut buf, &f.media_type);
    push_lit(&mut buf, ",\"name\":");
    push_string(&mut buf, &f.name);
    push_lit(&mut buf, ",\"url\":");
    push_string(&mut buf, &f.url);
    push_lit(&mut buf, "}");
    assert(buf@ == file_json(f@)) by {
        reveal(file_json);
    }
    out.append(&mut buf);
}

fn push_link(out: &mut Vec<u8>, l: &LinkMetadata)
    ensures
        final(out)@ == old(out)@ + link_json(l@),
{
    let mut buf = lit_bytes("{\"name\":");
    push_string(&mut buf, &l.name);
    push_lit(&mut buf, ",\"url\":");
    push_string(&mut buf, &l.url);
    push_lit(&mut buf, "}");
    assert(buf@ == link_json(l@));
    out.append(&mut buf);
}

fn push_files(out: &mut Vec<u8>, v: &Vec<FileMetadata>)
    ensures
        final(out)@ == old(out)@ + json_array(
            v@.map_values(|f: FileMetadata| f@).map_values(|f: FileModel| file_json(f)),
        ),
{
    let ghost items = v@.map_values(|f: FileMetadata| f@).map_values(|f: FileModel| file_json(f));
    out.push(91u8);
    let mut i: usize = 0;
    while i < v.len()
        invariant
            0 <= i <= v@.len(),
            items.len() == v@.len(),
            forall|k: int| 0 <= k < v@.len() ==> #[trigger] items[k] == file_json(v@[k]@),
            out@ == old(out)@ + seq![91u8] + join(items.take(i as int)),
        decreases v@.len() - i,
    {
        if i > 0 {
            out.push(44u8);
        }
        push_file(out, &v[i]);
        proof {
            lemma_join_push(items.take(i as int), items[i as int]);
            assert(items.take(i + 1) =~= items.take(i as int).push(items[i as int]));
        }
        assert(out@ =~= old(out)@ + seq![91u8] + join(items.take(i + 1)));
        i = i + 1;
    }
    out.push(93u8);
    assert(items.take(v@.len() as int) =~= items);
    assert(out@ =~= old(out)@ + json_array(items));
}

fn push_links(out: &mut Vec<u8>, v: &Vec<LinkMetadata>)
    ensures
        final(out)@ == old(out)@ + json_array(
            v@.map_values(|l: LinkMetadata| l@).map_values(|l: LinkModel| link_json(l)),
        ),
{
    let ghost items = v@.map_values(|l: LinkMetadata| l@).map_values(|l: LinkModel| link_json(l));
    out.push(91u8);
    let mut i: usize = 0;
    while i < v.len()
        invariant
            0 <= i <= v@.len(),
            items.len() == v@.len(),
            forall|k: int| 0 <= k < v@.len() ==> #[trigger] items[k] == link_json(v@[k]@),
            out@ == old(out)@ + seq![91u8] + join(items.take(i as int)),
        decreases v@.len() - i,
    {
        if i > 0 {
            out.push(44u8);
        }
        push_link(out, &v[i]);
        proof {
            lemma_join_push(items.take(i as int), items[i as int]);
            assert(items.take(i + 1) =~= items.take(i as int).push(items[i as int]));
        }
        assert(out@ =~= old(out)@ + seq![91u8] + join(items.take(i + 1)));
        i = i + 1;
    }
    out.push(93u8);
    assert(items.take(v@.len() as int) =~= items);
    assert(out@ =~= old(out)@ + json_array(items));
}

fn push_record(out: &mut Vec<u8>, r: &ArtifactMetadata)
    ensures
        final(out)@ == old(out)@ + record_json(r@),
{
    let mut buf = lit_bytes("{\"collections\":");
    push_strings(&mut buf, &r.collections);
    push_lit(&mut buf, ",\"decades\":");
    push_numbers(&mut buf, &r.decades);
    push_lit(&mut buf, ",\"description\":");
    push_opt_string(&mut buf, &r.description);
    push_lit(&mut buf, ",\"files\":");
    push_files(&mut buf, &r.files);
    push_lit(&mut buf, ",\"from_year\":");
    push_decimal(&mut buf, r.from_year);
    push_lit(&mut buf, ",\"id\":");
    push_string(&mut buf, &r.id);
    push_lit(&mut buf, ",\"identities\":");
    push_strings(&mut buf, &r.identities);
    push_lit(&mut buf, ",\"links\":");
    push_links(&mut buf, &r.links);
    push_lit(&mut buf, ",\"people\":");
    push_strings(&mut buf, &r.people);
    push_lit(&mut buf, ",\"summary\":");
    push_string(&mut buf, &r.summary);
    push_lit(&mut buf, ",\"title\":");
    push_string(&mut buf, &r.title);
    push_lit(&mut buf, ",\"to_year\":");
    push_opt_number(&mut buf, r.to_year);
    push_lit(&mut buf, ",\"url\":");
    push_string(&mut buf, &r.url);
    push_lit(&mut buf, "}");
    assert(buf@ == record_json(r@)) by {
        reveal(record_json);
    }
    out.append(&mut buf);
}

/// The canonical JSON form of a snapshot of projected records, in the order
/// given.
pub fn canonical_snapshot(records: &Vec<ArtifactMetadata>) -> (r: Vec<u8>)
    ensures
        r@ == snapshot_json(metadata_model(records@)),
{
    let ghost items = metadata_model(records@).map_values(|m: RecordModel| record_json(m));
    let mut out: Vec<u8> = Vec::new();
    out.push(91u8);
    let mut i: usize = 0;
    while i < records.len()
        invariant
            0 <= i <= records@.len(),
            items.len() == records@.len(),
            forall|k: int| 0 <= k < records@.len() ==> #[trigger] items[k] == record_json(
                records@[k]@,
            ),
            out@ == seq![91u8] + join(items.take(i as int)),
        decreases records@.len() - i,
    {
        if i > 0 {
            out.push(44u8);
        }
        push_record(&mut out, &records[i]);
        proof {
            lemma_join_push(items.take(i as int), items[i as int]);
            assert(items.take(i + 1) =~= items.take(i as int).push(items[i as int]));
        }
        assert(out@ =~= seq![91u8] + join(items.take(i + 1)));
        i = i + 1;
    }
    out.push(93u8);
    assert(items.take(records@.len() as int) =~= items);
    assert(out@ =~= snapshot_json(metadata_model(records@)));
    out
}

} // verus!
