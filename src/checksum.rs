//! The backup checksum: project every record, order the snapshot by identifier,
//! serialize it canonically, digest it with SHA-256 and hex-encode the digest.

use vstd::prelude::*;
use vstd::string::StringSliceAdditionalSpecFns;
use vstd::multiset::Multiset;
use vstd::utf8::encode_utf8;
use crate::canonical::{canonical_snapshot, snapshot_json};
use crate::catalog::{records_model, ArtifactResponse, RecordModel};
use crate::metadata::{metadata_model, project, ArtifactMetadata};

verus! {

/// Byte-wise lexicographic order: `a` sorts strictly before `b`.
pub open spec fn bytes_lt(a: Seq<u8>, b: Seq<u8>) -> bool
    decreases a.len(),
{
    if a.len() == 0 {
        b.len() > 0
    } else if b.len() == 0 {
        false
    } else if a[0] != b[0] {
        a[0] < b[0]
    } else {
        bytes_lt(a.drop_first(), b.drop_first())
    }
}

/// A record's sort key: its identifier as UTF-8 bytes.
pub open spec fn id_key(r: RecordModel) -> Seq<u8> {
    encode_utf8(r.id)
}

/// Places `x` after every element whose key is not greater than its own.
pub open spec fn insert_sorted(s: Seq<RecordModel>, x: RecordModel) -> Seq<RecordModel>
    decreases s.len(),
{
    if s.len() == 0 {
        seq![x]
    } else if bytes_lt(id_key(x), id_key(s.last())) {
        insert_sorted(s.drop_last(), x).push(s.last())
    } else {
        s.push(x)
    }
}

/// Stable sort by identifier bytes, ascending.
pub open spec fn sort_by_id(s: Seq<RecordModel>) -> Seq<RecordModel>
    decreases s.len(),
{
    if s.len() == 0 {
        s
    } else {
        insert_sorted(sort_by_id(s.drop_last()), s.last())
    }
}

/// The snapshot that is hashed: the projected records, ordered by identifier.
pub open spec fn snapshot(s: Seq<RecordModel>) -> Seq<RecordModel> {
    sort_by_id(s.map_values(|r: RecordModel| project(r)))
}

/// Name for the SHA-256 digest of a byte string.
pub uninterp spec fn sha256_of(data: Seq<u8>) -> Seq<u8>;

pub open spec fn hex_digit_char(n: int) -> char {
    if n < 10 {
        (48 + n) as char
    } else {
        (87 + n) as char
    }
}

/// Two lowercase hexadecimal digits per byte, high nibble first.
pub open spec fn hex_text(b: Seq<u8>) -> Seq<char> {
    Seq::new(
        2 * b.len(),
        |i: int|
            if i % 2 == 0 {
                hex_digit_char(b[i / 2] as int / 16)
            } else {
                hex_digit_char(b[i / 2] as int % 16)
            },
    )
}

/// The checksum of a catalog: hex of the SHA-256 of the canonical snapshot.
pub open spec fn backup_digest(s: Seq<RecordModel>) -> Seq<char> {
    hex_text(sha256_of(snapshot_json(snapshot(s))))
}

/// The failure that a checksum computation declares: a value without a canonical
/// form. No record of this library lacks one, so it is never produced.
pub struct SerializationError;

/// Relies on sha2::Sha256::digest: the SHA-256 digest of the input, 32 bytes.
#[verifier::external_body]
fn sha256(data: &[u8]) -> (r: Vec<u8>)
    ensures
        r@ == sha256_of(data@),
        r@.len() == 32,
{
    <sha2::Sha256 as sha2::Digest>::digest(data).to_vec()
}

/// Relies on hex::encode: two lowercase digits per byte, high nibble first.
#[verifier::external_body]
fn hex_encode(data: &[u8]) -> (r: String)
    ensures
        r@ == hex_text(data@),
{
    hex::encode(data)
}

/// Hex-encoded SHA-256 digest of canonical snapshot bytes.
pub fn digest_hex(canonical: &[u8]) -> (r: String)
    ensures
        r@ == hex_text(sha256_of(canonical@)),
        r@.len() == 64,
{
    let d = sha256(canonical);
    hex_encode(d.as_slice())
}

proof fn lemma_bytes_lt_skip(a: Seq<u8>, b: Seq<u8>, i: int)
    requires
        0 <= i <= a.len(),
        i <= b.len(),
        a.take(i) == b.take(i),
    ensures
        bytes_lt(a, b) == bytes_lt(a.skip(i), b.skip(i)),
    decreases i,
{
    if i > 0 {
        assert(a[0] == a.take(i)[0]);
        assert(b[0] == b.take(i)[0]);
        assert(a.drop_first().take(i - 1) =~= a.take(i).drop_first());
        assert(b.drop_first().take(i - 1) =~= b.take(i).drop_first());
        lemma_bytes_lt_skip(a.drop_first(), b.drop_first(), i - 1);
        assert(a.drop_first().skip(i - 1) =~= a.skip(i));
        assert(b.drop_first().skip(i - 1) =~= b.skip(i));
    } else {
        assert(a.skip(0) =~= a);
        assert(b.skip(0) =~= b);
    }
}

/// Whether identifier `a` sorts strictly before identifier `b`, byte-wise.
fn id_lt(a: &String, b: &String) -> (r: bool)
    ensures
        r == bytes_lt(encode_utf8(a@), encode_utf8(b@)),
{
    let x = a.as_str().as_bytes();
    let y = b.as_str().as_bytes();
    let mut i: usize = 0;
    while i < x.len() && i < y.len() && x[i] == y[i]
        invariant
            0 <= i <= x@.len(),
            i <= y@.len(),
            x@.take(i as int) == y@.take(i as int),
        decreases x@.len() - i,
    {
        assert(x@.take(i + 1) =~= x@.take(i as int).push(x@[i as int]));
        assert(y@.take(i + 1) =~= y@.take(i as int).push(y@[i as int]));
        i = i + 1;
    }
    proof {
        lemma_bytes_lt_skip(x@, y@, i as int);
    }
    let ghost xs = x@.skip(i as int);
    let ghost ys = y@.skip(i as int);
    if i == x.len() {
        assert(xs.len() == 0);
        i < y.len()
    } else if i == y.len() {
        assert(ys.len() == 0 && xs.len() > 0);
        false
    } else {
        assert(xs[0] == x@[i as int] && ys[0] == y@[i as int]);
        x[i] < y[i]
    }
}

proof fn lemma_insert_at(s: Seq<RecordModel>, x: RecordModel, j: int)
    requires
        0 <= j <= s.len(),
        forall|k: int| j <= k < s.len() ==> bytes_lt(id_key(x), id_key(#[trigger] s[k])),
        j > 0 ==> !bytes_lt(id_key(x), id_key(s[j - 1])),
    ensures
        insert_sorted(s, x) == s.insert(j, x),
    decreases s.len(),
{
    if s.len() == 0 {
        assert(s.insert(j, x) =~= seq![x]);
    } else if j == s.len() {
        assert(s.insert(j, x) =~= s.push(x));
    } else {
        let t = s.drop_last();
        assert(bytes_lt(id_key(x), id_key(s[s.len() - 1])));
        assert forall|k: int| j <= k < t.len() implies bytes_lt(id_key(x), id_key(#[trigger] t[k])) by {
            assert(t[k] == s[k]);
        }
        if j > 0 {
            assert(t[j - 1] == s[j - 1]);
        }
        lemma_insert_at(t, x, j);
        assert(t.insert(j, x).push(s.last()) =~= s.insert(j, x));
    }
}

/// The projected records, ordered by identifier bytes; records with equal
/// identifiers keep their input order.
pub fn sorted_snapshot(records: &[ArtifactResponse]) -> (r: Vec<ArtifactMetadata>)
    ensures
        metadata_model(r@) == snapshot(records_model(records@)),
{
    let ghost input = records_model(records@).map_values(|m: RecordModel| project(m));
    let mut sorted: Vec<ArtifactMetadata> = Vec::new();
    let mut i: usize = 0;
    while i < records.len()
        invariant
            0 <= i <= records@.len(),
            input == records_model(records@).map_values(|m: RecordModel| project(m)),
            metadata_model(sorted@) == sort_by_id(input.take(i as int)),
        decreases records@.len() - i,
    {
        let m = ArtifactMetadata::from_response(&records[i]);
        let ghost s = metadata_model(sorted@);
        let mut j: usize = sorted.len();
        while j > 0 && id_lt(&m.id, &sorted[j - 1].id)
            invariant
                0 <= j <= sorted@.len(),
                s == metadata_model(sorted@),
                forall|k: int| j <= k < s.len() ==> bytes_lt(id_key(m@), id_key(#[trigger] s[k])),
            decreases j,
        {
            j = j - 1;
        }
        proof {
            lemma_insert_at(s, m@, j as int);
            assert(input.take(i + 1).drop_last() =~= input.take(i as int));
            assert(input.take(i + 1).last() == m@);
        }
        sorted.insert(j, m);
        assert(metadata_model(sorted@) =~= s.insert(j as int, input[i as int]));
        i = i + 1;
    }
    assert(input.take(records@.len() as int) =~= input);
    sorted
}

/// The backup checksum of a catalog, as 64 lowercase hex digits; it depends
/// only on the records' values, not on their order. Every record this library
/// can hold has a canonical form, so the result is always `Ok`.
pub fn compute_backup_checksum(api_response: &[ArtifactResponse]) -> (r: Result<
    String,
    SerializationError,
>)
    ensures
        r matches Ok(h) && h@ == backup_digest(records_model(api_response@)) && h@.len() == 64,
{
    let sorted = sorted_snapshot(api_response);
    let bytes = canonical_snapshot(&sorted);
    Ok(digest_hex(bytes.as_slice()))
}

proof fn lemma_lt_irreflexive(a: Seq<u8>)
    ensures
        !bytes_lt(a, a),
    decreases a.len(),
{
    if a.len() > 0 {
        lemma_lt_irreflexive(a.drop_first());
    }
}

proof fn lemma_lt_transitive(a: Seq<u8>, b: Seq<u8>, c: Seq<u8>)
    requires
        bytes_lt(a, b),
        bytes_lt(b, c),
    ensures
        bytes_lt(a, c),
    decreases a.len(),
{
    if a.len() > 0 && b.len() > 0 && c.len() > 0 && a[0] == b[0] && b[0] == c[0] {
        lemma_lt_transitive(a.drop_first(), b.drop_first(), c.drop_first());
    }
}

proof fn lemma_lt_total(a: Seq<u8>, b: Seq<u8>)
    requires
        a != b,
    ensures
        bytes_lt(a, b) || bytes_lt(b, a),
    decreases a.len(),
{
    if a.len() == 0 && b.len() == 0 {
        assert(a =~= b);
    } else if a.len() > 0 && b.len() > 0 && a[0] == b[0] {
        if a.drop_first() == b.drop_first() {
            assert(a =~= seq![a[0]] + a.drop_first());
            assert(b =~= seq![b[0]] + b.drop_first());
        }
        lemma_lt_total(a.drop_first(), b.drop_first());
    }
}

proof fn lemma_lt_asymmetric(a: Seq<u8>, b: Seq<u8>)
    requires
        bytes_lt(a, b),
    ensures
        !bytes_lt(b, a),
{
    if bytes_lt(b, a) {
        lemma_lt_transitive(a, b, a);
        lemma_lt_irreflexive(a);
    }
}

/// Keys strictly increase along the sequence.
pub open spec fn strictly_sorted(s: Seq<RecordModel>) -> bool {
    forall|i: int, j: int| 0 <= i < j < s.len() ==> bytes_lt(id_key(s[i]), id_key(s[j]))
}

/// No two records of the collection share an identifier.
pub open spec fn distinct_ids(s: Seq<RecordModel>) -> bool {
    forall|i: int, j: int| 0 <= i < s.len() && 0 <= j < s.len() && i != j ==> s[i].id != s[j].id
}

proof fn lemma_key_injective(a: RecordModel, b: RecordModel)
    requires
        a.id != b.id,
    ensures
        id_key(a) != id_key(b),
{
    vstd::utf8::encode_utf8_decode_utf8(a.id);
    vstd::utf8::encode_utf8_decode_utf8(b.id);
}

proof fn lemma_insert_sorted_strict(s: Seq<RecordModel>, x: RecordModel)
    requires
        strictly_sorted(s),
        forall|i: int| 0 <= i < s.len() ==> id_key(#[trigger] s[i]) != id_key(x),
    ensures
        strictly_sorted(insert_sorted(s, x)),
        insert_sorted(s, x).to_multiset() == s.to_multiset().insert(x),
    decreases s.len(),
{
    broadcast use vstd::seq_lib::to_multiset_build, vstd::seq_lib::to_multiset_contains;

    if s.len() == 0 {
        assert(seq![x] =~= Seq::<RecordModel>::empty().push(x));
        assert(Seq::<RecordModel>::empty().to_multiset() =~= Multiset::<RecordModel>::empty()) by {
            vstd::seq_lib::to_multiset_len(Seq::<RecordModel>::empty());
        }
    } else {
        let last = s.last();
        let t = s.drop_last();
        assert(s =~= t.push(last));
        if bytes_lt(id_key(x), id_key(last)) {
            assert forall|i: int| 0 <= i < t.len() implies id_key(#[trigger] t[i]) != id_key(x) by {
                assert(t[i] == s[i]);
            }
            lemma_insert_sorted_strict(t, x);
            let u = insert_sorted(t, x);
            assert(u.push(last).to_multiset() =~= s.to_multiset().insert(x));
            assert forall|i: int, j: int| 0 <= i < j < u.push(last).len() implies bytes_lt(
                id_key(u.push(last)[i]),
                id_key(u.push(last)[j]),
            ) by {
                if j == u.len() {
                    let e = u[i];
                    assert(u.contains(e));
                    assert(u.to_multiset().count(e) > 0);
                    if e != x {
                        assert(t.to_multiset().count(e) > 0);
                        assert(t.contains(e));
                        let k = choose|k: int| 0 <= k < t.len() && t[k] == e;
                        assert(s[k] == e && s[s.len() - 1] == last);
                    }
                }
            }
        } else {
            lemma_lt_total(id_key(x), id_key(last));
            assert forall|i: int, j: int| 0 <= i < j < s.push(x).len() implies bytes_lt(
                id_key(s.push(x)[i]),
                id_key(s.push(x)[j]),
            ) by {
                if j == s.len() && i < s.len() - 1 {
                    lemma_lt_transitive(id_key(s[i]), id_key(last), id_key(x));
                }
            }
        }
    }
}

proof fn lemma_sort_strict(s: Seq<RecordModel>)
    requires
        distinct_ids(s),
    ensures
        strictly_sorted(sort_by_id(s)),
        sort_by_id(s).to_multiset() == s.to_multiset(),
    decreases s.len(),
{
    broadcast use vstd::seq_lib::to_multiset_build, vstd::seq_lib::to_multiset_contains;

    if s.len() > 0 {
        let t = s.drop_last();
        let x = s.last();
        assert(s =~= t.push(x));
        assert(distinct_ids(t)) by {
            assert forall|i: int, j: int|
                0 <= i < t.len() && 0 <= j < t.len() && i != j implies t[i].id != t[j].id by {
                assert(t[i] == s[i] && t[j] == s[j]);
            }
        }
        lemma_sort_strict(t);
        let u = sort_by_id(t);
        assert forall|i: int| 0 <= i < u.len() implies id_key(#[trigger] u[i]) != id_key(x) by {
            let e = u[i];
            assert(u.contains(e));
            assert(u.to_multiset().count(e) > 0);
            assert(t.contains(e));
            let k = choose|k: int| 0 <= k < t.len() && t[k] == e;
            assert(s[k] == e && s[s.len() - 1] == x);
            lemma_key_injective(e, x);
        }
        lemma_insert_sorted_strict(u, x);
    }
}

proof fn lemma_strictly_sorted_unique(a: Seq<RecordModel>, b: Seq<RecordModel>)
    requires
        strictly_sorted(a),
        strictly_sorted(b),
        a.to_multiset() == b.to_multiset(),
    ensures
        a == b,
    decreases a.len(),
{
    broadcast use vstd::seq_lib::to_multiset_contains, vstd::seq_lib::to_multiset_len,
        vstd::seq_lib::to_multiset_remove;

    assert(a.len() == a.to_multiset().len() && b.len() == b.to_multiset().len());
    if a.len() == 0 {
        assert(a =~= b);
    } else {
        let x = a[0];
        let y = b[0];
        assert(a.contains(x));
        assert(a.to_multiset().count(x) > 0);
        assert(b.contains(x));
        let k = choose|k: int| 0 <= k < b.len() && b[k] == x;
        assert(b.contains(y));
        assert(b.to_multiset().count(y) > 0);
        assert(a.contains(y));
        let m = choose|m: int| 0 <= m < a.len() && a[m] == y;
        if k > 0 && m > 0 {
            assert(bytes_lt(id_key(y), id_key(x)));
            assert(bytes_lt(id_key(x), id_key(y)));
            lemma_lt_asymmetric(id_key(x), id_key(y));
        }
        assert(x == y);
        assert(a.remove(0) =~= a.drop_first());
        assert(b.remove(0) =~= b.drop_first());
        assert(a.remove(0).to_multiset() == b.remove(0).to_multiset());
        lemma_strictly_sorted_unique(a.drop_first(), b.drop_first());
        assert(a.len() == b.len());
        assert forall|i: int| 0 <= i < a.len() implies a[i] == b[i] by {
            if i > 0 {
                assert(a[i] == a.drop_first()[i - 1]);
                assert(b[i] == b.drop_first()[i - 1]);
            }
        }
        assert(a =~= b);
    }
}

/// The checksum is a function of the records' values: two collections with the
/// same record values have the same checksum, however the values were built.
pub proof fn lemma_digest_determined_by_values(a: Seq<ArtifactResponse>, b: Seq<ArtifactResponse>)
    requires
        records_model(a) == records_model(b),
    ensures
        backup_digest(records_model(a)) == backup_digest(records_model(b)),
{
}

/// Records that agree in the hashed shape have the same checksum, whatever else
/// differs between them.
pub proof fn lemma_digest_through_projection(a: Seq<RecordModel>, b: Seq<RecordModel>)
    requires
        a.map_values(|r: RecordModel| project(r)) == b.map_values(|r: RecordModel| project(r)),
    ensures
        backup_digest(a) == backup_digest(b),
{
}

/// Reordering a collection of records with unique identifiers leaves its
/// checksum unchanged.
pub proof fn lemma_digest_order_independent(a: Seq<RecordModel>, b: Seq<RecordModel>)
    requires
        a.to_multiset() == b.to_multiset(),
        distinct_ids(a),
        distinct_ids(b),
    ensures
        backup_digest(a) == backup_digest(b),
{
    assert(a.map_values(|r: RecordModel| project(r)) =~= a);
    assert(b.map_values(|r: RecordModel| project(r)) =~= b);
    lemma_sort_strict(a);
    lemma_sort_strict(b);
    lemma_strictly_sorted_unique(sort_by_id(a), sort_by_id(b));
}

} // verus!
