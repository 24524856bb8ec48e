//! The metadata cache: a list of metadata records keyed by username, stored as a JSON array
//! of objects with the string fields `name`, `email` and `username`. Writing is a whole-list
//! read-modify-write: nothing guards against two processes that write at once, and the last
//! one to write wins.

use vstd::prelude::*;
use vstd::string::*;

use crate::errors::VariantError;
use crate::model::{identities, Identity, Metadata};

verus! {

/// The index of the first record from index `i` on whose username is `u`.
pub open spec fn locate(rs: Seq<Identity>, u: Seq<char>, i: int) -> Option<int>
    decreases rs.len() - i,
{
    if i < 0 || i >= rs.len() {
        None
    } else if rs[i].username == u {
        Some(i)
    } else {
        locate(rs, u, i + 1)
    }
}

/// The records after an upsert of `m`: the first record with its username has its name and
/// email replaced in place; without one, `m` is appended.
pub open spec fn upserted(rs: Seq<Identity>, m: Identity) -> Seq<Identity> {
    match locate(rs, m.username, 0) {
        Some(i) => rs.update(i, m),
        None => rs.push(m),
    }
}

/// No two records share a username.
pub open spec fn unique_usernames(rs: Seq<Identity>) -> bool {
    forall|i: int, j: int|
        0 <= i < rs.len() && 0 <= j < rs.len() && i != j ==> #[trigger] rs[i].username
            != #[trigger] rs[j].username
}

/// Inserts `metadata` into the records, or replaces name and email of the first record with
/// its username, keeping that record's position.
pub fn upsert(records: Vec<Metadata>, metadata: Metadata) -> (r: Vec<Metadata>)
    ensures
        identities(r@) == upserted(identities(records@), metadata@),
{
    let ghost rs = identities(records@);
    let mut out = records;
    let mut i: usize = 0;
    while i < out.len()
        invariant
            rs == identities(records@),
            out@ == records@,
            0 <= i <= out@.len(),
            locate(rs, metadata@.username, 0) == locate(rs, metadata@.username, i as int),
        decreases out@.len() - i,
    {
        assert(rs[i as int] == out@[i as int]@);
        if out[i].username.eq(&metadata.username) {
            let ghost m = metadata@;
            out.set(i, metadata);
            assert(identities(out@) =~= rs.update(i as int, m));
            return out;
        }
        i += 1;
    }
    let ghost m = metadata@;
    out.push(metadata);
    assert(identities(out@) =~= rs.push(m));
    out
}

/// The first record whose username is `username`.
pub fn find(records: &Vec<Metadata>, username: &String) -> (r: Option<Metadata>)
    ensures
        match locate(identities(records@), username@, 0) {
            Some(i) => r == Some(records@[i]),
            None => r is None,
        },
{
    let ghost rs = identities(records@);
    let mut i: usize = 0;
    while i < records.len()
        invariant
            rs == identities(records@),
            0 <= i <= records@.len(),
            locate(rs, username@, 0) == locate(rs, username@, i as int),
        decreases records@.len() - i,
    {
        assert(rs[i as int] == records@[i as int]@);
        if records[i].username.eq(username) {
            return Some(records[i].duplicate());
        }
        i += 1;
    }
    None
}

/// What `locate` finds: the first matching index from `i` on, or no match at all.
pub proof fn lemma_locate(rs: Seq<Identity>, u: Seq<char>, i: int)
    requires
        0 <= i,
    ensures
        match locate(rs, u, i) {
            Some(k) => i <= k < rs.len() && rs[k].username == u && forall|j: int|
                i <= j < k ==> #[trigger] rs[j].username != u,
            None => forall|j: int| i <= j < rs.len() ==> #[trigger] rs[j].username != u,
        },
    decreases rs.len() - i,
{
    if i < rs.len() {
        lemma_locate(rs, u, i + 1);
    }
}

/// `locate` finds the index `k` where `k` is the first match from `i` on.
pub proof fn lemma_locate_at(rs: Seq<Identity>, u: Seq<char>, i: int, k: int)
    requires
        0 <= i <= k < rs.len(),
        rs[k].username == u,
        forall|j: int| i <= j < k ==> #[trigger] rs[j].username != u,
    ensures
        locate(rs, u, i) == Some(k),
    decreases k - i,
{
    if i < k {
        lemma_locate_at(rs, u, i + 1, k);
    }
}

/// `locate` finds nothing where nothing from `i` on matches.
pub proof fn lemma_locate_none(rs: Seq<Identity>, u: Seq<char>, i: int)
    requires
        0 <= i,
        forall|j: int| i <= j < rs.len() ==> #[trigger] rs[j].username != u,
    ensures
        locate(rs, u, i) is None,
    decreases rs.len() - i,
{
    if i < rs.len() {
        lemma_locate_none(rs, u, i + 1);
    }
}

/// After an upsert of `m`, the first record with its username is `m`, and every other
/// record is as it was.
pub proof fn lemma_upsert_places(rs: Seq<Identity>, m: Identity)
    ensures
        ({
            let r = upserted(rs, m);
            let k = locate(r, m.username, 0)->Some_0;
            &&& locate(r, m.username, 0) is Some
            &&& r[k] == m
            &&& r.len() == rs.len() || r.len() == rs.len() + 1
            &&& forall|j: int| 0 <= j < rs.len() && j != k ==> #[trigger] r[j] == rs[j]
        }),
{
    lemma_locate(rs, m.username, 0);
    let r = upserted(rs, m);
    match locate(rs, m.username, 0) {
        Some(i) => {
            assert forall|j: int| 0 <= j < i implies #[trigger] r[j].username != m.username by {
                assert(r[j] == rs[j]);
            }
            lemma_locate_at(r, m.username, 0, i);
        },
        None => {
            assert forall|j: int| 0 <= j < rs.len() implies #[trigger] r[j].username
                != m.username by {
                assert(r[j] == rs[j]);
            }
            lemma_locate_at(r, m.username, 0, rs.len() as int);
        },
    }
}

/// Upserting a username that no record carries keeps every earlier record, unchanged and in
/// place, and appends the new one.
pub proof fn lemma_upsert_new_keeps_records(rs: Seq<Identity>, m: Identity)
    requires
        forall|j: int| 0 <= j < rs.len() ==> #[trigger] rs[j].username != m.username,
    ensures
        upserted(rs, m).len() == rs.len() + 1,
        forall|j: int| 0 <= j < rs.len() ==> #[trigger] upserted(rs, m)[j] == rs[j],
        upserted(rs, m).last() == m,
{
    lemma_locate_none(rs, m.username, 0);
}

/// Of two upserts for one username, the last one wins: the records are those that the
/// last upsert alone would give.
pub proof fn lemma_upsert_last_write_wins(rs: Seq<Identity>, a: Identity, b: Identity)
    requires
        a.username == b.username,
    ensures
        upserted(upserted(rs, a), b) == upserted(rs, b),
{
    lemma_locate(rs, a.username, 0);
    let once = upserted(rs, a);
    match locate(rs, a.username, 0) {
        Some(i) => {
            assert forall|j: int| 0 <= j < i implies #[trigger] once[j].username != a.username by {
                assert(once[j] == rs[j]);
            }
            lemma_locate_at(once, b.username, 0, i);
            assert(once.update(i, b) =~= rs.update(i, b));
        },
        None => {
            assert forall|j: int| 0 <= j < rs.len() implies #[trigger] once[j].username
                != a.username by {
                assert(once[j] == rs[j]);
            }
            lemma_locate_at(once, b.username, 0, rs.len() as int);
            assert(once.update(rs.len() as int, b) =~= rs.push(b));
        },
    }
}

/// Writing the same record twice leaves the records as one write does; where usernames were
/// unique, exactly one record then carries that username, and it is the record written.
pub proof fn lemma_upsert_idempotent(rs: Seq<Identity>, m: Identity)
    ensures
        upserted(upserted(rs, m), m) == upserted(rs, m),
        unique_usernames(rs) ==> unique_usernames(upserted(rs, m)),
        unique_usernames(rs) ==> ({
            let r = upserted(rs, m);
            exists|k: int|
                0 <= k < r.len() && r[k] == m && forall|j: int|
                    0 <= j < r.len() && j != k ==> #[trigger] r[j].username != m.username
        }),
{
    lemma_upsert_last_write_wins(rs, m, m);
    lemma_upsert_places(rs, m);
    lemma_locate(rs, m.username, 0);
    let r = upserted(rs, m);
    let k = locate(r, m.username, 0)->Some_0;
    if unique_usernames(rs) {
        match locate(rs, m.username, 0) {
            Some(i) => {
                assert forall|j: int| 0 <= j < i implies #[trigger] r[j].username
                    != m.username by {
                    assert(r[j] == rs[j]);
                }
                lemma_locate_at(r, m.username, 0, i);
                assert forall|j: int| 0 <= j < r.len() && j != k implies #[trigger] r[j].username
                    != m.username by {
                    assert(r[j] == rs[j]);
                }
            },
            None => {
                assert forall|j: int| 0 <= j < rs.len() implies #[trigger] r[j].username
                    != m.username by {
                    assert(r[j] == rs[j]);
                }
                lemma_locate_at(r, m.username, 0, rs.len() as int);
                assert forall|j: int| 0 <= j < r.len() && j != k implies #[trigger] r[j].username
                    != m.username by {
                    assert(r[j] == rs[j]);
                }
            },
        }
        assert forall|i: int, j: int|
            0 <= i < r.len() && 0 <= j < r.len() && i != j implies #[trigger] r[i].username
            != #[trigger] r[j].username by {
            if i != k && j != k {
                assert(r[i] == rs[i]);
                assert(r[j] == rs[j]);
            }
        }
    }
}

/// A JSON object of string fields, as (key, value) pairs.
pub type Object = Vec<(String, String)>;

#[verifier::external_type_specification]
#[verifier::external_body]
pub struct ExJsonError(serde_json::Error);

/// The fields of an object, as text.
pub open spec fn object_view(o: Object) -> Seq<(Seq<char>, Seq<char>)> {
    o@.map_values(|p: (String, String)| (p.0@, p.1@))
}

pub open spec fn objects_view(os: Seq<Object>) -> Seq<Seq<(Seq<char>, Seq<char>)>> {
    os.map_values(|o: Object| object_view(o))
}

/// The array of objects that a JSON text holds, where it is an array of objects whose values
/// are all strings.
pub uninterp spec fn json_objects(text: Seq<char>) -> Option<Seq<Seq<(Seq<char>, Seq<char>)>>>;

/// The JSON text of an array of objects of string fields.
pub uninterp spec fn json_text(objects: Seq<Seq<(Seq<char>, Seq<char>)>>) -> Seq<char>;

/// Relies on serde_json::from_str, read into a list of string-to-string maps: whether the text
/// parses, and into what, depends on the text alone.
#[verifier::external_body]
fn parse_objects(text: &str) -> (r: Result<Vec<Object>, serde_json::Error>)
    ensures
        match json_objects(text@) {
            Some(os) => r is Ok && objects_view(r->Ok_0@) == os,
            None => r is Err,
        },
{
    serde_json::from_str::<Vec<std::collections::BTreeMap<String, String>>>(text).map(
        |os| os.into_iter().map(|o| o.into_iter().collect()).collect(),
    )
}

/// Relies on serde_json::to_string, on a list of string-to-string maps: the text it gives
/// depends on the objects alone, and it succeeds, since it fails only where a `Serialize`
/// impl fails or a map has keys that are not strings, and neither happens here.
#[verifier::external_body]
fn render_objects(objects: Vec<Object>) -> (r: Result<String, serde_json::Error>)
    ensures
        r is Ok,
        r->Ok_0@ == json_text(objects_view(objects@)),
{
    let maps: Vec<std::collections::BTreeMap<String, String>> = objects.into_iter().map(
        |o| o.into_iter().collect(),
    ).collect();
    serde_json::to_string(&maps)
}

/// Relies on the `Display` of serde_json::Error: a message that describes the error.
#[verifier::external_body]
fn describe(e: &serde_json::Error) -> String {
    e.to_string()
}

/// The value of the last field of `o` among its first `n` whose key is `key`.
pub open spec fn field(o: Seq<(Seq<char>, Seq<char>)>, key: Seq<char>, n: int) -> Option<Seq<char>>
    decreases n,
{
    if n <= 0 || n > o.len() {
        None
    } else if o[n - 1].0 == key {
        Some(o[n - 1].1)
    } else {
        field(o, key, n - 1)
    }
}

/// The record that an object stands for: it needs the fields `name`, `email` and `username`.
pub open spec fn record_of(o: Seq<(Seq<char>, Seq<char>)>) -> Option<Identity> {
    let n = o.len() as int;
    if field(o, "name"@, n) is Some && field(o, "email"@, n) is Some && field(o, "username"@, n) is Some {
        Some(
            Identity {
                name: field(o, "name"@, n)->Some_0,
                email: field(o, "email"@, n)->Some_0,
                username: field(o, "username"@, n)->Some_0,
            },
        )
    } else {
        None
    }
}

/// The object that stores a record.
pub open spec fn object_of(m: Identity) -> Seq<(Seq<char>, Seq<char>)> {
    seq![("name"@, m.name), ("email"@, m.email), ("username"@, m.username)]
}

/// A text of JSON whitespace alone, the empty text included: an empty cache.
pub open spec fn is_blank(text: Seq<char>) -> bool {
    forall|i: int|
        0 <= i < text.len() ==> #[trigger] text[i] == ' ' || text[i] == '\t' || text[i] == '\n'
            || text[i] == '\r'
}

fn lookup(o: &Object, key: &str) -> (r: Option<String>)
    ensures
        match field(object_view(*o), key@, o@.len() as int) {
            Some(v) => r is Some && r->Some_0@ == v,
            None => r is None,
        },
{
    let ghost ov = object_view(*o);
    let k = String::from_str(key);
    let mut i: usize = o.len();
    while i > 0
        invariant
            ov == object_view(*o),
            0 <= i <= o@.len(),
            k@ == key@,
            field(ov, key@, o@.len() as int) == field(ov, key@, i as int),
        decreases i,
    {
        assert(ov[i - 1] == (o@[i - 1].0@, o@[i - 1].1@));
        if o[i - 1].0.eq(&k) {
            return Some(o[i - 1].1.clone());
        }
        i -= 1;
    }
    None
}

/// The record that a stored object stands for, if it has the three fields.
fn record_from(o: &Object) -> (r: Option<Metadata>)
    ensures
        match record_of(object_view(*o)) {
            Some(m) => r is Some && r->Some_0@ == m,
            None => r is None,
        },
{
    let name = lookup(o, "name");
    let email = lookup(o, "email");
    let username = lookup(o, "username");
    match (name, email, username) {
        (Some(name), Some(email), Some(username)) => Some(Metadata { name, email, username }),
        _ => None,
    }
}

/// The records that a parsed array of objects holds; an object without one of the fields
/// `name`, `email` or `username` makes the payload corrupt.
pub fn records_from(objects: &Vec<Object>) -> (r: Result<Vec<Metadata>, VariantError>)
    ensures
        (forall|i: int|
            0 <= i < objects@.len() ==> (#[trigger] record_of(objects_view(objects@)[i])) is Some)
            ==> r is Ok && identities(r->Ok_0@) == objects_view(objects@).map_values(
            |o: Seq<(Seq<char>, Seq<char>)>| record_of(o)->Some_0,
        ),
        !(forall|i: int|
            0 <= i < objects@.len() ==> (#[trigger] record_of(objects_view(objects@)[i])) is Some)
            ==> r is Err && r->Err_0 is CacheCorrupt,
{
    let ghost os = objects_view(objects@);
    let ghost want = os.map_values(|o: Seq<(Seq<char>, Seq<char>)>| record_of(o)->Some_0);
    let mut out: Vec<Metadata> = Vec::new();
    let mut i: usize = 0;
    while i < objects.len()
        invariant
            os == objects_view(objects@),
            want == os.map_values(|o: Seq<(Seq<char>, Seq<char>)>| record_of(o)->Some_0),
            0 <= i <= objects@.len(),
            forall|j: int| 0 <= j < i ==> (#[trigger] record_of(os[j])) is Some,
            identities(out@) == want.subrange(0, i as int),
        decreases objects@.len() - i,
    {
        assert(os[i as int] == object_view(objects@[i as int]));
        match record_from(&objects[i]) {
            None => {
                return Err(VariantError::CacheCorrupt(String::from_str("a record lacks a field")));
            },
            Some(m) => {
                let ghost before = out@;
                let ghost mv = m@;
                out.push(m);
                assert(identities(out@) =~= identities(before).push(mv));
                assert(want[i as int] == mv);
                assert(identities(out@) =~= want.subrange(0, i + 1));
            },
        }
        i += 1;
    }
    assert(want.subrange(0, objects@.len() as int) =~= want);
    Ok(out)
}

/// The objects that store the records, in order.
pub fn objects_from(records: &Vec<Metadata>) -> (r: Vec<Object>)
    ensures
        objects_view(r@) == identities(records@).map_values(|m: Identity| object_of(m)),
{
    let ghost want = identities(records@).map_values(|m: Identity| object_of(m));
    let mut out: Vec<Object> = Vec::new();
    let mut i: usize = 0;
    while i < records.len()
        invariant
            want == identities(records@).map_values(|m: Identity| object_of(m)),
            0 <= i <= records@.len(),
            objects_view(out@) == want.subrange(0, i as int),
        decreases records@.len() - i,
    {
        let m = &records[i];
        let mut o: Object = Vec::new();
        o.push((String::from_str("name"), m.name.clone()));
        o.push((String::from_str("email"), m.email.clone()));
        o.push((String::from_str("username"), m.username.clone()));
        assert(object_view(o) =~= object_of(m@));
        let ghost before = out@;
        let ghost ov = object_view(o);
        assert(identities(records@)[i as int] == m@);
        out.push(o);
        assert(objects_view(out@) =~= objects_view(before).push(ov));
        assert(objects_view(out@) =~= want.subrange(0, i + 1));
        i += 1;
    }
    assert(want.subrange(0, records@.len() as int) =~= want);
    out
}

/// The records that a stored text holds: none for a blank text; for a JSON array of objects
/// of string fields, the record of each object, where every object has the three fields;
/// otherwise the text is corrupt.
pub open spec fn stored_records(text: Seq<char>) -> Option<Seq<Identity>> {
    if is_blank(text) {
        Some(Seq::empty())
    } else {
        match json_objects(text) {
            None => None,
            Some(os) => if forall|i: int| 0 <= i < os.len() ==> (#[trigger] record_of(os[i])) is Some {
                Some(os.map_values(|o: Seq<(Seq<char>, Seq<char>)>| record_of(o)->Some_0))
            } else {
                None
            },
        }
    }
}

/// A freshly created, empty cache holds no records, and that is no error.
pub proof fn lemma_empty_cache_is_empty()
    ensures
        stored_records(Seq::empty()) == Some(Seq::<Identity>::empty()),
{
}

/// The text that stores the records `rs`.
pub open spec fn stored_text(rs: Seq<Identity>) -> Seq<char> {
    json_text(rs.map_values(|m: Identity| object_of(m)))
}

fn blank(text: &str) -> (r: bool)
    ensures
        r == is_blank(text@),
{
    let n = text.unicode_len();
    let mut i: usize = 0;
    while i < n
        invariant
            n == text@.len(),
            0 <= i <= n,
            forall|j: int|
                0 <= j < i ==> #[trigger] text@[j] == ' ' || text@[j] == '\t' || text@[j] == '\n'
                    || text@[j] == '\r',
        decreases n - i,
    {
        let c = text.get_char(i);
        if !(c == ' ' || c == '\t' || c == '\n' || c == '\r') {
            return false;
        }
        i += 1;
    }
    true
}

/// The records that a stored text holds. A blank text is an empty cache; a text that is not
/// an array of objects of string fields, or holds an object that lacks a field, is corrupt.
pub fn decode(text: &str) -> (r: Result<Vec<Metadata>, VariantError>)
    ensures
        match stored_records(text@) {
            Some(rs) => r is Ok && identities(r->Ok_0@) == rs,
            None => r is Err && r->Err_0 is CacheCorrupt,
        },
{
    if blank(text) {
        return Ok(Vec::new());
    }
    match parse_objects(text) {
        Err(e) => Err(VariantError::CacheCorrupt(describe(&e))),
        Ok(objects) => records_from(&objects),
    }
}

/// The text that stores the records.
pub fn encode(records: &Vec<Metadata>) -> (r: Result<String, VariantError>)
    ensures
        r is Ok,
        r->Ok_0@ == stored_text(identities(records@)),
{
    match render_objects(objects_from(records)) {
        Ok(text) => Ok(text),
        Err(e) => Err(VariantError::CacheUnavailable(describe(&e))),
    }
}

/// The text to store after writing `metadata` into a cache that held `text`: its records
/// with `metadata` upserted.
pub fn updated(text: &str, metadata: Metadata) -> (r: Result<String, VariantError>)
    ensures
        match stored_records(text@) {
            None => r is Err && r->Err_0 is CacheCorrupt,
            Some(rs) => r is Ok && r->Ok_0@ == stored_text(upserted(rs, metadata@)),
        },
{
    let records = decode(text)?;
    let records = upsert(records, metadata);
    encode(&records)
}

} // verus!
