//! The public chain cache: the last verified membership chain and fan-out document, and when they
//! were fetched. Nothing in it is secret.
use crate::document::{find_field, read_document, write_document, Field, FieldKind, ReadError, ReadField};
use crate::text::{copy_bytes, parse_u64};
use crate::writing::stamp;
use vstd::bytes::{u64_from_le_bytes, u64_to_le_bytes};
use vstd::prelude::*;

verus! {

/// How long, in seconds, a cached member set is trusted while the fleet server is out of reach,
/// when nothing else is configured.
pub const CACHE_MAX_AGE_DEFAULT: u64 = 3600;

/// The bound that the option sets, or the default where it sets none.
pub fn cache_max_age(option: &str) -> (r: u64)
    ensures
        r == (match crate::text::parsed_u64(option@) {
            Some(secs) => secs,
            None => CACHE_MAX_AGE_DEFAULT,
        }),
{
    match parse_u64(option) {
        Some(secs) => secs,
        None => CACHE_MAX_AGE_DEFAULT,
    }
}

/// The last verified membership chain, and with it the last verified fan-out document.
#[derive(Clone)]
pub struct ChainCache {
    pub blob: Vec<u8>,
    pub fanout_doc: Option<Vec<u8>>,
    pub fetched_at: u64,
}

/// What a cache holds: the chain, the fan-out document, the time.
pub type CacheView = (Seq<u8>, Option<Seq<u8>>, u64);

/// The bytes of an optional byte string.
pub open spec fn opt_bytes(bytes: Option<Vec<u8>>) -> Option<Seq<u8>> {
    match bytes {
        Some(b) => Some(b@),
        None => None,
    }
}

impl View for ChainCache {
    type V = CacheView;

    open spec fn view(&self) -> CacheView {
        (self.blob@, opt_bytes(self.fanout_doc), self.fetched_at)
    }
}

/// The name of the cache's section.
pub const SECTION: &'static str = "fgtw_chain";

/// The fields that a cache is written as.
pub open spec fn cache_fields(cache: CacheView) -> Seq<crate::document::FieldView> {
    let chain = ("cb"@, Some(FieldKind::Signature), cache.0);
    let at = ("at"@, Some(FieldKind::Raw), vstd::bytes::spec_u64_to_le_bytes(cache.2));
    match cache.1 {
        Some(doc) => seq![chain, ("fd"@, Some(FieldKind::Signature), doc), at],
        None => seq![chain, at],
    }
}

/// The non-empty bytes under a name with the tag of sealed bytes.
pub open spec fn blob_under(fields: Seq<crate::document::FieldView>, name: Seq<char>) -> Option<Seq<u8>> {
    match crate::document::field_value(fields, name) {
        Some((Some(FieldKind::Signature), bytes)) => if bytes.len() > 0 {
            Some(bytes)
        } else {
            None
        },
        _ => None,
    }
}

/// The time that the fields give, or zero where they give none.
pub open spec fn time_in(fields: Seq<crate::document::FieldView>) -> u64 {
    match crate::document::field_value(fields, "at"@) {
        Some((Some(FieldKind::Raw), bytes)) => if bytes.len() == 8 {
            vstd::bytes::spec_u64_from_le_bytes(bytes)
        } else {
            0
        },
        _ => 0,
    }
}

/// The cache that the fields hold. Without chain bytes there is none.
pub open spec fn cache_in(fields: Seq<crate::document::FieldView>) -> Option<CacheView> {
    match blob_under(fields, "cb"@) {
        Some(blob) => Some((blob, blob_under(fields, "fd"@), time_in(fields))),
        None => None,
    }
}

/// What writing a cache at `created` gives: the document, or the error text.
pub open spec fn encoded(cache: CacheView, created: i64) -> Result<Seq<u8>, Seq<char>> {
    match crate::document::written_document(SECTION@, cache_fields(cache), created) {
        Ok(bytes) => Ok(bytes),
        Err(reason) => Err("encode chain cache: "@ + reason),
    }
}

/// The cache that a document holds, if it holds one.
pub open spec fn cache_of(bytes: Seq<u8>) -> Option<CacheView> {
    match crate::document::document_fields(bytes) {
        Ok(fields) => cache_in(fields),
        Err(_) => None,
    }
}

proof fn lemma_names()
    ensures
        crate::document::is_name(SECTION@),
        crate::document::is_name("cb"@),
        crate::document::is_name("fd"@),
        crate::document::is_name("at"@),
        "cb"@ != "fd"@,
        "cb"@ != "at"@,
        "fd"@ != "at"@,
{
    reveal_strlit("fgtw_chain");
    reveal_strlit("cb");
    reveal_strlit("fd");
    reveal_strlit("at");
    assert("cb"@[0] == 'c' && "fd"@[0] == 'f' && "at"@[0] == 'a');
    assert forall|i: int| 0 <= i < SECTION@.len() implies 'a' <= #[trigger] SECTION@[i] <= 'z' || (SECTION@[i] == '_' && 0
        < i < SECTION@.len() - 1 && SECTION@[i + 1] != '_') by {
        assert(SECTION@.len() == 10);
        assert(SECTION@[0] == 'f' && SECTION@[1] == 'g' && SECTION@[2] == 't' && SECTION@[3] == 'w' && SECTION@[4] == '_');
        assert(SECTION@[5] == 'c' && SECTION@[6] == 'h' && SECTION@[7] == 'a' && SECTION@[8] == 'i' && SECTION@[9] == 'n');
    }
}

/// What is written of a cache is read back as that cache.
pub proof fn law_cache_fields_round_trip(cache: CacheView)
    requires
        cache.0.len() > 0,
        cache.1 matches Some(doc) ==> doc.len() > 0,
    ensures
        cache_in(cache_fields(cache)) == Some(cache),
{
    lemma_names();
    vstd::bytes::lemma_auto_spec_u64_to_from_le_bytes();
    let fields = cache_fields(cache);
    reveal_with_fuel(crate::document::field_value, 4);
    assert(fields.skip(1)[0] == fields[1]);
    assert(fields.skip(1).skip(1) == fields.skip(2));
    match cache.1 {
        Some(doc) => {
            assert(fields.skip(2)[0] == fields[2]);
        },
        None => {
            assert(fields.skip(2).len() == 0);
        },
    }
}

/// The non-empty sealed bytes under a name.
fn take_blob(fields: &Vec<ReadField>, name: &str) -> (r: Option<Vec<u8>>)
    ensures
        opt_bytes(r) == blob_under(crate::document::read_view(fields@), name@),
{
    match find_field(fields, name) {
        Some(i) => {
            if fields[i].kind == Some(FieldKind::Signature) && fields[i].bytes.len() > 0 {
                Some(copy_bytes(&fields[i].bytes))
            } else {
                None
            }
        },
        None => None,
    }
}

impl ChainCache {
    /// How old the cache is at `now`, in seconds; zero where it is from the future.
    pub fn age(&self, now: u64) -> (r: u64)
        ensures
            r == (if now >= self.fetched_at { (now - self.fetched_at) as u64 } else { 0 }),
    {
        if now >= self.fetched_at {
            now - self.fetched_at
        } else {
            0
        }
    }

    /// The cache as a document that was made at `created`. Its byte strings are not empty.
    pub fn to_bytes_at(&self, created: i64) -> (r: Result<Vec<u8>, String>)
        requires
            self.blob@.len() > 0,
            self@.1 matches Some(doc) ==> doc.len() > 0,
        ensures
            crate::envelope::bytes_or_text(r) == encoded(self@, created),
            r matches Ok(bytes) ==> cache_of(bytes@) == Some(self@),
    {
        proof {
            lemma_names();
            law_cache_fields_round_trip(self@);
        }
        let mut fields: Vec<Field> = Vec::new();
        fields.push(Field { name: "cb".to_owned(), kind: FieldKind::Signature, bytes: copy_bytes(&self.blob) });
        if let Some(doc) = &self.fanout_doc {
            fields.push(Field { name: "fd".to_owned(), kind: FieldKind::Signature, bytes: copy_bytes(doc) });
        }
        let at = u64_to_le_bytes(self.fetched_at);
        fields.push(Field { name: "at".to_owned(), kind: FieldKind::Raw, bytes: at });
        proof {
            vstd::bytes::lemma_auto_spec_u64_to_from_le_bytes();
            assert(crate::document::fields_view(fields@) == cache_fields(self@));
        }
        match write_document(SECTION, fields, created) {
            Ok(bytes) => Ok(bytes),
            Err(reason) => {
                let mut text = "encode chain cache: ".to_owned();
                text.append(reason.as_str());
                Err(text)
            },
        }
    }

    /// The cache as a document made now, at a time that can be written.
    pub fn to_bytes(&self) -> (r: Result<Vec<u8>, String>)
        requires
            self.blob@.len() > 0,
            self@.1 matches Some(doc) ==> doc.len() > 0,
        ensures
            exists|created: i64|
                crate::writing::tame_time(created) && crate::envelope::bytes_or_text(r) == #[trigger] encoded(self@, created),
            r matches Ok(bytes) ==> cache_of(bytes@) == Some(self@),
    {
        let created: i64 = stamp();
        self.to_bytes_at(created)
    }

    /// Read a cache back from its document.
    pub fn from_bytes(bytes: &[u8]) -> (r: Result<Self, String>)
        ensures
            match crate::document::document_end(bytes@) {
                Err(reason) => r matches Err(text) && text@ == "chain cache: "@ + reason,
                Ok(_) => match crate::document::document_fields(bytes@) {
                    Err(reason) => r matches Err(text) && text@ == "chain cache section: "@ + reason,
                    Ok(fields) => match cache_in(fields) {
                        None => r matches Err(text) && text@ == "chain cache: missing chain bytes"@,
                        Some(cache) => r matches Ok(c) && c@ == cache,
                    },
                },
            },
            match r {
                Ok(c) => cache_of(bytes@) == Some(c@),
                Err(_) => cache_of(bytes@) is None,
            },
    {
        match read_document(bytes) {
            Ok(fields) => {
                let blob = match take_blob(&fields, "cb") {
                    Some(blob) => blob,
                    None => return Err("chain cache: missing chain bytes".to_owned()),
                };
                let fetched_at: u64 = match find_field(&fields, "at") {
                    Some(i) => if fields[i].kind == Some(FieldKind::Raw) && fields[i].bytes.len() == 8 {
                        u64_from_le_bytes(fields[i].bytes.as_slice())
                    } else {
                        0
                    },
                    None => 0,
                };
                let fanout_doc = take_blob(&fields, "fd");
                Ok(ChainCache { blob, fanout_doc, fetched_at })
            },
            Err(ReadError::Document(reason)) => {
                let mut text = "chain cache: ".to_owned();
                text.append(reason.as_str());
                Err(text)
            },
            Err(ReadError::Section(reason)) => {
                let mut text = "chain cache section: ".to_owned();
                text.append(reason.as_str());
                Err(text)
            },
        }
    }
}

// ── the cache, field by field ──

/// A cache is written as its chain under `cb`, its fan-out document under `fd` where it has one, and its
/// time under `at`, in eight bytes with the least significant one first, in a section of its own.
pub proof fn law_cache_document(cache: CacheView, created: i64)
    ensures
        CACHE_MAX_AGE_DEFAULT == 3600,
        cache.1 is None ==> cache_fields(cache) == seq![
            ("cb"@, Some(FieldKind::Signature), cache.0),
            ("at"@, Some(FieldKind::Raw), vstd::bytes::spec_u64_to_le_bytes(cache.2)),
        ],
        cache.1 matches Some(doc) ==> cache_fields(cache) == seq![
            ("cb"@, Some(FieldKind::Signature), cache.0),
            ("fd"@, Some(FieldKind::Signature), doc),
            ("at"@, Some(FieldKind::Raw), vstd::bytes::spec_u64_to_le_bytes(cache.2)),
        ],
        match crate::document::written_document("fgtw_chain"@, cache_fields(cache), created) {
            Ok(bytes) => encoded(cache, created) == Ok::<Seq<u8>, Seq<char>>(bytes),
            Err(reason) => encoded(cache, created) == Err::<Seq<u8>, Seq<char>>("encode chain cache: "@ + reason),
        },
{
}

/// What is read of a cache: the first field named `cb`, which is sealed bytes and not empty, else there is no
/// cache; the first one named `fd`, where it is such bytes too; and the first one named `at`, where it is
/// eight raw bytes, else zero.
pub proof fn law_cache_is_read(fields: Seq<crate::document::FieldView>)
    ensures
        match crate::document::field_value(fields, "cb"@) {
            Some((kind, blob)) => cache_in(fields) is Some <==> kind == Some(FieldKind::Signature) && blob.len() > 0,
            None => cache_in(fields) is None,
        },
        cache_in(fields) matches Some((chain, doc, time)) ==> {
            &&& crate::document::field_value(fields, "cb"@) == Some((Some(FieldKind::Signature), chain))
            &&& match crate::document::field_value(fields, "fd"@) {
                Some((kind, blob)) => if kind == Some(FieldKind::Signature) && blob.len() > 0 {
                    doc == Some(blob)
                } else {
                    doc is None
                },
                None => doc is None,
            }
            &&& match crate::document::field_value(fields, "at"@) {
                Some((kind, bytes)) => if kind == Some(FieldKind::Raw) && bytes.len() == 8 {
                    time == vstd::bytes::spec_u64_from_le_bytes(bytes)
                } else {
                    time == 0
                },
                None => time == 0,
            }
        },
{
}

/// The cache in a document is the one in its fields; a document that cannot be read holds none.
pub proof fn law_cache_in_a_document(bytes: Seq<u8>)
    ensures
        crate::document::document_fields(bytes) is Err ==> cache_of(bytes) is None,
        crate::document::document_fields(bytes) matches Ok(fields) ==> cache_of(bytes) == cache_in(fields),
{
}

/// What a cache says is all of it: the chain, the fan-out document and the time.
pub proof fn law_what_a_cache_holds(cache: ChainCache, bytes: Vec<u8>)
    ensures
        cache@.0 == cache.blob@,
        cache.fanout_doc matches Some(doc) ==> cache@.1 == Some(doc@),
        cache.fanout_doc is None ==> cache@.1 is None,
        cache@.2 == cache.fetched_at,
        opt_bytes(Some(bytes)) == Some(bytes@),
        opt_bytes(None) is None,
{
}

} // verus!
