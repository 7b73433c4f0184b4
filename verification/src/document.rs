//! Self-verifying documents: one named section of typed byte fields, with a hash over the whole.
use crate::framing::{body_is_walkable, has_no_false_signature, header_is_walkable, Step};
use crate::text::{copy_bytes, same_text};
use crate::writing::{is_tame, is_tame_time, longest_total};
use vsf::{VsfSection, VsfType};
use vstd::prelude::*;

verus! {

/// The type tag of a field's value.
#[derive(Clone, Copy, Debug, PartialEq, Eq, Structural)]
pub enum FieldKind {
    /// Signature bytes, or any sealed blob (`ge`).
    Signature,
    /// Raw material (`hR`).
    Raw,
    /// A handle proof (`hP`).
    HandleProof,
    /// An Ed25519 public key (`ke`).
    DeviceKey,
}

/// A field to write.
pub struct Field {
    pub name: String,
    pub kind: FieldKind,
    pub bytes: Vec<u8>,
}

/// A field as it was read: its first value's type tag and bytes. A field without a value, or with
/// a value of another type, has no tag.
pub struct ReadField {
    pub name: String,
    pub kind: Option<FieldKind>,
    pub bytes: Vec<u8>,
}

/// A value as it was read: its type tag and bytes. A value of another type has no tag.
pub struct ReadValue {
    pub kind: Option<FieldKind>,
    pub bytes: Vec<u8>,
}

/// A field with all its values.
pub struct WholeField {
    pub name: String,
    pub values: Vec<ReadValue>,
}

impl View for ReadValue {
    type V = (Option<FieldKind>, Seq<u8>);

    open spec fn view(&self) -> (Option<FieldKind>, Seq<u8>) {
        (self.kind, self.bytes@)
    }
}

impl View for WholeField {
    type V = (Seq<char>, Seq<(Option<FieldKind>, Seq<u8>)>);

    open spec fn view(&self) -> (Seq<char>, Seq<(Option<FieldKind>, Seq<u8>)>) {
        (self.name@, Seq::new(self.values@.len(), |i: int| self.values@[i]@))
    }
}

/// What a field says: its name, its tag and its bytes.
pub type FieldView = (Seq<char>, Option<FieldKind>, Seq<u8>);

impl View for Field {
    type V = FieldView;

    open spec fn view(&self) -> FieldView {
        (self.name@, Some(self.kind), self.bytes@)
    }
}

impl View for ReadField {
    type V = FieldView;

    open spec fn view(&self) -> FieldView {
        (self.name@, self.kind, self.bytes@)
    }
}

/// What a row of fields says.
pub open spec fn fields_view(fields: Seq<Field>) -> Seq<FieldView> {
    Seq::new(fields.len(), |i: int| fields[i]@)
}

/// What a row of fields that were read says.
pub open spec fn read_view(fields: Seq<ReadField>) -> Seq<FieldView> {
    Seq::new(fields.len(), |i: int| fields[i]@)
}

/// What a row of whole fields says.
pub open spec fn whole_view(fields: Seq<WholeField>) -> Seq<(Seq<char>, Seq<(Option<FieldKind>, Seq<u8>)>)> {
    Seq::new(fields.len(), |i: int| fields[i]@)
}

/// The field with nothing but the first of its values; one without a value has no tag and no bytes.
pub open spec fn first_value(field: (Seq<char>, Seq<(Option<FieldKind>, Seq<u8>)>)) -> FieldView {
    if field.1.len() > 0 {
        (field.0, field.1[0].0, field.1[0].1)
    } else {
        (field.0, None, Seq::empty())
    }
}

/// Each field with nothing but the first of its values.
pub open spec fn first_values(fields: Seq<(Seq<char>, Seq<(Option<FieldKind>, Seq<u8>)>)>) -> Seq<FieldView> {
    Seq::new(fields.len(), |i: int| first_value(fields[i]))
}

/// Each field with its one value.
pub open spec fn single_values(fields: Seq<FieldView>) -> Seq<(Seq<char>, Seq<(Option<FieldKind>, Seq<u8>)>)> {
    Seq::new(fields.len(), |i: int| (fields[i].0, seq![(fields[i].1, fields[i].2)]))
}

/// What building a document gives: its bytes, or why it could not be built.
pub uninterp spec fn built_document(
    section: Seq<char>,
    fields: Seq<(Seq<char>, Option<FieldKind>, Seq<u8>)>,
    created: i64,
) -> Result<Seq<u8>, Seq<char>>;

/// What `vsf::verification::read_verified` gives for a document when no signer is asked for:
/// where its header ends, or why it cannot be trusted.
pub uninterp spec fn verified_header(bytes: Seq<u8>) -> Result<usize, Seq<char>>;

/// What `vsf::VsfSection::parse` gives for the section at a position: its fields with all their
/// values, or why there is none.
pub uninterp spec fn parsed_section(bytes: Seq<u8>, at: usize) -> Result<
    Seq<(Seq<char>, Seq<(Option<FieldKind>, Seq<u8>)>)>,
    Seq<char>,
>;

/// Lower-case letters, with single underscores between them; not too many.
pub open spec fn is_name(s: Seq<char>) -> bool {
    &&& 0 < s.len() <= 255
    &&& forall|i: int| 0 <= i < s.len() ==> 'a' <= #[trigger] s[i] <= 'z' || (s[i] == '_' && 0 < i < s.len() - 1 && s[i + 1] != '_')
}

/// The two letters that a value's type is written with.
pub open spec fn type_letters(kind: Option<FieldKind>) -> (u8, u8) {
    match kind {
        Some(FieldKind::Signature) => (0x67, 0x65),
        Some(FieldKind::Raw) => (0x68, 0x52),
        Some(FieldKind::HandleProof) => (0x68, 0x50),
        Some(FieldKind::DeviceKey) => (0x6B, 0x65),
        None => (0, 0),
    }
}

/// How many bytes the values have together.
pub open spec fn total_bytes(fields: Seq<FieldView>) -> nat
    decreases fields.len(),
{
    if fields.len() == 0 {
        0
    } else {
        total_bytes(fields.drop_last()) + fields.last().2.len()
    }
}

/// The values can be written into a document together.
pub open spec fn values_writable(fields: Seq<FieldView>) -> bool {
    &&& total_bytes(fields) <= crate::writing::longest()
    &&& forall|i: int|
        0 <= i < fields.len() ==> crate::writing::tame(
            type_letters((#[trigger] fields[i]).1),
            (fields[i].2.len() - 1) as nat,
            fields[i].2,
            0x29,
            crate::writing::room(total_bytes(fields)),
        )
}

/// The values and the time can be written into a document.
pub open spec fn writable(fields: Seq<FieldView>, created: i64) -> bool {
    crate::writing::tame_time(created) && values_writable(fields)
}

/// `vsf::VsfBuilder` with one section: the section's fields in the given order, stamped with
/// `created`, with provenance and rolling hash. A document that was built verifies, and reading
/// its section gives the same fields back, each with its one value; the lengths in its header and its section are those of
/// what follows them. The builder does not take an empty value or a name of another form. It looks
/// for signatures at every position of what it wrote and adds the lengths of what looks like one,
/// so the values hold nothing that looks like a signature of an outsize length.
#[verifier::external_body]
fn build_document(section: &str, fields: Vec<Field>, created: i64) -> (r: Result<Vec<u8>, String>)
    requires
        is_name(section@),
        0 < fields@.len() <= 12,
        forall|i: int| 0 <= i < fields@.len() ==> is_name((#[trigger] fields@[i]).name@) && fields@[i].bytes@.len() > 0,
        writable(fields_view(fields@), created),
    ensures
        crate::envelope::bytes_or_text(r) == built_document(section@, fields_view(fields@), created),
        r matches Ok(bytes) ==> verified_header(bytes@) matches Ok(end) && (parsed_section(bytes@, end) matches Ok(back)
            && back == single_values(fields_view(fields@))),
        r matches Ok(bytes) ==> crate::framing::header(bytes@, 4) != Step::Refuse && (verified_header(bytes@) matches Ok(
            end,
        ) ==> crate::framing::body(bytes@, end as int) != Step::Refuse),
{
    let values = fields.into_iter().map(|f| (f.name, match f.kind {
        FieldKind::Signature => VsfType::ge(f.bytes),
        FieldKind::Raw => VsfType::hR(f.bytes),
        FieldKind::HandleProof => VsfType::hP(f.bytes),
        FieldKind::DeviceKey => VsfType::ke(f.bytes),
    })).collect();
    vsf::VsfBuilder::new().creation_time_oscillations(created).add_section(section, values).build()
}

/// `vsf::verification::read_verified` without a pinned signer: decodes the header and checks the
/// hashes or the signature that it carries. The decoder adds the lengths that it reads without a
/// check, in the header and wherever it takes bytes for a signature, so none of those sums may
/// overflow.
#[verifier::external_body]
fn read_header(bytes: &[u8]) -> (r: Result<usize, String>)
    requires
        crate::framing::header(bytes@, 4) != Step::Refuse,
        crate::framing::no_false_signature(bytes@),
    ensures
        match r {
            Ok(end) => verified_header(bytes@) matches Ok(e) && e == end,
            Err(text) => verified_header(bytes@) matches Err(e) && e == text@,
        },
{
    vsf::verification::read_verified(bytes, None).map(|(_, end)| end)
}

/// `vsf::VsfSection::parse`: the section's fields in order, each with all its values. The decoder
/// adds the lengths that it reads without a check, so none of those sums may overflow.
#[verifier::external_body]
fn read_section(bytes: &[u8], at: usize) -> (r: Result<Vec<WholeField>, String>)
    requires
        crate::framing::body(bytes@, at as int) != Step::Refuse,
    ensures
        match r {
            Ok(fields) => parsed_section(bytes@, at) matches Ok(f) && f == whole_view(fields@),
            Err(text) => parsed_section(bytes@, at) matches Err(e) && e == text@,
        },
{
    let mut at = at;
    let section = VsfSection::parse(bytes, &mut at)?;
    Ok(section.fields.into_iter().map(|f| WholeField {
        name: f.name,
        values: f.values.into_iter().map(|v| match v {
            VsfType::ge(b) => ReadValue { kind: Some(FieldKind::Signature), bytes: b },
            VsfType::hR(b) => ReadValue { kind: Some(FieldKind::Raw), bytes: b },
            VsfType::hP(b) => ReadValue { kind: Some(FieldKind::HandleProof), bytes: b },
            VsfType::ke(b) => ReadValue { kind: Some(FieldKind::DeviceKey), bytes: b },
            _ => ReadValue { kind: None, bytes: Vec::new() },
        }).collect(),
    }).collect())
}

/// Each field with nothing but the first of its values.
pub fn take_first_values(whole: &Vec<WholeField>) -> (r: Vec<ReadField>)
    ensures
        read_view(r@) == first_values(whole_view(whole@)),
{
    let mut out: Vec<ReadField> = Vec::new();
    let mut i: usize = 0;
    while i < whole.len()
        invariant
            i <= whole@.len(),
            out@.len() == i,
            forall|k: int| 0 <= k < i ==> (#[trigger] out@[k])@ == first_value(whole@[k]@),
        decreases whole@.len() - i,
    {
        let name = whole[i].name.clone();
        let field = if whole[i].values.len() > 0 {
            ReadField { name, kind: whole[i].values[0].kind, bytes: copy_bytes(&whole[i].values[0].bytes) }
        } else {
            ReadField { name, kind: None, bytes: Vec::new() }
        };
        assert(field@ == first_value(whole@[i as int]@));
        out.push(field);
        i = i + 1;
    }
    assert(read_view(out@) == first_values(whole_view(whole@)));
    out
}

/// Why a document was not read.
#[derive(Debug, Clone)]
pub enum ReadError {
    /// The document cannot be trusted.
    Document(String),
    /// It holds no section.
    Section(String),
}

/// What is said of bytes whose lengths do not fit, on the way in and on the way out.
pub const BAD_FRAMING: &'static str = "lengths out of range";

/// Where a document's header ends, or why it cannot be trusted.
pub open spec fn document_end(bytes: Seq<u8>) -> Result<usize, Seq<char>> {
    if crate::framing::no_false_signature(bytes) && crate::framing::header(bytes, 4) != Step::Refuse {
        verified_header(bytes)
    } else {
        Err(BAD_FRAMING@)
    }
}

/// What reading a document gives: its section's fields, each with the first of its values.
pub open spec fn document_fields(bytes: Seq<u8>) -> Result<Seq<FieldView>, Seq<char>> {
    match document_end(bytes) {
        Ok(end) => if crate::framing::body(bytes, end as int) != Step::Refuse {
            match parsed_section(bytes, end) {
                Ok(fields) => Ok(first_values(fields)),
                Err(text) => Err(text),
            }
        } else {
            Err(BAD_FRAMING@)
        },
        Err(text) => Err(text),
    }
}

/// Check a document and read its section.
pub fn read_document(bytes: &[u8]) -> (r: Result<Vec<ReadField>, ReadError>)
    ensures
        match r {
            Ok(fields) => document_fields(bytes@) matches Ok(f) && f == read_view(fields@),
            Err(ReadError::Document(text)) => document_end(bytes@) matches Err(e) && e == text@,
            Err(ReadError::Section(text)) => document_end(bytes@) is Ok && (document_fields(bytes@) matches Err(e) && e
                == text@),
        },
{
    if !has_no_false_signature(bytes) || !header_is_walkable(bytes) {
        return Err(ReadError::Document(BAD_FRAMING.to_owned()));
    }
    match read_header(bytes) {
        Ok(end) => {
            if !body_is_walkable(bytes, end) {
                return Err(ReadError::Section(BAD_FRAMING.to_owned()));
            }
            match read_section(bytes, end) {
                Ok(fields) => Ok(take_first_values(&fields)),
                Err(text) => Err(ReadError::Section(text)),
            }
        },
        Err(text) => Err(ReadError::Document(text)),
    }
}

/// What writing a document gives: its bytes, or why it could not be written.
pub open spec fn written_document(section: Seq<char>, fields: Seq<FieldView>, created: i64) -> Result<Seq<u8>, Seq<char>> {
    if !writable(fields, created) {
        Err(BAD_FRAMING@)
    } else {
        match built_document(section, fields, created) {
            Ok(bytes) => if crate::framing::no_false_signature(bytes) {
                Ok(bytes)
            } else {
                Err(BAD_FRAMING@)
            },
            Err(text) => Err(text),
        }
    }
}

fn letters_of(kind: FieldKind) -> (r: (u8, u8))
    ensures
        r == type_letters(Some(kind)),
{
    match kind {
        FieldKind::Signature => (0x67, 0x65),
        FieldKind::Raw => (0x68, 0x52),
        FieldKind::HandleProof => (0x68, 0x50),
        FieldKind::DeviceKey => (0x6B, 0x65),
    }
}

proof fn lemma_total_grows(fields: Seq<FieldView>, n: int)
    requires
        0 <= n <= fields.len(),
    ensures
        total_bytes(fields.take(n)) <= total_bytes(fields),
        forall|i: int| 0 <= i < n ==> (#[trigger] fields[i]).2.len() <= total_bytes(fields),
    decreases fields.len(),
{
    if n < fields.len() {
        lemma_total_grows(fields.drop_last(), n);
        assert(fields.drop_last().take(n) == fields.take(n));
        assert forall|i: int| 0 <= i < n implies (#[trigger] fields[i]).2.len() <= total_bytes(fields) by {
            assert(fields.drop_last()[i] == fields[i]);
        }
    } else if n > 0 {
        assert(fields.take(n) == fields);
        lemma_total_grows(fields.drop_last(), n - 1);
        assert forall|i: int| 0 <= i < n implies (#[trigger] fields[i]).2.len() <= total_bytes(fields) by {
            if i < n - 1 {
                assert(fields.drop_last()[i] == fields[i]);
            }
        }
    } else {
        assert(fields.take(n) == fields);
    }
}

/// Whether the values can be written into a document together.
pub fn are_writable(fields: &Vec<Field>) -> (r: bool)
    requires
        forall|i: int| 0 <= i < fields@.len() ==> (#[trigger] fields@[i]).bytes@.len() > 0,
    ensures
        r == values_writable(fields_view(fields@)),
{
    let ghost views = fields_view(fields@);
    let most: u64 = longest_total();
    let mut total: u64 = 0;
    let mut i: usize = 0;
    while i < fields.len()
        invariant
            i <= fields@.len(),
            views == fields_view(fields@),
            most == crate::writing::longest(),
            total == total_bytes(views.take(i as int)),
            total <= most,
        decreases fields@.len() - i,
    {
        let len: u64 = fields[i].bytes.len() as u64;
        proof {
            assert(views.take(i + 1).drop_last() == views.take(i as int));
            assert(views.take(i + 1).last().2 == fields@[i as int].bytes@);
            lemma_total_grows(views, i + 1);
        }
        if len > most - total {
            return false;
        }
        total = total + len;
        i = i + 1;
    }
    assert(views.take(i as int) == views);
    proof {
        lemma_total_grows(views, views.len() as int);
    }
    let size: u64 = total + 8192;
    let mut k: usize = 0;
    while k < fields.len()
        invariant
            k <= fields@.len(),
            views == fields_view(fields@),
            total == total_bytes(views),
            total <= crate::writing::longest(),
            size == crate::writing::room(total_bytes(views)),
            forall|j: int| 0 <= j < views.len() ==> (#[trigger] views[j]).2.len() <= total,
            forall|j: int| 0 <= j < fields@.len() ==> (#[trigger] fields@[j]).bytes@.len() > 0,
            forall|j: int|
                0 <= j < k ==> crate::writing::tame(
                    type_letters((#[trigger] views[j]).1),
                    (views[j].2.len() - 1) as nat,
                    views[j].2,
                    0x29,
                    size as nat,
                ),
        decreases fields@.len() - k,
    {
        assert(views[k as int] == fields@[k as int]@);
        let count: u64 = fields[k].bytes.len() as u64 - 1;
        if !is_tame(letters_of(fields[k].kind), count, fields[k].bytes.as_slice(), 0x29, size) {
            return false;
        }
        k = k + 1;
    }
    true
}

/// Write a document that reads back: values or a time that the builder cannot take are refused.
pub fn write_document(section: &str, fields: Vec<Field>, created: i64) -> (r: Result<Vec<u8>, String>)
    requires
        is_name(section@),
        0 < fields@.len() <= 12,
        forall|i: int| 0 <= i < fields@.len() ==> is_name((#[trigger] fields@[i]).name@) && fields@[i].bytes@.len() > 0,
    ensures
        crate::envelope::bytes_or_text(r) == written_document(section@, fields_view(fields@), created),
        r matches Ok(bytes) ==> (document_fields(bytes@) matches Ok(back) && back == fields_view(fields@)),
{
    let ghost views = fields_view(fields@);
    if !is_tame_time(created) || !are_writable(&fields) {
        return Err(BAD_FRAMING.to_owned());
    }
    match build_document(section, fields, created) {
        Ok(bytes) => {
            assert(first_values(single_values(views)) == views);
            if has_no_false_signature(bytes.as_slice()) {
                Ok(bytes)
            } else {
                Err(BAD_FRAMING.to_owned())
            }
        },
        Err(text) => Err(text),
    }
}

/// The tag and bytes of the first field with this name.
pub open spec fn field_value(fields: Seq<FieldView>, name: Seq<char>) -> Option<(Option<FieldKind>, Seq<u8>)>
    decreases fields.len(),
{
    if fields.len() == 0 {
        None
    } else if fields[0].0 == name {
        Some((fields[0].1, fields[0].2))
    } else {
        field_value(fields.skip(1), name)
    }
}

/// Where the first field with this name stands.
pub fn find_field(fields: &Vec<ReadField>, name: &str) -> (r: Option<usize>)
    ensures
        match r {
            Some(i) => i < fields@.len() && field_value(read_view(fields@), name@) == Some(
                (fields@[i as int].kind, fields@[i as int].bytes@),
            ),
            None => field_value(read_view(fields@), name@) is None,
        },
{
    let mut i: usize = 0;
    assert(read_view(fields@).skip(0) == read_view(fields@));
    while i < fields.len()
        invariant
            i <= fields@.len(),
            field_value(read_view(fields@), name@) == field_value(read_view(fields@).skip(i as int), name@),
        decreases fields@.len() - i,
    {
        assert(read_view(fields@).skip(i as int)[0] == fields@[i as int]@);
        if same_text(fields[i].name.as_str(), name) {
            return Some(i);
        }
        assert(read_view(fields@).skip(i as int).skip(1) == read_view(fields@).skip(i + 1));
        i = i + 1;
    }
    None
}

// ── which value counts ──

/// What stands under a name is what the first field with that name holds, and nothing where no field has
/// it.
pub proof fn law_first_field_counts(fields: Seq<FieldView>, name: Seq<char>, at: int)
    requires
        0 <= at <= fields.len(),
        at < fields.len() ==> fields[at].0 == name,
        forall|j: int| 0 <= j < at ==> (#[trigger] fields[j]).0 != name,
    ensures
        field_value(fields, name) == (if at < fields.len() {
            Some((fields[at].1, fields[at].2))
        } else {
            None
        }),
    decreases fields.len(),
{
    if fields.len() > 0 && at > 0 {
        assert(fields[0].0 != name);
        let rest = fields.skip(1);
        assert forall|j: int| 0 <= j < at - 1 implies (#[trigger] rest[j]).0 != name by {
            assert(rest[j] == fields[j + 1]);
        }
        if at < fields.len() {
            assert(rest[at - 1] == fields[at]);
        }
        law_first_field_counts(rest, name, at - 1);
    }
}

/// Reading a document keeps its fields in their order, each with the first of its values; a field without
/// one keeps its name alone.
pub proof fn law_first_values_in_order(fields: Seq<(Seq<char>, Seq<(Option<FieldKind>, Seq<u8>)>)>)
    ensures
        first_values(fields).len() == fields.len(),
        forall|i: int|
            0 <= i < fields.len() ==> {
                let f = #[trigger] first_values(fields)[i];
                &&& f.0 == fields[i].0
                &&& fields[i].1.len() > 0 ==> f.1 == fields[i].1[0].0 && f.2 == fields[i].1[0].1
                &&& fields[i].1.len() == 0 ==> f.1 is None && f.2.len() == 0
            },
{
}

/// A document is read as the outside decoder reads it, wherever that can be let near its bytes: the
/// header that verifies, and the section behind it.
pub proof fn law_documents_are_read(bytes: Seq<u8>)
    requires
        crate::framing::no_false_signature(bytes),
        crate::framing::header(bytes, 4) != Step::Refuse,
    ensures
        document_end(bytes) == verified_header(bytes),
        verified_header(bytes) matches Err(text) ==> document_fields(bytes) == Err::<Seq<FieldView>, Seq<char>>(text),
        verified_header(bytes) matches Ok(end) ==> crate::framing::body(bytes, end as int) != Step::Refuse ==> match parsed_section(
            bytes,
            end,
        ) {
            Ok(fields) => document_fields(bytes) matches Ok(read) && read.len() == fields.len() && forall|i: int|
                0 <= i < read.len() && fields[i].1.len() > 0 ==> (#[trigger] read[i]) == (
                    fields[i].0,
                    fields[i].1[0].0,
                    fields[i].1[0].1,
                ),
            Err(text) => document_fields(bytes) == Err::<Seq<FieldView>, Seq<char>>(text),
        },
{
}

/// Values of which none holds a `g` are written, whatever else is in them: a `g` starts everything that
/// could be taken for a signature. Their lengths are written in one byte that is no `g` either.
pub proof fn law_plain_values_are_writable(fields: Seq<FieldView>, created: i64)
    requires
        0 < fields.len() <= 12,
        crate::writing::tame_time(created),
        forall|i: int|
            0 <= i < fields.len() ==> (#[trigger] fields[i]).1 is Some && 1 <= fields[i].2.len() <= 256 && fields[i].2.len()
                != 0x68,
        forall|i: int, j: int| 0 <= i < fields.len() && 0 <= j < fields[i].2.len() ==> (#[trigger] fields[i].2[j]) != 0x67,
    ensures
        writable(fields, created),
        forall|section: Seq<char>|
            built_document(section, fields, created) is Err ==> #[trigger] written_document(section, fields, created)
                == built_document(section, fields, created),
        forall|section: Seq<char>|
            built_document(section, fields, created) matches Ok(bytes) && crate::framing::no_false_signature(bytes)
                ==> #[trigger] written_document(section, fields, created) == built_document(section, fields, created),
{
    lemma_small_total(fields);
    assert forall|i: int| 0 <= i < fields.len() implies crate::writing::tame(
        type_letters((#[trigger] fields[i]).1),
        (fields[i].2.len() - 1) as nat,
        fields[i].2,
        0x29,
        crate::writing::room(total_bytes(fields)),
    ) by {
        assert forall|j: int| 0 <= j < fields[i].2.len() implies (#[trigger] fields[i].2[j]) != 0x67 by {}
        crate::writing::law_value_without_g_is_tame(
            type_letters(fields[i].1),
            (fields[i].2.len() - 1) as nat,
            fields[i].2,
            0x29,
            crate::writing::room(total_bytes(fields)),
        );
    }
}

proof fn lemma_small_total(fields: Seq<FieldView>)
    requires
        fields.len() <= 12,
        forall|i: int| 0 <= i < fields.len() ==> (#[trigger] fields[i]).2.len() <= 256,
    ensures
        total_bytes(fields) <= 256 * fields.len(),
    decreases fields.len(),
{
    if fields.len() > 0 {
        let shorter = fields.drop_last();
        assert forall|i: int| 0 <= i < shorter.len() implies (#[trigger] shorter[i]).2.len() <= 256 by {
            assert(shorter[i] == fields[i]);
        }
        lemma_small_total(shorter);
        assert(fields.last() == fields[fields.len() - 1]);
    }
}

/// The letters of the four types.
pub proof fn law_type_letters()
    ensures
        type_letters(Some(FieldKind::Signature)) == ('g' as u8, 'e' as u8),
        type_letters(Some(FieldKind::Raw)) == ('h' as u8, 'R' as u8),
        type_letters(Some(FieldKind::HandleProof)) == ('h' as u8, 'P' as u8),
        type_letters(Some(FieldKind::DeviceKey)) == ('k' as u8, 'e' as u8),
{
}

/// With words of 64 bits values are written, whatever their length up to a tebibyte, unless one of them holds
/// in its written form a `g`, another byte, a `6` and a byte of ones, one behind the other.
pub proof fn law_values_are_written(fields: Seq<FieldView>, created: i64)
    requires
        usize::MAX == u64::MAX,
        total_bytes(fields) <= 1024 * 1024 * 1024 * 1024,
        crate::writing::tame_time(created),
        forall|i: int, k: int|
            0 <= i < fields.len() ==> !#[trigger] outsize_at(fields[i], k),
    ensures
        writable(fields, created),
{
    crate::writing::law_longest();
    assert forall|i: int| 0 <= i < fields.len() implies crate::writing::tame(
        type_letters((#[trigger] fields[i]).1),
        (fields[i].2.len() - 1) as nat,
        fields[i].2,
        0x29,
        crate::writing::room(total_bytes(fields)),
    ) by {
        let w = crate::writing::as_written(type_letters(fields[i].1), (fields[i].2.len() - 1) as nat, fields[i].2, 0x29);
        let size = crate::writing::room(total_bytes(fields));
        if !crate::writing::tame(type_letters(fields[i].1), (fields[i].2.len() - 1) as nat, fields[i].2, 0x29, size) {
            crate::writing::law_what_cannot_be_written(
                type_letters(fields[i].1),
                (fields[i].2.len() - 1) as nat,
                fields[i].2,
                0x29,
                size,
            );
            let k = choose|k: int| 0 <= k < w.len() - 8 && #[trigger] w[k] == 0x67 && w[k + 2] == 0x36 && w[k + 3] == 0xFF;
            assert(outsize_at(fields[i], k));
        }
    }
}

/// In the written form of a field there is a `g` at `k`, and behind it another byte, a `6` and a byte of
/// ones.
pub open spec fn outsize_at(field: FieldView, k: int) -> bool {
    let w = crate::writing::as_written(type_letters(field.1), (field.2.len() - 1) as nat, field.2, 0x29);
    0 <= k < w.len() - 8 && w[k] == 0x67 && w[k + 2] == 0x36 && w[k + 3] == 0xFF
}

/// A name is one to 255 lower-case letters, with single underscores between them.
pub proof fn law_names(s: Seq<char>, i: int)
    requires
        is_name(s),
        0 <= i < s.len(),
    ensures
        1 <= s.len() <= 255,
        97 <= s[i] as u32 <= 122 || s[i] as u32 == 95,
        s[i] as u32 == 95 ==> 0 < i && i + 1 < s.len() && s[i + 1] as u32 != 95,
{
}

/// What is said of bytes that are turned away.
pub proof fn law_bad_framing()
    ensures
        BAD_FRAMING@ == "lengths out of range"@,
{
}

/// What fields say is all of them, in order: the name, the tag and the bytes.
pub proof fn law_what_fields_say(fields: Seq<Field>, read: Seq<ReadField>, whole: Seq<WholeField>, i: int, k: int)
    ensures
        fields_view(fields).len() == fields.len(),
        0 <= i < fields.len() ==> fields_view(fields)[i] == (fields[i].name@, Some(fields[i].kind), fields[i].bytes@),
        read_view(read).len() == read.len(),
        0 <= i < read.len() ==> read_view(read)[i] == (read[i].name@, read[i].kind, read[i].bytes@),
        whole_view(whole).len() == whole.len(),
        0 <= i < whole.len() ==> whole_view(whole)[i].0 == whole[i].name@ && whole_view(whole)[i].1.len()
            == whole[i].values@.len(),
        0 <= i < whole.len() && 0 <= k < whole[i].values@.len() ==> whole_view(whole)[i].1[k] == (
            whole[i].values@[k].kind,
            whole[i].values@[k].bytes@,
        ),
{
}

/// A document is written as the outside builder makes it, and its error is the builder's, wherever its values
/// may be written and nothing in it looks like a signature that does not fit.
pub proof fn law_documents_are_written(section: Seq<char>, fields: Seq<FieldView>, created: i64)
    ensures
        !writable(fields, created) ==> written_document(section, fields, created) == Err::<Seq<u8>, Seq<char>>(
            "lengths out of range"@,
        ),
        writable(fields, created) ==> match built_document(section, fields, created) {
            Ok(bytes) => if crate::framing::no_false_signature(bytes) {
                written_document(section, fields, created) == Ok::<Seq<u8>, Seq<char>>(bytes)
            } else {
                written_document(section, fields, created) == Err::<Seq<u8>, Seq<char>>("lengths out of range"@)
            },
            Err(text) => written_document(section, fields, created) == Err::<Seq<u8>, Seq<char>>(text),
        },
{
}

/// The bytes of all values are added up.
pub proof fn law_totals(fields: Seq<FieldView>, field: FieldView)
    ensures
        total_bytes(Seq::empty()) == 0,
        total_bytes(fields.push(field)) == total_bytes(fields) + field.2.len(),
{
    assert(fields.push(field).drop_last() == fields);
}

/// A value that holds a `g`, the letter of a signature, a `6` and eight bytes of a length that overflows
/// beside the document is not written, and neither is what stands beside it; nor is more than a document
/// may hold.
pub proof fn law_outsize_values_are_not_written(fields: Seq<FieldView>, created: i64, i: int, at: int)
    ensures
        total_bytes(fields) > crate::writing::longest() ==> !writable(fields, created),
        !crate::writing::tame_time(created) ==> !writable(fields, created),
        ({
            let v = fields[i].2;
            &&& 0 <= i < fields.len()
            &&& 1 <= v.len() <= 256
            &&& 0 <= at && at + 11 <= v.len()
            &&& v[at] == 0x67 && v[at + 1] == 0x65 && v[at + 2] == 0x36
            &&& crate::framing::big_endian(v, at + 3, 8) <= usize::MAX
            &&& crate::framing::big_endian(v, at + 3, 8) + 1 + total_bytes(fields) + 8192 > usize::MAX
        }) ==> !writable(fields, created),
{
    let v = fields[i].2;
    if 0 <= i < fields.len() && 1 <= v.len() <= 256 && 0 <= at && at + 11 <= v.len() && v[at] == 0x67 && v[at + 1] == 0x65 && v[at
        + 2] == 0x36 && crate::framing::big_endian(v, at + 3, 8) <= usize::MAX && crate::framing::big_endian(v, at + 3, 8) + 1
        + total_bytes(fields) + 8192 > usize::MAX {
        crate::writing::law_outsize_signature_is_not_written(
            type_letters(fields[i].1),
            (v.len() - 1) as nat,
            v,
            0x29,
            crate::writing::room(total_bytes(fields)),
            at,
        );
    }
}

} // verus!
