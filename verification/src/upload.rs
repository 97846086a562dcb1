use std::path::PathBuf;
use std::sync::Arc;

use bytes::Bytes;
use vstd::prelude::*;

use crate::text::{parse_u64, same_text, spec_parse_u64};
use crate::reply::{bad_request, internal, Reply};

use crate::unicode::{
    char_is_alphanumeric, char_is_whitespace, is_alphanumeric, is_ascii_alphanumeric,
    is_ascii_white_space, is_whitespace, push_char,
};

verus! {

broadcast use vstd::string::group_string_axioms;

/// Characters that survive in an uploaded file's name: alphanumerics
/// (in the Unicode sense), space, dot, underscore and hyphen.
pub open spec fn kept_in_filename(c: char) -> bool {
    char_is_alphanumeric(c) || c == ' ' || c == '.' || c == '_' || c == '-'
}

/// `s` with every character that may not appear in a file name dropped.
pub open spec fn keep_filename_chars(s: Seq<char>) -> Seq<char>
    decreases s.len(),
{
    if s.len() == 0 {
        Seq::empty()
    } else if kept_in_filename(s.last()) {
        keep_filename_chars(s.drop_last()).push(s.last())
    } else {
        keep_filename_chars(s.drop_last())
    }
}

/// `s` without its trailing white space (as `str::trim_end` removes it).
pub open spec fn trim_end_whitespace(s: Seq<char>) -> Seq<char>
    decreases s.len(),
{
    if s.len() == 0 {
        s
    } else if char_is_whitespace(s.last()) {
        trim_end_whitespace(s.drop_last())
    } else {
        s
    }
}

/// The name under which an upload called `name` is stored.
pub open spec fn spec_sanitize_filename(name: Seq<char>) -> Seq<char> {
    trim_end_whitespace(keep_filename_chars(name))
}

proof fn lemma_keep_is_kept(s: Seq<char>)
    ensures
        forall|i: int|
            0 <= i < keep_filename_chars(s).len() ==> kept_in_filename(
                #[trigger] keep_filename_chars(s)[i],
            ),
    decreases s.len(),
{
    if s.len() > 0 {
        lemma_keep_is_kept(s.drop_last());
        let r = keep_filename_chars(s.drop_last());
        if kept_in_filename(s.last()) {
            assert forall|i: int| 0 <= i < r.push(s.last()).len() implies kept_in_filename(
                #[trigger] r.push(s.last())[i],
            ) by {
                if i < r.len() {
                    assert(r.push(s.last())[i] == r[i]);
                }
            }
        }
    }
}

proof fn lemma_keep_identity(s: Seq<char>)
    requires
        forall|i: int| 0 <= i < s.len() ==> kept_in_filename(#[trigger] s[i]),
    ensures
        keep_filename_chars(s) == s,
    decreases s.len(),
{
    if s.len() > 0 {
        lemma_keep_identity(s.drop_last());
        assert(s.drop_last().push(s.last()) =~= s);
    }
}

proof fn lemma_trim_end_prefix(s: Seq<char>)
    ensures
        trim_end_whitespace(s).len() <= s.len(),
        trim_end_whitespace(s) == s.take(trim_end_whitespace(s).len() as int),
        trim_end_whitespace(s).len() > 0 ==> !char_is_whitespace(trim_end_whitespace(s).last()),
    decreases s.len(),
{
    if s.len() > 0 && char_is_whitespace(s.last()) {
        lemma_trim_end_prefix(s.drop_last());
        let t = trim_end_whitespace(s.drop_last());
        assert(s.drop_last().take(t.len() as int) =~= s.take(t.len() as int));
    } else {
        assert(s.take(s.len() as int) =~= s);
    }
}

/// Sanitizing a sanitized name changes nothing.
pub proof fn law_sanitize_idempotent(name: Seq<char>)
    ensures
        spec_sanitize_filename(spec_sanitize_filename(name)) == spec_sanitize_filename(name),
{
    let k = keep_filename_chars(name);
    let y = spec_sanitize_filename(name);
    lemma_keep_is_kept(name);
    lemma_trim_end_prefix(k);
    assert forall|i: int| 0 <= i < y.len() implies kept_in_filename(#[trigger] y[i]) by {
        assert(y[i] == k[i]);
    }
    lemma_keep_identity(y);
}

/// An ASCII character that a stored file name may hold.
pub open spec fn ascii_filename_char(c: char) -> bool {
    is_ascii_alphanumeric(c) || c == ' ' || c == '.' || c == '_' || c == '-'
}

/// The ASCII letters and digits of `s`, in order.
pub open spec fn ascii_alphanumerics(s: Seq<char>) -> Seq<char>
    decreases s.len(),
{
    if s.len() == 0 {
        s
    } else if is_ascii_alphanumeric(s.last()) {
        ascii_alphanumerics(s.drop_last()).push(s.last())
    } else {
        ascii_alphanumerics(s.drop_last())
    }
}

/// The characters of `s` for which `char::is_alphanumeric` holds, in order.
pub open spec fn alphanumerics(s: Seq<char>) -> Seq<char>
    decreases s.len(),
{
    if s.len() == 0 {
        s
    } else if char_is_alphanumeric(s.last()) {
        alphanumerics(s.drop_last()).push(s.last())
    } else {
        alphanumerics(s.drop_last())
    }
}

/// Keeps the alphanumeric characters of `name` and space, dot, underscore and
/// hyphen, then strips trailing white space.
///
/// Whatever the input, the result holds no path separator, no control
/// character and no other ASCII punctuation, and does not end in white space;
/// every alphanumeric character of `name` is kept, in order, up to the white
/// space stripped at the end; every ASCII letter and digit of `name` is kept,
/// in order; and a name made
/// of ASCII letters, digits, space, dot, underscore and hyphen that does not
/// end in a space comes back unchanged.
pub fn sanitize_filename(name: &str) -> (r: String)
    ensures
        r@ == spec_sanitize_filename(name@),
        forall|i: int| 0 <= i < r@.len() ==> kept_in_filename(#[trigger] r@[i]),
        forall|i: int|
            0 <= i < r@.len() && (r@[i] as u32) < 128 ==> ascii_filename_char(#[trigger] r@[i]),
        r@.len() > 0 ==> !char_is_whitespace(r@.last()),
        ascii_alphanumerics(r@) == ascii_alphanumerics(name@),
        exists|w: Seq<char>|
            (forall|i: int| 0 <= i < w.len() ==> char_is_whitespace(#[trigger] w[i])) && alphanumerics(
                r@ + w,
            ) == alphanumerics(name@),
        (forall|i: int|
            0 <= i < name@.len() ==> ({
                let c = #[trigger] name@[i];
                ('a' <= c && c <= 'z') || ('A' <= c && c <= 'Z') || ('0' <= c && c <= '9') || c
                    == ' ' || c == '.' || c == '_' || c == '-'
            })) && (name@.len() == 0 || name@.last() != ' ') ==> r@ == name@,
{
    let ghost plain = forall|i: int|
        0 <= i < name@.len() ==> ({
            let c = #[trigger] name@[i];
            ('a' <= c && c <= 'z') || ('A' <= c && c <= 'Z') || ('0' <= c && c <= '9') || c == ' '
                || c == '.' || c == '_' || c == '-'
        });
    let mut kept: Vec<char> = Vec::new();
    for c in it: name.chars()
        invariant
            it.seq() == name@,
            kept@ == keep_filename_chars(name@.take(it.index() as int)),
            forall|i: int| 0 <= i < kept@.len() ==> kept_in_filename(#[trigger] kept@[i]),
            forall|i: int|
                0 <= i < kept@.len() && (kept@[i] as u32) < 128 ==> ascii_filename_char(
                    #[trigger] kept@[i],
                ),
            ascii_alphanumerics(kept@) == ascii_alphanumerics(name@.take(it.index() as int)),
            alphanumerics(kept@) == alphanumerics(name@.take(it.index() as int)),
            plain == (forall|i: int|
                0 <= i < name@.len() ==> ({
                    let c = #[trigger] name@[i];
                    ('a' <= c && c <= 'z') || ('A' <= c && c <= 'Z') || ('0' <= c && c <= '9') || c
                        == ' ' || c == '.' || c == '_' || c == '-'
                })),
            plain ==> kept@ == name@.take(it.index() as int),
    {
        let ghost prefix = name@.take(it.index() + 1);
        assert(prefix.drop_last() =~= name@.take(it.index() as int));
        assert(prefix.last() == c);
        assert(name@[it.index() as int] == c);
        if is_alphanumeric(c) || c == ' ' || c == '.' || c == '_' || c == '-' {
            let ghost before = kept@;
            kept.push(c);
            assert(kept@.drop_last() =~= before);
            assert(plain ==> kept@ =~= prefix);
        } else {
            assert(!is_ascii_alphanumeric(c));
        }
    }
    assert(name@.take(name@.len() as int) =~= name@);

    let mut end: usize = kept.len();
    assert(kept@.take(end as int) =~= kept@);
    while end > 0 && is_whitespace(kept[end - 1])
        invariant
            end <= kept@.len(),
            trim_end_whitespace(kept@) == trim_end_whitespace(kept@.take(end as int)),
            ascii_alphanumerics(kept@.take(end as int)) == ascii_alphanumerics(kept@),
            forall|i: int| end <= i < kept@.len() ==> char_is_whitespace(#[trigger] kept@[i]),
            plain == (forall|i: int|
                0 <= i < name@.len() ==> ({
                    let c = #[trigger] name@[i];
                    ('a' <= c && c <= 'z') || ('A' <= c && c <= 'Z') || ('0' <= c && c <= '9') || c
                        == ' ' || c == '.' || c == '_' || c == '-'
                })),
            plain ==> kept@ == name@,
            plain && (name@.len() == 0 || name@.last() != ' ') ==> end == kept@.len(),
        decreases end,
    {
        assert(kept@.take(end as int).drop_last() =~= kept@.take(end - 1));
        assert(!is_ascii_alphanumeric(kept@[end - 1]));
        proof {
            if plain && (name@.len() == 0 || name@.last() != ' ') {
                let last = name@[name@.len() - 1];
                assert(kept@[end - 1] == last);
                assert(('a' <= last && last <= 'z') || ('A' <= last && last <= 'Z') || ('0' <= last
                    && last <= '9') || last == ' ' || last == '.' || last == '_' || last == '-');
                assert(!is_ascii_white_space(last));
            }
        }
        end = end - 1;
    }
    assert(trim_end_whitespace(kept@.take(end as int)) == kept@.take(end as int));

    let mut out = String::new();
    let mut i: usize = 0;
    while i < end
        invariant
            i <= end <= kept@.len(),
            out@ == kept@.take(i as int),
        decreases end - i,
    {
        assert(kept@.take(i + 1) =~= kept@.take(i as int).push(kept@[i as int]));
        push_char(&mut out, kept[i]);
        i = i + 1;
    }
    proof {
        let w = kept@.skip(end as int);
        assert(out@ + w =~= kept@);
        assert forall|i: int| 0 <= i < w.len() implies char_is_whitespace(#[trigger] w[i]) by {
            assert(w[i] == kept@[end + i]);
        }
    }
    out
}

#[verifier::external_type_specification]
#[verifier::external_body]
pub struct ExBytes(bytes::Bytes);

#[verifier::external_type_specification]
#[verifier::external_body]
pub struct ExPathBuf(std::path::PathBuf);

/// The free bytes of a file system from its `statvfs` figures: fragment
/// size times available blocks, saturating at `u64::MAX`.
pub fn free_space_bytes(fragment_size: u64, blocks_available: u64) -> (r: u64)
    ensures
        r == (if fragment_size * blocks_available > u64::MAX {
            u64::MAX
        } else {
            (fragment_size * blocks_available) as u64
        }),
{
    match fragment_size.checked_mul(blocks_available) {
        Some(v) => v,
        None => u64::MAX,
    }
}

/// The largest request body the server accepts: 5 GiB.
pub const REQUEST_BODY_LIMIT: u64 = 5368709120;

/// The directory that uploads are written to.
#[derive(Clone)]
pub struct UploadDir(pub Arc<PathBuf>);

impl UploadDir {
    pub fn new(p: PathBuf) -> (r: Self)
        ensures
            *r.0 == p,
    {
        UploadDir(Arc::new(p))
    }
}

/// The fields of one chunk upload request.
pub struct ChunkInfo {
    /// The chunk's bytes.
    pub file_data: Bytes,
    /// The file name the client gave (before sanitizing).
    pub file_name: String,
    /// `dzchunkindex`: 0-based number of this chunk.
    pub chunk_index: u64,
    /// `dzchunkbyteoffset`: where the chunk lies in the final file.
    pub chunk_byte_offset: u64,
    /// `dztotalfilesize`: the size of the final file.
    pub total_file_size: u64,
    /// `dztotalchunkcount`: the number of chunks.
    pub total_chunk_count: u64,
}

/// What a multipart form field is, by its name.
#[derive(Clone, Copy, Debug, PartialEq, Eq, Structural)]
pub enum FieldKind {
    /// `file`: the chunk's bytes and the file name.
    File,
    /// `dzchunkindex`.
    ChunkIndex,
    /// `dzchunkbyteoffset`.
    ChunkByteOffset,
    /// `dztotalfilesize`.
    TotalFileSize,
    /// `dztotalchunkcount`.
    TotalChunkCount,
    /// Any other (or no) name: the field is ignored.
    Other,
}

pub open spec fn spec_field_kind(name: Option<Seq<char>>) -> FieldKind {
    match name {
        None => FieldKind::Other,
        Some(n) => if n == "file"@ {
            FieldKind::File
        } else if n == "dzchunkindex"@ {
            FieldKind::ChunkIndex
        } else if n == "dzchunkbyteoffset"@ {
            FieldKind::ChunkByteOffset
        } else if n == "dztotalfilesize"@ {
            FieldKind::TotalFileSize
        } else if n == "dztotalchunkcount"@ {
            FieldKind::TotalChunkCount
        } else {
            FieldKind::Other
        },
    }
}

/// Classifies a form field by its name.
pub fn field_kind(name: Option<&str>) -> (r: FieldKind)
    ensures
        r == spec_field_kind(
            match name {
                Some(n) => Some(n@),
                None => None,
            },
        ),
{
    match name {
        None => FieldKind::Other,
        Some(n) => if same_text(n, "file") {
            FieldKind::File
        } else if same_text(n, "dzchunkindex") {
            FieldKind::ChunkIndex
        } else if same_text(n, "dzchunkbyteoffset") {
            FieldKind::ChunkByteOffset
        } else if same_text(n, "dztotalfilesize") {
            FieldKind::TotalFileSize
        } else if same_text(n, "dztotalchunkcount") {
            FieldKind::TotalChunkCount
        } else {
            FieldKind::Other
        },
    }
}

/// The form fields read so far; a later field of the same name replaces an
/// earlier one.
pub struct ChunkFields {
    pub file_data: Option<Bytes>,
    pub file_name: Option<String>,
    pub chunk_index: Option<u64>,
    pub chunk_byte_offset: Option<u64>,
    pub total_file_size: Option<u64>,
    pub total_chunk_count: Option<u64>,
}

pub open spec fn opt_text(o: Option<String>) -> Option<Seq<char>> {
    match o {
        Some(s) => Some(s@),
        None => None,
    }
}

/// What a numeric field's text gives: its `u64` value, or `None` when the
/// text could not be read or is not a number.
pub open spec fn spec_number_field(text: Option<Seq<char>>) -> Option<u64> {
    match text {
        Some(t) => spec_parse_u64(t),
        None => None,
    }
}

/// The answer to a request whose multipart body cannot be read.
pub fn invalid_multipart() -> (r: Reply)
    ensures
        r == (Reply { status: 400, body: "Invalid multipart" }),
{
    bad_request("Invalid multipart")
}

/// The answer when the chunk cannot be received or stored.
pub fn disk_write_failed() -> (r: Reply)
    ensures
        r == (Reply { status: 500, body: "Couldn't write the file to disk" }),
{
    internal("Couldn't write the file to disk")
}

/// A form field as the server reads it.
pub enum FieldRead {
    /// A `file` field: the file name it carries (if any) and its bytes.
    File { file_name: Option<String>, data: Bytes },
    /// Any other field: its text, `None` when it could not be read.
    Text(Option<String>),
}

/// The record after one more field of kind `kind`, read as `read`.
pub open spec fn spec_accept_field(f: ChunkFields, kind: FieldKind, read: FieldRead) -> ChunkFields {
    match read {
        FieldRead::File { file_name, data } => if kind == FieldKind::File {
            ChunkFields { file_data: Some(data), file_name: file_name, ..f }
        } else {
            f
        },
        FieldRead::Text(text) => {
            let v = spec_number_field(opt_text(text));
            match kind {
                FieldKind::ChunkIndex => ChunkFields { chunk_index: v, ..f },
                FieldKind::ChunkByteOffset => ChunkFields { chunk_byte_offset: v, ..f },
                FieldKind::TotalFileSize => ChunkFields { total_file_size: v, ..f },
                FieldKind::TotalChunkCount => ChunkFields { total_chunk_count: v, ..f },
                _ => f,
            }
        },
    }
}

/// The record after reading, in order, the fields of `stream`, each given by
/// its name (if any) and how it was read.
pub open spec fn spec_read_fields(f: ChunkFields, stream: Seq<(Option<Seq<char>>, FieldRead)>) -> ChunkFields
    decreases stream.len(),
{
    if stream.len() == 0 {
        f
    } else {
        let (name, read) = stream.last();
        spec_accept_field(spec_read_fields(f, stream.drop_last()), spec_field_kind(name), read)
    }
}

/// The field's name is one the server reads.
pub open spec fn is_known_field(field: (Option<Seq<char>>, FieldRead)) -> bool {
    spec_field_kind(field.0) != FieldKind::Other
}

/// `stream` without the fields whose name the server does not read.
pub open spec fn known_fields(stream: Seq<(Option<Seq<char>>, FieldRead)>) -> Seq<(Option<Seq<char>>, FieldRead)> {
    stream.filter(|e: (Option<Seq<char>>, FieldRead)| is_known_field(e))
}

/// What `finish` makes of the record `f`.
pub open spec fn spec_finish(f: ChunkFields) -> Result<ChunkInfo, Reply> {
    if f.file_data is None {
        Err(Reply { status: 400, body: "Missing file" })
    } else if f.file_name is None {
        Err(Reply { status: 400, body: "Missing filename" })
    } else if f.chunk_index is None {
        Err(Reply { status: 400, body: "Missing dzchunkindex" })
    } else if f.chunk_byte_offset is None {
        Err(Reply { status: 400, body: "Missing dzchunkbyteoffset" })
    } else if f.total_file_size is None {
        Err(Reply { status: 400, body: "Missing dztotalfilesize" })
    } else if f.total_chunk_count is None {
        Err(Reply { status: 400, body: "Missing dztotalchunkcount" })
    } else {
        Ok(
            ChunkInfo {
                file_data: f.file_data->0,
                file_name: f.file_name->0,
                chunk_index: f.chunk_index->0,
                chunk_byte_offset: f.chunk_byte_offset->0,
                total_file_size: f.total_file_size->0,
                total_chunk_count: f.total_chunk_count->0,
            },
        )
    }
}

proof fn lemma_unknown_fields_dropped(f: ChunkFields, stream: Seq<(Option<Seq<char>>, FieldRead)>)
    ensures
        spec_read_fields(f, stream) == spec_read_fields(f, known_fields(stream)),
    decreases stream.len(),
{
    if stream.len() > 0 {
        let rest = stream.drop_last();
        lemma_unknown_fields_dropped(f, rest);
        reveal(Seq::filter);
        if is_known_field(stream.last()) {
            assert(known_fields(stream) == known_fields(rest).push(stream.last()));
            assert(known_fields(rest).push(stream.last()).drop_last() =~= known_fields(rest));
        } else {
            assert(known_fields(stream) == known_fields(rest));
        }
    }
}

/// Form fields whose name is absent or not one the server reads change
/// nothing: two field streams that agree once such fields are dropped (for
/// instance one stream and the same with such fields inserted anywhere) give
/// the same record, and so the same chunk or the same refusal.
pub proof fn law_unknown_fields_ignored(
    f: ChunkFields,
    a: Seq<(Option<Seq<char>>, FieldRead)>,
    b: Seq<(Option<Seq<char>>, FieldRead)>,
)
    requires
        known_fields(a) == known_fields(b),
    ensures
        spec_read_fields(f, a) == spec_read_fields(f, b),
        spec_finish(spec_read_fields(f, a)) == spec_finish(spec_read_fields(f, b)),
{
    lemma_unknown_fields_dropped(f, a);
    lemma_unknown_fields_dropped(f, b);
}

/// The numeric slot of kind `k` in the record `f`.
pub open spec fn number_slot(f: ChunkFields, k: FieldKind) -> Option<u64> {
    match k {
        FieldKind::ChunkIndex => f.chunk_index,
        FieldKind::ChunkByteOffset => f.chunk_byte_offset,
        FieldKind::TotalFileSize => f.total_file_size,
        FieldKind::TotalChunkCount => f.total_chunk_count,
        _ => None,
    }
}

pub open spec fn is_number_kind(k: FieldKind) -> bool {
    k == FieldKind::ChunkIndex || k == FieldKind::ChunkByteOffset || k == FieldKind::TotalFileSize
        || k == FieldKind::TotalChunkCount
}

proof fn lemma_slot_from_its_field(
    f: ChunkFields,
    stream: Seq<(Option<Seq<char>>, FieldRead)>,
    j: int,
    k: FieldKind,
)
    requires
        is_number_kind(k),
        0 <= j < stream.len(),
        spec_field_kind(stream[j].0) == k,
        stream[j].1 is Text,
        forall|i: int| 0 <= i < stream.len() && i != j ==> spec_field_kind(#[trigger] stream[i].0) != k,
    ensures
        number_slot(spec_read_fields(f, stream), k) == spec_number_field(opt_text(stream[j].1->Text_0)),
    decreases stream.len(),
{
    let rest = stream.drop_last();
    if j < stream.len() - 1 {
        assert forall|i: int| 0 <= i < rest.len() && i != j implies spec_field_kind(
            #[trigger] rest[i].0,
        ) != k by {
            assert(rest[i] == stream[i]);
        }
        lemma_slot_from_its_field(f, rest, j, k);
        assert(spec_field_kind(stream.last().0) != k);
    }
}

proof fn lemma_file_from_its_field(f: ChunkFields, stream: Seq<(Option<Seq<char>>, FieldRead)>, j: int)
    requires
        0 <= j < stream.len(),
        spec_field_kind(stream[j].0) == FieldKind::File,
        stream[j].1 is File,
        forall|i: int|
            0 <= i < stream.len() && i != j ==> spec_field_kind(#[trigger] stream[i].0) != FieldKind::File,
    ensures
        spec_read_fields(f, stream).file_data == Some(stream[j].1->data),
        spec_read_fields(f, stream).file_name == stream[j].1->file_name,
    decreases stream.len(),
{
    let rest = stream.drop_last();
    if j < stream.len() - 1 {
        assert forall|i: int| 0 <= i < rest.len() && i != j implies spec_field_kind(
            #[trigger] rest[i].0,
        ) != FieldKind::File by {
            assert(rest[i] == stream[i]);
        }
        lemma_file_from_its_field(f, rest, j);
        assert(spec_field_kind(stream.last().0) != FieldKind::File);
    }
}

/// The value that the numeric form field `field` carries: its text read as a
/// `u64` (`None` when it was read as something else or is not a number).
pub open spec fn form_number(field: (Option<Seq<char>>, FieldRead)) -> Option<u64> {
    match field.1 {
        FieldRead::Text(Some(t)) => spec_parse_u64(t@),
        _ => None,
    }
}

/// Each part of a chunk comes from the form field of its own name: in a
/// field stream (in any order, among any other fields) holding one `file`
/// field with a file name and one each of `dzchunkindex`,
/// `dzchunkbyteoffset`, `dztotalfilesize` and `dztotalchunkcount` whose
/// texts are numbers, the chunk read has the file field's bytes and name,
/// and as index, offset, total size and chunk count the numbers of the
/// fields so named.
pub proof fn law_each_part_from_its_own_field(
    f: ChunkFields,
    stream: Seq<(Option<Seq<char>>, FieldRead)>,
    file_at: int,
    index_at: int,
    offset_at: int,
    size_at: int,
    count_at: int,
)
    requires
        f.file_data is None && f.file_name is None && f.chunk_index is None
            && f.chunk_byte_offset is None && f.total_file_size is None && f.total_chunk_count is None,
        0 <= file_at < stream.len(),
        0 <= index_at < stream.len(),
        0 <= offset_at < stream.len(),
        0 <= size_at < stream.len(),
        0 <= count_at < stream.len(),
        stream[file_at].0 == Some("file"@),
        stream[file_at].1 matches FieldRead::File { file_name: Some(_), data: _ },
        stream[index_at].0 == Some("dzchunkindex"@),
        stream[offset_at].0 == Some("dzchunkbyteoffset"@),
        stream[size_at].0 == Some("dztotalfilesize"@),
        stream[count_at].0 == Some("dztotalchunkcount"@),
        form_number(stream[index_at]) is Some,
        form_number(stream[offset_at]) is Some,
        form_number(stream[size_at]) is Some,
        form_number(stream[count_at]) is Some,
        forall|i: int| 0 <= i < stream.len() && i != file_at ==> (#[trigger] stream[i]).0 != Some("file"@),
        forall|i: int|
            0 <= i < stream.len() && i != index_at ==> (#[trigger] stream[i]).0 != Some("dzchunkindex"@),
        forall|i: int|
            0 <= i < stream.len() && i != offset_at ==> (#[trigger] stream[i]).0 != Some(
                "dzchunkbyteoffset"@,
            ),
        forall|i: int|
            0 <= i < stream.len() && i != size_at ==> (#[trigger] stream[i]).0 != Some(
                "dztotalfilesize"@,
            ),
        forall|i: int|
            0 <= i < stream.len() && i != count_at ==> (#[trigger] stream[i]).0 != Some(
                "dztotalchunkcount"@,
            ),
    ensures
        spec_finish(spec_read_fields(f, stream)) matches Ok(info) && {
            &&& Some(info.file_data) == Some(stream[file_at].1->data)
            &&& Some(info.file_name) == stream[file_at].1->file_name
            &&& Some(info.chunk_index) == form_number(stream[index_at])
            &&& Some(info.chunk_byte_offset) == form_number(stream[offset_at])
            &&& Some(info.total_file_size) == form_number(stream[size_at])
            &&& Some(info.total_chunk_count) == form_number(stream[count_at])
        },
{
    reveal_strlit("file");
    reveal_strlit("dzchunkindex");
    reveal_strlit("dzchunkbyteoffset");
    reveal_strlit("dztotalfilesize");
    reveal_strlit("dztotalchunkcount");
    assert("file"@ != "dzchunkindex"@) by {
        assert("file"@[0] != "dzchunkindex"@[0]);
    }
    assert("file"@ != "dzchunkbyteoffset"@) by {
        assert("file"@[0] != "dzchunkbyteoffset"@[0]);
    }
    assert("file"@ != "dztotalfilesize"@) by {
        assert("file"@[0] != "dztotalfilesize"@[0]);
    }
    assert("file"@ != "dztotalchunkcount"@) by {
        assert("file"@[0] != "dztotalchunkcount"@[0]);
    }
    assert("dzchunkindex"@ != "dzchunkbyteoffset"@) by {
        assert("dzchunkindex"@[7] != "dzchunkbyteoffset"@[7]);
    }
    assert("dzchunkindex"@ != "dztotalfilesize"@) by {
        assert("dzchunkindex"@[2] != "dztotalfilesize"@[2]);
    }
    assert("dzchunkindex"@ != "dztotalchunkcount"@) by {
        assert("dzchunkindex"@[2] != "dztotalchunkcount"@[2]);
    }
    assert("dzchunkbyteoffset"@ != "dztotalfilesize"@) by {
        assert("dzchunkbyteoffset"@[2] != "dztotalfilesize"@[2]);
    }
    assert("dzchunkbyteoffset"@ != "dztotalchunkcount"@) by {
        assert("dzchunkbyteoffset"@[2] != "dztotalchunkcount"@[2]);
    }
    assert("dztotalfilesize"@ != "dztotalchunkcount"@) by {
        assert("dztotalfilesize"@[7] != "dztotalchunkcount"@[7]);
    }
    lemma_file_from_its_field(f, stream, file_at);
    lemma_slot_from_its_field(f, stream, index_at, FieldKind::ChunkIndex);
    lemma_slot_from_its_field(f, stream, offset_at, FieldKind::ChunkByteOffset);
    lemma_slot_from_its_field(f, stream, size_at, FieldKind::TotalFileSize);
    lemma_slot_from_its_field(f, stream, count_at, FieldKind::TotalChunkCount);
}

impl ChunkFields {
    /// No field read yet.
    pub fn new() -> (r: Self)
        ensures
            r.file_data is None,
            r.file_name is None,
            r.chunk_index is None,
            r.chunk_byte_offset is None,
            r.total_file_size is None,
            r.total_chunk_count is None,
    {
        ChunkFields {
            file_data: None,
            file_name: None,
            chunk_index: None,
            chunk_byte_offset: None,
            total_file_size: None,
            total_chunk_count: None,
        }
    }

    /// Records a `file` field: its bytes and its file name (which may be absent).
    pub fn accept_file(&mut self, file_name: Option<String>, data: Bytes)
        ensures
            final(self).file_data == Some(data),
            final(self).file_name == file_name,
            final(self).chunk_index == old(self).chunk_index,
            final(self).chunk_byte_offset == old(self).chunk_byte_offset,
            final(self).total_file_size == old(self).total_file_size,
            final(self).total_chunk_count == old(self).total_chunk_count,
    {
        self.file_data = Some(data);
        self.file_name = file_name;
    }

    /// Records a numeric field of kind `kind` whose text is `text` (`None`
    /// when the text could not be read); a text that is not a `u64` clears the
    /// field. Fields of other kinds leave the record as it is.
    pub fn accept_number(&mut self, kind: FieldKind, text: Option<&str>)
        ensures
            ({
                let v = spec_number_field(
                    match text {
                        Some(t) => Some(t@),
                        None => None,
                    },
                );
                &&& final(self).file_data == old(self).file_data
                &&& final(self).file_name == old(self).file_name
                &&& final(self).chunk_index == (if kind == FieldKind::ChunkIndex {
                    v
                } else {
                    old(self).chunk_index
                })
                &&& final(self).chunk_byte_offset == (if kind == FieldKind::ChunkByteOffset {
                    v
                } else {
                    old(self).chunk_byte_offset
                })
                &&& final(self).total_file_size == (if kind == FieldKind::TotalFileSize {
                    v
                } else {
                    old(self).total_file_size
                })
                &&& final(self).total_chunk_count == (if kind == FieldKind::TotalChunkCount {
                    v
                } else {
                    old(self).total_chunk_count
                })
            }),
    {
        let v = match text {
            Some(t) => parse_u64(t),
            None => None,
        };
        match kind {
            FieldKind::ChunkIndex => self.chunk_index = v,
            FieldKind::ChunkByteOffset => self.chunk_byte_offset = v,
            FieldKind::TotalFileSize => self.total_file_size = v,
            FieldKind::TotalChunkCount => self.total_chunk_count = v,
            _ => {},
        }
    }

    /// Records one form field of kind `kind` as it was read: a `file` field's
    /// name and bytes, or a numeric field's text. Anything else, and a field
    /// read in the wrong form, leaves the record as it is.
    pub fn accept(&mut self, kind: FieldKind, read: FieldRead)
        ensures
            *final(self) == spec_accept_field(*old(self), kind, read),
    {
        match read {
            FieldRead::File { file_name, data } => {
                if kind == FieldKind::File {
                    self.accept_file(file_name, data);
                }
            },
            FieldRead::Text(text) => match text {
                Some(t) => self.accept_number(kind, Some(t.as_str())),
                None => self.accept_number(kind, None),
            },
        }
    }

    /// The chunk described by the fields read, or the answer naming the first
    /// missing one (in the order file, file name, index, offset, total size,
    /// chunk count).
    pub fn finish(self) -> (r: Result<ChunkInfo, Reply>)
        ensures
            r == spec_finish(self),
    {
        let file_data = match self.file_data {
            Some(d) => d,
            None => return Err(bad_request("Missing file")),
        };
        let file_name = match self.file_name {
            Some(n) => n,
            None => return Err(bad_request("Missing filename")),
        };
        let chunk_index = match self.chunk_index {
            Some(v) => v,
            None => return Err(bad_request("Missing dzchunkindex")),
        };
        let chunk_byte_offset = match self.chunk_byte_offset {
            Some(v) => v,
            None => return Err(bad_request("Missing dzchunkbyteoffset")),
        };
        let total_file_size = match self.total_file_size {
            Some(v) => v,
            None => return Err(bad_request("Missing dztotalfilesize")),
        };
        let total_chunk_count = match self.total_chunk_count {
            Some(v) => v,
            None => return Err(bad_request("Missing dztotalchunkcount")),
        };
        Ok(
            ChunkInfo {
                file_data,
                file_name,
                chunk_index,
                chunk_byte_offset,
                total_file_size,
                total_chunk_count,
            },
        )
    }
}

} // verus!
