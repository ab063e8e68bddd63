//! Document metadata extraction around the LibreOfficeKit runtime: file
//! names, MIME types, structure hashes and the file URL handed to the runtime.

pub mod lifecycle;
pub mod runtime;

use vstd::prelude::*;
use vstd::string::StringSliceAdditionalSpecFns;
use vstd::utf8::encode_utf8;

use crate::crypto::primitives::{blake3_digest, blake3_hash};
use crate::text::{chars_eq, chars_of, dec_text, file_name, file_name_of, hex_lower, hex_text,
    lower_ascii, lower_extension, path_extension, path_join, push_char, push_decimal, string_of};

verus! {

/// Metadata of a stored document.
#[derive(Clone, Debug)]
pub struct DocumentMetaExtract {
    pub record_id: Option<String>,
    pub filename: String,
    pub file_size: u64,
    pub storage_path: String,
    pub mime_type: String,
    pub parts: i32,
    pub structure_hash: String,
    pub is_graph_enhanced: bool,
    pub lok_available: bool,
}

/// Whether a path's extension, ASCII lower-cased, is the given one.
pub open spec fn has_extension(path: Seq<char>, ext: Seq<char>) -> bool {
    match path_extension(path) {
        Some(e) => lower_ascii(e) == ext,
        None => false,
    }
}

/// OpenDocument text, spreadsheet or presentation, by extension.
pub open spec fn spec_is_odf(path: Seq<char>) -> bool {
    has_extension(path, seq!['o', 'd', 't']) || has_extension(path, seq!['o', 'd', 's'])
        || has_extension(path, seq!['o', 'd', 'p'])
}

fn ext_is(e: &Option<Vec<char>>, lit: &[char]) -> (r: bool)
    ensures
        r == (e matches Some(v) && v@ == lit@),
{
    match e {
        Some(v) => chars_eq(v.as_slice(), lit),
        None => false,
    }
}

/// Whether the path names an OpenDocument file (`.odt`, `.ods`, `.odp`, any case).
pub fn is_odf(path: &str) -> (r: bool)
    ensures
        r == spec_is_odf(path@),
{
    let e = lower_extension(path);
    let odt = ['o', 'd', 't'];
    let ods = ['o', 'd', 's'];
    let odp = ['o', 'd', 'p'];
    assert(odt@ =~= seq!['o', 'd', 't']);
    assert(ods@ =~= seq!['o', 'd', 's']);
    assert(odp@ =~= seq!['o', 'd', 'p']);
    ext_is(&e, odt.as_slice()) || ext_is(&e, ods.as_slice()) || ext_is(&e, odp.as_slice())
}

/// The MIME type guessed from a path's extension.
pub open spec fn spec_guess_mime(path: Seq<char>) -> Seq<char> {
    if has_extension(path, seq!['o', 'd', 't']) {
        "application/vnd.oasis.opendocument.text"@
    } else if has_extension(path, seq!['o', 'd', 's']) {
        "application/vnd.oasis.opendocument.spreadsheet"@
    } else if has_extension(path, seq!['o', 'd', 'p']) {
        "application/vnd.oasis.opendocument.presentation"@
    } else if has_extension(path, seq!['d', 'o', 'c', 'x']) {
        "application/vnd.openxmlformats-officedocument.wordprocessingml.document"@
    } else if has_extension(path, seq!['x', 'l', 's', 'x']) {
        "application/vnd.openxmlformats-officedocument.spreadsheetml.sheet"@
    } else {
        "application/octet-stream"@
    }
}

/// Guesses the MIME type of a file from its extension.
pub fn guess_mime(path: &str) -> (m: String)
    ensures
        m@ == spec_guess_mime(path@),
{
    let e = lower_extension(path);
    let odt = ['o', 'd', 't'];
    let ods = ['o', 'd', 's'];
    let odp = ['o', 'd', 'p'];
    let docx = ['d', 'o', 'c', 'x'];
    let xlsx = ['x', 'l', 's', 'x'];
    assert(odt@ =~= seq!['o', 'd', 't']);
    assert(ods@ =~= seq!['o', 'd', 's']);
    assert(odp@ =~= seq!['o', 'd', 'p']);
    assert(docx@ =~= seq!['d', 'o', 'c', 'x']);
    assert(xlsx@ =~= seq!['x', 'l', 's', 'x']);
    if ext_is(&e, odt.as_slice()) {
        String::from_str("application/vnd.oasis.opendocument.text")
    } else if ext_is(&e, ods.as_slice()) {
        String::from_str("application/vnd.oasis.opendocument.spreadsheet")
    } else if ext_is(&e, odp.as_slice()) {
        String::from_str("application/vnd.oasis.opendocument.presentation")
    } else if ext_is(&e, docx.as_slice()) {
        String::from_str("application/vnd.openxmlformats-officedocument.wordprocessingml.document")
    } else if ext_is(&e, xlsx.as_slice()) {
        String::from_str("application/vnd.openxmlformats-officedocument.spreadsheetml.sheet")
    } else {
        String::from_str("application/octet-stream")
    }
}

/// Whether `":/"` occurs in the text.
pub open spec fn has_drive_marker(s: Seq<char>) -> bool {
    exists|i: int| 0 <= i && i + 1 < s.len() && s[i] == ':' && #[trigger] s[i + 1] == '/'
}

/// Backslashes turned into slashes.
pub open spec fn forward_slashes(s: Seq<char>) -> Seq<char> {
    s.map_values(|c: char| if c == '\\' { '/' } else { c })
}

/// The `file://` URL of a (canonical) path; paths with a drive (`C:/`) get a third slash.
pub open spec fn spec_file_url(path: Seq<char>) -> Seq<char> {
    let s = forward_slashes(path);
    if has_drive_marker(s) {
        seq!['f', 'i', 'l', 'e', ':', '/', '/', '/'] + s
    } else {
        seq!['f', 'i', 'l', 'e', ':', '/', '/'] + s
    }
}

/// The `file://` URL handed to the runtime for a canonical path.
pub fn to_file_url(path: &str) -> (url: String)
    ensures
        url@ == spec_file_url(path@),
{
    let cs = chars_of(path);
    let n: usize = cs.len();
    let mut s: Vec<char> = Vec::new();
    let mut i: usize = 0;
    while i < n
        invariant
            n == cs@.len(),
            i <= n,
            s@ =~= forward_slashes(cs@.subrange(0, i as int)),
        decreases n - i,
    {
        let c = cs[i];
        s.push(if c == '\\' { '/' } else { c });
        i = i + 1;
    }
    assert(cs@.subrange(0, n as int) =~= cs@);
    let mut found = false;
    let mut j: usize = 0;
    while j < n && n - j > 1
        invariant
            s@.len() == n,
            j <= n,
            found == (exists|k: int| 0 <= k && k < j && k + 1 < n && s@[k] == ':' && #[trigger] s@[k + 1] == '/'),
        decreases n - j,
    {
        if s[j] == ':' && s[j + 1] == '/' {
            found = true;
        }
        j = j + 1;
    }
    assert(found == has_drive_marker(s@)) by {
        if has_drive_marker(s@) {
            let k = choose|k: int| 0 <= k && k + 1 < s@.len() && s@[k] == ':' && #[trigger] s@[k + 1] == '/';
            assert(k < j);
        }
    }
    let mut url = if found { String::from_str("file:///") } else { String::from_str("file://") };
    proof {
        reveal_strlit("file:///");
        reveal_strlit("file://");
    }
    let tail = string_of(s.as_slice());
    url.append(tail.as_str());
    assert(url@ =~= spec_file_url(path@));
    url
}

/// The absolute form of a path relative to the current directory.
pub fn resolve_to_absolute(file_path: &str, current_dir: &str) -> (abs: String)
    ensures
        abs@ == path_join(current_dir@, file_path@),
{
    crate::text::join_path(current_dir, file_path)
}

/// Lower-case hex of the BLAKE3 digest of the first bytes of a file.
pub fn hash_file_prefix(prefix: &[u8]) -> (h: String)
    ensures
        h@ == hex_text(blake3_digest(prefix@)),
{
    let d = blake3_hash(prefix);
    hex_lower(d.as_slice())
}

/// The structure hash used when the file cannot be read: BLAKE3 of `<name>:<size>`.
pub open spec fn spec_fallback_structure_hash(filename: Seq<char>, file_size: u64) -> Seq<char> {
    hex_text(blake3_digest(encode_utf8(filename + seq![':'] + dec_text(file_size as nat))))
}

/// Structure hash from the file name and size.
pub fn fallback_structure_hash(filename: &str, file_size: u64) -> (h: String)
    ensures
        h@ == spec_fallback_structure_hash(filename@, file_size),
{
    let mut s = String::from_str(filename);
    push_char(&mut s, ':');
    push_decimal(&mut s, file_size);
    let bytes = s.as_str().as_bytes();
    let d = blake3_hash(bytes);
    assert(s@ =~= filename@ + seq![':'] + dec_text(file_size as nat));
    hex_lower(d.as_slice())
}

/// The file name recorded for a document: the last component of its absolute
/// path, or the path as given when there is none.
pub open spec fn spec_document_filename(file_path: Seq<char>, abs_path: Seq<char>) -> Seq<char> {
    match file_name(abs_path) {
        Some(n) => n,
        None => file_path,
    }
}

/// A document stored at `<dir>/<name>` is recorded under the name `name`,
/// whatever the directory and whatever path it was opened by.
pub proof fn law_document_filename_is_last_component(file_path: Seq<char>, dir: Seq<char>, name: Seq<char>)
    requires
        name.len() > 0,
        forall|i: int| 0 <= i < name.len() ==> name[i] != '/',
        name != seq!['.'],
        name != seq!['.', '.'],
    ensures
        spec_document_filename(file_path, dir + seq!['/'] + name) == name,
{
    let p = dir + seq!['/'] + name;
    crate::text::lemma_rfind(p, '/');
    let r = crate::text::rfind(p, '/');
    assert(p[dir.len() as int] == '/');
    if r > dir.len() {
        assert(p[r] == name[r - dir.len() - 1]);
    }
    assert(r == dir.len());
    assert(p.subrange(r + 1, p.len() as int) =~= name);
}

/// Assembles the metadata of a document from what was read about it: its size,
/// the part count reported by the runtime (`None` when the runtime is not
/// available), the first bytes of the file (`None` when it cannot be read) and
/// the record identifier the store gave it.
pub fn build_document_meta(
    file_path: &str,
    abs_path: &str,
    file_size: u64,
    lok_parts: Option<i32>,
    prefix: Option<&[u8]>,
    record_id: Option<String>,
) -> (m: DocumentMetaExtract)
    ensures
        m.record_id == record_id,
        m.filename@ == spec_document_filename(file_path@, abs_path@),
        m.file_size == file_size,
        m.storage_path@ == file_path@,
        m.mime_type@ == spec_guess_mime(abs_path@),
        m.parts == match lok_parts { Some(p) => p, None => 0 },
        m.lok_available == lok_parts is Some,
        m.structure_hash@ == match prefix {
            Some(d) => hex_text(blake3_digest(d@)),
            None => spec_fallback_structure_hash(spec_document_filename(file_path@, abs_path@), file_size),
        },
        m.is_graph_enhanced == spec_is_odf(abs_path@),
{
    let abs_chars = chars_of(abs_path);
    let filename = match file_name_of(abs_chars.as_slice()) {
        Some(n) => string_of(n.as_slice()),
        None => String::from_str(file_path),
    };
    let mime_type = guess_mime(abs_path);
    let is_graph_enhanced = is_odf(abs_path);
    let (parts, lok_available) = match lok_parts {
        Some(p) => (p, true),
        None => (0i32, false),
    };
    let structure_hash = match prefix {
        Some(d) => hash_file_prefix(d),
        None => fallback_structure_hash(filename.as_str(), file_size),
    };
    DocumentMetaExtract {
        record_id,
        filename,
        file_size,
        storage_path: String::from_str(file_path),
        mime_type,
        parts,
        structure_hash,
        is_graph_enhanced,
        lok_available,
    }
}

} // verus!

verus! {

use crate::json::{json_get, JsonValue};
use crate::orchestrator::{query_view, BindValue, BindView, DbQuery};

pub const DOCUMENT_META_SQL: &'static str = "\nUPSERT document_meta SET\n  filename = $filename,\n  file_size = $file_size,\n  storage_path = $storage_path,\n  mime_type = $mime_type,\n  last_modified = time::now()\nWHERE storage_path = $storage_path;\nSELECT * FROM document_meta WHERE storage_path = $storage_path LIMIT 1;\n";

/// The query storing a document's metadata and reading its record back.
pub fn document_meta_query(file_path: &str, abs_path: &str, file_size: u64) -> (q: DbQuery)
    ensures
        query_view(q) == (
            DOCUMENT_META_SQL@,
            seq![
                ("filename"@, BindView::Str(spec_document_filename(file_path@, abs_path@))),
                ("file_size"@, BindView::Int(file_size as i64)),
                ("storage_path"@, BindView::Str(file_path@)),
                ("mime_type"@, BindView::Str(spec_guess_mime(abs_path@))),
            ],
        ),
{
    let abs_chars = chars_of(abs_path);
    let filename = match file_name_of(abs_chars.as_slice()) {
        Some(n) => string_of(n.as_slice()),
        None => String::from_str(file_path),
    };
    let mime_type = guess_mime(abs_path);
    let mut q = DbQuery::new(DOCUMENT_META_SQL);
    q.bind("filename", BindValue::Str(filename));
    q.bind("file_size", BindValue::Int(file_size as i64));
    q.bind("storage_path", BindValue::Str(String::from_str(file_path)));
    q.bind("mime_type", BindValue::Str(mime_type));
    assert(query_view(q).1 =~= seq![
        ("filename"@, BindView::Str(spec_document_filename(file_path@, abs_path@))),
        ("file_size"@, BindView::Int(file_size as i64)),
        ("storage_path"@, BindView::Str(file_path@)),
        ("mime_type"@, BindView::Str(spec_guess_mime(abs_path@))),
    ]);
    q
}

/// The identifier member of the first stored record, if any.
pub fn stored_record_id(rows: &Vec<JsonValue>) -> (id: Option<&JsonValue>)
    ensures
        match id {
            Some(v) => rows@.len() > 0 && json_get(rows@[0], "id"@) == Some(*v),
            None => rows@.len() == 0 || json_get(rows@[0], "id"@) is None,
        },
{
    if rows.len() == 0 {
        None
    } else {
        rows[0].get("id")
    }
}

} // verus!
