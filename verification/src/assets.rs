//! Naming and placement of the files that a document's extraction produces.

use vstd::prelude::*;
use crate::digest::{sha256_digest, sha256_of, hex_lower, hex_seq};
use crate::model::Asset;
use crate::text::{
    chars_of, ends_with, ends_with_chars, is_ascii_alnum, is_ascii_alnum_char, push_chars,
    push_str_chars, seq_contains, str_contains, string_from_chars, to_owned_string,
};

verus! {

broadcast use vstd::string::group_string_axioms;

#[derive(Clone, Copy, Debug, PartialEq, Eq, Structural)]
pub enum AssetType {
    PageRender,
    EmbeddedImage,
    OcrCrop,
    TableHtml,
    TableCsv,
    FormulaImage,
    Debug,
}

impl AssetType {
    pub open spec fn name_of(self) -> Seq<char> {
        match self {
            AssetType::PageRender => "page_render"@,
            AssetType::EmbeddedImage => "embedded_image"@,
            AssetType::OcrCrop => "ocr_crop"@,
            AssetType::TableHtml => "table_html"@,
            AssetType::TableCsv => "table_csv"@,
            AssetType::FormulaImage => "formula_image"@,
            AssetType::Debug => "debug"@,
        }
    }

    pub open spec fn folder_of(self) -> Seq<char> {
        match self {
            AssetType::PageRender => "renders"@,
            AssetType::EmbeddedImage => "images"@,
            AssetType::OcrCrop => "crops"@,
            AssetType::TableHtml | AssetType::TableCsv => "tables"@,
            AssetType::FormulaImage => "formulas"@,
            AssetType::Debug => "debug"@,
        }
    }

    /// The machine name of the asset type, as stored in the model.
    pub fn as_str(self) -> (s: &'static str)
        ensures
            s@ == self.name_of(),
    {
        match self {
            AssetType::PageRender => "page_render",
            AssetType::EmbeddedImage => "embedded_image",
            AssetType::OcrCrop => "ocr_crop",
            AssetType::TableHtml => "table_html",
            AssetType::TableCsv => "table_csv",
            AssetType::FormulaImage => "formula_image",
            AssetType::Debug => "debug",
        }
    }

    /// The folder under `assets/` that holds assets of this type.
    pub fn folder(self) -> (s: &'static str)
        ensures
            s@ == self.folder_of(),
    {
        match self {
            AssetType::PageRender => "renders",
            AssetType::EmbeddedImage => "images",
            AssetType::OcrCrop => "crops",
            AssetType::TableHtml | AssetType::TableCsv => "tables",
            AssetType::FormulaImage => "formulas",
            AssetType::Debug => "debug",
        }
    }
}

/// Characters that may stand in an asset file name unchanged.
pub open spec fn is_safe_name_char(c: char) -> bool {
    is_ascii_alnum(c) || c == '.' || c == '-' || c == '_'
}

pub open spec fn sanitize_char(c: char) -> char {
    if is_safe_name_char(c) {
        c
    } else {
        '_'
    }
}

/// The sanitized form of a suggested asset name.
pub open spec fn sanitized_name(name: Seq<char>) -> Seq<char> {
    if name.len() == 0 {
        "asset.bin"@
    } else {
        name.map_values(|c: char| sanitize_char(c))
    }
}

/// The extension chosen for a MIME type: the first of the rules, in order, whose
/// fragment occurs in the MIME type.
pub open spec fn mime_extension(mime: Seq<char>) -> Seq<char> {
    if seq_contains(mime, "png"@) {
        "png"@
    } else if seq_contains(mime, "jpeg"@) || seq_contains(mime, "jpg"@) {
        "jpg"@
    } else if seq_contains(mime, "webp"@) {
        "webp"@
    } else if seq_contains(mime, "bmp"@) {
        "bmp"@
    } else if seq_contains(mime, "tiff"@) {
        "tiff"@
    } else if seq_contains(mime, "html"@) {
        "html"@
    } else if seq_contains(mime, "csv"@) {
        "csv"@
    } else if seq_contains(mime, "json"@) {
        "json"@
    } else {
        "bin"@
    }
}

/// The last `/`-separated component of a path, trailing separators ignored.
pub open spec fn last_component(p: Seq<char>) -> Seq<char>
    decreases p.len(),
{
    if p.len() > 0 && p.last() == '/' {
        last_component(p.drop_last())
    } else {
        p.skip(last_index_of(p, '/') + 1)
    }
}

/// The index of the last occurrence of `c` in `s`, or `-1`.
pub open spec fn last_index_of(s: Seq<char>, c: char) -> int
    decreases s.len(),
{
    if s.len() == 0 {
        -1
    } else if s.last() == c {
        s.len() - 1
    } else {
        last_index_of(s.drop_last(), c)
    }
}

/// std's `Path::extension` on a file name: the text after the last `.` of the last
/// component, when that `.` is not its first character.
pub open spec fn extension_of(p: Seq<char>) -> Option<Seq<char>> {
    let f = last_component(p);
    let i = last_index_of(f, '.');
    if f == ".."@ || i <= 0 {
        None
    } else {
        Some(f.skip(i + 1))
    }
}

/// `a` joined with `b` by one separator (std's `Path::join` for a relative `b`).
pub open spec fn join_path(a: Seq<char>, b: Seq<char>) -> Seq<char> {
    if a.len() == 0 || a.last() == '/' {
        a + b
    } else {
        a + "/"@ + b
    }
}

/// The file name under which an asset is stored.
pub open spec fn asset_file_name(asset_id: Seq<char>, suggested: Seq<char>, mime: Seq<char>) -> Seq<char> {
    let ext = match extension_of(suggested) {
        Some(e) => e,
        None => mime_extension(mime),
    };
    let s = sanitized_name(suggested);
    if ends_with(s, "."@ + ext) {
        asset_id + "_"@ + s
    } else {
        asset_id + "_"@ + s + "."@ + ext
    }
}

/// The path of an asset relative to its document folder.
pub open spec fn asset_relative_path(asset_type: AssetType, asset_id: Seq<char>, suggested: Seq<char>, mime: Seq<char>) -> Seq<char> {
    "assets/"@ + asset_type.folder_of() + "/"@ + asset_file_name(asset_id, suggested, mime)
}

/// An asset with its name, place and digest fixed, ready to be written.
#[derive(Debug)]
pub struct PreparedAsset {
    pub asset: Asset,
    /// Where the bytes go: the document folder joined with the asset's relative path.
    pub absolute_path: String,
}

#[derive(Debug)]
pub struct LocalAssetStore {
    pub root_output_dir: String,
}

/// The folders that every document's `assets/` folder holds.
pub fn asset_folders() -> (v: Vec<&'static str>)
    ensures
        v@.len() == 6,
        v@[0]@ == "renders"@,
        v@[1]@ == "images"@,
        v@[2]@ == "tables"@,
        v@[3]@ == "crops"@,
        v@[4]@ == "formulas"@,
        v@[5]@ == "debug"@,
{
    vec!["renders", "images", "tables", "crops", "formulas", "debug"]
}

pub fn last_index_of_exec(s: &[char], c: char) -> (r: i64)
    requires
        s@.len() < 0x7fff_ffff_ffff_ffff,
    ensures
        r == last_index_of(s@, c),
{
    let mut i: usize = s.len();
    assert(s@.take(i as int) =~= s@);
    while i > 0
        invariant
            i <= s@.len() < 0x7fff_ffff_ffff_ffff,
            last_index_of(s@, c) == last_index_of(s@.take(i as int), c),
        decreases i,
    {
        let ghost t = s@.take(i as int);
        if s[i - 1] == c {
            return (i - 1) as i64;
        }
        assert(t.drop_last() =~= s@.take(i - 1));
        i = i - 1;
    }
    assert(s@.take(0).len() == 0);
    -1
}

pub proof fn lemma_last_index_bounds(s: Seq<char>, c: char)
    ensures
        -1 <= last_index_of(s, c) < s.len(),
        last_index_of(s, c) >= 0 ==> s[last_index_of(s, c)] == c,
    decreases s.len(),
{
    if s.len() > 0 && s.last() != c {
        lemma_last_index_bounds(s.drop_last(), c);
    }
}

pub fn last_component_exec(p: &[char]) -> (r: Vec<char>)
    requires
        p@.len() < 0x7fff_ffff_ffff_ffff,
    ensures
        r@ == last_component(p@),
        r@.len() <= p@.len(),
{
    let mut end: usize = p.len();
    assert(p@.take(end as int) =~= p@);
    while end > 0 && p[end - 1] == '/'
        invariant
            end <= p@.len(),
            last_component(p@) == last_component(p@.take(end as int)),
        decreases end,
    {
        assert(p@.take(end as int).drop_last() =~= p@.take(end - 1));
        end = end - 1;
    }
    let ghost q = p@.take(end as int);
    assert(q.len() == 0 || q.last() != '/');
    let mut body: Vec<char> = Vec::new();
    let mut i: usize = 0;
    while i < end
        invariant
            i <= end <= p@.len(),
            body@ == p@.take(i as int),
        decreases end - i,
    {
        body.push(p[i]);
        i = i + 1;
        assert(body@ =~= p@.take(i as int));
    }
    assert(body@ =~= q);
    let li = last_index_of_exec(body.as_slice(), '/');
    proof {
        lemma_last_index_bounds(q, '/');
    }
    let start = (li + 1) as usize;
    let mut out: Vec<char> = Vec::new();
    let mut j: usize = start;
    while j < end
        invariant
            start <= j <= end,
            end == q.len(),
            body@ == q,
            out@ == q.subrange(start as int, j as int),
        decreases end - j,
    {
        out.push(body[j]);
        j = j + 1;
        assert(out@ =~= q.subrange(start as int, j as int));
    }
    assert(out@ =~= q.skip(start as int));
    out
}

/// std's `Path::extension` on a file name.
pub fn extension_of_exec(p: &[char]) -> (r: Option<Vec<char>>)
    requires
        p@.len() < 0x7fff_ffff_ffff_ffff,
    ensures
        r.is_some() == extension_of(p@).is_some(),
        r.is_some() ==> r.unwrap()@ == extension_of(p@).unwrap(),
{
    let f = last_component_exec(p);
    proof {
        reveal_strlit("..");
    }
    let is_dotdot = f.len() == 2 && f[0] == '.' && f[1] == '.';
    assert(is_dotdot == (f@ == ".."@)) by {
        if f@.len() == 2 && f@[0] == '.' && f@[1] == '.' {
            assert(f@ =~= ".."@);
        }
    }
    let i = last_index_of_exec(f.as_slice(), '.');
    proof {
        lemma_last_index_bounds(f@, '.');
    }
    if is_dotdot || i <= 0 {
        return None;
    }
    let start = (i + 1) as usize;
    let mut out: Vec<char> = Vec::new();
    let mut j: usize = start;
    while j < f.len()
        invariant
            start <= j <= f@.len(),
            out@ == f@.subrange(start as int, j as int),
        decreases f@.len() - j,
    {
        out.push(f[j]);
        j = j + 1;
        assert(out@ =~= f@.subrange(start as int, j as int));
    }
    assert(out@ =~= f@.skip(start as int));
    Some(out)
}

/// `a` joined with `b` by one separator.
pub fn join_path_exec(a: &[char], b: &[char]) -> (r: Vec<char>)
    ensures
        r@ == join_path(a@, b@),
{
    let mut out: Vec<char> = Vec::new();
    push_chars(&mut out, a);
    if a.len() > 0 && a[a.len() - 1] != '/' {
        out.push('/');
    }
    push_chars(&mut out, b);
    proof {
        reveal_strlit("/");
        if !(a@.len() == 0 || a@.last() == '/') {
            assert(out@ =~= a@ + "/"@ + b@);
        }
    }
    out
}

impl LocalAssetStore {
    pub fn new(root_output_dir: String) -> (s: Self)
        ensures
            s.root_output_dir@ == root_output_dir@,
    {
        LocalAssetStore { root_output_dir }
    }

    /// Replaces every character other than ASCII letters, digits, `.`, `-` and `_`
    /// by `_`; an empty name becomes `asset.bin`.
    pub fn sanitize_name(name: &str) -> (r: String)
        ensures
            r@ == sanitized_name(name@),
    {
        let v = chars_of(name);
        if v.len() == 0 {
            let r = "asset.bin".to_string();
            return r;
        }
        let mut out: Vec<char> = Vec::new();
        let mut i: usize = 0;
        while i < v.len()
            invariant
                i <= v@.len(),
                v@ == name@,
                out@ == v@.take(i as int).map_values(|c: char| sanitize_char(c)),
            decreases v@.len() - i,
        {
            let c = v[i];
            if is_ascii_alnum_char(c) || c == '.' || c == '-' || c == '_' {
                out.push(c);
            } else {
                out.push('_');
            }
            i = i + 1;
            assert(out@ =~= v@.take(i as int).map_values(|c: char| sanitize_char(c)));
        }
        assert(v@.take(i as int) =~= v@);
        string_from_chars(out.as_slice())
    }

    /// The file extension that a MIME type implies.
    pub fn extension_for_mime(mime_type: &str) -> (r: &'static str)
        ensures
            r@ == mime_extension(mime_type@),
    {
        if str_contains(mime_type, "png") {
            "png"
        } else if str_contains(mime_type, "jpeg") || str_contains(mime_type, "jpg") {
            "jpg"
        } else if str_contains(mime_type, "webp") {
            "webp"
        } else if str_contains(mime_type, "bmp") {
            "bmp"
        } else if str_contains(mime_type, "tiff") {
            "tiff"
        } else if str_contains(mime_type, "html") {
            "html"
        } else if str_contains(mime_type, "csv") {
            "csv"
        } else if str_contains(mime_type, "json") {
            "json"
        } else {
            "bin"
        }
    }

    /// The document folder of `document_id` under the output root.
    pub fn document_dir(&self, document_id: &str) -> (r: String)
        ensures
            r@ == join_path(self.root_output_dir@, document_id@),
    {
        let a = chars_of(self.root_output_dir.as_str());
        let b = chars_of(document_id);
        let j = join_path_exec(a.as_slice(), b.as_slice());
        string_from_chars(j.as_slice())
    }

    /// The folders of a document's layout: `assets/<folder>` under the document's
    /// folder, for each folder of [`asset_folders`], in that order.
    pub fn asset_folder_paths(&self, document_id: &str) -> (r: Vec<String>)
        ensures
            r@.len() == 6,
            forall|i: int|
                0 <= i < 6 ==> (#[trigger] r@[i])@ == join_path(
                    join_path(join_path(self.root_output_dir@, document_id@), "assets"@),
                    seq!["renders"@, "images"@, "tables"@, "crops"@, "formulas"@, "debug"@][i],
                ),
    {
        let doc = self.document_dir(document_id);
        let d = chars_of(doc.as_str());
        let assets = join_path_exec(d.as_slice(), chars_of("assets").as_slice());
        let folders = asset_folders();
        let mut out: Vec<String> = Vec::new();
        let mut i: usize = 0;
        while i < folders.len()
            invariant
                i <= 6,
                folders@.len() == 6,
                folders@[0]@ == "renders"@,
                folders@[1]@ == "images"@,
                folders@[2]@ == "tables"@,
                folders@[3]@ == "crops"@,
                folders@[4]@ == "formulas"@,
                folders@[5]@ == "debug"@,
                assets@ == join_path(join_path(self.root_output_dir@, document_id@), "assets"@),
                out@.len() == i,
                forall|k: int|
                    0 <= k < i ==> (#[trigger] out@[k])@ == join_path(
                        assets@,
                        seq!["renders"@, "images"@, "tables"@, "crops"@, "formulas"@, "debug"@][k],
                    ),
            decreases 6 - i,
        {
            let f = chars_of(folders[i]);
            let p = join_path_exec(assets.as_slice(), f.as_slice());
            out.push(string_from_chars(p.as_slice()));
            i = i + 1;
        }
        out
    }

    /// Fixes the name, relative path, digest and target path of an asset: what
    /// `write_asset` computes before it writes the bytes. `asset_id` is the fresh
    /// identifier that the caller drew for it.
    pub fn prepare_asset(
        &self,
        document_id: &str,
        asset_type: AssetType,
        suggested_name: &str,
        bytes: &[u8],
        mime_type: &str,
        asset_id: &str,
    ) -> (r: PreparedAsset)
        requires
            suggested_name@.len() < 0x7fff_ffff_ffff_ffff,
        ensures
            r.asset.asset_id@ == asset_id@,
            r.asset.asset_type@ == asset_type.name_of(),
            r.asset.path@ == asset_relative_path(asset_type, asset_id@, suggested_name@, mime_type@),
            r.asset.mime_type@ == mime_type@,
            r.asset.page_number.is_none(),
            r.asset.width.is_none(),
            r.asset.height.is_none(),
            r.asset.sha256.is_some(),
            r.asset.sha256.unwrap()@ == hex_seq(sha256_of(bytes@)),
            r.absolute_path@ == join_path(
                join_path(self.root_output_dir@, document_id@),
                asset_relative_path(asset_type, asset_id@, suggested_name@, mime_type@),
            ),
    {
        let suggested = chars_of(suggested_name);
        let ext: Vec<char> = match extension_of_exec(suggested.as_slice()) {
            Some(e) => e,
            None => chars_of(Self::extension_for_mime(mime_type)),
        };
        let sanitized = chars_of(Self::sanitize_name(suggested_name).as_str());
        let mut dot_ext: Vec<char> = Vec::new();
        dot_ext.push('.');
        push_chars(&mut dot_ext, ext.as_slice());
        let mut file_name: Vec<char> = chars_of(asset_id);
        file_name.push('_');
        push_chars(&mut file_name, sanitized.as_slice());
        if !ends_with_chars(sanitized.as_slice(), dot_ext.as_slice()) {
            push_chars(&mut file_name, dot_ext.as_slice());
        }
        let mut rel: Vec<char> = Vec::new();
        push_str_chars(&mut rel, "assets/");
        push_str_chars(&mut rel, asset_type.folder());
        rel.push('/');
        push_chars(&mut rel, file_name.as_slice());
        proof {
            reveal_strlit(".");
            reveal_strlit("_");
            reveal_strlit("/");
            assert(dot_ext@ =~= "."@ + ext@);
            let spec_name = asset_file_name(asset_id@, suggested_name@, mime_type@);
            if ends_with(sanitized@, "."@ + ext@) {
                assert(file_name@ =~= asset_id@ + "_"@ + sanitized@);
            } else {
                assert(file_name@ =~= asset_id@ + "_"@ + sanitized@ + "."@ + ext@);
            }
            assert(file_name@ == spec_name);
            assert(rel@ =~= "assets/"@ + asset_type.folder_of() + "/"@ + spec_name);
        }
        let digest = sha256_digest(bytes);
        let sha = hex_lower(digest.as_slice());
        let doc_dir = chars_of(self.document_dir(document_id).as_str());
        let abs = join_path_exec(doc_dir.as_slice(), rel.as_slice());
        let asset = Asset {
            asset_id: to_owned_string(asset_id),
            asset_type: to_owned_string(asset_type.as_str()),
            path: string_from_chars(rel.as_slice()),
            mime_type: to_owned_string(mime_type),
            page_number: None,
            width: None,
            height: None,
            sha256: Some(sha),
        };
        PreparedAsset { asset, absolute_path: string_from_chars(abs.as_slice()) }
    }
}

} // verus!
