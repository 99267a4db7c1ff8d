//! Recognising the format of an input file.

use vstd::prelude::*;
use crate::assets::extension_of;
use crate::digest::{hex_lower, hex_seq, sha256_digest, sha256_of};
use crate::text::{
    chars_of, lower_chars, lower_seq, starts_with, starts_with_chars, string_from_chars,
    to_owned_string,
};
use crate::assets::extension_of_exec;

verus! {

broadcast use vstd::string::group_string_axioms;

#[derive(Clone, Copy, Debug, PartialEq, Eq, Structural)]
pub enum DetectedFormat {
    Pdf,
    Docx,
    Doc,
    Html,
    Md,
    Rtf,
    Image,
    Pptx,
    Txt,
    Xlsx,
    Unknown,
}

/// What is known of an input file before it is extracted.
#[derive(Debug)]
pub struct FileClassification {
    pub input_path: String,
    pub extension: String,
    pub mime_by_extension: Option<String>,
    pub mime_by_magic: Option<String>,
    pub size_bytes: u64,
    pub sha256: String,
    pub likely_format: DetectedFormat,
    pub is_encrypted_or_protected: bool,
}

pub open spec fn opt_view(o: Option<&str>) -> Option<Seq<char>> {
    match o {
        Some(s) => Some(s@),
        None => None,
    }
}

pub open spec fn opt_string_view(o: Option<String>) -> Option<Seq<char>> {
    match o {
        Some(s) => Some(s@),
        None => None,
    }
}

/// The MIME type that decides: the one found by content if any, else the one
/// implied by the extension, else none; in ASCII lowercase.
pub open spec fn deciding_mime(mime_ext: Option<Seq<char>>, mime_magic: Option<Seq<char>>) -> Seq<char> {
    lower_seq(
        match mime_magic {
            Some(m) => m,
            None => match mime_ext {
                Some(m) => m,
                None => Seq::empty(),
            },
        },
    )
}

pub open spec fn is_image_extension(ext: Seq<char>) -> bool {
    ext == "jpg"@ || ext == "jpeg"@ || ext == "png"@ || ext == "tif"@ || ext == "tiff"@ || ext
        == "webp"@ || ext == "bmp"@
}

/// The format rules, tried in order; the first that holds decides.
pub open spec fn format_for(ext: Seq<char>, mime: Seq<char>) -> DetectedFormat {
    if ext == "pdf"@ || mime == "application/pdf"@ {
        DetectedFormat::Pdf
    } else if ext == "docx"@ || mime
        == "application/vnd.openxmlformats-officedocument.wordprocessingml.document"@ {
        DetectedFormat::Docx
    } else if ext == "doc"@ || mime == "application/msword"@ {
        DetectedFormat::Doc
    } else if ext == "html"@ || ext == "htm"@ || mime == "text/html"@ {
        DetectedFormat::Html
    } else if ext == "md"@ || ext == "markdown"@ || mime == "text/markdown"@ {
        DetectedFormat::Md
    } else if ext == "rtf"@ || mime == "application/rtf"@ || mime == "text/rtf"@ {
        DetectedFormat::Rtf
    } else if ext == "pptx"@ || mime
        == "application/vnd.openxmlformats-officedocument.presentationml.presentation"@ {
        DetectedFormat::Pptx
    } else if ext == "xlsx"@ || mime
        == "application/vnd.openxmlformats-officedocument.spreadsheetml.sheet"@ {
        DetectedFormat::Xlsx
    } else if is_image_extension(ext) || starts_with(mime, "image/"@) {
        DetectedFormat::Image
    } else if ext == "txt"@ || ext == "log"@ || mime == "text/plain"@ {
        DetectedFormat::Txt
    } else {
        DetectedFormat::Unknown
    }
}

/// A Word document in the Office Open XML format (extension `docx`, or the
/// wordprocessingml MIME type deciding) is classified `Docx` unless a PDF rule
/// holds first; the legacy `Doc` format is given only to the extension `doc` or
/// the MIME type `application/msword`, never to the extension `docx`.
pub proof fn law_docx_is_not_legacy_word(
    ext: Seq<char>,
    mime_ext: Option<Seq<char>>,
    mime_magic: Option<Seq<char>>,
)
    ensures
        ({
            let mime = deciding_mime(mime_ext, mime_magic);
            ext == "docx"@ && mime != "application/pdf"@ ==> format_for(ext, mime)
                == DetectedFormat::Docx
        }),
        ({
            let mime = deciding_mime(mime_ext, mime_magic);
            mime == "application/vnd.openxmlformats-officedocument.wordprocessingml.document"@
                && ext != "pdf"@ ==> format_for(ext, mime) == DetectedFormat::Docx
        }),
        ({
            let mime = deciding_mime(mime_ext, mime_magic);
            format_for(ext, mime) == DetectedFormat::Doc ==> (ext == "doc"@ || mime
                == "application/msword"@) && ext != "docx"@
        }),
{
    reveal_strlit("docx");
    reveal_strlit("pdf");
    reveal_strlit("application/pdf");
    reveal_strlit("application/vnd.openxmlformats-officedocument.wordprocessingml.document");
    assert("docx"@ != "pdf"@) by {
        assert("docx"@.len() != "pdf"@.len());
    }
    assert("application/vnd.openxmlformats-officedocument.wordprocessingml.document"@
        != "application/pdf"@) by {
        assert("application/vnd.openxmlformats-officedocument.wordprocessingml.document"@.len()
            != "application/pdf"@.len());
    }
}

/// Two texts differ when their lengths differ or when they differ at `i`.
proof fn lemma_names_differ(a: Seq<char>, b: Seq<char>, i: int)
    requires
        a.len() != b.len() || (0 <= i < a.len() && i < b.len() && a[i] != b[i]),
    ensures
        a != b,
{
}

/// One of the extensions that a format rule names.
pub open spec fn named_extension(ext: Seq<char>) -> bool {
    ||| ext == "pdf"@
    ||| ext == "docx"@
    ||| ext == "doc"@
    ||| ext == "html"@
    ||| ext == "htm"@
    ||| ext == "md"@
    ||| ext == "markdown"@
    ||| ext == "rtf"@
    ||| ext == "pptx"@
    ||| ext == "xlsx"@
    ||| ext == "jpg"@
    ||| ext == "jpeg"@
    ||| ext == "png"@
    ||| ext == "tif"@
    ||| ext == "tiff"@
    ||| ext == "webp"@
    ||| ext == "bmp"@
    ||| ext == "txt"@
    ||| ext == "log"@
}

/// One of the MIME types that a format rule names, or an `image/` type.
pub open spec fn named_mime(mime: Seq<char>) -> bool {
    ||| mime == "application/pdf"@
    ||| mime == "application/vnd.openxmlformats-officedocument.wordprocessingml.document"@
    ||| mime == "application/msword"@
    ||| mime == "text/html"@
    ||| mime == "text/markdown"@
    ||| mime == "application/rtf"@
    ||| mime == "text/rtf"@
    ||| mime == "application/vnd.openxmlformats-officedocument.presentationml.presentation"@
    ||| mime == "application/vnd.openxmlformats-officedocument.spreadsheetml.sheet"@
    ||| mime == "text/plain"@
    ||| starts_with(mime, "image/"@)
}

/// When the MIME type names no format, the extension decides: each extension
/// gives its own format, and an extension that no rule names gives `Unknown`.
pub proof fn law_extension_decides_alone(ext: Seq<char>, mime: Seq<char>)
    requires
        !named_mime(mime),
    ensures
        ext == "pdf"@ ==> format_for(ext, mime) == DetectedFormat::Pdf,
        ext == "docx"@ ==> format_for(ext, mime) == DetectedFormat::Docx,
        ext == "doc"@ ==> format_for(ext, mime) == DetectedFormat::Doc,
        ext == "html"@ || ext == "htm"@ ==> format_for(ext, mime) == DetectedFormat::Html,
        ext == "md"@ || ext == "markdown"@ ==> format_for(ext, mime) == DetectedFormat::Md,
        ext == "rtf"@ ==> format_for(ext, mime) == DetectedFormat::Rtf,
        ext == "pptx"@ ==> format_for(ext, mime) == DetectedFormat::Pptx,
        ext == "xlsx"@ ==> format_for(ext, mime) == DetectedFormat::Xlsx,
        ext == "jpg"@ || ext == "jpeg"@ || ext == "png"@ || ext == "tif"@ || ext == "tiff"@
            || ext == "webp"@ || ext == "bmp"@ ==> format_for(ext, mime) == DetectedFormat::Image,
        ext == "txt"@ || ext == "log"@ ==> format_for(ext, mime) == DetectedFormat::Txt,
        !named_extension(ext) ==> format_for(ext, mime) == DetectedFormat::Unknown,
{
    reveal_strlit("pdf");
    reveal_strlit("docx");
    reveal_strlit("doc");
    reveal_strlit("html");
    reveal_strlit("htm");
    reveal_strlit("md");
    reveal_strlit("markdown");
    reveal_strlit("rtf");
    reveal_strlit("pptx");
    reveal_strlit("xlsx");
    reveal_strlit("jpg");
    reveal_strlit("jpeg");
    reveal_strlit("png");
    reveal_strlit("tif");
    reveal_strlit("tiff");
    reveal_strlit("webp");
    reveal_strlit("bmp");
    reveal_strlit("txt");
    reveal_strlit("log");
    if ext == "docx"@ {
        lemma_names_differ("docx"@, "pdf"@, 0);
    }
    if ext == "doc"@ {
        assert("doc"@ != "pdf"@) by {
            assert("doc"@[0] != "pdf"@[0]);
        }
        lemma_names_differ("doc"@, "docx"@, 0);
    }
    if ext == "html"@ {
        lemma_names_differ("html"@, "pdf"@, 0);
        assert("html"@ != "docx"@) by {
            assert("html"@[0] != "docx"@[0]);
        }
        lemma_names_differ("html"@, "doc"@, 0);
    }
    if ext == "htm"@ {
        assert("htm"@ != "pdf"@) by {
            assert("htm"@[0] != "pdf"@[0]);
        }
        lemma_names_differ("htm"@, "docx"@, 0);
        assert("htm"@ != "doc"@) by {
            assert("htm"@[0] != "doc"@[0]);
        }
    }
    if ext == "md"@ {
        lemma_names_differ("md"@, "pdf"@, 0);
        lemma_names_differ("md"@, "docx"@, 0);
        lemma_names_differ("md"@, "doc"@, 0);
        lemma_names_differ("md"@, "html"@, 0);
        lemma_names_differ("md"@, "htm"@, 0);
    }
    if ext == "markdown"@ {
        lemma_names_differ("markdown"@, "pdf"@, 0);
        lemma_names_differ("markdown"@, "docx"@, 0);
        lemma_names_differ("markdown"@, "doc"@, 0);
        lemma_names_differ("markdown"@, "html"@, 0);
        lemma_names_differ("markdown"@, "htm"@, 0);
    }
    if ext == "rtf"@ {
        assert("rtf"@ != "pdf"@) by {
            assert("rtf"@[0] != "pdf"@[0]);
        }
        lemma_names_differ("rtf"@, "docx"@, 0);
        assert("rtf"@ != "doc"@) by {
            assert("rtf"@[0] != "doc"@[0]);
        }
        lemma_names_differ("rtf"@, "html"@, 0);
        assert("rtf"@ != "htm"@) by {
            assert("rtf"@[0] != "htm"@[0]);
        }
        lemma_names_differ("rtf"@, "md"@, 0);
        lemma_names_differ("rtf"@, "markdown"@, 0);
    }
    if ext == "pptx"@ {
        lemma_names_differ("pptx"@, "pdf"@, 0);
        assert("pptx"@ != "docx"@) by {
            assert("pptx"@[0] != "docx"@[0]);
        }
        lemma_names_differ("pptx"@, "doc"@, 0);
        assert("pptx"@ != "html"@) by {
            assert("pptx"@[0] != "html"@[0]);
        }
        lemma_names_differ("pptx"@, "htm"@, 0);
        lemma_names_differ("pptx"@, "md"@, 0);
        lemma_names_differ("pptx"@, "markdown"@, 0);
        lemma_names_differ("pptx"@, "rtf"@, 0);
    }
    if ext == "xlsx"@ {
        lemma_names_differ("xlsx"@, "pdf"@, 0);
        assert("xlsx"@ != "docx"@) by {
            assert("xlsx"@[0] != "docx"@[0]);
        }
        lemma_names_differ("xlsx"@, "doc"@, 0);
        assert("xlsx"@ != "html"@) by {
            assert("xlsx"@[0] != "html"@[0]);
        }
        lemma_names_differ("xlsx"@, "htm"@, 0);
        lemma_names_differ("xlsx"@, "md"@, 0);
        lemma_names_differ("xlsx"@, "markdown"@, 0);
        lemma_names_differ("xlsx"@, "rtf"@, 0);
        assert("xlsx"@ != "pptx"@) by {
            assert("xlsx"@[0] != "pptx"@[0]);
        }
    }
    if ext == "jpg"@ {
        assert("jpg"@ != "pdf"@) by {
            assert("jpg"@[0] != "pdf"@[0]);
        }
        lemma_names_differ("jpg"@, "docx"@, 0);
        assert("jpg"@ != "doc"@) by {
            assert("jpg"@[0] != "doc"@[0]);
        }
        lemma_names_differ("jpg"@, "html"@, 0);
        assert("jpg"@ != "htm"@) by {
            assert("jpg"@[0] != "htm"@[0]);
        }
        lemma_names_differ("jpg"@, "md"@, 0);
        lemma_names_differ("jpg"@, "markdown"@, 0);
        assert("jpg"@ != "rtf"@) by {
            assert("jpg"@[0] != "rtf"@[0]);
        }
        lemma_names_differ("jpg"@, "pptx"@, 0);
        lemma_names_differ("jpg"@, "xlsx"@, 0);
    }
    if ext == "jpeg"@ {
        lemma_names_differ("jpeg"@, "pdf"@, 0);
        assert("jpeg"@ != "docx"@) by {
            assert("jpeg"@[0] != "docx"@[0]);
        }
        lemma_names_differ("jpeg"@, "doc"@, 0);
        assert("jpeg"@ != "html"@) by {
            assert("jpeg"@[0] != "html"@[0]);
        }
        lemma_names_differ("jpeg"@, "htm"@, 0);
        lemma_names_differ("jpeg"@, "md"@, 0);
        lemma_names_differ("jpeg"@, "markdown"@, 0);
        lemma_names_differ("jpeg"@, "rtf"@, 0);
        assert("jpeg"@ != "pptx"@) by {
            assert("jpeg"@[0] != "pptx"@[0]);
        }
        assert("jpeg"@ != "xlsx"@) by {
            assert("jpeg"@[0] != "xlsx"@[0]);
        }
    }
    if ext == "png"@ {
        assert("png"@ != "pdf"@) by {
            assert("png"@[1] != "pdf"@[1]);
        }
        lemma_names_differ("png"@, "docx"@, 0);
        assert("png"@ != "doc"@) by {
            assert("png"@[0] != "doc"@[0]);
        }
        lemma_names_differ("png"@, "html"@, 0);
        assert("png"@ != "htm"@) by {
            assert("png"@[0] != "htm"@[0]);
        }
        lemma_names_differ("png"@, "md"@, 0);
        lemma_names_differ("png"@, "markdown"@, 0);
        assert("png"@ != "rtf"@) by {
            assert("png"@[0] != "rtf"@[0]);
        }
        lemma_names_differ("png"@, "pptx"@, 0);
        lemma_names_differ("png"@, "xlsx"@, 0);
    }
    if ext == "tif"@ {
        assert("tif"@ != "pdf"@) by {
            assert("tif"@[0] != "pdf"@[0]);
        }
        lemma_names_differ("tif"@, "docx"@, 0);
        assert("tif"@ != "doc"@) by {
            assert("tif"@[0] != "doc"@[0]);
        }
        lemma_names_differ("tif"@, "html"@, 0);
        assert("tif"@ != "htm"@) by {
            assert("tif"@[0] != "htm"@[0]);
        }
        lemma_names_differ("tif"@, "md"@, 0);
        lemma_names_differ("tif"@, "markdown"@, 0);
        assert("tif"@ != "rtf"@) by {
            assert("tif"@[0] != "rtf"@[0]);
        }
        lemma_names_differ("tif"@, "pptx"@, 0);
        lemma_names_differ("tif"@, "xlsx"@, 0);
    }
    if ext == "tiff"@ {
        lemma_names_differ("tiff"@, "pdf"@, 0);
        assert("tiff"@ != "docx"@) by {
            assert("tiff"@[0] != "docx"@[0]);
        }
        lemma_names_differ("tiff"@, "doc"@, 0);
        assert("tiff"@ != "html"@) by {
            assert("tiff"@[0] != "html"@[0]);
        }
        lemma_names_differ("tiff"@, "htm"@, 0);
        lemma_names_differ("tiff"@, "md"@, 0);
        lemma_names_differ("tiff"@, "markdown"@, 0);
        lemma_names_differ("tiff"@, "rtf"@, 0);
        assert("tiff"@ != "pptx"@) by {
            assert("tiff"@[0] != "pptx"@[0]);
        }
        assert("tiff"@ != "xlsx"@) by {
            assert("tiff"@[0] != "xlsx"@[0]);
        }
    }
    if ext == "webp"@ {
        lemma_names_differ("webp"@, "pdf"@, 0);
        assert("webp"@ != "docx"@) by {
            assert("webp"@[0] != "docx"@[0]);
        }
        lemma_names_differ("webp"@, "doc"@, 0);
        assert("webp"@ != "html"@) by {
            assert("webp"@[0] != "html"@[0]);
        }
        lemma_names_differ("webp"@, "htm"@, 0);
        lemma_names_differ("webp"@, "md"@, 0);
        lemma_names_differ("webp"@, "markdown"@, 0);
        lemma_names_differ("webp"@, "rtf"@, 0);
        assert("webp"@ != "pptx"@) by {
            assert("webp"@[0] != "pptx"@[0]);
        }
        assert("webp"@ != "xlsx"@) by {
            assert("webp"@[0] != "xlsx"@[0]);
        }
    }
    if ext == "bmp"@ {
        assert("bmp"@ != "pdf"@) by {
            assert("bmp"@[0] != "pdf"@[0]);
        }
        lemma_names_differ("bmp"@, "docx"@, 0);
        assert("bmp"@ != "doc"@) by {
            assert("bmp"@[0] != "doc"@[0]);
        }
        lemma_names_differ("bmp"@, "html"@, 0);
        assert("bmp"@ != "htm"@) by {
            assert("bmp"@[0] != "htm"@[0]);
        }
        lemma_names_differ("bmp"@, "md"@, 0);
        lemma_names_differ("bmp"@, "markdown"@, 0);
        assert("bmp"@ != "rtf"@) by {
            assert("bmp"@[0] != "rtf"@[0]);
        }
        lemma_names_differ("bmp"@, "pptx"@, 0);
        lemma_names_differ("bmp"@, "xlsx"@, 0);
    }
    if ext == "txt"@ {
        assert("txt"@ != "pdf"@) by {
            assert("txt"@[0] != "pdf"@[0]);
        }
        lemma_names_differ("txt"@, "docx"@, 0);
        assert("txt"@ != "doc"@) by {
            assert("txt"@[0] != "doc"@[0]);
        }
        lemma_names_differ("txt"@, "html"@, 0);
        assert("txt"@ != "htm"@) by {
            assert("txt"@[0] != "htm"@[0]);
        }
        lemma_names_differ("txt"@, "md"@, 0);
        lemma_names_differ("txt"@, "markdown"@, 0);
        assert("txt"@ != "rtf"@) by {
            assert("txt"@[0] != "rtf"@[0]);
        }
        lemma_names_differ("txt"@, "pptx"@, 0);
        lemma_names_differ("txt"@, "xlsx"@, 0);
        assert("txt"@ != "jpg"@) by {
            assert("txt"@[0] != "jpg"@[0]);
        }
        lemma_names_differ("txt"@, "jpeg"@, 0);
        assert("txt"@ != "png"@) by {
            assert("txt"@[0] != "png"@[0]);
        }
        assert("txt"@ != "tif"@) by {
            assert("txt"@[1] != "tif"@[1]);
        }
        lemma_names_differ("txt"@, "tiff"@, 0);
        lemma_names_differ("txt"@, "webp"@, 0);
        assert("txt"@ != "bmp"@) by {
            assert("txt"@[0] != "bmp"@[0]);
        }
    }
    if ext == "log"@ {
        assert("log"@ != "pdf"@) by {
            assert("log"@[0] != "pdf"@[0]);
        }
        lemma_names_differ("log"@, "docx"@, 0);
        assert("log"@ != "doc"@) by {
            assert("log"@[0] != "doc"@[0]);
        }
        lemma_names_differ("log"@, "html"@, 0);
        assert("log"@ != "htm"@) by {
            assert("log"@[0] != "htm"@[0]);
        }
        lemma_names_differ("log"@, "md"@, 0);
        lemma_names_differ("log"@, "markdown"@, 0);
        assert("log"@ != "rtf"@) by {
            assert("log"@[0] != "rtf"@[0]);
        }
        lemma_names_differ("log"@, "pptx"@, 0);
        lemma_names_differ("log"@, "xlsx"@, 0);
        assert("log"@ != "jpg"@) by {
            assert("log"@[0] != "jpg"@[0]);
        }
        lemma_names_differ("log"@, "jpeg"@, 0);
        assert("log"@ != "png"@) by {
            assert("log"@[0] != "png"@[0]);
        }
        assert("log"@ != "tif"@) by {
            assert("log"@[0] != "tif"@[0]);
        }
        lemma_names_differ("log"@, "tiff"@, 0);
        lemma_names_differ("log"@, "webp"@, 0);
        assert("log"@ != "bmp"@) by {
            assert("log"@[0] != "bmp"@[0]);
        }
    }
}

/// When the extension names no format, the deciding MIME type decides: each MIME
/// type gives its own format, any `image/` type gives `Image`, and a MIME type
/// that no rule names gives `Unknown`.
pub proof fn law_mime_decides_alone(ext: Seq<char>, mime: Seq<char>)
    requires
        !named_extension(ext),
    ensures
        mime == "application/pdf"@ ==> format_for(ext, mime) == DetectedFormat::Pdf,
        mime == "application/vnd.openxmlformats-officedocument.wordprocessingml.document"@
            ==> format_for(ext, mime) == DetectedFormat::Docx,
        mime == "application/msword"@ ==> format_for(ext, mime) == DetectedFormat::Doc,
        mime == "text/html"@ ==> format_for(ext, mime) == DetectedFormat::Html,
        mime == "text/markdown"@ ==> format_for(ext, mime) == DetectedFormat::Md,
        mime == "application/rtf"@ || mime == "text/rtf"@ ==> format_for(ext, mime)
            == DetectedFormat::Rtf,
        mime == "application/vnd.openxmlformats-officedocument.presentationml.presentation"@
            ==> format_for(ext, mime) == DetectedFormat::Pptx,
        mime == "application/vnd.openxmlformats-officedocument.spreadsheetml.sheet"@
            ==> format_for(ext, mime) == DetectedFormat::Xlsx,
        starts_with(mime, "image/"@) ==> format_for(ext, mime) == DetectedFormat::Image,
        mime == "text/plain"@ ==> format_for(ext, mime) == DetectedFormat::Txt,
        !named_mime(mime) ==> format_for(ext, mime) == DetectedFormat::Unknown,
{
    reveal_strlit("application/pdf");
    reveal_strlit("application/vnd.openxmlformats-officedocument.wordprocessingml.document");
    reveal_strlit("application/msword");
    reveal_strlit("text/html");
    reveal_strlit("text/markdown");
    reveal_strlit("application/rtf");
    reveal_strlit("text/rtf");
    reveal_strlit("application/vnd.openxmlformats-officedocument.presentationml.presentation");
    reveal_strlit("application/vnd.openxmlformats-officedocument.spreadsheetml.sheet");
    reveal_strlit("text/plain");
    reveal_strlit("image/");
    let pdf = "application/pdf"@;
    let wordml = "application/vnd.openxmlformats-officedocument.wordprocessingml.document"@;
    let msword = "application/msword"@;
    let html = "text/html"@;
    let markdown = "text/markdown"@;
    let rtf = "application/rtf"@;
    let text_rtf = "text/rtf"@;
    let presentationml = "application/vnd.openxmlformats-officedocument.presentationml.presentation"@;
    let spreadsheetml = "application/vnd.openxmlformats-officedocument.spreadsheetml.sheet"@;
    let plain = "text/plain"@;
    let image = "image/"@;
    if mime == wordml {
        lemma_names_differ(wordml, pdf, 0);
    }
    if mime == msword {
        lemma_names_differ(msword, pdf, 0);
        lemma_names_differ(msword, wordml, 0);
    }
    if mime == html {
        lemma_names_differ(html, pdf, 0);
        lemma_names_differ(html, wordml, 0);
        lemma_names_differ(html, msword, 0);
    }
    if mime == markdown {
        lemma_names_differ(markdown, pdf, 0);
        lemma_names_differ(markdown, wordml, 0);
        lemma_names_differ(markdown, msword, 0);
        lemma_names_differ(markdown, html, 0);
    }
    if mime == rtf {
        lemma_names_differ(rtf, pdf, 12);
        lemma_names_differ(rtf, wordml, 0);
        lemma_names_differ(rtf, msword, 0);
        lemma_names_differ(rtf, html, 0);
        lemma_names_differ(rtf, markdown, 0);
    }
    if mime == text_rtf {
        lemma_names_differ(text_rtf, pdf, 0);
        lemma_names_differ(text_rtf, wordml, 0);
        lemma_names_differ(text_rtf, msword, 0);
        lemma_names_differ(text_rtf, html, 0);
        lemma_names_differ(text_rtf, markdown, 0);
    }
    if mime == presentationml {
        lemma_names_differ(presentationml, pdf, 0);
        lemma_names_differ(presentationml, wordml, 0);
        lemma_names_differ(presentationml, msword, 0);
        lemma_names_differ(presentationml, html, 0);
        lemma_names_differ(presentationml, markdown, 0);
        lemma_names_differ(presentationml, rtf, 0);
        lemma_names_differ(presentationml, text_rtf, 0);
    }
    if mime == spreadsheetml {
        lemma_names_differ(spreadsheetml, pdf, 0);
        lemma_names_differ(spreadsheetml, wordml, 0);
        lemma_names_differ(spreadsheetml, msword, 0);
        lemma_names_differ(spreadsheetml, html, 0);
        lemma_names_differ(spreadsheetml, markdown, 0);
        lemma_names_differ(spreadsheetml, rtf, 0);
        lemma_names_differ(spreadsheetml, text_rtf, 0);
        lemma_names_differ(spreadsheetml, presentationml, 0);
    }
    if starts_with(mime, image) {
        lemma_names_differ(pdf.subrange(0, 6), image, 0);
        lemma_names_differ(wordml.subrange(0, 6), image, 0);
        lemma_names_differ(msword.subrange(0, 6), image, 0);
        lemma_names_differ(html.subrange(0, 6), image, 0);
        lemma_names_differ(markdown.subrange(0, 6), image, 0);
        lemma_names_differ(rtf.subrange(0, 6), image, 0);
        lemma_names_differ(text_rtf.subrange(0, 6), image, 0);
        lemma_names_differ(presentationml.subrange(0, 6), image, 0);
        lemma_names_differ(spreadsheetml.subrange(0, 6), image, 0);
    }
    if mime == plain {
        lemma_names_differ(plain, pdf, 0);
        lemma_names_differ(plain, wordml, 0);
        lemma_names_differ(plain, msword, 0);
        lemma_names_differ(plain, html, 0);
        lemma_names_differ(plain, markdown, 0);
        lemma_names_differ(plain, rtf, 0);
        lemma_names_differ(plain, text_rtf, 0);
        lemma_names_differ(plain, presentationml, 0);
        lemma_names_differ(plain, spreadsheetml, 0);
        lemma_names_differ(plain.subrange(0, 6), image, 0);
    }
}

/// The bytes of `/Encrypt`.
pub open spec fn encrypt_marker() -> Seq<u8> {
    seq![0x2fu8, 0x45u8, 0x6eu8, 0x63u8, 0x72u8, 0x79u8, 0x70u8, 0x74u8]
}

pub open spec fn bytes_occur_at(hay: Seq<u8>, needle: Seq<u8>, i: int) -> bool {
    0 <= i && i + needle.len() <= hay.len() && hay.subrange(i, i + needle.len()) == needle
}

pub open spec fn bytes_contain(hay: Seq<u8>, needle: Seq<u8>) -> bool {
    exists|i: int| bytes_occur_at(hay, needle, i)
}

/// A file counts as protected when it is a PDF that names an `/Encrypt` dictionary.
pub open spec fn is_protected(format: DetectedFormat, bytes: Seq<u8>) -> bool {
    format == DetectedFormat::Pdf && bytes_contain(bytes, encrypt_marker())
}

/// Whether two character sequences are equal.
pub fn chars_eq(a: &[char], b: &str) -> (r: bool)
    ensures
        r == (a@ == b@),
{
    let bv = chars_of(b);
    if a.len() != bv.len() {
        return false;
    }
    let mut i: usize = 0;
    while i < a.len()
        invariant
            i <= a@.len(),
            a@.len() == bv@.len(),
            bv@ == b@,
            forall|k: int| 0 <= k < i ==> a@[k] == bv@[k],
        decreases a@.len() - i,
    {
        if a[i] != bv[i] {
            return false;
        }
        i = i + 1;
    }
    assert(a@ =~= bv@);
    true
}

/// Chooses the format of a file from its extension and the MIME types found for it.
pub fn detect_format(extension: &str, mime_ext: Option<&str>, mime_magic: Option<&str>) -> (f: DetectedFormat)
    ensures
        f == format_for(extension@, deciding_mime(opt_view(mime_ext), opt_view(mime_magic))),
{
    let raw: Vec<char> = match mime_magic {
        Some(m) => chars_of(m),
        None => match mime_ext {
            Some(m) => chars_of(m),
            None => Vec::new(),
        },
    };
    let mime = lower_chars(raw.as_slice());
    let ext = chars_of(extension);
    let e = ext.as_slice();
    let m = mime.as_slice();
    if chars_eq(e, "pdf") || chars_eq(m, "application/pdf") {
        return DetectedFormat::Pdf;
    }
    if chars_eq(e, "docx") || chars_eq(
        m,
        "application/vnd.openxmlformats-officedocument.wordprocessingml.document",
    ) {
        return DetectedFormat::Docx;
    }
    if chars_eq(e, "doc") || chars_eq(m, "application/msword") {
        return DetectedFormat::Doc;
    }
    if chars_eq(e, "html") || chars_eq(e, "htm") || chars_eq(m, "text/html") {
        return DetectedFormat::Html;
    }
    if chars_eq(e, "md") || chars_eq(e, "markdown") || chars_eq(m, "text/markdown") {
        return DetectedFormat::Md;
    }
    if chars_eq(e, "rtf") || chars_eq(m, "application/rtf") || chars_eq(m, "text/rtf") {
        return DetectedFormat::Rtf;
    }
    if chars_eq(e, "pptx") || chars_eq(
        m,
        "application/vnd.openxmlformats-officedocument.presentationml.presentation",
    ) {
        return DetectedFormat::Pptx;
    }
    if chars_eq(e, "xlsx") || chars_eq(
        m,
        "application/vnd.openxmlformats-officedocument.spreadsheetml.sheet",
    ) {
        return DetectedFormat::Xlsx;
    }
    let image_prefix = chars_of("image/");
    if chars_eq(e, "jpg") || chars_eq(e, "jpeg") || chars_eq(e, "png") || chars_eq(e, "tif")
        || chars_eq(e, "tiff") || chars_eq(e, "webp") || chars_eq(e, "bmp") || starts_with_chars(
        m,
        image_prefix.as_slice(),
    ) {
        return DetectedFormat::Image;
    }
    if chars_eq(e, "txt") || chars_eq(e, "log") || chars_eq(m, "text/plain") {
        return DetectedFormat::Txt;
    }
    DetectedFormat::Unknown
}

fn bytes_occur_at_exec(hay: &[u8], needle: &Vec<u8>, i: usize) -> (r: bool)
    ensures
        r == bytes_occur_at(hay@, needle@, i as int),
{
    let n: usize = hay.len();
    if i > n || needle.len() > n - i {
        return false;
    }
    let mut j: usize = 0;
    while j < needle.len()
        invariant
            n == hay@.len(),
            i + needle@.len() <= n,
            j <= needle@.len(),
            forall|k: int| 0 <= k < j ==> hay@[i + k] == needle@[k],
        decreases needle@.len() - j,
    {
        if hay[i + j] != needle[j] {
            assert(hay@.subrange(i as int, i + needle@.len())[j as int] != needle@[j as int]);
            return false;
        }
        j = j + 1;
    }
    assert(hay@.subrange(i as int, i + needle@.len()) =~= needle@);
    true
}

/// Whether a file of the given format is encrypted or protected.
pub fn detect_protection(format: &DetectedFormat, bytes: &[u8]) -> (r: bool)
    ensures
        r == is_protected(*format, bytes@),
{
    match format {
        DetectedFormat::Pdf => {},
        _ => {
            return false;
        },
    }
    let needle: Vec<u8> = vec![0x2fu8, 0x45u8, 0x6eu8, 0x63u8, 0x72u8, 0x79u8, 0x70u8, 0x74u8];
    assert(needle@ =~= encrypt_marker());
    if needle.len() > bytes.len() {
        assert forall|k: int| !bytes_occur_at(bytes@, encrypt_marker(), k) by {}
        return false;
    }
    let last = bytes.len() - needle.len();
    let mut i: usize = 0;
    loop
        invariant
            i <= last,
            *format == DetectedFormat::Pdf,
            needle@ == encrypt_marker(),
            last + needle@.len() == bytes@.len(),
            forall|k: int| 0 <= k < i ==> !bytes_occur_at(bytes@, encrypt_marker(), k),
        decreases last - i,
    {
        if bytes_occur_at_exec(bytes, &needle, i) {
            assert(bytes_occur_at(bytes@, encrypt_marker(), i as int));
            return true;
        }
        if i == last {
            assert forall|k: int| !bytes_occur_at(bytes@, encrypt_marker(), k) by {
                if 0 <= k && k + 8 <= bytes@.len() {
                    assert(k <= last);
                }
            }
            return false;
        }
        i = i + 1;
    }
}

/// The MIME type that `mime_guess` associates with a path.
pub uninterp spec fn mime_guess_for_path(path: Seq<char>) -> Option<Seq<char>>;

/// Calls `mime_guess::from_path(path).first_raw()`. Trusted: the result depends on
/// the path alone (the crate looks it up by the path's extension).
#[verifier::external_body]
pub(crate) fn guess_mime_from_path(path: &str) -> (r: Option<String>)
    ensures
        opt_string_view(r) == mime_guess_for_path(path@),
{
    mime_guess::from_path(path).first_raw().map(|m| m.to_string())
}

/// The MIME type that `infer` recognises from a file's leading bytes.
pub uninterp spec fn infer_mime_for_bytes(bytes: Seq<u8>) -> Option<Seq<char>>;

/// Calls `infer::get(bytes)` and takes the MIME type of what it recognised. Trusted:
/// the result depends on the bytes alone (the crate matches magic numbers).
#[verifier::external_body]
pub(crate) fn infer_mime_from_bytes(bytes: &[u8]) -> (r: Option<String>)
    ensures
        opt_string_view(r) == infer_mime_for_bytes(bytes@),
{
    infer::get(bytes).map(|k| k.mime_type().to_string())
}

/// The lowercase extension of a path (empty when it has none).
pub open spec fn lowered_extension(path: Seq<char>) -> Seq<char> {
    match extension_of(path) {
        Some(e) => lower_seq(e),
        None => Seq::empty(),
    }
}

/// The lowercase extension of a path, as characters.
pub fn lowered_extension_chars(path: &str) -> (r: Vec<char>)
    requires
        path@.len() < 0x7fff_ffff_ffff_ffff,
    ensures
        r@ == lowered_extension(path@),
{
    let path_chars = chars_of(path);
    match extension_of_exec(path_chars.as_slice()) {
        Some(e) => lower_chars(e.as_slice()),
        None => Vec::new(),
    }
}

pub fn as_opt_str(o: &Option<String>) -> (r: Option<&str>)
    ensures
        opt_view(r) == opt_string_view(*o),
{
    match o {
        Some(s) => Some(s.as_str()),
        None => None,
    }
}

/// Classifies a file from its path and its bytes (what `classify_file` does once
/// the file has been read).
pub fn classify_bytes(input_path: &str, bytes: &[u8], size_bytes: u64) -> (c: FileClassification)
    requires
        input_path@.len() < 0x7fff_ffff_ffff_ffff,
    ensures
        c.input_path@ == input_path@,
        c.extension@ == lowered_extension(input_path@),
        opt_string_view(c.mime_by_extension) == mime_guess_for_path(input_path@),
        opt_string_view(c.mime_by_magic) == infer_mime_for_bytes(bytes@),
        c.size_bytes == size_bytes,
        c.sha256@ == hex_seq(sha256_of(bytes@)),
        c.likely_format == format_for(
            c.extension@,
            deciding_mime(mime_guess_for_path(input_path@), infer_mime_for_bytes(bytes@)),
        ),
        c.is_encrypted_or_protected == is_protected(c.likely_format, bytes@),
{
    let ext_chars = lowered_extension_chars(input_path);
    let extension = string_from_chars(ext_chars.as_slice());
    let mime_by_extension = guess_mime_from_path(input_path);
    let mime_by_magic = infer_mime_from_bytes(bytes);
    let digest = sha256_digest(bytes);
    let sha256 = hex_lower(digest.as_slice());
    let likely_format = detect_format(
        extension.as_str(),
        as_opt_str(&mime_by_extension),
        as_opt_str(&mime_by_magic),
    );
    let is_encrypted_or_protected = detect_protection(&likely_format, bytes);
    FileClassification {
        input_path: to_owned_string(input_path),
        extension,
        mime_by_extension,
        mime_by_magic,
        size_bytes,
        sha256,
        likely_format,
        is_encrypted_or_protected,
    }
}

} // verus!
