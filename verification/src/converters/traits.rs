//! What converters share: their errors, targets, results and the record of what
//! they did.

use vstd::prelude::*;
use crate::strmap::StringMap;
use crate::text::{push_str_chars, string_from_chars, to_owned_string};

verus! {

/// A failure of a conversion step, with a machine code and a message for people.
#[derive(Debug)]
pub struct ConversionError {
    pub code: String,
    pub message: String,
    pub recoverable: bool,
    pub metadata: StringMap,
}

impl ConversionError {
    pub fn new(code: &str, message: String) -> (e: Self)
        ensures
            e.code@ == code@,
            e.message@ == message@,
            e.recoverable,
            e.metadata.wf(),
            e.metadata@ == Map::<Seq<char>, Seq<char>>::empty(),
    {
        ConversionError {
            code: to_owned_string(code),
            message,
            recoverable: true,
            metadata: StringMap::new(),
        }
    }

    pub fn with_recoverable(self, recoverable: bool) -> (e: Self)
        ensures
            e == (ConversionError { recoverable, ..self }),
    {
        let mut out = self;
        out.recoverable = recoverable;
        out
    }

    /// Adds (or replaces) one metadata entry.
    pub fn with_meta(self, key: &str, value: String) -> (e: Self)
        requires
            self.metadata.wf(),
        ensures
            e.code == self.code,
            e.message == self.message,
            e.recoverable == self.recoverable,
            e.metadata.wf(),
            e.metadata@ == self.metadata@.insert(key@, value@),
    {
        let mut out = self;
        out.metadata.insert(key, value);
        out
    }

    /// A copy of the error.
    pub fn copy(&self) -> (e: Self)
        requires
            self.metadata.wf(),
        ensures
            e.code@ == self.code@,
            e.message@ == self.message@,
            e.recoverable == self.recoverable,
            e.metadata.wf(),
            e.metadata@ == self.metadata@,
    {
        ConversionError {
            code: self.code.clone(),
            message: self.message.clone(),
            recoverable: self.recoverable,
            metadata: self.metadata.copy(),
        }
    }

    /// The error as people read it: `code: message`.
    pub fn describe(&self) -> (s: String)
        ensures
            s@ == self.code@ + ": "@ + self.message@,
    {
        let mut v: Vec<char> = Vec::new();
        push_str_chars(&mut v, self.code.as_str());
        push_str_chars(&mut v, ": ");
        push_str_chars(&mut v, self.message.as_str());
        string_from_chars(v.as_slice())
    }
}

#[derive(Clone, Copy, Debug, PartialEq, Eq, Structural)]
pub enum ConversionTarget {
    Docx,
    Pdf,
    Html,
    Markdown,
    Text,
}

impl ConversionTarget {
    pub open spec fn extension_of(self) -> Seq<char> {
        match self {
            ConversionTarget::Docx => "docx"@,
            ConversionTarget::Pdf => "pdf"@,
            ConversionTarget::Html => "html"@,
            ConversionTarget::Markdown => "md"@,
            ConversionTarget::Text => "txt"@,
        }
    }

    pub open spec fn mime_of(self) -> Seq<char> {
        match self {
            ConversionTarget::Docx => "application/vnd.openxmlformats-officedocument.wordprocessingml.document"@,
            ConversionTarget::Pdf => "application/pdf"@,
            ConversionTarget::Html => "text/html"@,
            ConversionTarget::Markdown => "text/markdown"@,
            ConversionTarget::Text => "text/plain"@,
        }
    }

    pub open spec fn name_of(self) -> Seq<char> {
        match self {
            ConversionTarget::Docx => "docx"@,
            ConversionTarget::Pdf => "pdf"@,
            ConversionTarget::Html => "html"@,
            ConversionTarget::Markdown => "markdown"@,
            ConversionTarget::Text => "text"@,
        }
    }

    /// The file extension of documents of this kind.
    pub fn extension(self) -> (s: &'static str)
        ensures
            s@ == self.extension_of(),
    {
        match self {
            ConversionTarget::Docx => "docx",
            ConversionTarget::Pdf => "pdf",
            ConversionTarget::Html => "html",
            ConversionTarget::Markdown => "md",
            ConversionTarget::Text => "txt",
        }
    }

    pub fn mime_type(self) -> (s: &'static str)
        ensures
            s@ == self.mime_of(),
    {
        match self {
            ConversionTarget::Docx => "application/vnd.openxmlformats-officedocument.wordprocessingml.document",
            ConversionTarget::Pdf => "application/pdf",
            ConversionTarget::Html => "text/html",
            ConversionTarget::Markdown => "text/markdown",
            ConversionTarget::Text => "text/plain",
        }
    }

    pub fn as_str(self) -> (s: &'static str)
        ensures
            s@ == self.name_of(),
    {
        match self {
            ConversionTarget::Docx => "docx",
            ConversionTarget::Pdf => "pdf",
            ConversionTarget::Html => "html",
            ConversionTarget::Markdown => "markdown",
            ConversionTarget::Text => "text",
        }
    }
}

/// A document that a converter produced.
#[derive(Debug)]
pub struct ConvertedDocument {
    pub path: String,
    pub target: ConversionTarget,
    pub mime_type: String,
    pub converter_name: String,
    pub duration_ms: u64,
}

/// One step that a conversion went through.
#[derive(Debug)]
pub struct ConversionStageRecord {
    pub name: String,
    pub status: String,
    pub tool: String,
    pub metadata: StringMap,
}

impl ConversionStageRecord {
    fn with_status(name: &str, status: &str, tool: &str) -> (r: Self)
        ensures
            r.name@ == name@,
            r.status@ == status@,
            r.tool@ == tool@,
            r.metadata.wf(),
            r.metadata@ == Map::<Seq<char>, Seq<char>>::empty(),
    {
        ConversionStageRecord {
            name: to_owned_string(name),
            status: to_owned_string(status),
            tool: to_owned_string(tool),
            metadata: StringMap::new(),
        }
    }

    pub fn ok(name: &str, tool: &str) -> (r: Self)
        ensures
            r.name@ == name@,
            r.status@ == "ok"@,
            r.tool@ == tool@,
            r.metadata.wf(),
            r.metadata@ == Map::<Seq<char>, Seq<char>>::empty(),
    {
        Self::with_status(name, "ok", tool)
    }

    pub fn warning(name: &str, tool: &str) -> (r: Self)
        ensures
            r.name@ == name@,
            r.status@ == "warning"@,
            r.tool@ == tool@,
            r.metadata.wf(),
            r.metadata@ == Map::<Seq<char>, Seq<char>>::empty(),
    {
        Self::with_status(name, "warning", tool)
    }

    pub fn error(name: &str, tool: &str) -> (r: Self)
        ensures
            r.name@ == name@,
            r.status@ == "error"@,
            r.tool@ == tool@,
            r.metadata.wf(),
            r.metadata@ == Map::<Seq<char>, Seq<char>>::empty(),
    {
        Self::with_status(name, "error", tool)
    }

    /// Adds (or replaces) one metadata entry.
    pub fn with_meta(self, key: &str, value: String) -> (r: Self)
        requires
            self.metadata.wf(),
        ensures
            r.name == self.name,
            r.status == self.status,
            r.tool == self.tool,
            r.metadata.wf(),
            r.metadata@ == self.metadata@.insert(key@, value@),
    {
        let mut out = self;
        out.metadata.insert(key, value);
        out
    }
}

/// What a conversion collects on its way: the steps taken, the warnings and the
/// errors met.
#[derive(Debug)]
pub struct ExtractionContext {
    pub locale: String,
    pub stage_records: Vec<ConversionStageRecord>,
    pub warnings: Vec<ConversionError>,
    pub errors: Vec<ConversionError>,
}

impl Default for ExtractionContext {
    fn default() -> (c: Self)
        ensures
            c.locale@ == "ru"@,
            c.stage_records@.len() == 0,
            c.warnings@.len() == 0,
            c.errors@.len() == 0,
    {
        ExtractionContext {
            locale: to_owned_string("ru"),
            stage_records: Vec::new(),
            warnings: Vec::new(),
            errors: Vec::new(),
        }
    }
}

impl ExtractionContext {
    pub fn push_stage(&mut self, record: ConversionStageRecord)
        ensures
            final(self).stage_records@ == old(self).stage_records@.push(record),
            final(self).locale == old(self).locale,
            final(self).warnings == old(self).warnings,
            final(self).errors == old(self).errors,
    {
        self.stage_records.push(record);
    }

    pub fn push_warning(&mut self, warning: ConversionError)
        ensures
            final(self).warnings@ == old(self).warnings@.push(warning),
            final(self).locale == old(self).locale,
            final(self).stage_records == old(self).stage_records,
            final(self).errors == old(self).errors,
    {
        self.warnings.push(warning);
    }

    pub fn push_error(&mut self, error: ConversionError)
        ensures
            final(self).errors@ == old(self).errors@.push(error),
            final(self).locale == old(self).locale,
            final(self).stage_records == old(self).stage_records,
            final(self).warnings == old(self).warnings,
    {
        self.errors.push(error);
    }
}

/// A tool that converts documents from one format to another. Running the
/// conversion is the caller's part; a converter says what it is called and what
/// it can convert.
pub trait DocumentConverter {
    fn name(&self) -> &'static str;

    fn supports_conversion(&self, input_path: &str, target: ConversionTarget) -> bool
        requires
            input_path@.len() < 0x7fff_ffff_ffff_ffff,
    ;
}

} // verus!
