# document_parser

A document parser that turns documents of many formats into one canonical
`DocumentModel`: pages, typed elements in reading order, statistics, diagnostics
and a processing trace, with Russian as the default language.

The library under `src/` is written in Verus: its functions are proved against
their contracts. The calls into outside crates (sha2, mime_guess, infer,
pulldown-cmark, regex, scraper, chrono, uuid) and a few std functions stand
behind small trusted wrappers whose contracts are believed, not proved; the clock
reading (`utc_now_rfc3339`) has no contract at all, since nothing can be promised
of the time it returns.

- `classifier`, `digest`, `assets`: recognising a file's format and digest, naming
  and placing extracted assets.
- `extractors`: building the model of plain text, Markdown and HTML documents;
  the pieces of the DOCX, XLSX, PPTX, PDF, image and RTF readers that decide what
  the model holds (pagination, options, element construction, the assembly of a
  converted RTF document).
- `layout`: region types, layout detectors, repeated headers and footers, and
  layout-aware reading order.
- `chunking`: semantic chunks for retrieval.
- `converters`: outside converters (Pandoc, LibreOffice, Tika): their
  configuration, commands, errors and the order of fallback attempts.
- `formulas`, `charts`, `language`: formula and chart placeholders, OMML to LaTeX,
  language detection.
- `jobs`, `api`, `doctor`, `config`: processing jobs, the HTTP API's answers, the
  environment checks and the configuration.
- `upload`, `job_worker`: the upload endpoint and the job worker as step
  functions: the caller performs each action and hands its outcome back.
- `json`, `strmap`, `text`, `unicode`, `model`: the data they share.

`app/` is the program around the library: the command line (`parse`, `doctor`,
`serve`), file and process I/O, configuration loading and the HTTP server.
`tests/` exercises the library on concrete documents.
