//! Converting documents with outside tools: LibreOffice, Pandoc and Tika.

pub mod traits;
pub mod sandbox;
pub mod libreoffice;
pub mod pandoc;
pub mod tika;
pub mod conversion_pipeline;
pub mod external_process;
