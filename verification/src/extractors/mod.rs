//! Metadata of indexed files: the type given by the extension, what ffprobe
//! reports of media files, and what is read of PDF documents and archives.
pub mod fs;
pub mod probe;
pub mod archive;
pub mod pdf;
