//! The metadata of a PDF document: its number of pages and the entries of
//! its Info dictionary, read from the document's bytes.
use crate::error::AlexandriaError;
use vstd::prelude::*;

verus! {

/// Name for what `lopdf` reads of the PDF document held in `bytes`: its
/// number of pages (`Document::get_pages`) and the entries of the Info
/// dictionary the trailer refers to, in their order, each key and value as
/// text; or the displayed error when `Document::load_mem` cannot load the
/// bytes.
pub uninterp spec fn pdf_summary_of(bytes: Seq<u8>) -> Result<
    (nat, Seq<(Seq<char>, Seq<char>)>),
    Seq<char>,
>;

/// The text of each key and value.
pub open spec fn pair_views(v: Seq<(String, String)>) -> Seq<(Seq<char>, Seq<char>)> {
    v.map_values(|p: (String, String)| (p.0@, p.1@))
}

/// Calls `lopdf::Document::load_mem` on the bytes, then `Document::get_pages`
/// for the number of pages and, when the trailer's "Info" entry refers to a
/// dictionary (`Dictionary::get`, `Object::as_reference`,
/// `Document::get_dictionary`), that dictionary's entries: the key as UTF-8
/// text (invalid bytes replaced), the value the same way when it is a PDF
/// string (`Object::as_str`) and its debug form otherwise. The contract
/// claims that the result is the one `pdf_summary_of` names, and that a load
/// error gives its displayed text.
#[verifier::external_body]
fn pdf_summary(bytes: &[u8]) -> (r: Result<(usize, Vec<(String, String)>), String>)
    ensures
        match (r, pdf_summary_of(bytes@)) {
            (Ok((n, entries)), Ok((m, e))) => n == m && pair_views(entries@) == e,
            (Err(msg), Err(e)) => msg@ == e,
            _ => false,
        },
{
    let doc = lopdf::Document::load_mem(bytes).map_err(|e| e.to_string())?;
    let info = doc.trailer.get(b"Info").and_then(|o| o.as_reference());
    let entries = match info.and_then(|id| doc.get_dictionary(id)) {
        Ok(d) => d.iter().map(|(k, v)| (String::from_utf8_lossy(k).to_string(), match v.as_str() {
            Ok(s) => String::from_utf8_lossy(s).to_string(),
            Err(_) => format!("{:?}", v),
        })).collect(),
        Err(_) => Vec::new(),
    };
    Ok((doc.get_pages().len(), entries))
}

/// What is kept of a PDF document.
#[derive(Debug, Clone)]
pub struct PdfInfo {
    /// The number of pages.
    pub pages: u64,
    /// The entries of the Info dictionary, key and value.
    pub entries: Vec<(String, String)>,
}

/// The metadata of the PDF document held in `bytes`: its number of pages
/// and its Info entries; an `Other` error with the reader's message when the
/// bytes are not a document that can be loaded.
pub fn pdf_metadata(bytes: &[u8]) -> (r: Result<PdfInfo, AlexandriaError>)
    ensures
        match pdf_summary_of(bytes@) {
            Ok((n, e)) => r matches Ok(info) && info.pages == n && pair_views(info.entries@) == e,
            Err(m) => r matches Err(AlexandriaError::Other(msg)) && msg@ == m,
        },
{
    match pdf_summary(bytes) {
        Ok((n, entries)) => Ok(PdfInfo { pages: n as u64, entries }),
        Err(m) => Err(AlexandriaError::Other(m)),
    }
}

} // verus!
