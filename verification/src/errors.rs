use vstd::prelude::*;

verus! {

/// The failures of the invoice pipeline, one variant per stage.
///
/// Every error carries the text a caller needs to report it: the
/// offending extension, the raw chunk, or the underlying cause.
#[derive(Debug, Clone)]
pub enum InvoiceError {
    /// The input path has no extractable file name component.
    FileName,
    /// The extension is not one of `jpg`, `jpeg`, `pdf`; carries the
    /// offending extension (empty when the path had none).
    UnsupportedExtension(String),
    /// Reading the input file failed; carries the cause.
    FileRead(String),
    /// Opening or rendering the PDF failed; carries the cause.
    PdfRender(String),
    /// Encoding a rendered page to JPEG failed; carries the cause.
    ImageEncode(String),
    /// Sending the request or receiving the response failed; carries the cause.
    Transport(String),
    /// A streamed chunk was not valid JSON; carries the raw chunk text.
    InvalidChunk(String),
    /// A streamed chunk carried an explicit error field; carries its message.
    Api(String),
    /// The assembled answer did not decode into the invoice schema; carries
    /// the decode failure reason and the cleaned answer text.
    Schema(String, String),
}

} // verus!
