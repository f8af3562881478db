use vstd::prelude::*;

use crate::chars::lower_chars;
use crate::chars::lower_text;
use crate::chars::str_eq;
use crate::errors::InvoiceError;

verus! {

/// The supported source formats, decided by the file extension.
#[derive(Debug, Clone, Copy, PartialEq, Eq, Structural)]
pub enum SourceKind {
    Jpeg,
    Pdf,
    Unsupported,
}

/// The source kind an extension selects: `jpg` or `jpeg` in any case is a
/// JPEG source, `pdf` in any case a PDF source; everything else — a
/// missing extension included — is unsupported.
pub open spec fn kind_of(ext: Option<Seq<char>>) -> SourceKind {
    match ext {
        Some(e) => if lower_chars(e) == "jpg"@ || lower_chars(e) == "jpeg"@ {
            SourceKind::Jpeg
        } else if lower_chars(e) == "pdf"@ {
            SourceKind::Pdf
        } else {
            SourceKind::Unsupported
        },
        None => SourceKind::Unsupported,
    }
}

/// The text an unsupported-extension error reports: the extension itself,
/// or the empty string when the path had none.
pub open spec fn ext_text(ext: Option<Seq<char>>) -> Seq<char> {
    match ext {
        Some(e) => e,
        None => Seq::empty(),
    }
}

/// Decides which source format an extension selects.
pub fn classify_extension(ext: &Option<String>) -> (k: SourceKind)
    ensures
        k == kind_of(ext.deep_view()),
{
    match ext {
        Some(e) => {
            let low = lower_text(e.as_str());
            if str_eq(low.as_str(), "jpg") || str_eq(low.as_str(), "jpeg") {
                SourceKind::Jpeg
            } else if str_eq(low.as_str(), "pdf") {
                SourceKind::Pdf
            } else {
                SourceKind::Unsupported
            }
        },
        None => SourceKind::Unsupported,
    }
}

/// pdf2image's in-memory PDF document, opaque here.
#[verifier::external_type_specification]
#[verifier::external_body]
pub struct ExPdf(pdf2image::PDF);

/// The raster image type of the image crate that pdf2image re-exports,
/// opaque here.
#[verifier::external_type_specification]
#[verifier::external_body]
pub struct ExDynamicImage(pdf2image::image::DynamicImage);

/// Relies on pdf2image::PDF::from_bytes: opens a PDF held in memory, an
/// error when the bytes cannot be read as a PDF.
#[verifier::external_body]
fn pdf_from_bytes(data: Vec<u8>) -> (r: Result<pdf2image::PDF, String>) {
    match pdf2image::PDF::from_bytes(data) {
        Ok(p) => Ok(p),
        Err(e) => Err(e.to_string()),
    }
}

/// Relies on pdf2image::PDF::render with Pages::Single(0): rasterizes the
/// one requested page through poppler, one image per requested page, so
/// exactly one image on success.
#[verifier::external_body]
fn pdf_render_page_zero(pdf: &pdf2image::PDF) -> (r: Result<
    Vec<pdf2image::image::DynamicImage>,
    String,
>)
    ensures
        r is Ok ==> r.unwrap()@.len() == 1,
{
    let options = match pdf2image::RenderOptionsBuilder::default().pdftocairo(true).build() {
        Ok(o) => o,
        Err(e) => return Err(e.to_string()),
    };
    match pdf.render(pdf2image::Pages::Single(0), options) {
        Ok(pages) => Ok(pages),
        Err(e) => Err(e.to_string()),
    }
}

/// Relies on image::DynamicImage::write_to: encodes the raster image as
/// JPEG into a fresh byte buffer.
#[verifier::external_body]
fn encode_page_jpeg(img: &pdf2image::image::DynamicImage) -> (r: Result<Vec<u8>, String>) {
    let mut bytes: Vec<u8> = Vec::new();
    match img.write_to(&mut std::io::Cursor::new(&mut bytes), pdf2image::image::ImageFormat::Jpeg) {
        Ok(()) => Ok(bytes),
        Err(e) => Err(e.to_string()),
    }
}

/// Renders page 0 of a PDF held in memory and encodes it to JPEG: exactly
/// one buffer on success.
pub fn pdf_page_zero_jpeg(data: Vec<u8>) -> (r: Result<Vec<Vec<u8>>, InvoiceError>)
    ensures
        match r {
            Ok(images) => images@.len() == 1,
            Err(e) => e is PdfRender || e is ImageEncode,
        },
{
    let pdf = match pdf_from_bytes(data) {
        Ok(p) => p,
        Err(msg) => {
            return Err(InvoiceError::PdfRender(msg));
        },
    };
    let pages = match pdf_render_page_zero(&pdf) {
        Ok(p) => p,
        Err(msg) => {
            return Err(InvoiceError::PdfRender(msg));
        },
    };
    let mut images: Vec<Vec<u8>> = Vec::new();
    let mut i: usize = 0;
    while i < pages.len()
        invariant
            i <= pages@.len(),
            images@.len() == i,
        decreases pages@.len() - i,
    {
        let bytes = match encode_page_jpeg(&pages[i]) {
            Ok(b) => b,
            Err(msg) => {
                return Err(InvoiceError::ImageEncode(msg));
            },
        };
        images.push(bytes);
        i = i + 1;
    }
    Ok(images)
}

/// The image extractor: given the file's extension and its raw bytes, the
/// ordered JPEG buffers for the request. A JPEG source is passed through
/// as the one buffer of its raw bytes; a PDF source is rendered from page
/// 0 into one JPEG buffer; any other extension is rejected, named in the
/// error.
pub fn extract_images(ext: &Option<String>, data: Vec<u8>) -> (r: Result<
    Vec<Vec<u8>>,
    InvoiceError,
>)
    ensures
        match r {
            Ok(images) => {
                &&& kind_of(ext.deep_view()) != SourceKind::Unsupported
                &&& (kind_of(ext.deep_view()) == SourceKind::Jpeg ==> images.deep_view() == seq![
                    data@,
                ])
                &&& images@.len() == 1
            },
            Err(e) => match e {
                InvoiceError::UnsupportedExtension(x) => kind_of(ext.deep_view())
                    == SourceKind::Unsupported && x@ == ext_text(ext.deep_view()),
                InvoiceError::PdfRender(_) => kind_of(ext.deep_view()) == SourceKind::Pdf,
                InvoiceError::ImageEncode(_) => kind_of(ext.deep_view()) == SourceKind::Pdf,
                _ => false,
            },
        },
        kind_of(ext.deep_view()) == SourceKind::Jpeg ==> r is Ok,
{
    let kind = classify_extension(ext);
    match kind {
        SourceKind::Jpeg => {
            let mut images: Vec<Vec<u8>> = Vec::new();
            images.push(data);
            proof {
                assert(images.deep_view() =~~= seq![images@[0]@]);
            }
            Ok(images)
        },
        SourceKind::Pdf => pdf_page_zero_jpeg(data),
        SourceKind::Unsupported => {
            let name = match ext {
                Some(e) => e.clone(),
                None => String::new(),
            };
            Err(InvoiceError::UnsupportedExtension(name))
        },
    }
}

} // verus!
