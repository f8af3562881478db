use base64::Engine;
use vstd::prelude::*;
use vstd::string::StringExecFns;

verus! {

/// The base64 text (standard alphabet, with padding) of a byte sequence.
pub uninterp spec fn base64_of(b: Seq<u8>) -> Seq<char>;

/// The bytes a base64 text (standard alphabet, with padding) decodes to,
/// `None` when the text is not such an encoding.
pub uninterp spec fn base64_parse(s: Seq<char>) -> Option<Seq<u8>>;

/// Relies on base64's Engine::encode with the standard, padded engine:
/// the encoding is a function of the bytes alone, and decoding it with
/// the same engine gives the bytes back.
#[verifier::external_body]
fn b64_encode(data: &Vec<u8>) -> (r: String)
    ensures
        r@ == base64_of(data@),
        base64_parse(r@) == Some(data@),
{
    base64::prelude::BASE64_STANDARD.encode(data)
}

/// Relies on base64's Engine::decode with the standard, padded engine:
/// the bytes the text encodes, or an error when it is not an encoding.
#[verifier::external_body]
fn b64_decode(s: &str) -> (r: Option<Vec<u8>>)
    ensures
        match r {
            Some(v) => base64_parse(s@) == Some(v@),
            None => base64_parse(s@) is None,
        },
{
    base64::prelude::BASE64_STANDARD.decode(s).ok()
}

/// Encodes one image buffer to base64 for the request payload. Decoding
/// the result gives the buffer back unchanged.
pub fn encode_image(data: &Vec<u8>) -> (r: String)
    ensures
        r@ == base64_of(data@),
        base64_parse(r@) == Some(data@),
{
    b64_encode(data)
}

/// Decodes a base64 text back into the byte buffer it encodes, `None`
/// when the text is not a base64 encoding.
pub fn decode_image(s: &str) -> (r: Option<Vec<u8>>)
    ensures
        match r {
            Some(v) => base64_parse(s@) == Some(v@),
            None => base64_parse(s@) is None,
        },
{
    b64_decode(s)
}

/// The request payload for the inference endpoint: a model identifier,
/// the instruction prompt, and the base64-encoded images, in order.
#[derive(Debug, Clone)]
pub struct Request {
    pub model: String,
    pub prompt: String,
    pub images: Vec<String>,
}

/// A request is well formed when it carries at least one image, each a
/// base64 encoding of some byte buffer.
pub open spec fn request_well_formed(r: Request) -> bool {
    &&& r.images@.len() > 0
    &&& forall|i: int| 0 <= i < r.images@.len() ==> base64_parse(r.images@[i]@) is Some
}

/// Builds the request: the model and prompt are copied through, and each
/// image buffer becomes its base64 encoding, in order.
pub fn build_request(model: &str, prompt: &str, images: &Vec<Vec<u8>>) -> (r: Request)
    requires
        images@.len() > 0,
    ensures
        r.model@ == model@,
        r.prompt@ == prompt@,
        r.images@.len() == images@.len(),
        forall|i: int| 0 <= i < images@.len() ==> r.images@[i]@ == base64_of(images@[i]@),
        request_well_formed(r),
{
    let mut encoded: Vec<String> = Vec::new();
    let mut i: usize = 0;
    while i < images.len()
        invariant
            i <= images@.len(),
            encoded@.len() == i,
            forall|j: int| 0 <= j < i ==> encoded@[j]@ == base64_of(images@[j]@),
            forall|j: int| 0 <= j < i ==> base64_parse(encoded@[j]@) is Some,
        decreases images@.len() - i,
    {
        encoded.push(encode_image(&images[i]));
        i = i + 1;
    }
    Request { model: String::from_str(model), prompt: String::from_str(prompt), images: encoded }
}

} // verus!
