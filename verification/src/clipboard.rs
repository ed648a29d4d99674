//! Converting between what the system clipboard holds and payloads.

use vstd::prelude::*;
use crate::message::{Payload, Timestamp, utf8_decode};

verus! {

/// Errors of clipboard conversion.
#[derive(Debug, Clone, Copy, PartialEq, Eq, Structural)]
pub enum ClipboardError {
    /// The clipboard holds neither an image nor text.
    Empty,
    /// A text payload whose content is not valid UTF-8.
    InvalidUtf8,
}

/// An image read from the clipboard, already encoded as PNG.
#[derive(Debug, Clone)]
pub struct ClipboardImage {
    pub png: Vec<u8>,
    pub width: u32,
    pub height: u32,
}

/// The UTF-8 bytes of a text.
pub fn text_bytes(text: &String) -> (b: Vec<u8>)
    ensures
        b@ == vstd::utf8::encode_utf8(text@),
{
    let s = text.as_str().as_bytes();
    let mut out: Vec<u8> = Vec::new();
    let mut i: usize = 0;
    while i < s.len()
        invariant
            i <= s.len(),
            out@ == s@.take(i as int),
        decreases s.len() - i,
    {
        out.push(s[i]);
        assert(s@.take(i + 1) =~= s@.take(i as int).push(s@[i as int]));
        i = i + 1;
    }
    assert(s@.take(s.len() as int) =~= s@);
    out
}

/// The payload for what the clipboard holds: an image has priority over text
/// (PNG format, its size being the PNG's length); nothing readable is an error.
pub fn payload_from_clipboard(
    image: Option<ClipboardImage>,
    text: Option<String>,
    device_id: String,
    timestamp: Timestamp,
) -> (r: Result<Payload, ClipboardError>)
    ensures
        match image {
            Some(img) => r matches Ok(Payload::Image(p)) && p.content@ == img.png@
                && p.device_id@ == device_id@ && p.timestamp == timestamp
                && p.width == img.width as usize && p.height == img.height as usize
                && p.format@ == "png"@ && p.size == img.png@.len(),
            None => match text {
                Some(t) => r matches Ok(Payload::Text(p)) && p.content@ == vstd::utf8::encode_utf8(t@)
                    && p.device_id@ == device_id@ && p.timestamp == timestamp,
                None => r == Err::<Payload, ClipboardError>(ClipboardError::Empty),
            },
        },
{
    match image {
        Some(img) => {
            proof { reveal_strlit("png"); }
            let size = img.png.len();
            Ok(Payload::new_image(
                img.png,
                device_id,
                timestamp,
                img.width as usize,
                img.height as usize,
                String::from_str("png"),
                size,
            ))
        },
        None => match text {
            Some(t) => Ok(Payload::new_text(text_bytes(&t), device_id, timestamp)),
            None => Err(ClipboardError::Empty),
        },
    }
}

/// The payload the polling clipboard reader builds: text has priority over an
/// image (PNG format, its size being the PNG's length); nothing readable is an error.
pub fn payload_text_first(
    image: Option<ClipboardImage>,
    text: Option<String>,
    device_id: String,
    timestamp: Timestamp,
) -> (r: Result<Payload, ClipboardError>)
    ensures
        match text {
            Some(t) => r matches Ok(Payload::Text(p)) && p.content@ == vstd::utf8::encode_utf8(t@)
                && p.device_id@ == device_id@ && p.timestamp == timestamp,
            None => match image {
                Some(img) => r matches Ok(Payload::Image(p)) && p.content@ == img.png@
                    && p.device_id@ == device_id@ && p.timestamp == timestamp
                    && p.width == img.width as usize && p.height == img.height as usize
                    && p.format@ == "png"@ && p.size == img.png@.len(),
                None => r == Err::<Payload, ClipboardError>(ClipboardError::Empty),
            },
        },
{
    match text {
        Some(t) => payload_from_clipboard(None, Some(t), device_id, timestamp),
        None => payload_from_clipboard(image, None, device_id, timestamp),
    }
}

/// What to put on the clipboard for a payload.
#[derive(Debug)]
pub enum ClipboardWrite {
    /// Encoded image bytes.
    Image(Vec<u8>),
    /// Text.
    Text(String),
}

/// The clipboard write for a payload: an image's bytes, or a text payload's
/// content decoded as UTF-8 (refused when it is not valid UTF-8).
pub fn clipboard_write_for(payload: Payload) -> (r: Result<ClipboardWrite, ClipboardError>)
    ensures
        match payload {
            Payload::Image(p) => r matches Ok(ClipboardWrite::Image(b)) && b@ == p.content@,
            Payload::Text(p) => if vstd::utf8::valid_utf8(p.content@) {
                r matches Ok(ClipboardWrite::Text(s)) && s@ == vstd::utf8::decode_utf8(p.content@)
            } else {
                r == Err::<ClipboardWrite, ClipboardError>(ClipboardError::InvalidUtf8)
            },
        },
{
    match payload {
        Payload::Image(p) => Ok(ClipboardWrite::Image(p.content)),
        Payload::Text(p) => match utf8_decode(p.content.as_slice()) {
            Some(s) => Ok(ClipboardWrite::Text(s)),
            None => Err(ClipboardError::InvalidUtf8),
        },
    }
}

/// Law: text taken from the clipboard comes back as the same text: the text
/// payload built from it holds valid UTF-8 (so `clipboard_write_for` accepts
/// it) and decodes to the text.
pub proof fn law_text_roundtrip(p: Payload, text: Seq<char>)
    requires
        p matches Payload::Text(tp) && tp.content@ == vstd::utf8::encode_utf8(text),
    ensures
        p matches Payload::Text(tp) && vstd::utf8::valid_utf8(tp.content@)
            && vstd::utf8::decode_utf8(tp.content@) == text,
{
    vstd::utf8::encode_utf8_valid_utf8(text);
    vstd::utf8::encode_utf8_decode_utf8(text);
}

} // verus!
