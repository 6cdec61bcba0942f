//! What a channel is asked to send.

use vstd::prelude::*;
use vstd::string::StrSliceExecFns;

verus! {

/// A file to send along with, or in place of, a text.
#[derive(Debug, Clone)]
pub struct MediaAttachment {
    /// Where the file can be fetched.
    pub url: String,
    /// The MIME type of the file.
    pub mime_type: String,
}

/// A reply to deliver to a chat.
#[derive(Debug, Clone)]
pub struct ReplyPayload {
    /// The text of the reply; the caption when there is media.
    pub text: String,
    /// The media of the reply, if any.
    pub media: Option<MediaAttachment>,
}

/// The kind of media that a MIME type stands for: `image`, `video` or
/// `audio` by its first part, `document` for anything else.
pub open spec fn media_kind(mime_type: Seq<char>) -> Seq<char> {
    if "image/"@.is_prefix_of(mime_type) {
        "image"@
    } else if "video/"@.is_prefix_of(mime_type) {
        "video"@
    } else if "audio/"@.is_prefix_of(mime_type) {
        "audio"@
    } else {
        "document"@
    }
}

/// The kind of media that a MIME type stands for.
pub fn media_type_for(mime_type: &str) -> (kind: &'static str)
    ensures
        kind@ == media_kind(mime_type@),
{
    let v = crate::text::chars_of(mime_type);
    assert(v@.skip(0) == v@);
    if crate::text::has_prefix_at(&v, 0, &crate::text::chars_of("image/")) {
        "image"
    } else if crate::text::has_prefix_at(&v, 0, &crate::text::chars_of("video/")) {
        "video"
    } else if crate::text::has_prefix_at(&v, 0, &crate::text::chars_of("audio/")) {
        "audio"
    } else {
        "document"
    }
}

/// The caption that goes with media: the reply's text, unless it is empty.
pub open spec fn caption_of(text: Seq<char>) -> Option<Seq<char>> {
    if text.len() == 0 {
        None
    } else {
        Some(text)
    }
}

/// The caption that goes with media: the reply's text, unless it is empty.
pub fn caption_for(text: &String) -> (caption: Option<String>)
    ensures
        crate::whatsapp_business::types::opt_view(caption) == caption_of(text@),
{
    if text.as_str().unicode_len() == 0 {
        None
    } else {
        Some(text.clone())
    }
}

} // verus!
