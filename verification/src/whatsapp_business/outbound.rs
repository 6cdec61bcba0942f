//! Splitting of long outbound messages into chunks that fit the WhatsApp
//! message limit.
//!
//! Lengths are counted in bytes of UTF-8, as the limit is. A chunk ends
//! after the last newline within the limit, else after the last space,
//! else at the limit itself; white space at the start of what is left is
//! dropped. A cut at the limit must not fall inside a character: a text
//! for which it would cannot be split.

use crate::reply::{caption_for, caption_of, media_kind, media_type_for, MediaAttachment};
use crate::text::{
    chars_of, find_last, last_index, lemma_trim_start_len, same_text, skip_spaces, slice_of,
    string_of, trim_start,
};
use crate::whatsapp_business::types::{
    opt_view, DocumentObject, MediaObject, OutboundMediaContent, SendMediaRequest,
    SendTextRequest,
};
use vstd::prelude::*;

verus! {

/// WhatsApp message length limit (approximately 4096 characters).
pub const WHATSAPP_MAX_MESSAGE_LEN: usize = 4096;

/// The number of bytes that a character takes in UTF-8.
pub open spec fn utf8_len(c: char) -> int {
    let u = c as u32;
    if u < 0x80 {
        1
    } else if u < 0x800 {
        2
    } else if u < 0x10000 {
        3
    } else {
        4
    }
}

/// The number of bytes that a sequence of characters takes in UTF-8.
pub open spec fn byte_len(s: Seq<char>) -> int
    decreases s.len(),
{
    if s.len() == 0 {
        0
    } else {
        utf8_len(s[0]) + byte_len(s.drop_first())
    }
}

/// The number of characters at the start of `s` that fit into `max_len`
/// bytes together.
pub open spec fn prefix_chars(s: Seq<char>, max_len: int) -> int
    decreases s.len(),
{
    if s.len() == 0 || utf8_len(s[0]) > max_len {
        0
    } else {
        1 + prefix_chars(s.drop_first(), max_len - utf8_len(s[0]))
    }
}

/// Whether a cut after `max_len` bytes falls between two characters of
/// `s`, or at its end.
pub open spec fn on_boundary(s: Seq<char>, max_len: int) -> bool {
    byte_len(s.take(prefix_chars(s, max_len))) == max_len
}

/// The number of characters in the first chunk of a text that is longer
/// than `max_len` bytes: up to and including the last newline within the
/// first `max_len` bytes, else the last space, else all characters within
/// them.
pub open spec fn break_point(s: Seq<char>, max_len: int) -> int {
    let range = s.take(prefix_chars(s, max_len));
    if last_index(range, '\n') >= 0 {
        last_index(range, '\n') + 1
    } else if last_index(range, ' ') >= 0 {
        last_index(range, ' ') + 1
    } else {
        range.len() as int
    }
}

/// Whether `s` can be split: wherever a chunk has to be cut off, the cut
/// after `max_len` bytes does not fall inside a character, and `max_len`
/// is not zero.
pub open spec fn chunkable(s: Seq<char>, max_len: int) -> bool
    decreases s.len(),
{
    if byte_len(s) <= max_len {
        true
    } else {
        &&& max_len > 0
        &&& on_boundary(s, max_len)
        &&& if 0 < break_point(s, max_len) <= s.len() {
            proof {
                lemma_trim_start_len(s.skip(break_point(s, max_len)));
            }
            chunkable(trim_start(s.skip(break_point(s, max_len))), max_len)
        } else {
            false
        }
    }
}

/// The chunks of what is left of a text.
pub open spec fn rest_chunks(s: Seq<char>, max_len: int) -> Seq<Seq<char>>
    decreases s.len(),
{
    if s.len() == 0 {
        Seq::empty()
    } else if byte_len(s) <= max_len {
        seq![s]
    } else if 0 < break_point(s, max_len) <= s.len() {
        proof {
            lemma_trim_start_len(s.skip(break_point(s, max_len)));
        }
        seq![s.take(break_point(s, max_len))] + rest_chunks(
            trim_start(s.skip(break_point(s, max_len))),
            max_len,
        )
    } else {
        Seq::empty()
    }
}

/// The chunks of a text: the text itself if it fits, else its pieces.
pub open spec fn chunks_of(s: Seq<char>, max_len: int) -> Seq<Seq<char>> {
    if byte_len(s) <= max_len {
        seq![s]
    } else {
        rest_chunks(s, max_len)
    }
}

/// The character sequences of a sequence of strings.
pub open spec fn chunk_views(v: Seq<String>) -> Seq<Seq<char>> {
    Seq::new(v.len(), |i: int| v[i]@)
}

/// The byte length of a text is the length of its UTF-8 encoding.
pub proof fn law_byte_len_is_utf8_length(s: Seq<char>)
    ensures
        byte_len(s) == vstd::utf8::encode_utf8(s).len(),
    decreases s.len(),
{
    if s.len() > 0 {
        vstd::utf8::char_is_scalar(s[0]);
        law_byte_len_is_utf8_length(s.drop_first());
    }
}

/// Every character takes between one and four bytes.
pub proof fn lemma_byte_len_bounds(s: Seq<char>)
    ensures
        s.len() <= byte_len(s) <= 4 * s.len(),
    decreases s.len(),
{
    if s.len() > 0 {
        lemma_byte_len_bounds(s.drop_first());
    }
}

/// The byte length of a concatenation is the sum of the byte lengths.
pub proof fn lemma_byte_len_concat(a: Seq<char>, b: Seq<char>)
    ensures
        byte_len(a + b) == byte_len(a) + byte_len(b),
    decreases a.len(),
{
    if a.len() == 0 {
        assert(a + b == b);
    } else {
        lemma_byte_len_concat(a.drop_first(), b);
        assert((a + b).drop_first() == a.drop_first() + b);
    }
}

/// What `prefix_chars` counts: the longest prefix that fits.
pub proof fn lemma_prefix_chars(s: Seq<char>, max_len: int)
    requires
        0 <= max_len,
    ensures
        0 <= prefix_chars(s, max_len) <= s.len(),
        byte_len(s.take(prefix_chars(s, max_len))) <= max_len,
        prefix_chars(s, max_len) < s.len() ==> byte_len(s.take(prefix_chars(s, max_len) + 1))
            > max_len,
        (prefix_chars(s, max_len) == s.len()) == (byte_len(s) <= max_len),
    decreases s.len(),
{
    if s.len() == 0 {
        assert(s.take(0) == s);
    } else if utf8_len(s[0]) > max_len {
        assert(s.take(0).len() == 0);
        assert(s.take(1).drop_first() == s.drop_first().take(0));
        lemma_byte_len_bounds(s.drop_first());
        lemma_byte_len_bounds(s.drop_first().take(0));
    } else {
        let t = s.drop_first();
        let m = max_len - utf8_len(s[0]);
        lemma_prefix_chars(t, m);
        let k = prefix_chars(t, m);
        assert(s.take(k + 1).drop_first() == t.take(k));
        if k < t.len() {
            assert(s.take(k + 2).drop_first() == t.take(k + 1));
        }
        if k == t.len() {
            assert(t.take(k) == t);
            assert(s.take(k + 1) == s);
        } else {
            lemma_byte_len_concat(s.take(k + 2), s.skip(k + 2));
            assert(s.take(k + 2) + s.skip(k + 2) == s);
            lemma_byte_len_bounds(s.skip(k + 2));
        }
    }
}

/// A text in which every character is ASCII can be split at any limit
/// but zero.
pub proof fn law_ascii_text_is_chunkable(s: Seq<char>, max_len: int)
    requires
        max_len > 0,
        forall|i: int| 0 <= i < s.len() ==> (#[trigger] s[i] as u32) < 0x80,
    ensures
        chunkable(s, max_len),
    decreases s.len(),
{
    lemma_ascii_byte_len(s);
    if byte_len(s) > max_len {
        lemma_prefix_chars(s, max_len);
        let k = prefix_chars(s, max_len);
        lemma_ascii_byte_len(s.take(k));
        lemma_ascii_byte_len(s.take(k + 1));
        assert(k == max_len);
        let b = break_point(s, max_len);
        lemma_break_point_bounds(s, max_len);
        let rest = s.skip(b);
        let k2 = crate::text::lemma_trim_start_shape(rest);
        assert(trim_start(rest) == s.skip(b + k2));
        law_ascii_text_is_chunkable(s.skip(b + k2), max_len);
    }
}

proof fn lemma_ascii_byte_len(s: Seq<char>)
    requires
        forall|i: int| 0 <= i < s.len() ==> (#[trigger] s[i] as u32) < 0x80,
    ensures
        byte_len(s) == s.len(),
    decreases s.len(),
{
    if s.len() > 0 {
        lemma_ascii_byte_len(s.drop_first());
    }
}

/// Where a chunk has to be cut off, the cut takes at least one character
/// and at most those within the limit.
pub proof fn lemma_break_point_bounds(s: Seq<char>, max_len: int)
    requires
        max_len > 0,
        on_boundary(s, max_len),
    ensures
        0 < break_point(s, max_len) <= prefix_chars(s, max_len) <= s.len(),
{
    lemma_prefix_chars(s, max_len);
    let k = prefix_chars(s, max_len);
    let range = s.take(k);
    if k == 0 {
        assert(byte_len(range) == 0);
    }
    crate::text::lemma_last_index(range, '\n');
    crate::text::lemma_last_index(range, ' ');
}

/// The number of bytes of one character in UTF-8.
pub fn char_len(c: char) -> (n: usize)
    ensures
        n == utf8_len(c),
        1 <= n <= 4,
{
    let u: u32 = c as u32;
    if u < 0x80 {
        1
    } else if u < 0x800 {
        2
    } else if u < 0x10000 {
        3
    } else {
        4
    }
}

/// The number of characters of `v[from..]` that fit into `max_len` bytes
/// together, and the number of bytes that they take.
fn prefix_within(v: &[char], from: usize, max_len: usize) -> (r: (usize, usize))
    requires
        from <= v.len(),
    ensures
        r.0 == prefix_chars(v@.skip(from as int), max_len as int),
        from + r.0 <= v.len(),
        r.1 == byte_len(v@.subrange(from as int, from + r.0)),
        r.1 <= max_len,
{
    let ghost s = v@.skip(from as int);
    let mut i: usize = from;
    let mut used: usize = 0;
    proof {
        assert(v@.subrange(from as int, from as int).len() == 0);
        assert(s.skip(0) == s);
    }
    while i < v.len() && char_len(v[i]) <= max_len - used
        invariant
            from <= i <= v.len(),
            used <= max_len,
            s == v@.skip(from as int),
            used == byte_len(v@.subrange(from as int, i as int)),
            prefix_chars(s, max_len as int) == (i - from) + prefix_chars(
                s.skip(i - from),
                max_len - used,
            ),
        decreases v.len() - i,
    {
        proof {
            let t = s.skip(i - from);
            assert(t[0] == v@[i as int]);
            assert(t.drop_first() == s.skip(i - from + 1));
            let a = v@.subrange(from as int, i as int);
            let b = seq![v@[i as int]];
            assert(a + b == v@.subrange(from as int, i + 1));
            lemma_byte_len_concat(a, b);
            assert(byte_len(b.drop_first()) == 0);
            assert(byte_len(b) == utf8_len(v@[i as int]));
        }
        used = used + char_len(v[i]);
        i += 1;
    }
    proof {
        let t = s.skip(i - from);
        if i < v.len() {
            assert(t[0] == v@[i as int]);
        }
        assert(prefix_chars(t, max_len - used) == 0);
    }
    (i - from, used)
}

/// Finds a good break point in a text that is longer than `max_len` bytes:
/// the byte offset at which its first chunk ends.
pub fn find_break_point(text: &str, max_len: usize) -> (r: usize)
    requires
        max_len > 0,
        byte_len(text@) >= max_len,
        on_boundary(text@, max_len as int),
    ensures
        r == byte_len(text@.take(break_point(text@, max_len as int))),
        0 < r <= max_len,
{
    let v = chars_of(text);
    assert(v@.skip(0) == v@);
    let (k, _used) = prefix_within(&v, 0, max_len);
    proof {
        lemma_break_point_bounds(v@, max_len as int);
        assert(v@.subrange(0, k as int) == v@.take(k as int));
    }
    let cut = cut_within(&v, 0, k);
    proof {
        let b = break_point(v@, max_len as int);
        assert(v@.take(b) + v@.subrange(b, k as int) == v@.take(k as int));
        lemma_byte_len_concat(v@.take(b), v@.subrange(b, k as int));
        lemma_byte_len_bounds(v@.take(b));
        lemma_byte_len_bounds(v@.subrange(b, k as int));
    }
    let (_n, bytes) = prefix_bytes(&v, cut, max_len);
    bytes
}

/// The number of bytes of `v[..n]`, which is known to fit into `max_len`.
fn prefix_bytes(v: &[char], n: usize, max_len: usize) -> (r: (usize, usize))
    requires
        n <= v.len(),
        byte_len(v@.take(n as int)) <= max_len,
    ensures
        r.0 == n,
        r.1 == byte_len(v@.take(n as int)),
{
    let mut i: usize = 0;
    let mut used: usize = 0;
    proof {
        assert(v@.take(0).len() == 0);
    }
    while i < n
        invariant
            i <= n <= v.len(),
            used == byte_len(v@.take(i as int)),
            byte_len(v@.take(n as int)) <= max_len,
        decreases n - i,
    {
        proof {
            let a = v@.take(i as int);
            let b = seq![v@[i as int]];
            assert(a + b == v@.take(i + 1));
            lemma_byte_len_concat(a, b);
            assert(byte_len(b.drop_first()) == 0);
            assert(byte_len(b) == utf8_len(v@[i as int]));
            assert(v@.take(i + 1) + v@.subrange(i + 1, n as int) == v@.take(n as int));
            lemma_byte_len_concat(v@.take(i + 1), v@.subrange(i + 1, n as int));
            lemma_byte_len_bounds(v@.subrange(i + 1, n as int));
        }
        used = used + char_len(v[i]);
        i += 1;
    }
    (n, used)
}

/// The number of characters of `v[from..from + k]` that the first chunk
/// takes: up to and including the last newline, else the last space, else
/// all `k`.
fn cut_within(v: &[char], from: usize, k: usize) -> (cut: usize)
    requires
        from + k <= v.len(),
    ensures
        cut == {
            let range = v@.subrange(from as int, from + k);
            if last_index(range, '\n') >= 0 {
                last_index(range, '\n') + 1
            } else if last_index(range, ' ') >= 0 {
                last_index(range, ' ') + 1
            } else {
                k as int
            }
        },
        cut <= k,
{
    match find_last(v, from, from + k, '\n') {
        Some(p) => p + 1,
        None => match find_last(v, from, from + k, ' ') {
            Some(p) => p + 1,
            None => k,
        },
    }
}

/// Splits a message into chunks that fit within the WhatsApp message
/// limit.
pub fn chunk_message(text: &str, max_len: usize) -> (chunks: Vec<String>)
    requires
        chunkable(text@, max_len as int),
    ensures
        chunk_views(chunks@) == chunks_of(text@, max_len as int),
{
    let v = chars_of(text);
    let mut chunks: Vec<String> = Vec::new();
    proof {
        assert(v@.skip(0) == v@);
        lemma_prefix_chars(v@, max_len as int);
    }
    let (fit, _used) = prefix_within(&v, 0, max_len);
    if fit == v.len() {
        chunks.push(string_of(&v));
        assert(chunk_views(chunks@) =~= seq![v@]);
        return chunks;
    }
    let mut pos: usize = 0;
    assert(chunk_views(chunks@) + rest_chunks(v@.skip(0), max_len as int) == rest_chunks(
        v@,
        max_len as int,
    ));
    while pos < v.len()
        invariant
            pos <= v.len(),
            chunkable(v@.skip(pos as int), max_len as int),
            chunk_views(chunks@) + rest_chunks(v@.skip(pos as int), max_len as int) == rest_chunks(
                v@,
                max_len as int,
            ),
        decreases v.len() - pos,
    {
        let ghost s = v@.skip(pos as int);
        let ghost done = chunk_views(chunks@);
        proof {
            lemma_prefix_chars(s, max_len as int);
        }
        let (k, _used) = prefix_within(&v, pos, max_len);
        if pos + k == v.len() {
            let piece = slice_of(&v, pos, v.len());
            assert(piece@ == s);
            chunks.push(string_of(&piece));
            proof {
                assert(chunk_views(chunks@) =~= done.push(s));
                assert(v@.skip(v.len() as int).len() == 0);
                assert(done.push(s) + Seq::<Seq<char>>::empty() =~= done + seq![s]);
            }
            pos = v.len();
        } else {
            proof {
                lemma_break_point_bounds(s, max_len as int);
                assert(s.take(k as int) == v@.subrange(pos as int, pos + k));
            }
            let cut = cut_within(&v, pos, k);
            let piece = slice_of(&v, pos, pos + cut);
            chunks.push(string_of(&piece));
            let next = skip_spaces(&v, pos + cut);
            proof {
                let b = break_point(s, max_len as int);
                assert(cut == b);
                assert(piece@ == s.take(b));
                assert(s.skip(b) == v@.skip(pos + cut));
                let rest = rest_chunks(trim_start(s.skip(b)), max_len as int);
                assert(rest_chunks(s, max_len as int) == seq![s.take(b)] + rest);
                assert(chunk_views(chunks@) =~= done.push(s.take(b)));
                assert(done.push(s.take(b)) + rest =~= done + (seq![s.take(b)] + rest));
            }
            pos = next;
        }
    }
    assert(v@.skip(pos as int).len() == 0);
    assert(chunk_views(chunks@) + Seq::<Seq<char>>::empty() =~= chunk_views(chunks@));
    assert(byte_len(v@) > max_len);
    chunks
}

/// Splits a message into chunks if it can be split: `None` where a cut
/// would fall inside a character, or the limit is zero and the text is not
/// empty.
pub fn try_chunk_message(text: &str, max_len: usize) -> (chunks: Option<Vec<String>>)
    ensures
        match chunks {
            Some(c) => chunkable(text@, max_len as int) && chunk_views(c@) == chunks_of(
                text@,
                max_len as int,
            ),
            None => !chunkable(text@, max_len as int),
        },
{
    let v = chars_of(text);
    if can_chunk(&v, max_len) {
        Some(chunk_message(text, max_len))
    } else {
        None
    }
}

/// Whether `v` can be split at `max_len`.
fn can_chunk(v: &[char], max_len: usize) -> (r: bool)
    ensures
        r == chunkable(v@, max_len as int),
{
    let mut pos: usize = 0;
    assert(v@.skip(0) == v@);
    while pos < v.len()
        invariant
            pos <= v.len(),
            chunkable(v@.skip(pos as int), max_len as int) == chunkable(v@, max_len as int),
        decreases v.len() - pos,
    {
        let ghost s = v@.skip(pos as int);
        proof {
            lemma_prefix_chars(s, max_len as int);
        }
        let (k, used) = prefix_within(&v, pos, max_len);
        if pos + k == v.len() {
            return true;
        }
        proof {
            assert(s.take(k as int) == v@.subrange(pos as int, pos + k));
        }
        if max_len == 0 || used != max_len {
            return false;
        }
        proof {
            lemma_break_point_bounds(s, max_len as int);
        }
        let cut = cut_within(&v, pos, k);
        let next = skip_spaces(&v, pos + cut);
        proof {
            assert(s.skip(cut as int) == v@.skip(pos + cut));
        }
        pos = next;
    }
    proof {
        assert(v@.skip(pos as int).len() == 0);
    }
    true
}

/// Whether `object` links to `url` with the given caption.
pub open spec fn is_media_object(
    object: MediaObject,
    url: Seq<char>,
    caption: Option<Seq<char>>,
) -> bool {
    opt_view(object.link) == Some(url) && object.id.is_none() && opt_view(object.caption)
        == caption
}

/// Whether `request` sends the media at `url` to `to`: as an image, audio
/// or video by its MIME type, else as a document; with `text` as the
/// caption unless it is empty, and never a caption for audio.
pub open spec fn is_media_request(
    request: SendMediaRequest,
    to: Seq<char>,
    url: Seq<char>,
    mime_type: Seq<char>,
    text: Seq<char>,
) -> bool {
    let kind = media_kind(mime_type);
    &&& request.messaging_product@ == "whatsapp"@
    &&& request.recipient_type@ == "individual"@
    &&& request.to@ == to
    &&& request.message_type@ == kind
    &&& if kind == "image"@ {
        request.media matches OutboundMediaContent::Image { image } && is_media_object(
            image,
            url,
            caption_of(text),
        )
    } else if kind == "audio"@ {
        request.media matches OutboundMediaContent::Audio { audio } && is_media_object(
            audio,
            url,
            None,
        )
    } else if kind == "video"@ {
        request.media matches OutboundMediaContent::Video { video } && is_media_object(
            video,
            url,
            caption_of(text),
        )
    } else {
        request.media matches OutboundMediaContent::Document { document } && opt_view(
            document.link,
        ) == Some(url) && document.id.is_none() && opt_view(document.caption) == caption_of(text)
            && document.filename.is_none()
    }
}

/// The request that sends `media` to `to`, with `text` as its caption.
pub fn media_request(to: &str, media: &MediaAttachment, text: &String) -> (request:
    SendMediaRequest)
    ensures
        is_media_request(request, to@, media.url@, media.mime_type@, text@),
{
    let kind = media_type_for(media.mime_type.as_str());
    let content = if same_text(kind, "image") {
        OutboundMediaContent::Image {
            image: MediaObject {
                link: Some(media.url.clone()),
                id: None,
                caption: caption_for(text),
            },
        }
    } else if same_text(kind, "audio") {
        OutboundMediaContent::Audio {
            audio: MediaObject { link: Some(media.url.clone()), id: None, caption: None },
        }
    } else if same_text(kind, "video") {
        OutboundMediaContent::Video {
            video: MediaObject {
                link: Some(media.url.clone()),
                id: None,
                caption: caption_for(text),
            },
        }
    } else {
        OutboundMediaContent::Document {
            document: DocumentObject {
                link: Some(media.url.clone()),
                id: None,
                caption: caption_for(text),
                filename: None,
            },
        }
    };
    SendMediaRequest {
        messaging_product: "whatsapp",
        recipient_type: "individual",
        to: to.to_owned(),
        message_type: kind.to_owned(),
        media: content,
    }
}

/// Whether `requests` send the chunks of `text` to `to`, one text message
/// each, in order.
pub open spec fn are_text_requests(
    requests: Seq<SendTextRequest>,
    to: Seq<char>,
    text: Seq<char>,
) -> bool {
    let chunks = chunks_of(text, WHATSAPP_MAX_MESSAGE_LEN as int);
    &&& requests.len() == chunks.len()
    &&& forall|i: int|
        0 <= i < requests.len() ==> {
            &&& (#[trigger] requests[i]).messaging_product@ == "whatsapp"@
            &&& requests[i].recipient_type@ == "individual"@
            &&& requests[i].to@ == to
            &&& requests[i].message_type@ == "text"@
            &&& requests[i].text.preview_url == false
            &&& requests[i].text.body@ == chunks[i]
        }
}

/// The requests that send `text` to `to`, split at the WhatsApp message
/// limit; `None` where the text cannot be split.
pub fn text_requests(to: &str, text: &str) -> (requests: Option<Vec<SendTextRequest>>)
    ensures
        match requests {
            Some(r) => chunkable(text@, WHATSAPP_MAX_MESSAGE_LEN as int) && are_text_requests(
                r@,
                to@,
                text@,
            ),
            None => !chunkable(text@, WHATSAPP_MAX_MESSAGE_LEN as int),
        },
{
    let chunks = match try_chunk_message(text, WHATSAPP_MAX_MESSAGE_LEN) {
        Some(c) => c,
        None => {
            return None;
        },
    };
    let mut out: Vec<SendTextRequest> = Vec::new();
    let mut i: usize = 0;
    while i < chunks.len()
        invariant
            i <= chunks@.len(),
            out@.len() == i,
            chunk_views(chunks@) == chunks_of(text@, WHATSAPP_MAX_MESSAGE_LEN as int),
            forall|k: int|
                0 <= k < i ==> {
                    &&& (#[trigger] out@[k]).messaging_product@ == "whatsapp"@
                    &&& out@[k].recipient_type@ == "individual"@
                    &&& out@[k].to@ == to@
                    &&& out@[k].message_type@ == "text"@
                    &&& out@[k].text.preview_url == false
                    &&& out@[k].text.body@ == chunk_views(chunks@)[k]
                },
        decreases chunks@.len() - i,
    {
        out.push(SendTextRequest::new(to.to_owned(), chunks[i].clone()));
        i += 1;
    }
    Some(out)
}

/// Every chunk of a text that can be split fits the limit, unless the
/// text is empty and the limit zero.
pub proof fn law_chunks_fit(s: Seq<char>, max_len: int, i: int)
    requires
        0 <= max_len,
        chunkable(s, max_len),
        0 <= i < chunks_of(s, max_len).len(),
    ensures
        byte_len(chunks_of(s, max_len)[i]) <= max_len,
{
    if byte_len(s) > max_len {
        lemma_rest_chunks_fit(s, max_len, i);
    }
}

proof fn lemma_rest_chunks_fit(s: Seq<char>, max_len: int, i: int)
    requires
        0 <= max_len,
        chunkable(s, max_len),
        0 <= i < rest_chunks(s, max_len).len(),
    ensures
        byte_len(rest_chunks(s, max_len)[i]) <= max_len,
    decreases s.len(),
{
    if s.len() == 0 {
    } else if byte_len(s) <= max_len {
    } else {
        let b = break_point(s, max_len);
        lemma_break_point_bounds(s, max_len);
        lemma_prefix_chars(s, max_len);
        let k = prefix_chars(s, max_len);
        if i == 0 {
            assert(s.take(b) + s.subrange(b, k) == s.take(k));
            lemma_byte_len_concat(s.take(b), s.subrange(b, k));
            lemma_byte_len_bounds(s.subrange(b, k));
        } else {
            let rest = trim_start(s.skip(b));
            lemma_trim_start_len(s.skip(b));
            lemma_rest_chunks_fit(rest, max_len, i - 1);
        }
    }
}

} // verus!
