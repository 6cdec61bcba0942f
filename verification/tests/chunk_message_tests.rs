use moltis_core::whatsapp_business::outbound::{
    char_len, chunk_message, find_break_point, try_chunk_message, WHATSAPP_MAX_MESSAGE_LEN,
};

#[test]
fn test_chunk_message_short() {
    let chunks = chunk_message("Hello, world!", 100);
    assert_eq!(chunks, vec!["Hello, world!"]);
}

#[test]
fn test_chunk_message_long() {
    let text = "a".repeat(10);
    let chunks = chunk_message(&text, 4);
    assert_eq!(chunks.len(), 3);
    assert_eq!(chunks[0], "aaaa");
    assert_eq!(chunks[1], "aaaa");
    assert_eq!(chunks[2], "aa");
}

#[test]
fn test_chunk_message_with_spaces() {
    let text = "hello world this is a test";
    let chunks = chunk_message(text, 12);
    assert_eq!(chunks[0], "hello world ");
    assert_eq!(chunks[1], "this is a ");
    assert_eq!(chunks[2], "test");
}

#[test]
fn test_chunk_message_with_newlines() {
    let text = "line1\nline2\nline3";
    let chunks = chunk_message(text, 8);
    assert_eq!(chunks[0], "line1\n");
    assert_eq!(chunks[1], "line2\n");
    assert_eq!(chunks[2], "line3");
}

#[test]
fn the_limit_is_4096() {
    assert_eq!(WHATSAPP_MAX_MESSAGE_LEN, 4096);
    let text = "x".repeat(4096);
    assert_eq!(chunk_message(&text, WHATSAPP_MAX_MESSAGE_LEN), vec![text.clone()]);
    let longer = "x".repeat(4097);
    assert_eq!(
        chunk_message(&longer, WHATSAPP_MAX_MESSAGE_LEN),
        vec![text, "x".to_string()]
    );
}

#[test]
fn empty_and_fitting_texts_are_one_chunk() {
    assert_eq!(chunk_message("", 0), vec![""]);
    assert_eq!(chunk_message("", 5), vec![""]);
    assert_eq!(chunk_message("  a  ", 5), vec!["  a  "]);
    assert_eq!(chunk_message("héllo", 6), vec!["héllo"]);
}

#[test]
fn newline_is_preferred_to_space_and_leading_space_is_dropped() {
    assert_eq!(
        chunk_message("ab\ncd ef gh", 7),
        vec!["ab\n", "cd ef ", "gh"]
    );
    assert_eq!(
        chunk_message("ab\ncd ef gh", 8),
        vec!["ab\n", "cd ef gh"]
    );
    assert_eq!(chunk_message("abcd    efgh", 4), vec!["abcd", "efgh"]);
    assert_eq!(chunk_message("abcd \n ", 4), vec!["abcd"]);
    assert_eq!(chunk_message("a b c d e", 1), vec!["a", "b", "c", "d", "e"]);
    assert_eq!(chunk_message(" abcd", 2), vec![" ", "ab", "cd"]);
}

#[test]
fn lengths_are_bytes_of_utf8() {
    assert_eq!(char_len('a'), 1);
    assert_eq!(char_len('\u{7f}'), 1);
    assert_eq!(char_len('\u{80}'), 2);
    assert_eq!(char_len('é'), 2);
    assert_eq!(char_len('\u{7ff}'), 2);
    assert_eq!(char_len('\u{800}'), 3);
    assert_eq!(char_len('€'), 3);
    assert_eq!(char_len('\u{ffff}'), 3);
    assert_eq!(char_len('\u{10000}'), 4);
    assert_eq!(char_len('🦀'), 4);
    for c in ['a', 'é', '€', '🦀', '\u{d7ff}', '\u{e000}', '\u{10ffff}'] {
        assert_eq!(char_len(c), c.len_utf8());
    }
    // Three two-byte characters: six bytes, cut after four.
    assert_eq!(chunk_message("ééé", 4), vec!["éé", "é"]);
    assert_eq!(chunk_message("é é é", 3), vec!["é ", "é ", "é"]);
}

#[test]
fn a_cut_inside_a_character_cannot_be_made() {
    assert_eq!(try_chunk_message("ééé", 3), None);
    assert_eq!(try_chunk_message("ééé", 1), None);
    assert_eq!(try_chunk_message("a€", 2), None);
    assert_eq!(try_chunk_message("abc", 0), None);
    // The first cut is fine, the second is not.
    assert_eq!(try_chunk_message("ab ééé", 3), None);
    assert_eq!(
        try_chunk_message("ééé", 4),
        Some(vec!["éé".to_string(), "é".to_string()])
    );
    assert_eq!(try_chunk_message("", 0), Some(vec![String::new()]));
    assert_eq!(
        try_chunk_message("hello world", 6),
        Some(vec!["hello ".to_string(), "world".to_string()])
    );
}

/// The same splitting written with the standard library's byte slices.
fn by_bytes(text: &str, max_len: usize) -> Vec<String> {
    if text.len() <= max_len {
        return vec![text.to_string()];
    }
    let mut chunks = Vec::new();
    let mut remaining = text;
    while !remaining.is_empty() {
        if remaining.len() <= max_len {
            chunks.push(remaining.to_string());
            break;
        }
        let range = &remaining[..max_len];
        let end = range
            .rfind('\n')
            .or_else(|| range.rfind(' '))
            .map(|p| p + 1)
            .unwrap_or(max_len);
        assert_eq!(find_break_point(remaining, max_len), end);
        chunks.push(remaining[..end].to_string());
        remaining = remaining[end..].trim_start();
    }
    chunks
}

#[test]
fn chunks_agree_with_byte_slicing() {
    let texts = [
        "hello world this is a test",
        "line1\nline2\nline3",
        "no-breaks-at-all-in-this-one",
        "trailing spaces      ",
        "\n\n\nleading",
        "tabs\tare\tnot\tbreaks but are trimmed \t next",
        "mixed é and € and 🦀 text with spaces",
        "\u{3000}wide space\u{3000}here",
    ];
    for text in texts {
        for max_len in 1..40usize {
            if let Some(chunks) = try_chunk_message(text, max_len) {
                assert_eq!(chunks, by_bytes(text, max_len), "{text:?} at {max_len}");
                assert_eq!(chunks, chunk_message(text, max_len));
                for c in &chunks {
                    assert!(c.len() <= max_len || chunks.len() == 1);
                }
            }
        }
    }
}

#[test]
fn break_point_examples() {
    assert_eq!(find_break_point("hello world this", 12), 12);
    assert_eq!(find_break_point("hello world", 8), 6);
    assert_eq!(find_break_point("a\nb c d", 5), 2);
    assert_eq!(find_break_point("abcdef", 3), 3);
    assert_eq!(find_break_point("é b", 3), 3);
    assert_eq!(find_break_point("éé", 2), 2);
}
