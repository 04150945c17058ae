use android_logd_logger::logging_iterator::find_char_boundary_before_idx;
use android_logd_logger::NewlineScaledChunkIterator;

fn all_pieces(data: &str, max: usize) -> Vec<&str> {
    let mut it = NewlineScaledChunkIterator::new(data, max);
    let mut pieces = Vec::new();
    while let Some(piece) = it.next() {
        pieces.push(piece);
    }
    pieces
}

#[test]
fn test_find_char_boundary() {
    let test_str = "World 和 is what we want";
    let idx = 7; // inside the Chinese 'peace' sign

    let char_boundary_before = find_char_boundary_before_idx(test_str, idx);
    assert_eq!(char_boundary_before, 6);

    let (first_part, second_part) = test_str.split_at(char_boundary_before);
    assert_eq!(first_part, "World ");
    assert_eq!(second_part, "和 is what we want");
}

#[test]
fn test_newline_scaled_chunk_iterator() {
    let test_str = "This will be a long string.\n\
                          Break it at the last newline below 50 bytes.\n\
                          This may split words into two.\n\
                          Some chunks are also above the maximum length \
                          without a newline and will be split at the \
                          charater boundary below the maximum length.";

    let mut nl_iter = NewlineScaledChunkIterator::new(test_str, 50);
    assert_eq!(nl_iter.next(), Some("This will be a long string.\n"));
    assert_eq!(nl_iter.next(), Some("Break it at the last newline below 50 bytes.\n"));
    assert_eq!(nl_iter.next(), Some("This may split words into two.\n"));
    assert_eq!(nl_iter.next(), Some("Some chunks are also above the maximum length with"));
    assert_eq!(nl_iter.next(), Some("out a newline and will be split at the charater bo"));
    assert_eq!(nl_iter.next(), Some("undary below the maximum length."));
    assert_eq!(nl_iter.next(), None);
}

#[test]
fn empty_text_yields_no_pieces() {
    let mut it = NewlineScaledChunkIterator::new("", 10);
    assert_eq!(it.next(), None);
    assert_eq!(it.next(), None);
}

#[test]
fn short_text_is_one_piece() {
    assert_eq!(all_pieces("abc", 10), vec!["abc"]);
}

#[test]
fn split_after_last_newline_within_limit() {
    let pieces = all_pieces("line1\nline2\nline3", 7);
    assert_eq!(pieces[0], "line1\n");
    assert_eq!(pieces, vec!["line1\n", "line2\n", "line3"]);
}

#[test]
fn text_of_exactly_max_bytes_splits_at_its_newline() {
    assert_eq!(all_pieces("abc\ndef", 7), vec!["abc\n", "def"]);
    assert_eq!(all_pieces("abcdefg", 7), vec!["abcdefg"]);
}

#[test]
fn pieces_rejoin_and_respect_the_limit() {
    let text = "Grüße, 和平!\nΑβγ δεζ ηθι\n\nκλμ — end of line\nabc";
    for max in 4..40 {
        let pieces = all_pieces(text, max);
        assert_eq!(pieces.concat(), text, "max {}", max);
        for piece in &pieces {
            assert!(!piece.is_empty());
            assert!(piece.len() <= max, "piece {:?} over {}", piece, max);
        }
    }
}

#[test]
fn split_never_cuts_a_character() {
    // Each character takes three bytes; a limit of 7 bytes holds two of them.
    let pieces = all_pieces("和和和和和", 7);
    assert_eq!(pieces, vec!["和和", "和和", "和"]);
}

#[test]
fn boundary_search_keeps_a_boundary_index() {
    assert_eq!(find_char_boundary_before_idx("abc", 2), 2);
    assert_eq!(find_char_boundary_before_idx("和", 2), 0);
    assert_eq!(find_char_boundary_before_idx("a和", 3), 1);
}
