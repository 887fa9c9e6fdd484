use deeplx_pro::chunk::chunk_text;

fn count(s: &str) -> usize {
    s.chars().count()
}

#[test]
fn chunk_short_text_is_single_chunk() {
    let chunks = chunk_text("Hello, world!", 1500);
    assert_eq!(chunks.len(), 1);
    assert_eq!(chunks[0], "Hello, world!");
}

#[test]
fn chunk_empty_text_returns_one_empty_chunk() {
    let chunks = chunk_text("", 1500);
    assert_eq!(chunks, vec!["".to_string()]);
}

#[test]
fn chunk_respects_max_chars_exactly() {
    // 3000 'a' chars, no boundaries: hard-cut chunks of 1500.
    let text = "a".repeat(3000);
    let chunks = chunk_text(&text, 1500);
    assert_eq!(chunks.len(), 2);
    for c in &chunks {
        assert_eq!(count(c), 1500);
    }
    assert_eq!(chunks.concat(), text);
}

#[test]
fn chunk_at_exact_boundary_returns_one_chunk() {
    let text = "a".repeat(1500);
    let chunks = chunk_text(&text, 1500);
    assert_eq!(chunks.len(), 1);
    assert_eq!(chunks[0], text);
}

#[test]
fn chunk_prefers_blank_lines() {
    let text = format!("{}\n\n{}", "a".repeat(10), "b".repeat(10));
    let chunks = chunk_text(&text, 15);
    assert!(chunks.len() >= 2);
    for c in &chunks {
        assert!(count(c) <= 15);
    }
    assert_eq!(chunks.concat(), text);
}

#[test]
fn chunk_prefers_sentence_punctuation() {
    let text = "Hello world. Another sentence here.";
    let chunks = chunk_text(text, 15);
    for c in &chunks {
        assert!(count(c) <= 15);
    }
    assert_eq!(chunks.concat(), text);
}

#[test]
fn chunk_mixed_cjk_and_ascii() {
    let text = format!("{}。{}。", "你".repeat(800), "a".repeat(800));
    let chunks = chunk_text(&text, 1500);
    for c in &chunks {
        assert!(count(c) <= 1500);
    }
    assert_eq!(chunks.concat(), text);
}

#[test]
fn chunk_no_boundary_hard_cuts_and_reassembles() {
    let text = "字".repeat(4000);
    let chunks = chunk_text(&text, 1500);
    assert!(chunks.len() >= 3);
    for c in &chunks {
        assert!(count(c) <= 1500);
    }
    assert_eq!(chunks.concat(), text);
}

#[test]
fn chunk_zero_limit_gives_no_chunks() {
    assert!(chunk_text("abc", 0).is_empty());
}

#[test]
fn chunk_blank_line_is_the_cut() {
    let text = format!("{}\n\n{}", "a".repeat(10), "b".repeat(10));
    let chunks = chunk_text(&text, 15);
    assert_eq!(chunks, vec![format!("{}\n\n", "a".repeat(10)), "b".repeat(10)]);
}

#[test]
fn chunk_blank_line_beats_later_newline_and_sentence() {
    let chunks = chunk_text("ab\n\ncd\nef. gh", 12);
    assert_eq!(chunks, vec!["ab\n\n".to_string(), "cd\nef. gh".to_string()]);
}

#[test]
fn chunk_last_sentence_end_in_window_is_the_cut() {
    let chunks = chunk_text("Hello world. Another sentence here.", 15);
    assert_eq!(
        chunks,
        vec!["Hello world.".to_string(), " Another senten".to_string(), "ce here.".to_string()]
    );
}

#[test]
fn chunk_cjk_full_stop_is_a_sentence_end() {
    let chunks = chunk_text("你好。世界很大", 5);
    assert_eq!(chunks, vec!["你好。".to_string(), "世界很大".to_string()]);
}

#[test]
fn chunk_newline_beats_sentence_end() {
    let chunks = chunk_text("a.b\ncd.efgh", 8);
    assert_eq!(chunks, vec!["a.b\n".to_string(), "cd.efgh".to_string()]);
}
