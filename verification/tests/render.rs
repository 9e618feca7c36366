use sl::render::{clip_line, push_lines, Draw};

#[test]
fn line_partly_left_of_the_viewport_is_cut() {
    assert_eq!(clip_line("hello", -3), Some((0, "lo")));
    assert_eq!(clip_line("hello", -1), Some((0, "ello")));
    assert_eq!(clip_line("hello", -4), Some((0, "o")));
}

#[test]
fn line_wholly_left_of_the_viewport_is_dropped() {
    assert_eq!(clip_line("hello", -5), None);
    assert_eq!(clip_line("hello", -6), None);
    assert_eq!(clip_line("hello", -1000), None);
    assert_eq!(clip_line("hello", i128::MIN), None);
    assert_eq!(clip_line("", -1), None);
}

#[test]
fn line_inside_the_viewport_is_kept_whole() {
    assert_eq!(clip_line("hello", 2), Some((2, "hello")));
    assert_eq!(clip_line("hello", 0), Some((0, "hello")));
    assert_eq!(clip_line("", 0), Some((0, "")));
    assert_eq!(clip_line("hello", i128::MAX), Some((i128::MAX, "hello")));
}

#[test]
fn clipping_counts_characters() {
    assert_eq!(clip_line("\u{2588}\u{2588}ab", -1), Some((0, "\u{2588}ab")));
    assert_eq!(clip_line("\u{2588}\u{2588}ab", -2), Some((0, "ab")));
    assert_eq!(clip_line("\u{2588}\u{2588}", -2), None);
}

#[test]
fn lines_are_drawn_from_top_to_bottom() {
    let lines = vec!["ab".to_string(), "".to_string(), "cdef".to_string()];
    let mut draws = Vec::new();
    push_lines(&mut draws, &lines, 4, 10);
    assert_eq!(
        draws,
        vec![
            Draw { column: 4, row: 10, text: "ab".to_string() },
            Draw { column: 4, row: 11, text: "".to_string() },
            Draw { column: 4, row: 12, text: "cdef".to_string() },
        ]
    );
}

#[test]
fn hidden_lines_are_left_out_and_rows_kept() {
    let lines = vec!["ab".to_string(), "".to_string(), "cdef".to_string()];
    let mut draws = vec![Draw { column: 1, row: 1, text: "kept".to_string() }];
    push_lines(&mut draws, &lines, -2, -1);
    assert_eq!(
        draws,
        vec![
            Draw { column: 1, row: 1, text: "kept".to_string() },
            Draw { column: 0, row: 1, text: "ef".to_string() },
        ]
    );
}
