use sl::error::Error;
use sl::render::Draw;
use sl::state::{TrainState, FLYING_RATE};
use sl::trains::TrainDefinition;

fn plain_train(body: &str, speed: usize) -> TrainDefinition {
    TrainDefinition {
        train: body.to_string(),
        train_animation_speed: speed,
        smoke: None,
        smoke_offset: None,
        smoke_animation_speed: None,
    }
}

fn steam_train(body: &str, smoke: &str, offset: Option<usize>, speed: Option<usize>) -> TrainDefinition {
    TrainDefinition {
        train: body.to_string(),
        train_animation_speed: 1,
        smoke: Some(smoke.to_string()),
        smoke_offset: offset,
        smoke_animation_speed: speed,
    }
}

fn draw(column: i128, row: i128, text: &str) -> Draw {
    Draw { column, row, text: text.to_string() }
}

#[test]
fn new_train_stands_at_the_origin() {
    let state = TrainState::new(&plain_train("X", 1), false).unwrap();
    assert_eq!(state.x(), 0);
    assert_eq!(state.y(), 0);
    assert!(!state.flying());
    assert_eq!(state.viewport(), None);
    let state = TrainState::new(&plain_train("X", 1), true).unwrap();
    assert!(state.flying());
}

#[test]
fn new_train_reports_the_errors_of_its_body() {
    assert_eq!(
        TrainState::new(&plain_train("X", 0), false).unwrap_err(),
        Error::InvalidAnimationSpeed(0)
    );
    assert_eq!(
        TrainState::new(&plain_train("", 1), false).unwrap_err(),
        Error::EmptyFrame
    );
    assert_eq!(
        TrainState::new(&plain_train("a\n\n\n", 1), true).unwrap_err(),
        Error::EmptyFrame
    );
}

#[test]
fn new_train_reports_the_errors_of_its_smoke() {
    assert_eq!(
        TrainState::new(&steam_train("X", "", None, None), false).unwrap_err(),
        Error::EmptyFrame
    );
    assert_eq!(
        TrainState::new(&steam_train("X", "s", Some(2), Some(0)), false).unwrap_err(),
        Error::InvalidAnimationSpeed(0)
    );
}

#[test]
fn body_errors_come_before_smoke_errors() {
    let mut definition = steam_train("", "s", None, Some(0));
    assert_eq!(
        TrainState::new(&definition, false).unwrap_err(),
        Error::EmptyFrame
    );
    definition.train = "X".to_string();
    assert_eq!(
        TrainState::new(&definition, false).unwrap_err(),
        Error::InvalidAnimationSpeed(0)
    );
}

#[test]
fn smoke_speed_and_offset_are_ignored_without_smoke() {
    let definition = TrainDefinition {
        train: "X".to_string(),
        train_animation_speed: 1,
        smoke: None,
        smoke_offset: Some(4),
        smoke_animation_speed: Some(0),
    };
    let mut state = TrainState::new(&definition, false).unwrap();
    state.set_viewport(3, 1);
    assert_eq!(state.render(), vec![draw(3, 0, "X")]);
}

#[test]
fn one_cell_train_leaves_a_viewport_of_ten_on_the_twelfth_tick() {
    let mut state = TrainState::new(&plain_train("X", 1), false).unwrap();
    state.set_viewport(10, 5);
    assert!(!state.complete());
    for tick in 1..=11 {
        state.step();
        assert_eq!(state.x(), -tick);
        assert!(!state.complete());
    }
    assert_eq!(state.x(), -11);
    assert_eq!(state.render(), Vec::<Draw>::new());
    state.step();
    assert_eq!(state.x(), -12);
    assert!(state.complete());
    state.step();
    assert!(state.complete());
}

#[test]
fn completion_goes_by_the_wider_of_train_and_smoke() {
    let mut state =
        TrainState::new(&steam_train("ab", "12345\n1\n\n\n1", None, None), false).unwrap();
    state.set_viewport(4, 4);
    for tick in 1..=9 {
        state.step();
        assert!(!state.complete(), "complete after {} ticks", tick);
    }
    state.step();
    assert!(state.complete());

    let mut state = TrainState::new(&steam_train("abcdefg", "1", None, None), false).unwrap();
    state.set_viewport(4, 4);
    for _ in 0..11 {
        state.step();
        assert!(!state.complete());
    }
    state.step();
    assert!(state.complete());
}

#[test]
fn completion_goes_by_the_widest_frame() {
    let mut state = TrainState::new(&plain_train("abc\n\n\na", 1), false).unwrap();
    state.set_viewport(0, 0);
    for _ in 0..3 {
        state.step();
        assert!(!state.complete());
    }
    state.step();
    assert!(state.complete());
}

#[test]
fn train_that_does_not_fly_keeps_its_height() {
    let mut state = TrainState::new(&plain_train("X\nY", 1), false).unwrap();
    state.set_viewport(20, 10);
    assert_eq!(state.y(), 0);
    for _ in 0..35 {
        state.step();
    }
    assert_eq!(state.y(), 0);
    assert_eq!(state.x(), -35);
}

#[test]
fn flying_train_starts_at_the_bottom() {
    let mut state =
        TrainState::new(&steam_train("a\nb\nc", "1\n2\n\n\n1", Some(1), Some(2)), true).unwrap();
    state.set_viewport(40, 24);
    assert_eq!(state.viewport(), Some((40, 24)));
    assert_eq!(state.y(), 24 - (3 + 2));

    let mut state = TrainState::new(&plain_train("a\nb\nc", 1), true).unwrap();
    state.set_viewport(40, 2);
    assert_eq!(state.y(), -1);
}

#[test]
fn later_viewport_sizes_do_not_move_the_train() {
    let mut state = TrainState::new(&plain_train("a\nb\nc", 1), true).unwrap();
    state.set_viewport(40, 24);
    assert_eq!(state.y(), 21);
    state.step();
    state.set_viewport(80, 50);
    assert_eq!(state.viewport(), Some((80, 50)));
    assert_eq!(state.y(), 21);
    assert_eq!(state.x(), -1);

    let mut state = TrainState::new(&plain_train("a\nb\nc", 1), false).unwrap();
    state.set_viewport(40, 24);
    assert_eq!(state.y(), 0);
}

#[test]
fn flying_train_climbs_on_every_tenth_tick() {
    assert_eq!(FLYING_RATE, 10);
    let mut state = TrainState::new(&plain_train("X", 1), true).unwrap();
    state.set_viewport(100, 30);
    let start = state.y();
    assert_eq!(start, 29);
    for tick in 1..=45 {
        state.step();
        assert_eq!(state.y(), start - tick / 10);
    }
}

#[test]
fn step_advances_train_and_smoke_at_their_own_speeds() {
    let definition = TrainDefinition {
        train: "A\n\n\nB".to_string(),
        train_animation_speed: 1,
        smoke: Some("s\n\n\nt".to_string()),
        smoke_offset: Some(0),
        smoke_animation_speed: Some(2),
    };
    let mut state = TrainState::new(&definition, false).unwrap();
    state.set_viewport(50, 4);
    let shown = |state: &TrainState| -> String {
        state.render().iter().map(|d| d.text.clone()).collect::<Vec<_>>().join("")
    };
    assert_eq!(shown(&state), "sA");
    state.step();
    assert_eq!(shown(&state), "sB");
    state.step();
    assert_eq!(shown(&state), "tA");
    state.step();
    assert_eq!(shown(&state), "tB");
    state.step();
    assert_eq!(shown(&state), "sA");
}

#[test]
fn smoke_speed_defaults_to_one() {
    let mut state =
        TrainState::new(&steam_train("A", "s\n\n\nt", Some(0), None), false).unwrap();
    state.set_viewport(50, 4);
    state.step();
    assert_eq!(state.render()[0].text, "t");
    state.step();
    assert_eq!(state.render()[0].text, "s");
}

#[test]
fn train_enters_from_the_right() {
    let mut state = TrainState::new(&plain_train("ab\ncd", 1), false).unwrap();
    state.set_viewport(10, 6);
    assert_eq!(state.render(), vec![draw(10, 2, "ab"), draw(10, 3, "cd")]);
    state.step();
    assert_eq!(state.render(), vec![draw(9, 2, "ab"), draw(9, 3, "cd")]);
}

#[test]
fn train_is_clipped_at_the_left_edge() {
    let mut state = TrainState::new(&plain_train("hello\nhi", 1), false).unwrap();
    state.set_viewport(2, 2);
    for _ in 0..2 {
        state.step();
    }
    assert_eq!(state.render(), vec![draw(0, 0, "hello"), draw(0, 1, "hi")]);
    for _ in 0..3 {
        state.step();
    }
    assert_eq!(state.render(), vec![draw(0, 0, "lo")]);
    for _ in 0..2 {
        state.step();
    }
    assert_eq!(state.render(), Vec::<Draw>::new());
}

#[test]
fn smoke_is_drawn_first_and_above_the_train() {
    let mut state = TrainState::new(
        &steam_train("train\ntrain", "o\nO\n@", Some(3), None),
        false,
    )
    .unwrap();
    state.set_viewport(20, 10);
    assert_eq!(
        state.render(),
        vec![
            draw(23, 1, "o"),
            draw(23, 2, "O"),
            draw(23, 3, "@"),
            draw(20, 4, "train"),
            draw(20, 5, "train"),
        ]
    );
}

#[test]
fn smoke_offset_defaults_to_zero() {
    let mut state =
        TrainState::new(&steam_train("train", "o", None, None), false).unwrap();
    state.set_viewport(20, 10);
    assert_eq!(state.render(), vec![draw(20, 4, "o"), draw(20, 5, "train")]);
}

#[test]
fn smoke_stands_above_the_train_by_its_tallest_frame() {
    let mut state = TrainState::new(
        &steam_train("train", "o\n\n\nO\nO\nO", Some(0), None),
        false,
    )
    .unwrap();
    state.set_viewport(20, 10);
    assert_eq!(state.render(), vec![draw(20, 2, "o"), draw(20, 5, "train")]);
}

#[test]
fn smoke_leaves_the_viewport_after_the_train_where_it_is_offset() {
    let mut state =
        TrainState::new(&steam_train("ab", "12", Some(2), None), false).unwrap();
    state.set_viewport(1, 2);
    for _ in 0..3 {
        state.step();
    }
    assert_eq!(state.render(), vec![draw(0, 0, "12")]);
}

#[test]
fn train_is_centred_on_the_frame_that_is_shown() {
    let mut state = TrainState::new(&plain_train("a\n\n\n1\n2\n3\n4", 1), false).unwrap();
    state.set_viewport(5, 10);
    assert_eq!(state.render(), vec![draw(5, 5, "a")]);
    state.step();
    assert_eq!(
        state.render(),
        vec![draw(4, 3, "1"), draw(4, 4, "2"), draw(4, 5, "3"), draw(4, 6, "4")]
    );
}

#[test]
fn flying_train_is_drawn_lower_by_its_height() {
    let mut state = TrainState::new(&plain_train("a\nb", 1), true).unwrap();
    state.set_viewport(5, 10);
    assert_eq!(state.y(), 8);
    assert_eq!(state.render(), vec![draw(5, 12, "a"), draw(5, 13, "b")]);
}
