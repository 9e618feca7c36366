use sl::animation::Animation;
use sl::art::{DEFAULT_SMOKE, DEFAULT_TRAIN_CAR, DEFAULT_TRAIN_TOP, DEFAULT_TRAIN_WHEELS};
use sl::state::TrainState;
use sl::trains::{
    accident_train, build_composite_train, builtin_trains, c51_train, default_train, logo_train,
    TrainDefinition,
};

fn first_frame(definition: &TrainDefinition) -> Vec<String> {
    let text = definition.train.split("\n\n\n").next().unwrap();
    text.split("\n").map(|line| line.to_string()).collect()
}

#[test]
fn composite_train_couples_car_and_engine_line_by_line() {
    let definition = build_composite_train(
        "TT\n",
        &["w1\nx1", "w2\nx2"],
        "-c\n-d\n-e",
        &["s1", "s2\ns3"],
        3,
        4,
        5,
    );
    assert_eq!(
        definition,
        TrainDefinition {
            train: "TT-c\nw1-d\nx1-e\n\n\nTT-c\nw2-d\nx2-e".to_string(),
            train_animation_speed: 3,
            smoke: Some("s1\n\n\ns2\ns3".to_string()),
            smoke_offset: Some(5),
            smoke_animation_speed: Some(4),
        }
    );
}

#[test]
fn composite_train_leaves_out_lines_without_a_partner() {
    let definition = build_composite_train("a\nb\n", &["c"], "1\n2", &["s"], 1, 1, 0);
    assert_eq!(definition.train, "a1\nb2");
    let definition = build_composite_train("a\n", &["c"], "1\n2\n3", &["s"], 1, 1, 0);
    assert_eq!(definition.train, "a1\nc2");
}

#[test]
fn composite_train_without_wheels_has_no_frames() {
    let definition = build_composite_train("a\n", &[], "1", &[], 1, 1, 0);
    assert_eq!(definition.train, "");
    assert_eq!(definition.smoke, Some("".to_string()));
}

#[test]
fn default_train_definition() {
    let definition = default_train();
    assert_eq!(definition.train_animation_speed, 1);
    assert_eq!(definition.smoke_offset, Some(5));
    assert_eq!(definition.smoke_animation_speed, Some(5));
    assert_eq!(definition.train.chars().count(), 4599);
    assert_eq!(definition.smoke.as_ref().unwrap().chars().count(), 279);
    let frame = first_frame(&definition);
    assert_eq!(
        frame[0],
        "      ====        ________                ___________ "
    );
    assert_eq!(
        frame[9],
        "  \\_/      \\_O=====O=====O=====O/      \\_/                \\_/   \\_/    \\_/   \\_/"
    );
    let body = Animation::new(1, &definition.train).unwrap();
    assert_eq!(body.frame_count(), 6);
    assert_eq!(body.width(), 83);
    assert_eq!(body.height(), 10);
    let smoke = Animation::new(5, definition.smoke.as_ref().unwrap()).unwrap();
    assert_eq!(smoke.frame_count(), 2);
    assert_eq!(smoke.width(), 75);
    assert_eq!(smoke.height(), 7);
}

#[test]
fn default_train_is_built_from_its_parts() {
    assert_eq!(
        default_train(),
        build_composite_train(
            DEFAULT_TRAIN_TOP,
            &DEFAULT_TRAIN_WHEELS,
            DEFAULT_TRAIN_CAR,
            &DEFAULT_SMOKE,
            1,
            5,
            5
        )
    );
    assert_eq!(
        default_train().smoke,
        Some(format!("{}\n\n\n{}", DEFAULT_SMOKE[0], DEFAULT_SMOKE[1]))
    );
}

#[test]
fn logo_train_definition() {
    let definition = logo_train();
    assert_eq!(definition.train_animation_speed, 1);
    assert_eq!(definition.smoke_offset, Some(3));
    assert_eq!(definition.smoke_animation_speed, Some(5));
    assert_eq!(definition.train.chars().count(), 3069);
    assert_eq!(definition.smoke, default_train().smoke);
    let frame = first_frame(&definition);
    assert_eq!(
        frame[0],
        "     ++      +------ ____                 ____________________ ____________________ "
    );
    assert_eq!(
        frame[5],
        "//// O========O_/       (O)       (O)        (O)       (O)        (O)       (O)     "
    );
    let body = Animation::new(1, &definition.train).unwrap();
    assert_eq!(body.frame_count(), 6);
    assert_eq!(body.width(), 84);
    assert_eq!(body.height(), 6);
}

#[test]
fn c51_train_definition() {
    let definition = c51_train();
    assert_eq!(definition.train_animation_speed, 1);
    assert_eq!(definition.smoke_offset, Some(7));
    assert_eq!(definition.smoke_animation_speed, Some(5));
    assert_eq!(definition.train.chars().count(), 5001);
    assert_eq!(definition.smoke, default_train().smoke);
    let frame = first_frame(&definition);
    assert_eq!(
        frame[0],
        "        ___                                            "
    );
    assert_eq!(
        frame[10],
        "\\_/         \\_/  \\____/  \\____/  \\____/      \\_/           \\_/   \\_/    \\_/   \\_/"
    );
    let body = Animation::new(1, &definition.train).unwrap();
    assert_eq!(body.frame_count(), 6);
    assert_eq!(body.width(), 84);
    assert_eq!(body.height(), 11);
}

#[test]
fn accident_train_is_the_default_train_with_another_body() {
    let definition = accident_train("crash\nbang");
    let default = default_train();
    assert_eq!(definition.train, "crash\nbang");
    assert_eq!(definition.train_animation_speed, default.train_animation_speed);
    assert_eq!(definition.smoke, default.smoke);
    assert_eq!(definition.smoke_offset, default.smoke_offset);
    assert_eq!(definition.smoke_animation_speed, default.smoke_animation_speed);
}

#[test]
fn builtin_trains_in_order() {
    let trains = builtin_trains();
    assert_eq!(trains.len(), 3);
    assert_eq!(trains[0], default_train());
    assert_eq!(trains[1], logo_train());
    assert_eq!(trains[2], c51_train());
}

#[test]
fn builtin_trains_make_valid_states() {
    for definition in builtin_trains() {
        for flying in [false, true] {
            let mut state = TrainState::new(&definition, flying).unwrap();
            state.set_viewport(120, 40);
            assert!(!state.complete());
            assert_eq!(state.render().len(), 7 + first_frame(&definition).len());
        }
    }
}

#[test]
fn definition_from_file_contents() {
    let definition = TrainDefinition::from_contents("a\nb\n\n\nc".to_string());
    assert_eq!(
        definition,
        TrainDefinition {
            train: "a\nb\n\n\nc".to_string(),
            train_animation_speed: 1,
            smoke: None,
            smoke_offset: None,
            smoke_animation_speed: None,
        }
    );
}
