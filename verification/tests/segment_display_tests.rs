use matchstick::segment_display::SegmentDisplay;
use matchstick::transition::Transition;

fn all_off() -> SegmentDisplay {
    SegmentDisplay {
        top: false,
        upper_left: false,
        upper_right: false,
        upper_beam: false,
        middle_beam: false,
        pipe: false,
        lower_left: false,
        lower_right: false,
        bottom: false,
    }
}

fn all_on() -> SegmentDisplay {
    SegmentDisplay {
        top: true,
        upper_left: true,
        upper_right: true,
        upper_beam: true,
        middle_beam: true,
        pipe: true,
        lower_left: true,
        lower_right: true,
        bottom: true,
    }
}

#[test]
fn transition_no_to_all_segments() {
    let start = all_off();
    let target = all_on();

    let expected_transition = Transition { remove: 0, add: 9 };

    assert_eq!(expected_transition, start.delta_to(&target));
}

#[test]
fn transition_all_to_no_segments() {
    let start = all_on();
    let target = all_off();

    let expected_transition = Transition { remove: 9, add: 0 };

    assert_eq!(expected_transition, start.delta_to(&target));
}

#[test]
fn transition_mixed_segments() {
    let start = SegmentDisplay {
        top: false,
        upper_left: true,
        upper_right: true,
        upper_beam: false,
        middle_beam: false,
        pipe: false,
        lower_left: false,
        lower_right: true,
        bottom: false,
    };

    let target = SegmentDisplay {
        top: false,
        upper_left: true,
        upper_right: false,
        upper_beam: false,
        middle_beam: true,
        pipe: true,
        lower_left: false,
        lower_right: true,
        bottom: false,
    };

    let expected_transition = Transition { remove: 1, add: 2 };

    assert_eq!(expected_transition, start.delta_to(&target));
}

#[test]
fn draw_no_segment() {
    let segment_display = all_off();

    let expected_string = "     \n     \n     \n     \n     ";
    assert_eq!(segment_display.draw(), expected_string);
}

#[test]
fn draw_all_segments() {
    let segment_display = all_on();

    let expected_string = " ___ \n|_ _|\n|_|_|\n| | |\n|___|";
    assert_eq!(segment_display.draw(), expected_string);
}

#[test]
fn draw_plus() {
    let segment_display = SegmentDisplay {
        top: false,
        upper_left: false,
        upper_right: false,
        upper_beam: false,
        middle_beam: true,
        pipe: true,
        lower_left: false,
        lower_right: false,
        bottom: false,
    };

    let expected_string = "     \n     \n _|_ \n  |  \n     ";
    assert_eq!(segment_display.draw(), expected_string);
}

#[test]
fn delta_to_self_is_zero() {
    let glyph = SegmentDisplay {
        top: true,
        upper_left: false,
        upper_right: true,
        upper_beam: false,
        middle_beam: true,
        pipe: false,
        lower_left: false,
        lower_right: true,
        bottom: true,
    };
    assert_eq!(Transition { remove: 0, add: 0 }, glyph.delta_to(&glyph));
}
