use rust_retro_arcade::input::Input;

#[test]
fn up_arrow_maps_to_negative_y() {
    let i = Input {
        up: true,
        ..Default::default()
    };
    assert_eq!(i.dir4(), (0, -1));
}

#[test]
fn wasd_d_maps_to_positive_x() {
    let i = Input {
        d: true,
        ..Default::default()
    };
    assert_eq!(i.dir4(), (1, 0));
}

#[test]
fn opposite_horizontals_cancel() {
    let i = Input {
        left: true,
        right: true,
        ..Default::default()
    };
    assert_eq!(i.dir4(), (0, 0));
}

#[test]
fn vertical_has_priority_over_horizontal() {
    let i = Input {
        up: true,
        right: true,
        ..Default::default()
    };
    assert_eq!(i.dir4(), (0, -1));
}

#[test]
fn opposite_verticals_fall_back_to_horizontal() {
    let i = Input {
        w: true,
        down: true,
        a: true,
        ..Default::default()
    };
    assert_eq!(i.dir4(), (-1, 0));
}

#[test]
fn nothing_held_means_no_direction() {
    assert_eq!(Input::default().dir4(), (0, 0));
    let i = Input {
        s: true,
        ..Default::default()
    };
    assert_eq!(i.dir4(), (0, 1));
}
