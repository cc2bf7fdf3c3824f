use raycaster::hud::{clock, coin_panel, fps_panel, timer_panel, Panel, ICON_ROOM, MARGIN, SHADOW};

#[test]
fn fps_panel_sits_in_the_top_right_corner() {
    let p = fps_panel(1300, 100).unwrap();
    assert_eq!(
        p,
        Panel {
            x: 1160,
            y: 12,
            width: 128,
            height: 52,
            shadow_x: 1163,
            shadow_y: 15,
            text_x: 1174,
            text_y: 22,
            font_size: 32,
            icon_x: 1160,
            icon_y: 12,
        }
    );
    assert_eq!(p.x + p.width + MARGIN, 1300);
}

#[test]
fn timer_panel_sits_in_the_bottom_left_corner() {
    let p = timer_panel(900, 90).unwrap();
    assert_eq!(
        p,
        Panel {
            x: 12,
            y: 830,
            width: 162,
            height: 58,
            shadow_x: 15,
            shadow_y: 833,
            text_x: 68,
            text_y: 842,
            font_size: 34,
            icon_x: 30,
            icon_y: 859,
        }
    );
    assert_eq!(p.y + p.height + MARGIN, 900);
    assert_eq!(p.text_x, p.x + ICON_ROOM + 16);
}

#[test]
fn coin_panel_sits_in_the_bottom_right_corner() {
    let p = coin_panel(1300, 900, 150).unwrap();
    assert_eq!(
        p,
        Panel {
            x: 1064,
            y: 832,
            width: 224,
            height: 56,
            shadow_x: 1067,
            shadow_y: 835,
            text_x: 1120,
            text_y: 844,
            font_size: 32,
            icon_x: 1086,
            icon_y: 860,
        }
    );
    assert_eq!(p.x + p.width + MARGIN, 1300);
    assert_eq!(p.y + p.height + MARGIN, 900);
    assert_eq!((p.shadow_x - p.x, p.shadow_y - p.y), (SHADOW, SHADOW));
}

#[test]
fn panels_may_leave_a_small_screen() {
    let p = fps_panel(100, 200).unwrap();
    assert_eq!((p.x, p.width), (-140, 228));
    let p = timer_panel(0, 0).unwrap();
    assert_eq!((p.y, p.width), (-70, 72));
    let p = coin_panel(0, 0, 0).unwrap();
    assert_eq!((p.x, p.y, p.width), (-86, -68, 74));
}

#[test]
fn clock_shows_minutes_and_seconds() {
    assert_eq!(clock(0), (0, 0));
    assert_eq!(clock(59), (0, 59));
    assert_eq!(clock(60), (1, 0));
    assert_eq!(clock(125), (2, 5));
    assert_eq!(clock(u32::MAX), (71582788, 15));
}

#[test]
fn a_panel_that_does_not_fit_is_not_laid_out() {
    // width: text + 28 must fit
    assert!(fps_panel(i32::MAX, i32::MAX - 28).is_some());
    assert_eq!(fps_panel(i32::MAX, i32::MAX - 27), None);
    // x: screen - (text + 28) - 12 must fit
    assert_eq!(fps_panel(i32::MIN + 40, 0).unwrap().x, i32::MIN);
    assert_eq!(fps_panel(i32::MIN + 39, 0), None);
    assert_eq!(fps_panel(0, i32::MAX - 28), None);
    // text_x: x + 14 must fit
    assert_eq!(fps_panel(i32::MAX, -26).unwrap().text_x, i32::MAX);
    assert_eq!(fps_panel(i32::MAX, -27), None);
    // timer: width is text + 72, y is screen - 70
    assert_eq!(timer_panel(100, i32::MAX - 72).unwrap().width, i32::MAX);
    assert_eq!(timer_panel(100, i32::MAX - 71), None);
    assert_eq!(timer_panel(i32::MIN + 70, 0).unwrap().y, i32::MIN);
    assert_eq!(timer_panel(i32::MIN + 69, 0), None);
    assert!(timer_panel(i32::MAX, 0).is_some());
    // coins: width is text + 74, x is screen - (text + 74) - 12, y is screen - 68
    assert_eq!(coin_panel(i32::MAX, 0, i32::MAX - 74).unwrap().width, i32::MAX);
    assert_eq!(coin_panel(i32::MAX, 0, i32::MAX - 73), None);
    assert_eq!(coin_panel(0, i32::MIN + 68, 0).unwrap().y, i32::MIN);
    assert_eq!(coin_panel(0, i32::MIN + 67, 0), None);
    assert_eq!(coin_panel(i32::MIN + 86, 0, 0).unwrap().x, i32::MIN);
    assert_eq!(coin_panel(i32::MIN + 85, 0, 0), None);
}
