use raycaster::game::{bonus_seconds, start_level, time_left, Fade, Flow, GameState, Keys};
use raycaster::maze::Maze;

fn rows(lines: &[&str]) -> Maze {
    lines.iter().map(|l| l.chars().collect()).collect()
}

const NONE: Keys = Keys { enter: false, one: false, two: false, backspace: false };
const ENTER: Keys = Keys { enter: true, ..NONE };
const ONE: Keys = Keys { one: true, ..NONE };
const TWO: Keys = Keys { two: true, ..NONE };
const BACK: Keys = Keys { backspace: true, ..NONE };

fn on(state: GameState) -> Flow {
    Flow { state, fade: Fade::Idle, next_state: None }
}

#[test]
fn the_game_begins_on_the_welcome_screen() {
    assert_eq!(Flow::new(), on(GameState::Welcome));
}

#[test]
fn enter_leads_from_the_welcome_screen_to_the_level_picker() {
    let mut flow = Flow::new();
    assert_eq!(flow.press(NONE), None);
    assert_eq!(flow, Flow::new());
    assert_eq!(flow.press(ENTER), None);
    assert_eq!(flow, Flow { state: GameState::Welcome, fade: Fade::Out, next_state: Some(GameState::LevelPicker) });
    // the screen changes when the fade to black is complete
    flow.tick(false, true);
    assert_eq!(flow.state, GameState::Welcome);
    flow.tick(true, false);
    assert_eq!(flow, Flow { state: GameState::LevelPicker, fade: Fade::In, next_state: None });
    flow.tick(true, false);
    assert_eq!(flow.fade, Fade::In);
    flow.tick(false, true);
    assert_eq!(flow, on(GameState::LevelPicker));
}

#[test]
fn the_level_picker_starts_levels() {
    let mut flow = on(GameState::LevelPicker);
    assert_eq!(flow.press(ONE), Some(1));
    assert_eq!(flow.next_state, Some(GameState::Playing1));
    let mut flow = on(GameState::LevelPicker);
    assert_eq!(flow.press(TWO), Some(2));
    assert_eq!(flow.next_state, Some(GameState::Playing2));
    let mut flow = on(GameState::LevelPicker);
    assert_eq!(flow.press(Keys { one: true, two: true, backspace: true, enter: true }), Some(1));
    assert_eq!(flow.next_state, Some(GameState::Playing1));
    let mut flow = on(GameState::LevelPicker);
    assert_eq!(flow.press(BACK), None);
    assert_eq!(flow, Flow { state: GameState::LevelPicker, fade: Fade::Out, next_state: Some(GameState::Welcome) });
    let mut flow = on(GameState::LevelPicker);
    assert_eq!(flow.press(ENTER), None);
    assert_eq!(flow, on(GameState::LevelPicker));
}

#[test]
fn a_level_is_started_even_during_a_fade_but_the_fade_goes_on() {
    let mut flow = Flow { state: GameState::LevelPicker, fade: Fade::In, next_state: None };
    assert_eq!(flow.press(TWO), Some(2));
    assert_eq!(flow, Flow { state: GameState::LevelPicker, fade: Fade::In, next_state: None });
    let mut flow = Flow { state: GameState::Welcome, fade: Fade::Out, next_state: Some(GameState::LevelPicker) };
    flow.request(GameState::Win);
    assert_eq!(flow.next_state, Some(GameState::LevelPicker));
}

#[test]
fn the_end_screens_lead_back() {
    let mut flow = on(GameState::Lost);
    assert_eq!(flow.press(ENTER), None);
    assert_eq!(flow.next_state, Some(GameState::LevelPicker));
    let mut flow = on(GameState::Win);
    assert_eq!(flow.press(ENTER), None);
    assert_eq!(flow.next_state, Some(GameState::Welcome));
    for state in [GameState::Lost, GameState::Win] {
        let mut flow = on(state);
        assert_eq!(flow.press(Keys { one: true, two: true, backspace: true, enter: false }), None);
        assert_eq!(flow, on(state));
    }
}

#[test]
fn a_level_reacts_to_no_key() {
    for state in [GameState::Playing1, GameState::Playing2] {
        let mut flow = on(state);
        assert_eq!(flow.press(Keys { one: true, two: true, backspace: true, enter: true }), None);
        assert_eq!(flow, on(state));
    }
}

#[test]
fn a_fade_without_a_target_keeps_the_screen() {
    let mut flow = Flow { state: GameState::Lost, fade: Fade::Out, next_state: None };
    flow.tick(true, true);
    assert_eq!(flow, Flow { state: GameState::Lost, fade: Fade::In, next_state: None });
    let mut idle = on(GameState::Win);
    idle.tick(true, true);
    assert_eq!(idle, on(GameState::Win));
}

#[test]
fn a_level_starts_on_the_marked_cells() {
    let maze = rows(&["+----+", "|  p |", "|    |", "| g  |", "+----+"]);
    let level = start_level(&maze, 100, 1).unwrap();
    assert_eq!(level.keys_total, 5);
    assert_eq!(level.player, (350, 150));
    assert_eq!(level.portal, (250, 350));
    assert_eq!(level.coins.len(), 5);
    let level = start_level(&maze, 100, 2).unwrap();
    assert_eq!(level.keys_total, 8);
    assert_eq!(level.coins.len(), 8);
    assert_eq!(start_level(&maze, 100, 0).unwrap().keys_total, 8);
    assert_eq!(start_level(&maze, 100, 7).unwrap().keys_total, 8);
}

#[test]
fn a_level_without_marks_uses_the_corners() {
    let maze = rows(&["+----+", "|    |", "|    |", "+----+"]);
    let level = start_level(&maze, 10, 1).unwrap();
    assert_eq!(level.player, (15, 15));
    // one cell in from the far corner: column 6 - 2, row 4 - 2
    assert_eq!(level.portal, (45, 25));
    let small = rows(&["  ", "  "]);
    let level = start_level(&small, 10, 1).unwrap();
    assert_eq!(level.player, (15, 15));
    assert_eq!(level.portal, (5, 5));
    assert_eq!(level.coins.len(), 4);
}

#[test]
fn the_clock_counts_whole_seconds() {
    let s: u128 = 1_000_000_000;
    assert_eq!(time_left(60 * s, 0), 60);
    assert_eq!(time_left(60 * s, 1), 59);
    assert_eq!(time_left(60 * s, 59 * s), 1);
    assert_eq!(time_left(60 * s, 59 * s + 1), 0);
    assert_eq!(time_left(60 * s, 60 * s), 0);
    assert_eq!(time_left(60 * s, 61 * s), 0);
    assert_eq!(time_left(0, 0), 0);
    // cut to 32 bits
    assert_eq!(time_left((1u128 << 32) * s + 5 * s, 0), 5);
}

#[test]
fn each_coin_gained_adds_five_seconds() {
    assert_eq!(bonus_seconds(1, 0), 5);
    assert_eq!(bonus_seconds(5, 2), 15);
    assert_eq!(bonus_seconds(2, 2), 0);
    assert_eq!(bonus_seconds(1, 2), 0);
}

#[test]
fn no_level_begins_where_it_does_not_fit() {
    // without a goal cell the maze must be two by two at least
    assert!(start_level(&rows(&["p "]), 10, 1).is_none());
    assert!(start_level(&rows(&["p", " "]), 10, 1).is_none());
    assert!(start_level(&rows(&["", "  "]), 10, 1).is_none());
    assert!(start_level(&Vec::new(), 10, 1).is_none());
    assert!(start_level(&rows(&["pg"]), 10, 1).is_some());
    assert!(start_level(&rows(&["g"]), 10, 1).is_some());
    // the world must fit the machine's integers
    let maze = rows(&["pg ", "   "]);
    assert!(start_level(&maze, usize::MAX / 4, 1).is_some());
    assert!(start_level(&maze, usize::MAX / 4 + 1, 1).is_none());
    assert!(start_level(&rows(&["g"]), usize::MAX / 2, 1).is_some());
    assert!(start_level(&rows(&["g"]), usize::MAX / 2 + 1, 1).is_none());
}
