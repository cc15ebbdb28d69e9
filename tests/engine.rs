use snake::grid::{contents_of_square, get_empty_squares, wrap};
use snake::keys::classify_key;
use snake::model::{MAX_SPEED, MIN_SPEED};
use snake::{Banner, CellContents, DrawOp, Inner, Key, Vector2D};
use std::collections::VecDeque;

fn v(x: i32, y: i32) -> Vector2D {
    Vector2D { x, y }
}

fn layout(
    cols: u32,
    rows: u32,
    path: Vec<Vector2D>,
    direction: Vector2D,
    apples: Vec<Vector2D>,
    num_apples: usize,
) -> Inner {
    Inner::with_layout(cols, rows, path, true, direction, apples, num_apples).expect("valid layout")
}

fn assert_well_formed(e: &Inner) {
    let path = e.path();
    let apples = e.apples();
    for (i, a) in path.iter().enumerate() {
        assert!(a.x >= 0 && a.x < e.num_cols() && a.y >= 0 && a.y < e.num_rows());
        for b in path.iter().skip(i + 1) {
            assert_ne!(a, b);
        }
        assert!(!apples.contains(a));
    }
    for (i, a) in apples.iter().enumerate() {
        assert!(a.x >= 0 && a.x < e.num_cols() && a.y >= 0 && a.y < e.num_rows());
        for b in apples.iter().skip(i + 1) {
            assert_ne!(a, b);
        }
    }
    assert!(e.frames_until_update() <= e.frames_between_updates());
    assert!(MAX_SPEED <= e.frames_between_updates() && e.frames_between_updates() <= MIN_SPEED);
}

#[test]
fn new_game_starts_running_with_one_cell() {
    let e = Inner::new(20, 20);
    assert_eq!(e.path().len(), 1);
    let h = e.head();
    assert!(h.x >= 0 && h.x < 20 && h.y >= 0 && h.y < 20);
    assert_eq!(e.score(), 0);
    assert!(e.apples().is_empty());
    assert_eq!(e.num_apples(), 5);
    assert_eq!(e.direction(), v(1, 0));
    assert!(e.head_is_tail());
    assert_eq!(e.frames_between_updates(), MIN_SPEED);
    assert!(!e.is_paused() && !e.is_game_over() && !e.did_win() && !e.is_showing_focus_banner());
}

#[test]
fn new_game_on_single_cell_grid_uses_that_cell() {
    let e = Inner::new(1, 1);
    assert_eq!(e.path(), vec![v(0, 0)]);
}

#[test]
fn invariants_hold_over_many_ticks() {
    let mut e = Inner::new(6, 5);
    let keys = ["ArrowUp", "a", "ArrowLeft", " ", "f", "ArrowDown", "s", "ArrowRight", "a", "r"];
    for step in 0..400 {
        if step % 7 == 0 {
            e.handle_key(keys[(step / 7) % keys.len()].to_string());
        }
        e.tick();
        assert_well_formed(&e);
    }
}

#[test]
fn focus_banner_is_idempotent() {
    let mut once = Inner::new(4, 4);
    once.show_focus_banner();
    assert!(once.is_showing_focus_banner());
    once.show_focus_banner();
    assert!(once.is_showing_focus_banner());
    once.hide_focus_banner();
    assert!(!once.is_showing_focus_banner());
    once.hide_focus_banner();
    assert!(!once.is_showing_focus_banner());
}

#[test]
fn focus_banner_pauses_and_clears_keys() {
    let mut e = layout(10, 10, vec![v(1, 1)], v(1, 0), vec![], 0);
    e.show_focus_banner();
    e.handle_key("ArrowUp".to_string());
    e.tick();
    assert_eq!(e.path(), vec![v(1, 1)]);
    assert!(e.pending_keys().is_empty());
    assert_eq!(e.frames_until_update(), 0);
    e.hide_focus_banner();
    e.tick();
    assert_eq!(e.head(), v(2, 1));
}

#[test]
fn reset_restores_score_length_and_apples() {
    let mut e = layout(9, 7, vec![v(1, 1), v(2, 1), v(3, 1)], v(1, 0), vec![v(4, 1)], 5);
    e.tick();
    assert_eq!(e.score(), 1);
    e.handle_key("r".to_string());
    e.tick();
    assert_eq!(e.score(), 0);
    assert_eq!(e.path(), vec![v(4, 3)]);
    assert!(e.apples().is_empty());
    assert_eq!(e.frames_between_updates(), MIN_SPEED);
    for _ in 0..2 {
        e.tick();
        assert!(e.apples().is_empty());
    }
    e.tick();
    assert_eq!(e.score(), 0);
    assert_eq!(e.path(), vec![v(5, 3)]);
    assert_eq!(e.apples().len(), 5);
    assert_well_formed(&e);
}

#[test]
fn wrap_around_right_edge() {
    let mut e = layout(5, 4, vec![v(4, 2)], v(1, 0), vec![v(2, 0)], 1);
    e.update();
    assert_eq!(e.head(), v(0, 2));
    assert!(!e.is_game_over());
}

#[test]
fn wrap_around_left_and_top_edges() {
    let mut e = layout(5, 4, vec![v(0, 0)], v(-1, 0), vec![v(2, 2)], 1);
    e.update();
    assert_eq!(e.head(), v(4, 0));
    let mut f = layout(5, 4, vec![v(3, 0)], v(0, -1), vec![v(2, 2)], 1);
    f.update();
    assert_eq!(f.head(), v(3, 3));
}

#[test]
fn self_collision_blocks_without_death() {
    let path = vec![v(0, 0), v(1, 0), v(1, 1), v(0, 1)];
    let mut e = layout(5, 5, path.clone(), v(0, -1), vec![], 2);
    e.update();
    assert_eq!(e.path(), path);
    assert_eq!(e.score(), 0);
    assert_eq!(e.apples().len(), 2);
    assert!(!e.is_game_over());
    assert_well_formed(&e);
}

#[test]
fn growth_after_eating() {
    let mut e = layout(6, 6, vec![v(1, 1)], v(1, 0), vec![v(2, 1)], 1);
    e.update();
    assert_eq!(e.head(), v(2, 1));
    assert!(!e.apples().contains(&v(2, 1)));
    assert_eq!(e.score(), 1);
    assert!(e.is_growing());
    assert_eq!(e.path().len(), 1);
    assert_eq!(e.apples().len(), 1);
    e.update();
    assert_eq!(e.path().len(), 2);
    assert!(!e.is_growing() || e.score() == 2);
}

#[test]
fn input_buffer_drops_fourth_key_and_is_fifo() {
    let mut e = layout(20, 20, vec![v(10, 10)], v(1, 0), vec![], 0);
    e.handle_key("a".to_string());
    e.handle_key("s".to_string());
    e.handle_key("f".to_string());
    e.handle_key("ArrowUp".to_string());
    assert_eq!(e.pending_keys(), vec!["a".to_string(), "s".to_string(), "f".to_string()]);
    e.tick();
    assert_eq!(e.num_apples(), 1);
    assert_eq!(e.pending_keys(), vec!["s".to_string(), "f".to_string()]);
    assert_eq!(e.frames_until_update(), 3);
    e.tick();
    e.tick();
    e.tick();
    assert_eq!(e.frames_until_update(), 0);
    assert_eq!(e.pending_keys().len(), 2);
    e.tick();
    assert_eq!(e.frames_between_updates(), MIN_SPEED);
    assert_eq!(e.pending_keys(), vec!["f".to_string()]);
    for _ in 0..4 {
        e.tick();
    }
    assert_eq!(e.frames_until_update(), 2);
    assert_eq!(e.frames_between_updates(), 2);
    assert!(e.pending_keys().is_empty());
    assert_eq!(e.direction(), v(1, 0));
}

#[test]
fn win_when_grid_fills() {
    let mut e = layout(2, 1, vec![v(0, 0)], v(1, 0), vec![v(1, 0)], 1);
    e.update();
    assert_eq!(e.path(), vec![v(1, 0)]);
    assert_eq!(e.apples(), vec![v(0, 0)]);
    assert!(!e.is_game_over());
    e.update();
    assert_eq!(e.path(), vec![v(1, 0), v(0, 0)]);
    assert!(e.apples().is_empty());
    assert!(e.is_game_over());
    assert!(e.did_win());
    assert_eq!(e.score(), 2);
}

#[test]
fn enter_toggles_pause() {
    let mut e = layout(10, 10, vec![v(1, 1)], v(1, 0), vec![], 0);
    e.handle_key("Enter".to_string());
    e.handle_key("ArrowUp".to_string());
    e.tick();
    assert!(e.is_paused());
    assert!(e.pending_keys().is_empty());
    assert_eq!(e.head(), v(1, 1));
    e.handle_key("Enter".to_string());
    e.tick();
    assert!(!e.is_paused());
    assert_eq!(e.head(), v(2, 1));
}

#[test]
fn enter_after_game_over_resets() {
    let mut e = layout(2, 1, vec![v(0, 0)], v(1, 0), vec![v(1, 0)], 1);
    e.update();
    e.update();
    assert!(e.is_game_over());
    e.handle_key("ArrowUp".to_string());
    assert!(e.pending_keys().len() == 1);
    e.tick();
    assert!(e.pending_keys().is_empty());
    e.handle_key("Enter".to_string());
    e.tick();
    assert!(!e.is_game_over());
    assert!(!e.did_win());
    assert!(!e.is_paused());
    assert_eq!(e.score(), 0);
    assert_eq!(e.path(), vec![v(1, 0)]);
}

#[test]
fn direction_keys_set_heading() {
    let mut e = layout(10, 10, vec![v(5, 5)], v(1, 0), vec![], 0);
    let cases = [("ArrowUp", v(0, -1)), ("ArrowLeft", v(-1, 0)), ("ArrowDown", v(0, 1)), ("ArrowRight", v(1, 0))];
    for (key, dir) in cases {
        e.handle_key(key.to_string());
        e.process_key();
        assert_eq!(e.direction(), dir);
    }
}

#[test]
fn speed_keys_are_clamped() {
    let mut e = layout(10, 10, vec![v(5, 5)], v(1, 0), vec![], 0);
    for _ in 0..3 {
        e.handle_key("f".to_string());
        e.process_key();
    }
    assert_eq!(e.frames_between_updates(), MAX_SPEED);
    for _ in 0..3 {
        e.handle_key("s".to_string());
        e.process_key();
    }
    assert_eq!(e.frames_between_updates(), MIN_SPEED);
}

#[test]
fn space_reverses_the_snake() {
    let mut e = layout(10, 10, vec![v(1, 1), v(2, 1), v(3, 1)], v(-1, 0), vec![], 0);
    assert_eq!(e.head(), v(3, 1));
    e.handle_key(" ".to_string());
    e.process_key();
    assert!(!e.head_is_tail());
    assert_eq!(e.head(), v(1, 1));
    e.update();
    assert_eq!(e.path(), vec![v(0, 1), v(1, 1), v(2, 1)]);
}

#[test]
fn add_apple_key_raises_target() {
    let mut e = layout(10, 10, vec![v(5, 5)], v(1, 0), vec![], 2);
    e.handle_key("a".to_string());
    e.process_key();
    assert_eq!(e.num_apples(), 3);
    e.update();
    assert_eq!(e.apples().len(), 3);
    assert_well_formed(&e);
}

#[test]
fn pre_process_leaves_other_keys() {
    let mut e = layout(10, 10, vec![v(5, 5)], v(1, 0), vec![], 0);
    e.handle_key("x".to_string());
    e.handle_key("r".to_string());
    e.pre_process_keys();
    assert_eq!(e.pending_keys().len(), 2);
    e.process_key();
    e.pre_process_keys();
    assert!(e.pending_keys().is_empty());
    assert_eq!(e.path(), vec![v(5, 5)]);
    assert_eq!(e.frames_until_update(), MIN_SPEED);
}

#[test]
fn with_layout_rejects_invalid() {
    assert!(Inner::with_layout(0, 3, vec![v(0, 0)], true, v(1, 0), vec![], 1).is_none());
    assert!(Inner::with_layout(3, 3, vec![], true, v(1, 0), vec![], 1).is_none());
    assert!(Inner::with_layout(3, 3, vec![v(0, 0), v(0, 0)], true, v(1, 0), vec![], 1).is_none());
    assert!(Inner::with_layout(3, 3, vec![v(3, 0)], true, v(1, 0), vec![], 1).is_none());
    assert!(Inner::with_layout(3, 3, vec![v(0, 0)], true, v(1, 1), vec![], 1).is_none());
    assert!(Inner::with_layout(3, 3, vec![v(0, 0)], true, v(1, 0), vec![v(0, 0)], 1).is_none());
    assert!(Inner::with_layout(3, 3, vec![v(0, 0)], true, v(1, 0), vec![v(1, 1), v(1, 1)], 1).is_none());
    assert!(Inner::with_layout(3, 3, vec![v(0, 0)], true, v(1, 0), vec![v(1, 1)], 1).is_some());
}

#[test]
fn draw_lists_frame_in_order() {
    let mut e = layout(10, 10, vec![v(1, 1), v(2, 1), v(3, 1)], v(1, 0), vec![v(7, 7)], 1);
    assert_eq!(
        e.draw(),
        vec![
            DrawOp::Clear,
            DrawOp::Apple(v(7, 7)),
            DrawOp::Body(v(1, 1)),
            DrawOp::Body(v(2, 1)),
            DrawOp::Body(v(3, 1)),
            DrawOp::Tail(v(1, 1)),
            DrawOp::Head(v(3, 1), 90),
        ]
    );
    e.show_focus_banner();
    assert_eq!(e.draw().last(), Some(&DrawOp::Banner(Banner::LostFocus)));
    e.handle_key("Enter".to_string());
    e.tick();
    assert_eq!(e.draw().last(), Some(&DrawOp::Banner(Banner::Paused)));
}

#[test]
fn draw_shows_win_banner_and_heading() {
    let mut e = layout(2, 1, vec![v(0, 0)], v(1, 0), vec![v(1, 0)], 1);
    e.update();
    e.update();
    assert_eq!(e.draw().last(), Some(&DrawOp::Banner(Banner::YouWon)));
    let mut f = layout(5, 5, vec![v(2, 2)], v(1, 0), vec![], 0);
    f.handle_key("ArrowUp".to_string());
    f.process_key();
    assert!(f.draw().contains(&DrawOp::Head(v(2, 2), 0)));
    f.handle_key("ArrowLeft".to_string());
    f.process_key();
    assert!(f.draw().contains(&DrawOp::Head(v(2, 2), 270)));
    f.handle_key("ArrowDown".to_string());
    f.process_key();
    assert!(f.draw().contains(&DrawOp::Head(v(2, 2), 180)));
}

#[test]
fn banner_texts() {
    assert_eq!(Banner::Paused.text(), "PAUSED");
    assert_eq!(Banner::GameOver.text(), "GAME OVER");
    assert_eq!(Banner::YouWon.text(), "YOU WON!!!");
    assert_eq!(Banner::LostFocus.text(), "LOST FOCUS");
}

#[test]
fn keys_are_classified() {
    assert_eq!(classify_key("ArrowUp"), Key::Up);
    assert_eq!(classify_key("ArrowDown"), Key::Down);
    assert_eq!(classify_key("ArrowLeft"), Key::Left);
    assert_eq!(classify_key("ArrowRight"), Key::Right);
    assert_eq!(classify_key("r"), Key::Reset);
    assert_eq!(classify_key("Enter"), Key::PauseResume);
    assert_eq!(classify_key("a"), Key::AddApple);
    assert_eq!(classify_key(" "), Key::Reverse);
    assert_eq!(classify_key("s"), Key::Slower);
    assert_eq!(classify_key("f"), Key::Faster);
    assert_eq!(classify_key("R"), Key::Other);
    assert_eq!(classify_key(""), Key::Other);
    assert_eq!(classify_key("Arrow"), Key::Other);
}

#[test]
fn wrap_values() {
    assert_eq!(wrap(-1, 7), 6);
    assert_eq!(wrap(7, 7), 0);
    assert_eq!(wrap(3, 7), 3);
    assert_eq!(wrap(0, 1), 0);
}

#[test]
fn occupancy_and_empty_cells() {
    let path: VecDeque<Vector2D> = vec![v(0, 0), v(0, 1)].into_iter().collect();
    let apples = vec![v(1, 0)];
    assert_eq!(contents_of_square(&path, &apples, 0, 1), CellContents::Snake);
    assert_eq!(contents_of_square(&path, &apples, 1, 0), CellContents::Apple);
    assert_eq!(contents_of_square(&path, &apples, 1, 1), CellContents::Empty);
    assert_eq!(get_empty_squares(2, 3, &path, &apples), vec![v(0, 2), v(1, 1), v(1, 2)]);
    let full = vec![v(0, 2), v(1, 1), v(1, 2), v(1, 0)];
    assert!(get_empty_squares(2, 3, &path, &full).is_empty());
}

#[test]
fn apples_fill_every_empty_cell() {
    let mut e = layout(2, 2, vec![v(0, 0)], v(0, 1), vec![], 5);
    e.update();
    assert_eq!(e.path(), vec![v(0, 1)]);
    let mut apples = e.apples();
    apples.sort_by_key(|c| (c.x, c.y));
    assert_eq!(apples, vec![v(0, 0), v(1, 0), v(1, 1)]);
    assert!(!e.is_game_over());
}
