use minesweeper_core::{GameLogicInner, GameResult, GameSetting, GameState, MineFieldCell};

fn custom(w: u32, h: u32, m: u32) -> GameSetting {
    GameSetting::Custom { mine_field_width: w, mine_field_height: h, mine_num: m }
}

fn count_cells(state: &GameState, pred: impl Fn(&MineFieldCell) -> bool) -> usize {
    state.mine_field_cells.iter().filter(|c| pred(c)).count()
}

fn states_equal(a: &GameState, b: &GameState) -> bool {
    a.setting == b.setting
        && a.game_result == b.game_result
        && a.mine_field_cells == b.mine_field_cells
}

#[test]
fn preset_dimensions() {
    assert_eq!(GameSetting::Easy.mine_field_width(), 9);
    assert_eq!(GameSetting::Easy.mine_field_height(), 9);
    assert_eq!(GameSetting::Easy.mine_num(), 10);
    assert_eq!(GameSetting::Medium.mine_field_width(), 16);
    assert_eq!(GameSetting::Medium.mine_field_height(), 16);
    assert_eq!(GameSetting::Medium.mine_num(), 40);
    assert_eq!(GameSetting::Hard.mine_field_width(), 30);
    assert_eq!(GameSetting::Hard.mine_field_height(), 16);
    assert_eq!(GameSetting::Hard.mine_num(), 99);
    let c = custom(5, 4, 3);
    assert_eq!(c.mine_field_width(), 5);
    assert_eq!(c.mine_field_height(), 4);
    assert_eq!(c.mine_num(), 3);
}

#[test]
fn validate_settings() {
    assert!(GameSetting::Easy.verify());
    assert!(GameSetting::Medium.verify());
    assert!(GameSetting::Hard.verify());
    assert!(custom(2, 2, 1).verify());
    assert!(custom(2, 2, 3).verify());
    assert!(custom(100, 100, 9999).verify());
    assert!(!custom(1, 5, 2).verify());
    assert!(!custom(0, 5, 2).verify());
    assert!(!custom(5, 1, 2).verify());
    assert!(!custom(5, 0, 2).verify());
    assert!(!custom(5, 5, 0).verify());
    assert!(!custom(5, 5, 25).verify());
    assert!(!custom(5, 5, 26).verify());
    assert!(!custom(2, 2, 4).verify());
}

#[test]
fn fresh_game_state() {
    let state = GameState::new();
    assert!(matches!(state.setting, GameSetting::Easy));
    assert_eq!(state.mine_field_cells.len(), 81);
    assert!(state
        .mine_field_cells
        .iter()
        .all(|c| matches!(c, MineFieldCell::Unrevealed)));
    assert!(matches!(state.game_result, GameResult::Playing));
}

#[test]
fn fresh_game_logic() {
    let game = GameLogicInner::new();
    let state = game.get_state();
    assert!(matches!(state.setting, GameSetting::Easy));
    assert_eq!(state.mine_field_cells.len(), 81);
    assert!(state
        .mine_field_cells
        .iter()
        .all(|c| matches!(c, MineFieldCell::Unrevealed)));
    assert!(matches!(state.game_result, GameResult::Playing));
}

#[test]
fn restart_applies_setting() {
    let mut game = GameLogicInner::new();
    assert!(game.restart_game(Some(custom(5, 4, 3))));
    let state = game.get_state();
    assert_eq!(state.setting, custom(5, 4, 3));
    assert_eq!(state.mine_field_cells.len(), 20);
    assert!(state
        .mine_field_cells
        .iter()
        .all(|c| matches!(c, MineFieldCell::Unrevealed)));
    assert!(matches!(state.game_result, GameResult::Playing));

    // A restart without a setting keeps the current one and resets the board.
    assert!(game.reveal_mine_field_cell(0, 0));
    assert!(game.restart_game(None));
    let state = game.get_state();
    assert_eq!(state.setting, custom(5, 4, 3));
    assert!(state
        .mine_field_cells
        .iter()
        .all(|c| matches!(c, MineFieldCell::Unrevealed)));
    assert!(matches!(state.game_result, GameResult::Playing));
}

#[test]
fn restart_rejects_invalid_setting() {
    let mut game = GameLogicInner::new();
    assert!(game.reveal_mine_field_cell(4, 4));
    let before = game.get_state();
    assert!(!game.restart_game(Some(custom(1, 5, 2))));
    assert!(!game.restart_game(Some(custom(5, 5, 0))));
    assert!(!game.restart_game(Some(custom(5, 5, 25))));
    let after = game.get_state();
    assert!(states_equal(&before, &after));
}

#[test]
fn first_reveal_is_never_a_mine() {
    let mut game = GameLogicInner::new();
    for _ in 0..10_000 {
        assert!(game.restart_game(None));
        assert!(game.reveal_mine_field_cell(4, 4));
        let state = game.get_state();
        assert!(!matches!(state.game_result, GameResult::Lose));
        let clicked = &state.mine_field_cells[4 * 9 + 4];
        assert!(matches!(clicked, MineFieldCell::Revealed(_)));
    }
}

#[test]
fn revealing_out_of_bounds_or_twice_fails() {
    let mut game = GameLogicInner::new();
    assert!(!game.reveal_mine_field_cell(9, 0));
    assert!(!game.reveal_mine_field_cell(0, 9));
    assert!(!game.reveal_mine_field_cell(1000, 1000));
    let before = game.get_state();
    assert!(before
        .mine_field_cells
        .iter()
        .all(|c| matches!(c, MineFieldCell::Unrevealed)));
    assert!(game.reveal_mine_field_cell(4, 4));
    // The clicked cell is no longer unrevealed, so a second click fails.
    assert!(!game.reveal_mine_field_cell(4, 4));
}

#[test]
fn flood_fill_reveals_closed_zero_region() {
    // After any reveal, no revealed zero-count cell may still have an
    // unrevealed neighbor: the connected zero region and its numbered
    // border were all revealed.
    let mut game = GameLogicInner::new();
    for _ in 0..200 {
        assert!(game.restart_game(None));
        assert!(game.reveal_mine_field_cell(4, 4));
        let state = game.get_state();
        if matches!(state.game_result, GameResult::Playing) {
            check_zero_region_closure(&state, 9, 9);
        }
    }
    // The same on a sparse custom grid with a large zero region.
    for _ in 0..200 {
        assert!(game.restart_game(Some(custom(8, 8, 1))));
        assert!(game.reveal_mine_field_cell(0, 0));
        let state = game.get_state();
        if matches!(state.game_result, GameResult::Playing) {
            check_zero_region_closure(&state, 8, 8);
        }
    }
}

fn check_zero_region_closure(state: &GameState, w: i64, h: i64) {
    for y in 0..h {
        for x in 0..w {
            let cell = &state.mine_field_cells[(y * w + x) as usize];
            if !matches!(cell, MineFieldCell::Revealed(0)) {
                continue;
            }
            for dx in -1..=1i64 {
                for dy in -1..=1i64 {
                    if dx == 0 && dy == 0 {
                        continue;
                    }
                    let (nx, ny) = (x + dx, y + dy);
                    if nx < 0 || nx >= w || ny < 0 || ny >= h {
                        continue;
                    }
                    let neighbor = &state.mine_field_cells[(ny * w + nx) as usize];
                    assert!(
                        !matches!(neighbor, MineFieldCell::Unrevealed),
                        "zero cell ({}, {}) has unrevealed neighbor ({}, {})",
                        x,
                        y,
                        nx,
                        ny
                    );
                }
            }
        }
    }
}

#[test]
fn win_after_revealing_all_safe_cells() {
    // 2x2 grid with one mine: three safe cells, the third safe reveal wins.
    let mut game = GameLogicInner::new();
    let mut saw_win = false;
    for _ in 0..1000 {
        assert!(game.restart_game(Some(custom(2, 2, 1))));
        assert!(game.reveal_mine_field_cell(0, 0));
        assert!(matches!(game.get_state().game_result, GameResult::Playing));
        assert!(game.reveal_mine_field_cell(1, 0));
        if matches!(game.get_state().game_result, GameResult::Lose) {
            continue;
        }
        assert!(matches!(game.get_state().game_result, GameResult::Playing));
        assert!(game.reveal_mine_field_cell(0, 1));
        if matches!(game.get_state().game_result, GameResult::Lose) {
            continue;
        }
        // Third safe cell revealed: the game is won immediately.
        assert!(matches!(game.get_state().game_result, GameResult::Win));
        saw_win = true;
        // A finished game ignores further reveals and toggles.
        let before = game.get_state();
        assert!(!game.reveal_mine_field_cell(1, 1));
        assert!(!game.toggle_flag_on_mine_field_cell(1, 1));
        let after = game.get_state();
        assert!(states_equal(&before, &after));
        break;
    }
    assert!(saw_win);
}

#[test]
fn loss_reclassifies_the_board() {
    let mut game = GameLogicInner::new();
    let mut saw_loss = false;
    for _ in 0..200 {
        assert!(game.restart_game(None));
        'sweep: for y in 0..9 {
            for x in 0..9 {
                game.reveal_mine_field_cell(x, y);
                if !matches!(game.get_state().game_result, GameResult::Playing) {
                    break 'sweep;
                }
            }
        }
        let state = game.get_state();
        if !matches!(state.game_result, GameResult::Lose) {
            continue;
        }
        saw_loss = true;
        // Exactly one exploded mine, and all ten mines are accounted for.
        assert_eq!(
            count_cells(&state, |c| matches!(c, MineFieldCell::ExplodedMine)),
            1
        );
        assert_eq!(
            count_cells(&state, |c| matches!(
                c,
                MineFieldCell::Mine | MineFieldCell::ExplodedMine | MineFieldCell::CorrectlyFlagged
            )),
            10
        );
        // No flags were set, so no flag grades appear.
        assert_eq!(
            count_cells(&state, |c| matches!(
                c,
                MineFieldCell::CorrectlyFlagged | MineFieldCell::IncorrectlyFlagged
            )),
            0
        );
        // A lost game ignores further reveals and toggles.
        let before = game.get_state();
        assert!(!game.reveal_mine_field_cell(0, 0));
        assert!(!game.toggle_flag_on_mine_field_cell(0, 0));
        let after = game.get_state();
        assert!(states_equal(&before, &after));
        break;
    }
    assert!(saw_loss);
}

#[test]
fn loss_grades_flags() {
    // Flag every cell of one row, then lose: each flag is graded by whether
    // it covered a mine, and flagged mines are not shown as plain mines.
    let mut game = GameLogicInner::new();
    let mut saw_loss = false;
    for _ in 0..200 {
        assert!(game.restart_game(None));
        assert!(game.reveal_mine_field_cell(4, 4));
        for x in 0..9 {
            game.toggle_flag_on_mine_field_cell(x, 0);
        }
        // The flood fill may already have revealed part of the row; only
        // cells that actually became flags are graded on loss.
        let flagged: Vec<usize> = game
            .get_state()
            .mine_field_cells
            .iter()
            .take(9)
            .enumerate()
            .filter(|(_, c)| matches!(c, MineFieldCell::Flagged))
            .map(|(i, _)| i)
            .collect();
        'sweep: for y in 1..9 {
            for x in 0..9 {
                game.reveal_mine_field_cell(x, y);
                if !matches!(game.get_state().game_result, GameResult::Playing) {
                    break 'sweep;
                }
            }
        }
        let state = game.get_state();
        if !matches!(state.game_result, GameResult::Lose) {
            continue;
        }
        saw_loss = true;
        for &x in &flagged {
            let cell = &state.mine_field_cells[x];
            assert!(
                matches!(
                    cell,
                    MineFieldCell::CorrectlyFlagged | MineFieldCell::IncorrectlyFlagged
                ),
                "flagged cell {} was not graded: {:?}",
                x,
                cell
            );
        }
        assert_eq!(
            count_cells(&state, |c| matches!(
                c,
                MineFieldCell::Mine | MineFieldCell::ExplodedMine | MineFieldCell::CorrectlyFlagged
            )),
            10
        );
        break;
    }
    assert!(saw_loss);
}

#[test]
fn toggle_flag_roundtrip() {
    let mut game = GameLogicInner::new();
    assert!(game.toggle_flag_on_mine_field_cell(0, 0));
    assert!(matches!(
        game.get_state().mine_field_cells[0],
        MineFieldCell::Flagged
    ));
    assert!(game.toggle_flag_on_mine_field_cell(0, 0));
    assert!(matches!(
        game.get_state().mine_field_cells[0],
        MineFieldCell::Unrevealed
    ));
}

#[test]
fn toggle_flag_edge_cases() {
    let mut game = GameLogicInner::new();
    assert!(!game.toggle_flag_on_mine_field_cell(9, 0));
    assert!(!game.toggle_flag_on_mine_field_cell(0, 9));
    // A flagged cell cannot be revealed.
    assert!(game.toggle_flag_on_mine_field_cell(0, 0));
    assert!(!game.reveal_mine_field_cell(0, 0));
    assert!(matches!(
        game.get_state().mine_field_cells[0],
        MineFieldCell::Flagged
    ));
    // Toggling a revealed cell succeeds but changes nothing.
    assert!(game.reveal_mine_field_cell(4, 4));
    let before = game.get_state();
    assert!(game.toggle_flag_on_mine_field_cell(4, 4));
    let after = game.get_state();
    assert!(states_equal(&before, &after));
}

#[test]
fn grid2index_is_row_major() {
    let game = GameLogicInner::new();
    assert_eq!(game.grid2index(0, 0), 0);
    assert_eq!(game.grid2index(8, 0), 8);
    assert_eq!(game.grid2index(0, 1), 9);
    assert_eq!(game.grid2index(4, 4), 40);
    assert_eq!(game.grid2index(8, 8), 80);
}

#[test]
fn surrounding_grids_clips_and_orders() {
    let game = GameLogicInner::new();
    assert_eq!(
        game.surrounding_grids(4, 4),
        vec![
            (3, 3),
            (3, 4),
            (3, 5),
            (4, 3),
            (4, 5),
            (5, 3),
            (5, 4),
            (5, 5)
        ]
    );
    assert_eq!(game.surrounding_grids(0, 0), vec![(0, 1), (1, 0), (1, 1)]);
    assert_eq!(game.surrounding_grids(8, 8), vec![(7, 7), (7, 8), (8, 7)]);
    assert_eq!(
        game.surrounding_grids(0, 4),
        vec![(0, 3), (0, 5), (1, 3), (1, 4), (1, 5)]
    );
}

#[test]
fn forced_mine_reveal_explodes_that_cell() {
    let mut game = GameLogicInner::new();
    assert!(game.reveal_mine_field_cell(4, 4));
    if !matches!(game.get_state().game_result, GameResult::Playing) {
        return;
    }
    // Treating a chosen cell as the clicked mine reclassifies the board.
    game.on_mine_revealed(0);
    let state = game.get_state();
    assert!(matches!(state.game_result, GameResult::Lose));
    assert!(matches!(
        state.mine_field_cells[0],
        MineFieldCell::ExplodedMine
    ));
}
