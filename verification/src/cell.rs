use vstd::prelude::*;

verus! {

/// The state of one grid cell. Before a loss only `Unrevealed`, `Revealed`
/// and `Flagged` occur; the remaining variants are the end-of-game
/// reclassification applied when a mine is clicked.
#[derive(Copy, Clone, PartialEq, Eq, Structural, Debug)]
pub enum MineFieldCell {
    Unrevealed,
    Revealed(u32),
    Flagged,
    Mine,
    ExplodedMine,
    CorrectlyFlagged,
    IncorrectlyFlagged,
}

#[derive(Copy, Clone, PartialEq, Eq, Structural, Debug)]
pub enum GameResult {
    Playing,
    Win,
    Lose,
}

/// What one flag toggle does to a cell: it swaps `Unrevealed` and `Flagged`
/// and leaves every other state alone.
pub open spec fn toggled_cell(c: MineFieldCell) -> MineFieldCell {
    match c {
        MineFieldCell::Unrevealed => MineFieldCell::Flagged,
        MineFieldCell::Flagged => MineFieldCell::Unrevealed,
        _ => c,
    }
}

/// Toggling a flag twice returns every cell to its original state.
pub proof fn lemma_toggle_twice(c: MineFieldCell)
    ensures
        toggled_cell(toggled_cell(c)) == c,
{
}

/// The end-of-game reclassification of one cell after a mine was clicked:
/// the clicked cell becomes `ExplodedMine`; unrevealed mines are shown as
/// `Mine`; flags are graded `CorrectlyFlagged` or `IncorrectlyFlagged`;
/// revealed cells are untouched.
pub open spec fn reclassify_cell(c: MineFieldCell, is_mine: bool, exploded: bool) -> MineFieldCell {
    if exploded {
        MineFieldCell::ExplodedMine
    } else {
        match c {
            MineFieldCell::Unrevealed => if is_mine {
                MineFieldCell::Mine
            } else {
                MineFieldCell::Unrevealed
            },
            MineFieldCell::Flagged => if is_mine {
                MineFieldCell::CorrectlyFlagged
            } else {
                MineFieldCell::IncorrectlyFlagged
            },
            _ => c,
        }
    }
}

} // verus!
