use vstd::prelude::*;

use crate::cell::{reclassify_cell, toggled_cell, GameResult, MineFieldCell};
use crate::model::{
    cell_index, contains_pt, count_safe_hidden, count_unrevealed, flood_violation,
    has_unrevealed_neighbor, in_grid, lemma_cell_index_bounds, lemma_cell_index_injective,
    lemma_count_all_hidden, lemma_count_members_distinct, lemma_count_safe_hidden_update,
    lemma_count_unrevealed_le, lemma_count_unrevealed_update, lemma_swap_keeps_distinct,
    lemma_violation_update_to_revealed, lemma_zero_count_neighbor_safe, mine_at, mine_in_grid_at,
    mines_ok, neighbor_mine_count, remap_index, unrevealed_in_grid_at,
};
use crate::setting::GameSetting;

verus! {

/// An immutable snapshot of a game, handed out for rendering.
pub struct GameState {
    pub setting: GameSetting,
    pub mine_field_cells: Vec<MineFieldCell>,
    pub game_result: GameResult,
}

fn make_unrevealed_cells(n: usize) -> (v: Vec<MineFieldCell>)
    ensures
        v@.len() == n,
        forall|i: int| 0 <= i < n ==> v@[i] == MineFieldCell::Unrevealed,
{
    let mut v: Vec<MineFieldCell> = Vec::new();
    let mut i: usize = 0;
    while i < n
        invariant
            i <= n,
            v@.len() == i,
            forall|j: int| 0 <= j < i ==> v@[j] == MineFieldCell::Unrevealed,
        decreases n - i,
    {
        v.push(MineFieldCell::Unrevealed);
        i += 1;
    }
    v
}

fn copy_cells(v: &Vec<MineFieldCell>) -> (r: Vec<MineFieldCell>)
    ensures
        r@ == v@,
{
    let mut r: Vec<MineFieldCell> = Vec::new();
    let mut i: usize = 0;
    while i < v.len()
        invariant
            i <= v@.len(),
            r@.len() == i,
            forall|j: int| 0 <= j < i ==> r@[j] == v@[j],
        decreases v@.len() - i,
    {
        r.push(v[i]);
        i += 1;
    }
    proof {
        assert(r@ =~= v@);
    }
    r
}

/// Relies on rand::Rng::random_range over the range `lo..hi`: a uniformly
/// distributed value in `[lo, hi)`; it panics only on an empty range, which
/// the precondition rules out. Nothing more is assumed of the outcome.
#[verifier::external_body]
fn random_index_in(lo: usize, hi: usize) -> (r: usize)
    requires
        lo < hi,
    ensures
        lo <= r < hi,
{
    rand::Rng::random_range(&mut rand::rng(), lo..hi)
}

impl GameState {
    /// A fresh snapshot for the default (easiest) preset: all cells
    /// unrevealed, result `Playing`.
    pub fn new() -> (r: GameState)
        ensures
            r.setting == GameSetting::Easy,
            r.mine_field_cells@.len() == GameSetting::Easy.num_cells(),
            forall|i: int|
                0 <= i < r.mine_field_cells@.len() ==> r.mine_field_cells@[i]
                    == MineFieldCell::Unrevealed,
            r.game_result == GameResult::Playing,
    {
        let setting = GameSetting::Easy;
        proof {
            assert(9int * 9int == 81) by (nonlinear_arith);
            assert(setting.num_cells() == 81);
        }
        let mine_field_cells = make_unrevealed_cells(81);
        GameState { setting, mine_field_cells, game_result: GameResult::Playing }
    }
}

/// The rules engine: the current setting, the per-cell states in row-major
/// order, the lazily placed mine indexes, the number of safe cells still to
/// reveal, and the game result.
pub struct GameLogicInner {
    setting: GameSetting,
    mine_field_cells: Vec<MineFieldCell>,
    mine_cell_indexes: Option<Vec<usize>>,
    to_reveal_cell_num: usize,
    game_result: GameResult,
}

impl GameLogicInner {
    pub closed spec fn spec_setting(&self) -> GameSetting {
        self.setting
    }

    pub closed spec fn cells(&self) -> Seq<MineFieldCell> {
        self.mine_field_cells@
    }

    pub closed spec fn result(&self) -> GameResult {
        self.game_result
    }

    pub closed spec fn to_reveal(&self) -> int {
        self.to_reveal_cell_num as int
    }

    /// Whether the lazily initialized mine set has been computed.
    pub closed spec fn mines_placed(&self) -> bool {
        self.mine_cell_indexes is Some
    }

    /// The mine cell indexes, once placed.
    pub closed spec fn mines(&self) -> Seq<usize> {
        match self.mine_cell_indexes {
            Option::Some(v) => v@,
            Option::None => Seq::empty(),
        }
    }

    pub open spec fn grid_w(&self) -> int {
        self.spec_setting().spec_width() as int
    }

    pub open spec fn grid_h(&self) -> int {
        self.spec_setting().spec_height() as int
    }

    pub open spec fn n_cells(&self) -> int {
        self.spec_setting().num_cells()
    }

    pub open spec fn m_num(&self) -> int {
        self.spec_setting().spec_mine_num() as int
    }

    /// The internal invariant: the setting is within bounds, the grid has
    /// exactly width * height cells, the mine set (once placed) holds
    /// `m_num` distinct in-range indexes, the reveal countdown equals the
    /// number of safe cells not yet revealed, every revealed cell shows its
    /// true neighbor mine count, and the end-of-game cell states appear
    /// only after a loss.
    pub closed spec fn wf(&self) -> bool {
        &&& self.setting.ok()
        &&& self.n_cells() <= usize::MAX as int
        &&& self.cells().len() == self.n_cells()
        &&& (self.game_result != GameResult::Lose ==> forall|i: int|
            0 <= i < self.cells().len() ==> ((#[trigger] self.cells()[i]) is Unrevealed
                || self.cells()[i] is Revealed || self.cells()[i] is Flagged))
        &&& (self.game_result == GameResult::Playing ==> self.to_reveal() >= 1)
        &&& (self.game_result == GameResult::Win ==> self.to_reveal() == 0)
        &&& match self.mine_cell_indexes {
            Option::None => {
                &&& self.to_reveal() == self.n_cells() - self.m_num()
                &&& self.game_result == GameResult::Playing
                &&& forall|i: int|
                    0 <= i < self.cells().len() ==> !((#[trigger] self.cells()[i]) is Revealed)
            },
            Option::Some(v) => {
                &&& v@.len() == self.m_num()
                &&& mines_ok(v@, self.n_cells())
                &&& (self.game_result != GameResult::Lose ==> self.to_reveal()
                    == count_safe_hidden(self.cells(), v@, self.n_cells()))
                &&& forall|x: int, y: int|
                    in_grid(self.grid_w(), self.grid_h(), x, y) ==> ((#[trigger] self.cells()[
                        cell_index(self.grid_w(), x, y)
                    ]) matches MineFieldCell::Revealed(c) ==> c as int == neighbor_mine_count(
                        v@,
                        self.grid_w(),
                        self.grid_h(),
                        x,
                        y,
                    ))
            },
        }
    }

    fn fresh(setting: GameSetting) -> (r: GameLogicInner)
        requires
            setting.ok(),
            setting.num_cells() <= usize::MAX as int,
        ensures
            r.wf(),
            r.spec_setting() == setting,
            r.cells().len() == setting.num_cells(),
            forall|i: int| 0 <= i < r.cells().len() ==> r.cells()[i] == MineFieldCell::Unrevealed,
            !r.mines_placed(),
            r.to_reveal() == setting.num_cells() - setting.spec_mine_num(),
            r.result() == GameResult::Playing,
    {
        let w = setting.mine_field_width();
        let h = setting.mine_field_height();
        let num_cells: usize = (w as usize) * (h as usize);
        let mine_num: usize = setting.mine_num() as usize;
        let mine_field_cells = make_unrevealed_cells(num_cells);
        GameLogicInner {
            setting,
            mine_field_cells,
            mine_cell_indexes: Option::None,
            to_reveal_cell_num: num_cells - mine_num,
            game_result: GameResult::Playing,
        }
    }

    /// A fresh game with the default (easiest) preset: all cells unrevealed,
    /// mines not yet placed, result `Playing`.
    pub fn new() -> (r: GameLogicInner)
        ensures
            r.wf(),
            r.spec_setting() == GameSetting::Easy,
            r.cells().len() == GameSetting::Easy.num_cells(),
            forall|i: int| 0 <= i < r.cells().len() ==> r.cells()[i] == MineFieldCell::Unrevealed,
            !r.mines_placed(),
            r.to_reveal() == GameSetting::Easy.num_cells() - GameSetting::Easy.spec_mine_num(),
            r.result() == GameResult::Playing,
    {
        Self::fresh(GameSetting::Easy)
    }

    /// An immutable copy of the setting, the cell states and the result;
    /// never mutates, safe to call at any time.
    pub fn get_state(&self) -> (r: GameState)
        ensures
            r.setting == self.spec_setting(),
            r.mine_field_cells@ == self.cells(),
            r.game_result == self.result(),
    {
        GameState {
            setting: self.setting,
            mine_field_cells: copy_cells(&self.mine_field_cells),
            game_result: self.game_result,
        }
    }

    /// Re-initializes the game in place: with `Some(s)` the setting becomes
    /// `s`, with `None` the current setting is kept. Fails (returning false
    /// and mutating nothing) iff the effective setting is invalid; on
    /// success all cells are unrevealed again, the mine set is cleared, the
    /// countdown is reset and the result is `Playing`.
    pub fn restart_game(&mut self, setting: Option<GameSetting>) -> (r: bool)
        requires
            old(self).wf(),
            match setting {
                Option::Some(s) => s.spec_valid() ==> s.num_cells() <= usize::MAX as int,
                Option::None => true,
            },
        ensures
            final(self).wf(),
            r == match setting {
                Option::Some(s) => s.spec_valid(),
                Option::None => true,
            },
            !r ==> *final(self) == *old(self),
            r ==> final(self).spec_setting() == match setting {
                Option::Some(s) => s,
                Option::None => old(self).spec_setting(),
            },
            r ==> final(self).cells().len() == final(self).n_cells(),
            r ==> forall|i: int|
                0 <= i < final(self).cells().len() ==> final(self).cells()[i]
                    == MineFieldCell::Unrevealed,
            r ==> !final(self).mines_placed(),
            r ==> final(self).to_reveal() == final(self).n_cells() - final(self).m_num(),
            r ==> final(self).result() == GameResult::Playing,
    {
        let s = match setting {
            Option::Some(s) => s,
            Option::None => self.setting,
        };
        proof {
            if !(setting is Some) {
                // The stored setting satisfies `ok`, hence also `verify`.
                assert(s.spec_valid());
            }
        }
        if !s.verify() {
            return false;
        }
        proof {
            s.lemma_valid_implies_ok();
        }
        *self = Self::fresh(s);
        true
    }

    /// Row-major index of (x, y): y * width + x.
    pub fn grid2index(&self, x: u32, y: u32) -> (r: usize)
        requires
            in_grid(self.grid_w(), self.grid_h(), x as int, y as int),
            self.n_cells() <= usize::MAX as int,
        ensures
            r as int == cell_index(self.grid_w(), x as int, y as int),
            (r as int) < self.n_cells(),
    {
        proof {
            lemma_cell_index_bounds(self.grid_w(), self.grid_h(), x as int, y as int);
        }
        let w = self.setting.mine_field_width();
        (y as usize) * (w as usize) + (x as usize)
    }

    fn has_mine_at(&self, i: usize) -> (r: bool)
        requires
            self.mines_placed(),
        ensures
            r == mine_at(self.mines(), i as int),
    {
        let v = match &self.mine_cell_indexes {
            Option::Some(v) => v,
            Option::None => unreached(),
        };
        let mut k: usize = 0;
        while k < v.len()
            invariant
                k <= v@.len(),
                v@ == self.mines(),
                forall|j: int| 0 <= j < k ==> (#[trigger] v@[j]) != i,
            decreases v@.len() - k,
        {
            if v[k] == i {
                proof {
                    assert((self.mines()[k as int]) as int == i as int);
                }
                return true;
            }
            k += 1;
        }
        false
    }

    fn count_surrounding_mines(&self, x: u32, y: u32) -> (c: u32)
        requires
            self.mines_placed(),
            self.n_cells() <= usize::MAX as int,
            in_grid(self.grid_w(), self.grid_h(), x as int, y as int),
        ensures
            c as int == neighbor_mine_count(
                self.mines(),
                self.grid_w(),
                self.grid_h(),
                x as int,
                y as int,
            ),
            c <= 8,
    {
        let ghost m = self.mines();
        let ghost gw = self.grid_w();
        let ghost gh = self.grid_h();
        let ghost t1 = mine_in_grid_at(m, gw, gh, x as int - 1, y as int - 1);
        let ghost t2 = mine_in_grid_at(m, gw, gh, x as int - 1, y as int);
        let ghost t3 = mine_in_grid_at(m, gw, gh, x as int - 1, y as int + 1);
        let ghost t4 = mine_in_grid_at(m, gw, gh, x as int, y as int - 1);
        let ghost t5 = mine_in_grid_at(m, gw, gh, x as int, y as int + 1);
        let ghost t6 = mine_in_grid_at(m, gw, gh, x as int + 1, y as int - 1);
        let ghost t7 = mine_in_grid_at(m, gw, gh, x as int + 1, y as int);
        let ghost t8 = mine_in_grid_at(m, gw, gh, x as int + 1, y as int + 1);
        let w = self.setting.mine_field_width();
        let h = self.setting.mine_field_height();
        let mut c: u32 = 0;
        if x >= 1 && y >= 1 && self.has_mine_at(self.grid2index(x - 1, y - 1)) {
            c += 1;
        }
        proof {
            assert(c as int == t1);
        }
        if x >= 1 && self.has_mine_at(self.grid2index(x - 1, y)) {
            c += 1;
        }
        proof {
            assert(c as int == t1 + t2);
        }
        if x >= 1 && y + 1 < h && self.has_mine_at(self.grid2index(x - 1, y + 1)) {
            c += 1;
        }
        proof {
            assert(c as int == t1 + t2 + t3);
        }
        if y >= 1 && self.has_mine_at(self.grid2index(x, y - 1)) {
            c += 1;
        }
        proof {
            assert(c as int == t1 + t2 + t3 + t4);
        }
        if y + 1 < h && self.has_mine_at(self.grid2index(x, y + 1)) {
            c += 1;
        }
        proof {
            assert(c as int == t1 + t2 + t3 + t4 + t5);
        }
        if x + 1 < w && y >= 1 && self.has_mine_at(self.grid2index(x + 1, y - 1)) {
            c += 1;
        }
        proof {
            assert(c as int == t1 + t2 + t3 + t4 + t5 + t6);
        }
        if x + 1 < w && self.has_mine_at(self.grid2index(x + 1, y)) {
            c += 1;
        }
        proof {
            assert(c as int == t1 + t2 + t3 + t4 + t5 + t6 + t7);
        }
        if x + 1 < w && y + 1 < h && self.has_mine_at(self.grid2index(x + 1, y + 1)) {
            c += 1;
        }
        proof {
            assert(c as int == t1 + t2 + t3 + t4 + t5 + t6 + t7 + t8);
        }
        c
    }

    /// The up-to-8 neighbor coordinates of (x, y) (Chebyshev distance 1),
    /// clipped to the grid, in a fixed order.
    pub fn surrounding_grids(&self, x: u32, y: u32) -> (r: Vec<(u32, u32)>)
        ensures
            neighbor_list_ok(r@, self.grid_w(), self.grid_h(), x as int, y as int),
            in_grid(self.grid_w(), self.grid_h(), x as int - 1, y as int - 1) ==> contains_pt(
                r@,
                x as int - 1,
                y as int - 1,
            ),
            in_grid(self.grid_w(), self.grid_h(), x as int - 1, y as int) ==> contains_pt(
                r@,
                x as int - 1,
                y as int,
            ),
            in_grid(self.grid_w(), self.grid_h(), x as int - 1, y as int + 1) ==> contains_pt(
                r@,
                x as int - 1,
                y as int + 1,
            ),
            in_grid(self.grid_w(), self.grid_h(), x as int, y as int - 1) ==> contains_pt(
                r@,
                x as int,
                y as int - 1,
            ),
            in_grid(self.grid_w(), self.grid_h(), x as int, y as int + 1) ==> contains_pt(
                r@,
                x as int,
                y as int + 1,
            ),
            in_grid(self.grid_w(), self.grid_h(), x as int + 1, y as int - 1) ==> contains_pt(
                r@,
                x as int + 1,
                y as int - 1,
            ),
            in_grid(self.grid_w(), self.grid_h(), x as int + 1, y as int) ==> contains_pt(
                r@,
                x as int + 1,
                y as int,
            ),
            in_grid(self.grid_w(), self.grid_h(), x as int + 1, y as int + 1) ==> contains_pt(
                r@,
                x as int + 1,
                y as int + 1,
            ),
            r@.len() <= 8,
    {
        let w64 = self.setting.mine_field_width() as u64;
        let h64 = self.setting.mine_field_height() as u64;
        let x64 = x as u64;
        let y64 = y as u64;
        let mut grids: Vec<(u32, u32)> = Vec::new();
        if x64 >= 1 && y64 >= 1 && x64 - 1 < w64 && y64 - 1 < h64 {
            grids.push((x - 1, y - 1));
        }
        let ghost i1: int = grids@.len() - 1;
        if x64 >= 1 && x64 - 1 < w64 && y64 < h64 {
            grids.push((x - 1, y));
        }
        let ghost i2: int = grids@.len() - 1;
        if x64 >= 1 && x64 - 1 < w64 && y64 + 1 < h64 {
            grids.push((x - 1, y + 1));
        }
        let ghost i3: int = grids@.len() - 1;
        if y64 >= 1 && x64 < w64 && y64 - 1 < h64 {
            grids.push((x, y - 1));
        }
        let ghost i4: int = grids@.len() - 1;
        if x64 < w64 && y64 + 1 < h64 {
            grids.push((x, y + 1));
        }
        let ghost i5: int = grids@.len() - 1;
        if y64 >= 1 && x64 + 1 < w64 && y64 - 1 < h64 {
            grids.push((x + 1, y - 1));
        }
        let ghost i6: int = grids@.len() - 1;
        if x64 + 1 < w64 && y64 < h64 {
            grids.push((x + 1, y));
        }
        let ghost i7: int = grids@.len() - 1;
        if x64 + 1 < w64 && y64 + 1 < h64 {
            grids.push((x + 1, y + 1));
        }
        let ghost i8: int = grids@.len() - 1;
        proof {
            let gw = self.grid_w();
            let gh = self.grid_h();
            if in_grid(gw, gh, x as int - 1, y as int - 1) {
                assert(grids@[i1].0 as int == x as int - 1 && grids@[i1].1 as int == y as int - 1);
                assert(contains_pt(grids@, x as int - 1, y as int - 1));
            }
            if in_grid(gw, gh, x as int - 1, y as int) {
                assert(grids@[i2].0 as int == x as int - 1 && grids@[i2].1 as int == y as int);
                assert(contains_pt(grids@, x as int - 1, y as int));
            }
            if in_grid(gw, gh, x as int - 1, y as int + 1) {
                assert(grids@[i3].0 as int == x as int - 1 && grids@[i3].1 as int == y as int + 1);
                assert(contains_pt(grids@, x as int - 1, y as int + 1));
            }
            if in_grid(gw, gh, x as int, y as int - 1) {
                assert(grids@[i4].0 as int == x as int && grids@[i4].1 as int == y as int - 1);
                assert(contains_pt(grids@, x as int, y as int - 1));
            }
            if in_grid(gw, gh, x as int, y as int + 1) {
                assert(grids@[i5].0 as int == x as int && grids@[i5].1 as int == y as int + 1);
                assert(contains_pt(grids@, x as int, y as int + 1));
            }
            if in_grid(gw, gh, x as int + 1, y as int - 1) {
                assert(grids@[i6].0 as int == x as int + 1 && grids@[i6].1 as int == y as int - 1);
                assert(contains_pt(grids@, x as int + 1, y as int - 1));
            }
            if in_grid(gw, gh, x as int + 1, y as int) {
                assert(grids@[i7].0 as int == x as int + 1 && grids@[i7].1 as int == y as int);
                assert(contains_pt(grids@, x as int + 1, y as int));
            }
            if in_grid(gw, gh, x as int + 1, y as int + 1) {
                assert(grids@[i8].0 as int == x as int + 1 && grids@[i8].1 as int == y as int + 1);
                assert(contains_pt(grids@, x as int + 1, y as int + 1));
            }
        }
        grids
    }

    /// Chooses `m_num` distinct mine indexes from all cell indexes except
    /// `excluded_index`, by a partial Fisher-Yates shuffle of the dense
    /// range `[0, n_cells - 1)` followed by skipping the excluded slot.
    fn init_mine_cell_indexes(&mut self, excluded_index: usize)
        requires
            old(self).wf(),
            !old(self).mines_placed(),
            (excluded_index as int) < old(self).n_cells(),
        ensures
            final(self).wf(),
            final(self).spec_setting() == old(self).spec_setting(),
            final(self).cells() == old(self).cells(),
            final(self).to_reveal() == old(self).to_reveal(),
            final(self).result() == old(self).result(),
            final(self).mines_placed(),
            !mine_at(final(self).mines(), excluded_index as int),
    {
        let w = self.setting.mine_field_width();
        let h = self.setting.mine_field_height();
        let num_cells: usize = (w as usize) * (h as usize);
        let len: usize = num_cells - 1;
        let mine_num: usize = self.setting.mine_num() as usize;
        let mut v: Vec<usize> = Vec::new();
        let mut i: usize = 0;
        while i < len
            invariant
                i <= len,
                v@.len() == i,
                forall|j: int| 0 <= j < i ==> (#[trigger] v@[j]) == j,
            decreases len - i,
        {
            v.push(i);
            i += 1;
        }
        proof {
            assert forall|p: int, q: int|
                0 <= p < v@.len() && 0 <= q < v@.len() && p != q implies v@[p] != v@[q] by {
                assert(v@[p] == p && v@[q] == q);
            }
            assert(v@.no_duplicates());
        }
        let mut t: usize = 0;
        while t < mine_num
            invariant
                t <= mine_num,
                mine_num <= len,
                v@.len() == len,
                v@.no_duplicates(),
                forall|j: int| 0 <= j < len ==> (#[trigger] v@[j]) < len,
            decreases mine_num - t,
        {
            let r = random_index_in(t, len);
            let a = v[t];
            let b = v[r];
            proof {
                lemma_swap_keeps_distinct(v@, t as int, r as int);
            }
            v[t] = b;
            v[r] = a;
            t += 1;
        }
        let ghost e = excluded_index as int;
        let mut mines: Vec<usize> = Vec::new();
        let mut k: usize = 0;
        while k < mine_num
            invariant
                k <= mine_num,
                mine_num <= len,
                (len as int) < num_cells as int,
                num_cells <= usize::MAX,
                v@.len() == len,
                v@.no_duplicates(),
                forall|j: int| 0 <= j < len ==> (#[trigger] v@[j]) < len,
                mines@.len() == k,
                e == excluded_index as int,
                forall|j: int|
                    0 <= j < k ==> (#[trigger] mines@[j]) as int == remap_index(v@[j] as int, e),
                forall|j: int|
                    0 <= j < k ==> ((#[trigger] mines@[j]) as int) < num_cells as int && mines@[j]
                        != excluded_index,
                mines@.no_duplicates(),
            decreases mine_num - k,
        {
            let val = v[k];
            let nv = if val >= excluded_index {
                val + 1
            } else {
                val
            };
            proof {
                assert forall|j: int| 0 <= j < k implies mines@[j] != nv by {
                    if mines@[j] == nv {
                        assert(remap_index(v@[j] as int, e) == remap_index(v@[k as int] as int, e));
                        assert(v@[j] == v@[k as int]);
                        assert(false);
                    }
                }
            }
            mines.push(nv);
            k += 1;
        }
        self.mine_cell_indexes = Option::Some(mines);
        proof {
            let n = self.n_cells();
            let ms = self.mines();
            assert(num_cells as int == n);
            assert(mines_ok(ms, n));
            assert(!mine_at(ms, e)) by {
                if mine_at(ms, e) {
                    let j = choose|j: int| 0 <= j < ms.len() && (#[trigger] ms[j]) as int == e;
                    assert(ms[j] != excluded_index);
                }
            }
            lemma_count_all_hidden(self.cells(), ms, n);
            lemma_count_members_distinct(ms, n);
            assert forall|x: int, y: int|
                in_grid(self.grid_w(), self.grid_h(), x, y) implies !((#[trigger] self.cells()[
                cell_index(self.grid_w(), x, y)
            ]) is Revealed) by {
                lemma_cell_index_bounds(self.grid_w(), self.grid_h(), x, y);
            }
        }
    }

    /// Handles a reveal that hit a mine: the result becomes `Lose` and the
    /// whole board is reclassified for end-of-game display in one pass.
    pub fn on_mine_revealed(&mut self, index: usize)
        requires
            old(self).wf(),
            old(self).mines_placed(),
            (index as int) < old(self).n_cells(),
        ensures
            final(self).wf(),
            final(self).spec_setting() == old(self).spec_setting(),
            final(self).mines_placed(),
            final(self).mines() == old(self).mines(),
            final(self).to_reveal() == old(self).to_reveal(),
            final(self).result() == GameResult::Lose,
            final(self).cells().len() == old(self).cells().len(),
            forall|i: int|
                0 <= i < old(self).cells().len() ==> final(self).cells()[i] == reclassify_cell(
                    old(self).cells()[i],
                    mine_at(old(self).mines(), i),
                    i == index as int,
                ),
            count_unrevealed(final(self).cells(), final(self).n_cells()) <= count_unrevealed(
                old(self).cells(),
                old(self).n_cells(),
            ),
    {
        self.game_result = GameResult::Lose;
        let n = self.mine_field_cells.len();
        let mut i: usize = 0;
        while i < n
            invariant
                self.setting == old(self).setting,
                self.mine_cell_indexes == old(self).mine_cell_indexes,
                self.mines_placed(),
                self.game_result == GameResult::Lose,
                self.to_reveal_cell_num == old(self).to_reveal_cell_num,
                n == self.mine_field_cells@.len(),
                self.mine_field_cells@.len() == old(self).cells().len(),
                i <= n,
                forall|j: int|
                    0 <= j < i ==> self.cells()[j] == reclassify_cell(
                        (#[trigger] old(self).cells()[j]),
                        mine_at(old(self).mines(), j),
                        j == index as int,
                    ),
                forall|j: int| i <= j < n ==> (#[trigger] self.cells()[j]) == old(self).cells()[j],
            decreases n - i,
        {
            let is_m = self.has_mine_at(i);
            let cur = self.mine_field_cells[i];
            let newc = if i == index {
                MineFieldCell::ExplodedMine
            } else {
                match cur {
                    MineFieldCell::Unrevealed => if is_m {
                        MineFieldCell::Mine
                    } else {
                        cur
                    },
                    MineFieldCell::Flagged => if is_m {
                        MineFieldCell::CorrectlyFlagged
                    } else {
                        MineFieldCell::IncorrectlyFlagged
                    },
                    _ => cur,
                }
            };
            self.mine_field_cells[i] = newc;
            i += 1;
        }
        proof {
            assert forall|j: int|
                0 <= j < self.n_cells() implies ((#[trigger] self.cells()[j]) is Unrevealed
                ==> old(self).cells()[j] is Unrevealed) by {}
            lemma_count_unrevealed_le(old(self).cells(), self.cells(), self.n_cells());
            assert forall|x: int, y: int|
                in_grid(self.grid_w(), self.grid_h(), x, y) implies ((#[trigger] self.cells()[
                cell_index(self.grid_w(), x, y)
            ]) matches MineFieldCell::Revealed(c) ==> c as int == neighbor_mine_count(
                self.mines(),
                self.grid_w(),
                self.grid_h(),
                x,
                y,
            )) by {
                lemma_cell_index_bounds(self.grid_w(), self.grid_h(), x, y);
            }
        }
    }

    /// Toggles a cell between `Unrevealed` and `Flagged`; a cell in any
    /// other state is left alone. Fails (returning false, mutating nothing)
    /// iff the game is over or (x, y) lies outside the grid.
    pub fn toggle_flag_on_mine_field_cell(&mut self, x: u32, y: u32) -> (r: bool)
        requires
            old(self).wf(),
        ensures
            final(self).wf(),
            r == (old(self).result() == GameResult::Playing && in_grid(
                old(self).grid_w(),
                old(self).grid_h(),
                x as int,
                y as int,
            )),
            !r ==> *final(self) == *old(self),
            r ==> final(self).cells().len() == old(self).cells().len() && final(self).cells()[
                cell_index(old(self).grid_w(), x as int, y as int)
            ] == toggled_cell(
                old(self).cells()[cell_index(old(self).grid_w(), x as int, y as int)],
            ),
            r ==> forall|i: int|
                0 <= i < old(self).cells().len() && i != cell_index(
                    old(self).grid_w(),
                    x as int,
                    y as int,
                ) ==> (#[trigger] final(self).cells()[i]) == old(self).cells()[i],
            final(self).spec_setting() == old(self).spec_setting(),
            final(self).result() == old(self).result(),
            final(self).to_reveal() == old(self).to_reveal(),
            final(self).mines_placed() == old(self).mines_placed(),
            final(self).mines() == old(self).mines(),
    {
        if self.game_result != GameResult::Playing {
            return false;
        }
        let w = self.setting.mine_field_width();
        let h = self.setting.mine_field_height();
        if x >= w || y >= h {
            return false;
        }
        let index = self.grid2index(x, y);
        let cur = self.mine_field_cells[index];
        match cur {
            MineFieldCell::Unrevealed => {
                self.mine_field_cells[index] = MineFieldCell::Flagged;
            },
            MineFieldCell::Flagged => {
                self.mine_field_cells[index] = MineFieldCell::Unrevealed;
            },
            _ => {},
        }
        proof {
            let gw = self.grid_w();
            let gh = self.grid_h();
            let idx = cell_index(gw, x as int, y as int);
            if self.cells() != old(self).cells() {
                assert(self.cells() == old(self).cells().update(idx, toggled_cell(old(self).cells()[idx])));
            }
            if self.mines_placed() {
                let vm = self.mines();
                {
                    lemma_count_safe_hidden_update(
                        old(self).cells(),
                        vm,
                        self.n_cells(),
                        idx,
                        toggled_cell(old(self).cells()[idx]),
                    );
                    assert forall|cx: int, cy: int|
                        in_grid(gw, gh, cx, cy) implies ((#[trigger] self.cells()[
                        cell_index(gw, cx, cy)
                    ]) matches MineFieldCell::Revealed(c) ==> c as int == neighbor_mine_count(
                        vm,
                        gw,
                        gh,
                        cx,
                        cy,
                    )) by {
                        lemma_cell_index_bounds(gw, gh, cx, cy);
                        if self.cells()[cell_index(gw, cx, cy)] != old(self).cells()[cell_index(
                            gw,
                            cx,
                            cy,
                        )] {
                            assert(cell_index(gw, cx, cy) == idx);
                        }
                    }
                }
            }
        }
        true
    }

    /// Reveals the cell at (x, y). Fails (returning false, mutating
    /// nothing) iff the game is over, (x, y) lies outside the grid, or the
    /// cell is not `Unrevealed`. The first successful reveal places the
    /// mines, excluding this cell, so the first click is never a mine.
    /// Revealing a mine loses the game and reclassifies the whole board;
    /// revealing a safe cell shows its neighbor mine count, wins the game
    /// when it was the last safe cell, and, when the count is zero,
    /// recursively reveals the surrounding cells.
    pub fn reveal_mine_field_cell(&mut self, x: u32, y: u32) -> (r: bool)
        requires
            old(self).wf(),
        ensures
            final(self).wf(),
            final(self).spec_setting() == old(self).spec_setting(),
            r == (old(self).result() == GameResult::Playing && in_grid(
                old(self).grid_w(),
                old(self).grid_h(),
                x as int,
                y as int,
            ) && old(self).cells()[cell_index(old(self).grid_w(), x as int, y as int)]
                is Unrevealed),
            !r ==> *final(self) == *old(self),
            r ==> final(self).mines_placed(),
            old(self).mines_placed() ==> final(self).mines_placed() && final(self).mines() == old(
                self,
            ).mines(),
            r && !old(self).mines_placed() ==> !mine_at(
                final(self).mines(),
                cell_index(old(self).grid_w(), x as int, y as int),
            ),
            r && mine_at(final(self).mines(), cell_index(old(self).grid_w(), x as int, y as int))
                ==> final(self).result() == GameResult::Lose && final(self).to_reveal() == old(
                self,
            ).to_reveal() && (forall|i: int|
                0 <= i < old(self).cells().len() ==> (#[trigger] final(self).cells()[i])
                    == reclassify_cell(
                    old(self).cells()[i],
                    mine_at(final(self).mines(), i),
                    i == cell_index(old(self).grid_w(), x as int, y as int),
                )),
            r && !mine_at(final(self).mines(), cell_index(old(self).grid_w(), x as int, y as int))
                ==> final(self).result() != GameResult::Lose && final(self).cells()[cell_index(
                old(self).grid_w(),
                x as int,
                y as int,
            )] == MineFieldCell::Revealed(
                neighbor_mine_count(
                    final(self).mines(),
                    old(self).grid_w(),
                    old(self).grid_h(),
                    x as int,
                    y as int,
                ) as u32,
            ) && (final(self).result() == GameResult::Win <==> count_safe_hidden(
                final(self).cells(),
                final(self).mines(),
                old(self).n_cells(),
            ) == 0),
            final(self).result() != GameResult::Lose ==> forall|i: int|
                0 <= i < old(self).cells().len() ==> ((#[trigger] final(self).cells()[i]) == old(
                    self,
                ).cells()[i] || (old(self).cells()[i] is Unrevealed && final(self).cells()[i]
                    is Revealed)),
            forall|i: int|
                0 <= i < old(self).cells().len() ==> (!((#[trigger] old(self).cells()[i])
                    is Unrevealed) ==> !(final(self).cells()[i] is Unrevealed)),
            final(self).result() == GameResult::Playing ==> forall|cx: int, cy: int|
                #[trigger] flood_violation(
                    final(self).cells(),
                    old(self).grid_w(),
                    old(self).grid_h(),
                    cx,
                    cy,
                ) ==> flood_violation(
                    old(self).cells(),
                    old(self).grid_w(),
                    old(self).grid_h(),
                    cx,
                    cy,
                ),
            count_unrevealed(final(self).cells(), old(self).n_cells()) <= count_unrevealed(
                old(self).cells(),
                old(self).n_cells(),
            ),
        decreases count_unrevealed(self.cells(), self.n_cells()),
    {
        let ghost gw = old(self).grid_w();
        let ghost gh = old(self).grid_h();
        let ghost n = old(self).n_cells();
        let ghost oc = old(self).cells();
        if self.game_result != GameResult::Playing {
            return false;
        }
        let w = self.setting.mine_field_width();
        let h = self.setting.mine_field_height();
        if x >= w || y >= h {
            return false;
        }
        let index = self.grid2index(x, y);
        let ghost idx = cell_index(gw, x as int, y as int);
        let cur = self.mine_field_cells[index];
        match cur {
            MineFieldCell::Unrevealed => {},
            _ => {
                return false;
            },
        }
        if self.mine_cell_indexes.is_none() {
            self.init_mine_cell_indexes(index);
        }
        let ghost m = self.mines();
        let is_mine = self.has_mine_at(index);
        if is_mine {
            self.on_mine_revealed(index);
            proof {
                assert forall|i: int|
                    0 <= i < n && !((#[trigger] oc[i]) is Unrevealed) implies !(self.cells()[i]
                    is Unrevealed) by {
                    assert(self.cells()[i] == reclassify_cell(
                        oc[i],
                        mine_at(m, i),
                        i == idx,
                    ));
                }
            }
            return true;
        }
        let cnum = self.count_surrounding_mines(x, y);
        proof {
            lemma_count_unrevealed_update(oc, n, idx, MineFieldCell::Revealed(cnum));
            lemma_count_safe_hidden_update(oc, m, n, idx, MineFieldCell::Revealed(cnum));
        }
        self.mine_field_cells[index] = MineFieldCell::Revealed(cnum);
        self.to_reveal_cell_num = self.to_reveal_cell_num - 1;
        proof {
            assert(self.cells() == oc.update(idx, MineFieldCell::Revealed(cnum)));
            assert forall|cx: int, cy: int|
                in_grid(gw, gh, cx, cy) implies ((#[trigger] self.cells()[cell_index(gw, cx, cy)])
                matches MineFieldCell::Revealed(c) ==> c as int == neighbor_mine_count(
                m,
                gw,
                gh,
                cx,
                cy,
            )) by {
                lemma_cell_index_bounds(gw, gh, cx, cy);
                if cell_index(gw, cx, cy) == idx {
                    lemma_cell_index_injective(gw, gh, cx, cy, x as int, y as int);
                }
            }
        }
        if self.to_reveal_cell_num == 0 {
            self.game_result = GameResult::Win;
            proof {
                assert(self.wf());
                assert forall|i: int|
                    0 <= i < n && !((#[trigger] oc[i]) is Unrevealed) implies !(self.cells()[i]
                    is Unrevealed) by {}
            }
            return true;
        }
        if cnum == 0 {
            let grids = self.surrounding_grids(x, y);
            let ghost s0 = *self;
            proof {
                assert(self.wf());
                assert(count_unrevealed(s0.cells(), n) < count_unrevealed(oc, n));
            }
            let mut k: usize = 0;
            while k < grids.len()
                invariant
                    self.wf(),
                    oc == old(self).cells(),
                    n == old(self).n_cells(),
                    self.spec_setting() == s0.spec_setting(),
                    gw == self.grid_w(),
                    gh == self.grid_h(),
                    n == self.n_cells(),
                    idx == cell_index(gw, x as int, y as int),
                    0 <= idx < n,
                    in_grid(gw, gh, x as int, y as int),
                    self.mines_placed(),
                    self.mines() == m,
                    neighbor_mine_count(m, gw, gh, x as int, y as int) == 0,
                    self.game_result == GameResult::Playing || self.game_result
                        == GameResult::Win,
                    k <= grids@.len(),
                    neighbor_list_ok(grids@, gw, gh, x as int, y as int),
                    s0.cells() == oc.update(idx, MineFieldCell::Revealed(0u32)),
                    s0.cells().len() == n,
                    oc.len() == n,
                    self.cells()[idx] == MineFieldCell::Revealed(0u32),
                    self.game_result == GameResult::Playing ==> forall|j: int|
                        0 <= j < k ==> !((#[trigger] self.cells()[cell_index(
                            gw,
                            grids@[j].0 as int,
                            grids@[j].1 as int,
                        )]) is Unrevealed),
                    self.game_result == GameResult::Playing ==> forall|cx: int, cy: int|
                        #[trigger] flood_violation(self.cells(), gw, gh, cx, cy)
                            ==> flood_violation(s0.cells(), gw, gh, cx, cy),
                    forall|i: int|
                        0 <= i < n ==> ((#[trigger] self.cells()[i]) == s0.cells()[i] || (
                        s0.cells()[i] is Unrevealed && self.cells()[i] is Revealed)),
                    count_unrevealed(self.cells(), n) <= count_unrevealed(s0.cells(), n),
                    count_unrevealed(s0.cells(), n) < count_unrevealed(oc, n),
                decreases grids@.len() - k,
            {
                let p = grids[k];
                let nx = p.0;
                let ny = p.1;
                proof {
                    lemma_zero_count_neighbor_safe(
                        m,
                        gw,
                        gh,
                        x as int,
                        y as int,
                        nx as int,
                        ny as int,
                    );
                }
                let ghost prev = *self;
                proof {
                    assert(count_unrevealed(self.cells(), self.n_cells()) < count_unrevealed(
                        old(self).cells(),
                        old(self).n_cells(),
                    ));
                }
                self.reveal_mine_field_cell(nx, ny);
                proof {
                    assert(self.game_result == GameResult::Playing || self.game_result
                        == GameResult::Win) by {
                        if prev.game_result == GameResult::Playing {
                            if self.game_result == GameResult::Lose {
                                assert(self.mines() == m);
                                assert(!mine_at(m, cell_index(gw, nx as int, ny as int)));
                            }
                        } else {
                            assert(*self == prev);
                        }
                    }
                    if self.game_result == GameResult::Playing {
                        assert(prev.game_result == GameResult::Playing);
                        assert forall|j: int|
                            0 <= j <= k implies !((#[trigger] self.cells()[cell_index(
                            gw,
                            grids@[j].0 as int,
                            grids@[j].1 as int,
                        )]) is Unrevealed) by {
                            lemma_cell_index_bounds(
                                gw,
                                gh,
                                grids@[j].0 as int,
                                grids@[j].1 as int,
                            );
                            if j < k {
                                assert(!(prev.cells()[cell_index(
                                    gw,
                                    grids@[j].0 as int,
                                    grids@[j].1 as int,
                                )] is Unrevealed));
                            } else {
                                assert(!mine_at(m, cell_index(gw, nx as int, ny as int)));
                            }
                        }
                        assert forall|cx: int, cy: int|
                            #[trigger] flood_violation(self.cells(), gw, gh, cx, cy) implies
                            flood_violation(s0.cells(), gw, gh, cx, cy) by {
                            assert(flood_violation(prev.cells(), gw, gh, cx, cy));
                        }
                    }
                    assert forall|i: int|
                        0 <= i < n implies ((#[trigger] self.cells()[i]) == s0.cells()[i] || (
                        s0.cells()[i] is Unrevealed && self.cells()[i] is Revealed)) by {
                        assert(self.cells()[i] == prev.cells()[i] || (prev.cells()[i]
                            is Unrevealed && self.cells()[i] is Revealed));
                    }
                }
                k += 1;
            }
            proof {
                if self.game_result == GameResult::Playing {
                    assert(!has_unrevealed_neighbor(self.cells(), gw, gh, x as int, y as int))
                        by {
                        if unrevealed_in_grid_at(self.cells(), gw, gh, x as int - 1, y as int
                            - 1) {
                            lemma_listed_neighbor_not_unrevealed(
                                self.cells(),
                                grids@,
                                gw,
                                gh,
                                x as int - 1,
                                y as int - 1,
                            );
                        }
                        if unrevealed_in_grid_at(self.cells(), gw, gh, x as int - 1, y as int) {
                            lemma_listed_neighbor_not_unrevealed(
                                self.cells(),
                                grids@,
                                gw,
                                gh,
                                x as int - 1,
                                y as int,
                            );
                        }
                        if unrevealed_in_grid_at(self.cells(), gw, gh, x as int - 1, y as int
                            + 1) {
                            lemma_listed_neighbor_not_unrevealed(
                                self.cells(),
                                grids@,
                                gw,
                                gh,
                                x as int - 1,
                                y as int + 1,
                            );
                        }
                        if unrevealed_in_grid_at(self.cells(), gw, gh, x as int, y as int - 1) {
                            lemma_listed_neighbor_not_unrevealed(
                                self.cells(),
                                grids@,
                                gw,
                                gh,
                                x as int,
                                y as int - 1,
                            );
                        }
                        if unrevealed_in_grid_at(self.cells(), gw, gh, x as int, y as int + 1) {
                            lemma_listed_neighbor_not_unrevealed(
                                self.cells(),
                                grids@,
                                gw,
                                gh,
                                x as int,
                                y as int + 1,
                            );
                        }
                        if unrevealed_in_grid_at(self.cells(), gw, gh, x as int + 1, y as int
                            - 1) {
                            lemma_listed_neighbor_not_unrevealed(
                                self.cells(),
                                grids@,
                                gw,
                                gh,
                                x as int + 1,
                                y as int - 1,
                            );
                        }
                        if unrevealed_in_grid_at(self.cells(), gw, gh, x as int + 1, y as int) {
                            lemma_listed_neighbor_not_unrevealed(
                                self.cells(),
                                grids@,
                                gw,
                                gh,
                                x as int + 1,
                                y as int,
                            );
                        }
                        if unrevealed_in_grid_at(self.cells(), gw, gh, x as int + 1, y as int
                            + 1) {
                            lemma_listed_neighbor_not_unrevealed(
                                self.cells(),
                                grids@,
                                gw,
                                gh,
                                x as int + 1,
                                y as int + 1,
                            );
                        }
                    }
                    assert forall|cx: int, cy: int|
                        #[trigger] flood_violation(self.cells(), gw, gh, cx, cy) implies
                        flood_violation(oc, gw, gh, cx, cy) by {
                        assert(flood_violation(s0.cells(), gw, gh, cx, cy));
                        if cx == x as int && cy == y as int {
                            assert(!flood_violation(self.cells(), gw, gh, cx, cy));
                        } else {
                            lemma_violation_update_to_revealed(
                                oc,
                                gw,
                                gh,
                                x as int,
                                y as int,
                                MineFieldCell::Revealed(0u32),
                                cx,
                                cy,
                            );
                        }
                    }
                }
                assert forall|i: int|
                    0 <= i < n implies ((#[trigger] self.cells()[i]) == oc[i] || (oc[i]
                    is Unrevealed && self.cells()[i] is Revealed)) by {}
            }
        } else {
            proof {
                assert forall|cx: int, cy: int|
                    #[trigger] flood_violation(self.cells(), gw, gh, cx, cy) implies
                    flood_violation(oc, gw, gh, cx, cy) by {
                    if cx == x as int && cy == y as int {
                        assert(self.cells()[cell_index(gw, cx, cy)] == MineFieldCell::Revealed(
                            cnum,
                        ));
                    } else {
                        lemma_violation_update_to_revealed(
                            oc,
                            gw,
                            gh,
                            x as int,
                            y as int,
                            MineFieldCell::Revealed(cnum),
                            cx,
                            cy,
                        );
                    }
                }
            }
        }
        true
    }
}

/// Once placed, the mine set always holds exactly `m_num` indexes, with no
/// duplicates, all within the grid.
pub proof fn lemma_mine_set_well_formed(g: &GameLogicInner)
    requires
        g.wf(),
        g.mines_placed(),
    ensures
        g.mines().len() == g.m_num(),
        g.mines().no_duplicates(),
        forall|k: int| 0 <= k < g.mines().len() ==> ((#[trigger] g.mines()[k]) as int) < g.n_cells(),
{
}

/// A won game has no safe cell left unrevealed: `Win` is reached exactly
/// when the countdown of safe hidden cells hits zero.
pub proof fn lemma_win_means_all_safe_revealed(g: &GameLogicInner)
    requires
        g.wf(),
        g.result() == GameResult::Win,
    ensures
        g.mines_placed(),
        g.to_reveal() == 0,
        count_safe_hidden(g.cells(), g.mines(), g.n_cells()) == 0,
{
}

/// While the game is being played with mines placed, at least one safe
/// cell is still unrevealed, so a reveal can never skip straight past the
/// win condition.
pub proof fn lemma_playing_has_safe_cell_left(g: &GameLogicInner)
    requires
        g.wf(),
        g.result() == GameResult::Playing,
        g.mines_placed(),
    ensures
        g.to_reveal() >= 1,
        count_safe_hidden(g.cells(), g.mines(), g.n_cells()) >= 1,
{
}

proof fn lemma_listed_neighbor_not_unrevealed(
    cells: Seq<MineFieldCell>,
    grids: Seq<(u32, u32)>,
    gw: int,
    gh: int,
    nx: int,
    ny: int,
)
    requires
        contains_pt(grids, nx, ny),
        forall|j: int|
            0 <= j < grids.len() ==> !((#[trigger] cells[cell_index(
                gw,
                grids[j].0 as int,
                grids[j].1 as int,
            )]) is Unrevealed),
    ensures
        !(cells[cell_index(gw, nx, ny)] is Unrevealed),
{
    let j = choose|j: int|
        0 <= j < grids.len() && (#[trigger] grids[j]).0 as int == nx && grids[j].1 as int == ny;
    assert(!(cells[cell_index(gw, grids[j].0 as int, grids[j].1 as int)] is Unrevealed));
}

/// Every entry of a neighbor list lies in the grid, at Chebyshev distance 1
/// from (x, y).
pub open spec fn neighbor_list_ok(s: Seq<(u32, u32)>, w: int, h: int, x: int, y: int) -> bool {
    forall|k: int|
        0 <= k < s.len() ==> {
            &&& in_grid(w, h, (#[trigger] s[k]).0 as int, s[k].1 as int)
            &&& -1 <= s[k].0 as int - x <= 1
            &&& -1 <= s[k].1 as int - y <= 1
            &&& !(s[k].0 as int == x && s[k].1 as int == y)
        }
}

} // verus!
