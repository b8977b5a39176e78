use vstd::prelude::*;

verus! {

/// Grid dimensions and mine count: one of three fixed presets, or a custom
/// configuration that must pass `verify`.
#[derive(Copy, Clone, PartialEq, Eq, Structural, Debug)]
pub enum GameSetting {
    Easy,
    Medium,
    Hard,
    Custom { mine_field_width: u32, mine_field_height: u32, mine_num: u32 },
}

impl GameSetting {
    pub open spec fn spec_width(self) -> u32 {
        match self {
            GameSetting::Easy => 9,
            GameSetting::Medium => 16,
            GameSetting::Hard => 30,
            GameSetting::Custom { mine_field_width, .. } => mine_field_width,
        }
    }

    pub open spec fn spec_height(self) -> u32 {
        match self {
            GameSetting::Easy => 9,
            GameSetting::Medium => 16,
            GameSetting::Hard => 16,
            GameSetting::Custom { mine_field_height, .. } => mine_field_height,
        }
    }

    pub open spec fn spec_mine_num(self) -> u32 {
        match self {
            GameSetting::Easy => 10,
            GameSetting::Medium => 40,
            GameSetting::Hard => 99,
            GameSetting::Custom { mine_num, .. } => mine_num,
        }
    }

    pub open spec fn num_cells(self) -> int {
        self.spec_width() as int * self.spec_height() as int
    }

    /// What `verify` accepts: presets always, a custom configuration iff its
    /// width and height exceed 1 and its mine count is at least 1 and less
    /// than the number of cells.
    pub open spec fn spec_valid(self) -> bool {
        match self {
            GameSetting::Custom { mine_field_width, mine_field_height, mine_num } => {
                &&& mine_field_width > 1
                &&& mine_field_height > 1
                &&& mine_num >= 1
                &&& (mine_num as int) < (mine_field_width as int) * (mine_field_height as int)
            },
            _ => true,
        }
    }

    /// The bounds every setting held by a game satisfies; presets satisfy
    /// them by construction, custom settings through `verify`.
    pub open spec fn ok(self) -> bool {
        &&& self.spec_width() >= 2
        &&& self.spec_height() >= 2
        &&& self.spec_mine_num() >= 1
        &&& (self.spec_mine_num() as int) < self.num_cells()
    }

    /// Every setting that `verify` accepts satisfies the bounds in `ok`.
    pub proof fn lemma_valid_implies_ok(self)
        requires
            self.spec_valid(),
        ensures
            self.ok(),
    {
        match self {
            GameSetting::Custom { mine_field_width, mine_field_height, mine_num } => {
                assert(self.spec_width() == mine_field_width);
                assert(self.spec_height() == mine_field_height);
                assert(self.spec_mine_num() == mine_num);
            },
            GameSetting::Easy => {
                assert(self.num_cells() == 81);
            },
            GameSetting::Medium => {
                assert(self.num_cells() == 256);
            },
            GameSetting::Hard => {
                assert(self.num_cells() == 480);
            },
        }
    }

    pub fn mine_field_width(&self) -> (r: u32)
        ensures
            r == self.spec_width(),
    {
        match self {
            GameSetting::Easy => 9,
            GameSetting::Medium => 16,
            GameSetting::Hard => 30,
            GameSetting::Custom { mine_field_width, .. } => *mine_field_width,
        }
    }

    pub fn mine_field_height(&self) -> (r: u32)
        ensures
            r == self.spec_height(),
    {
        match self {
            GameSetting::Easy => 9,
            GameSetting::Medium => 16,
            GameSetting::Hard => 16,
            GameSetting::Custom { mine_field_height, .. } => *mine_field_height,
        }
    }

    pub fn mine_num(&self) -> (r: u32)
        ensures
            r == self.spec_mine_num(),
    {
        match self {
            GameSetting::Easy => 10,
            GameSetting::Medium => 40,
            GameSetting::Hard => 99,
            GameSetting::Custom { mine_num, .. } => *mine_num,
        }
    }

    /// Returns true for every preset; for a custom configuration, true iff
    /// width > 1, height > 1 and 1 <= mine count < width * height.
    pub fn verify(&self) -> (r: bool)
        ensures
            r == self.spec_valid(),
    {
        match self {
            GameSetting::Easy | GameSetting::Medium | GameSetting::Hard => true,
            GameSetting::Custom { mine_field_width, mine_field_height, mine_num } => {
                if *mine_field_width <= 1 {
                    return false;
                }
                if *mine_field_height <= 1 {
                    return false;
                }
                if *mine_num < 1 {
                    return false;
                }
                let w64 = *mine_field_width as u64;
                let h64 = *mine_field_height as u64;
                proof {
                    assert(w64 * h64 <= 0xffff_ffff * 0xffff_ffff) by (nonlinear_arith)
                        requires
                            w64 <= 0xffff_ffff,
                            h64 <= 0xffff_ffff,
                    ;
                }
                if (*mine_num as u64) >= w64 * h64 {
                    return false;
                }
                true
            },
        }
    }
}

} // verus!
