pub mod cell;
pub mod logic;
pub mod model;
pub mod setting;

pub use cell::GameResult;
pub use cell::MineFieldCell;
pub use setting::GameSetting;
pub use logic::GameLogicInner;
pub use logic::GameState;
