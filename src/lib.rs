//! A ledger of prediction arenas: questions with enumerated outcomes, stake-weighted
//! predictions on those outcomes, and a strictly ordered arena lifecycle.

pub mod types;
pub mod stakes;
pub mod ledger;
pub mod laws;
pub mod settings;

pub use types::{
    AetherArenaAbi, Arena, ArenaError, ArenaStatus, ArenaView, Message, Operation, Owner,
    Prediction, Query, QueryResponse,
};
pub use ledger::AetherArena;
pub use settings::AppState;
