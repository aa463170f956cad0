//! The five component systems: allegiance, armor, health, position and
//! reactions. Each owns one component store; the allegiance and position
//! systems additionally keep a query index in sync with their store.

mod allegiance;
mod armor;
mod health;
mod position;
mod reaction;

pub use allegiance::Allegiance;
pub use allegiance::AllegianceSystem;
pub use armor::Armor;
pub use armor::ArmorSystem;
pub use armor::gain_armor;
pub use armor::lose_armor;
pub use armor::lose_armor_overflow;
pub use health::Health;
pub use health::HealthSystem;
pub use health::lose_health;
pub use health::sat_sub_i64;
pub use position::Position;
pub use position::PositionSystem;
pub use reaction::Reaction;
pub use reaction::ReactionSystem;
pub use reaction::reaction_wf;
pub use reaction::rlist_wf;
pub use reaction::pairs_deep;
pub use reaction::clone_reactions;
