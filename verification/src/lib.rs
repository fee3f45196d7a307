//! Verified core of a Milky Way Idle combat simulator: the timed event queue,
//! the event model, wave and attempt bookkeeping for zones and labyrinths,
//! tick arithmetic, and the bookkeeping records kept during a simulation.

pub mod events;
pub mod event_queue;
pub mod text;
pub mod combat_utilities;
pub mod wipe_log;
pub mod labyrinth;
pub mod zone;
pub mod equipment;
pub mod trigger_dependency;
pub mod achievement;
pub mod records;
pub mod levels;
pub mod unit_rules;
pub mod units;
pub mod ability;
pub mod guild;
pub mod run_merge;
