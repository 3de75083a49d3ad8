//! Verified core of a real-time input-macro engine.
//!
//! The engine watches a stream of keyboard and pointer events, keeps track of
//! the keys that are currently held, compares them with the triggers of the
//! macros in a database and, when a trigger is met exactly, produces the
//! timed sequence of synthetic key events that plays the macro back.
//!
//! Everything here is pure computation over plain values. Subscribing to the
//! operating system's input stream, emitting synthetic events, sleeping,
//! locking and persistence are the host's business: the host feeds events in
//! and performs the playback plans that come out.

pub mod executor;
pub mod input;
pub mod matcher;
pub mod model;
pub mod state;

pub use executor::{execute_macro, PlaybackStep};
pub use input::{EventList, InputEvent, InputEventType, MouseButton};
pub use matcher::{find_triggered, macro_at, run_this, MacroId};
pub use model::{
    Action, ActionEventType, Collection, Delay, KeyPress, KeyType, Macro, MacroData, MacroType,
    TriggerEventType,
};
pub use state::{
    get_config, get_macros, set_config, set_data_write_manually_backend, set_macros,
    ApplicationConfig, InputMode, MacroDataState,
};
