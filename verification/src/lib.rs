//! Timer, buff and shortcut logic of a boss-timer overlay: boss and buff
//! definitions, player settings, the timer engine, shortcut plans and the key
//! listener's state.
pub mod assoc;
pub mod boss_config;
pub mod buff_config;
pub mod ids;
pub mod key_listener;
pub mod session;
pub mod settings;
pub mod shortcuts;
pub mod text;
pub mod timer_engine;
