//! Trollbox viewer core: the chat and trade-feed logic behind the
//! btc-e terminal viewer, with its contracts.

pub mod chat;
pub mod console;
pub mod json;
pub mod laws;
pub mod monitor;
pub mod text;
pub mod tick;

pub use chat::{BtceChatTransport, ChatFrame, ChatMessage};
pub use console::{hash_color, Color, Console, Segment};
pub use monitor::{get_new_delay, VolumeMonitor};
pub use tick::{Tick, TickType, TicksList};
