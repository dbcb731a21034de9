//! Verified core of the ACID64 console player: SID tune metadata databases,
//! device bookkeeping and the SID register sequences sent to hardware.

pub mod config;
pub mod player;
pub mod utils;
pub mod console_player;
