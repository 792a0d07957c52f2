//! A double-buffered ordering-table command-list builder over a bump arena of
//! primitive packets, for a console whose command processor reads its
//! display list by DMA while the next one is being built.
//!
//! - [`packet`]: packets, their link fields and the commands they carry.
//! - [`arena`]: the graphics buffer that packets are carved from, and
//!   [`allocation`]: what holds of whole sequences of requests.
//! - [`ordering_table`]: buckets of chains, linked in front and transmitted
//!   from the last bucket down, and [`chain`]: what following links means.
//! - [`graphics`]: the two buffer sets and the exchange of their roles.
//! - [`frame_loop`]: the order of the steps of a frame.
//! - [`level`]: the scene that the demo rebuilds every frame.

pub mod allocation;
pub mod arena;
pub mod chain;
pub mod frame_loop;
pub mod graphics;
pub mod level;
pub mod ordering_table;
pub mod packet;
