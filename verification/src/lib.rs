//! Core of a tuner-sharing broadcast daemon: a per-session fan-out engine
//! that chops one tuned byte stream into fixed-size chunks and delivers them
//! to every subscriber with bounded, lossy buffering and an inactivity
//! watchdog; and an EIT harvest driver that batches decoded schedule
//! sections into update messages and flushes the service triples seen.

use vstd::prelude::*;

pub mod broadcaster;
pub mod chunk_stream;
pub mod collector;
pub mod command;
pub mod eit;
pub mod eit_feeder;

verus! {

} // verus!
