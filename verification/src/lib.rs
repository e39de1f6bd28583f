//! Clock synchronisation between boards that hear the same broadcasts.
//!
//! A time server broadcasts packets with its wall-clock time. Every board
//! hears the same packets at very nearly the same moment, stamps them with a
//! hardware clock, and estimates from them how its own clock relates to the
//! server's. The modules, from the wire up:
//!
//! * [`packet`]: the broadcast packet, with [`packet_laws`], and [`server`]:
//!   which packets are sent;
//! * [`estimator`]: the sliding window and its fit, with [`estimator_laws`] and
//!   [`fit_laws`];
//! * [`queue`] and [`client`]: what a board does with what it hears, with
//!   [`client_laws`] and [`frame_laws`];
//! * [`mcpwm_cap`]: hardware edge timestamps, with [`capture_laws`];
//! * [`rig`] and [`firmware`]: what the boards do around that, with
//!   [`rig_laws`] and [`firmware_laws`];
//! * [`pulse_log`], [`stats`] and [`skew`]: the host side that compares two
//!   boards, with [`pulse_log_laws`], [`stats_laws`] and [`skew_laws`];
//! * [`arith`], [`bytes`], [`text`] and [`text_lemmas`]: what all of them use,
//!   with [`arith_laws`] and [`text_laws`].
//!
//! The laws say what results are in terms of what goes in, over the readings,
//! bytes and runs themselves.

pub mod arith;
pub mod arith_laws;
pub mod bytes;
pub mod capture_laws;
pub mod client;
pub mod client_laws;
pub mod estimator;
pub mod estimator_laws;
pub mod firmware;
pub mod firmware_laws;
pub mod fit_laws;
pub mod frame_laws;
pub mod mcpwm_cap;
pub mod packet;
pub mod packet_laws;
pub mod pulse_log;
pub mod pulse_log_laws;
pub mod queue;
pub mod rig;
pub mod rig_laws;
pub mod server;
pub mod skew;
pub mod skew_laws;
pub mod stats;
pub mod stats_laws;
pub mod text;
pub mod text_laws;
pub mod text_lemmas;

pub use crate::client::{install, ClockSyncClient, InstallError};
pub use crate::estimator::{Estimator, Quality, Sample, MIN_SAMPLES, WINDOW};
pub use crate::packet::{SyncPacket, DEFAULT_BROADCAST_ADDR, DEFAULT_PORT, MAGIC};
