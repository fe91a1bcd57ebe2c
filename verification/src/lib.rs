//! Verified core of the Pith DDU sim-racing dashboard.

pub mod telemetry;
pub mod text;
pub mod frame;
pub mod format;
pub mod registry;
pub mod derive;
pub mod util;
pub mod state;
pub mod catalog;
pub mod le;
pub mod shm;
pub mod bridge;
pub mod cardata;
pub mod device;
pub mod ui;
pub mod devloop;
pub mod ota;
pub mod uidoc;
