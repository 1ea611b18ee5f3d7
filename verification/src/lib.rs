//! Control core of a networked robotic limb: the angle/servo codec, the
//! command frame, the change tracker, destination validation and the registry
//! of discovered devices.

pub mod address;
pub mod codec;
pub mod frame;
pub mod models;
pub mod network;
pub mod tracker;
