//! Verified core of an SLCAN CAN adapter driver and of the diagnostic
//! front-end decisions that sit on top of it.

pub mod adapter;
pub mod comm;
pub mod frame;
pub mod isotp;
pub mod isotp_laws;
pub mod json_session;
pub mod manual;
pub mod schema;
pub mod selector;
pub mod session;
pub mod slcan;
pub mod stream;
pub mod text;
