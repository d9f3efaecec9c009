//! Planning and signing of a single running-session upload: quota clamping,
//! session timing, route synthesis, and the request digests, with the
//! request/response sequencing modelled as an explicit state machine.

pub mod text;
pub mod digest;
pub mod error;
pub mod quota;
pub mod session;
pub mod route;
pub mod account;
