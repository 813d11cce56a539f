//! What the message handlers compute: the plain data of their requests and
//! responses, and the work between receiving the one and sending the other.

pub mod ping;
pub mod projection_handler;
pub mod scenario;
