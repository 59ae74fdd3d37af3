//! What the HTTP layer decides before and after it talks to a device: which
//! device a call is served by, whether the caller is logged in, and what is
//! answered when something fails.

pub mod request;
pub mod response;
