//! Signing in: where a redirect may go, and the session cookie.

pub mod next;
pub mod page;
pub mod session;
