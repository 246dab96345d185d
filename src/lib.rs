//! A small HTTP user service: a router that classifies request paths, a
//! store of user records that reuses freed ids, and a handler that joins the
//! two into one request-to-reply step.

pub mod handler;
pub mod router;
pub mod store;
pub mod text;
