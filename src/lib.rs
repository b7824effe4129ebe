//! Listing the managed policies attached to a role of an identity service:
//! the request that is sent and the checks on the page that comes back.
pub mod page;
pub mod pager;
pub mod query;
