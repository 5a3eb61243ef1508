//! Administration and diagnostic operations: the calls they make and what
//! they take from the replies.
pub mod devices;
pub mod drift;
pub mod explain;
pub mod inference;
pub mod models;
pub mod run;
pub mod status;
