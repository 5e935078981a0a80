//! What the ContentDirectory speaks of: objects, their ids and search criteria.

pub mod didl;
pub mod object_id;
pub mod search;
pub mod usn;
