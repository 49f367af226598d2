//! The objects that responses hold. Each names the members it knows and
//! keeps every other member of the JSON object it was read from, so that
//! nothing the API sends is lost.

pub mod annotations;
pub mod errors;
pub mod includes;
pub mod meta;
pub mod places;
pub mod tweets;
pub mod users;
pub mod withheld;
