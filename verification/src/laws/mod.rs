//! What callers can count on, stated of the functions' own results: each law
//! speaks of what a call was given and what it gave back.

pub mod copies;
pub mod edges;
pub mod frames;
pub mod handlers;
pub mod header_checks;
pub mod models;
pub mod outcomes;
pub mod requests;
pub mod routing;
pub mod settings;
pub mod streams;
pub mod terms;
