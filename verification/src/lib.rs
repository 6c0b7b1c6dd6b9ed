//! A local catalog of shows: the import of the staging documents into the
//! store, the reconstruction of a show's tree from it, and the bookkeeping
//! around both.

pub mod api;
pub mod application;
pub mod database;
pub mod douban;
pub mod initialize;
pub mod laws;
pub mod model;
pub mod response;
pub mod store;
pub mod text;
pub mod tree;
pub mod yyets;
