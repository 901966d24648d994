//! The pieces that the class index is made of.

pub mod class;
pub mod file;
pub mod file_laws;
pub mod lookup;
pub mod platform;
pub mod table;
pub mod table_laws;
