//! An in-memory company directory: a company name, a hierarchy of departments
//! and a roster of staff, with identifier allocation, referential-integrity
//! checks on insertion and an indented rendering of the department tree.
pub mod context;
pub mod date;
pub mod department;
pub mod errors;
pub mod hierarchy;
pub mod menu_items;
pub mod staff;
pub mod text;
