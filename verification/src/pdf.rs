//! The plain parts of a PDF file.

pub mod config;
pub mod data;
pub mod file;
