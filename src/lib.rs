pub mod catalog;
pub mod paths;
pub mod service;
pub mod settings;
