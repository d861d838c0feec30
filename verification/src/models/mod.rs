pub mod activity;
pub mod cat;
pub mod growth;
pub mod settings;
