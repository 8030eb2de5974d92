pub mod collection;
pub mod edit;
pub mod environment;
pub mod migrate;
pub mod models;
pub mod postman;
pub mod project;
pub mod session_state;
pub mod sort;
pub mod store;
pub mod tree;
pub mod ui_state;
