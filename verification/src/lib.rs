pub mod browser;
pub mod engine;
pub mod images;
pub mod input;
pub mod keys;
pub mod layout;
pub mod model;
pub mod preview;
pub mod protocol;
pub mod store;
pub mod sys;
pub mod text;
pub mod view;
