pub mod text;
pub mod form;
pub mod preview;
pub mod pages;
pub mod identity;
pub mod client;
pub mod api;
pub mod wasm;
pub mod store;
pub mod store_laws;
