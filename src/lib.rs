pub mod cache;
pub mod cursor;
pub mod entry;
pub mod filter;
pub mod frame;
pub mod histogram;
pub mod input;
pub mod lru;
pub mod session;
pub mod side_bar;
pub mod state;
pub mod text;
pub mod transform;
