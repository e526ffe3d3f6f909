pub mod decoder;
pub mod encode;
pub mod pipeline;
pub mod store;
pub mod structs;
