pub mod fs;
pub mod kv;
pub mod text;
