pub mod idmap;
pub mod sync;
pub mod text;
