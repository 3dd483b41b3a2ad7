pub mod strutil;
pub mod pathutil;
pub mod fsprobe;
pub mod walkfs;
pub mod sizer;
pub mod taxonomy;
pub mod pattern;
pub mod settings;
pub mod license;
pub mod types;
pub mod scan;
pub mod delete;
pub mod largest;
pub mod bytesfmt;
pub mod filesystem;
pub mod background;

