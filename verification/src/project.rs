//! The project's physical inputs: paths, the seam through which sources, fonts and images are
//! read, the set of loaded sources, fonts and the configuration.

pub mod config;
pub mod font;
pub mod font_data;
pub mod font_map;
pub mod path;
pub mod path_resolver;
pub mod path_table;
pub mod resolve;
pub mod source;
pub mod source_set;
pub mod tag;
pub mod test_support;
pub mod toml_error;
pub mod validate;
