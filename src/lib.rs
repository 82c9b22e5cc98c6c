//! Tags on files: a set of free-text labels per file, kept in an extended
//! attribute or in an embedded database, with path normalisation and a
//! query matcher on top.
pub mod backend;
pub mod cli;
pub mod codec;
pub mod config;
pub mod paths;
pub mod persy_backend;
pub mod query;
pub mod tagset;
pub mod text;
pub mod xattr_backend;

pub use backend::{add_tag, delete_tag, Backend, TagError};
pub use config::{create_backend, AnyBackend};
pub use paths::{get_absolute_path, normalize_path};
pub use persy_backend::PersyBackend;
pub use query::{FoldOp, Query};
pub use tagset::TagSet;
pub use xattr_backend::XattrBackend;
