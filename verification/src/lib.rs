//! A key-value store in namespaces, on top of a transactional backing store.
//!
//! Values go through a chain of codecs on their way in and back through it
//! on their way out. Each operation of the store is planned here as ops for
//! the backing store, and the replies are read here; whoever owns the
//! connection runs the ops. What the backing store is expected to do with an
//! op is written down as a model, and the laws of the store are proved
//! against it.

pub mod data_codecs;
pub mod error;
pub mod laws;
pub mod model;
pub mod names;
pub mod ops;
pub mod plan;
pub mod py_codecs;
pub mod record;
pub mod rename;
pub mod rename_laws;
pub mod reply;
pub mod results;
pub mod snappy_codec;
pub mod sql;
pub mod storage;
pub mod store_laws;
pub mod text;
pub mod typ;
pub mod zstd_codec;
