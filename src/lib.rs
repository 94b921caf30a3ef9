//! Chunked, layered storage for large 2D tile grids.
//!
//! A map is cut into rectangular chunks of at most `max_chunk_size` tiles per
//! axis. Each chunk holds one or more layers (identified by a `u32` bit flag),
//! and each layer stores its tiles either densely (every position holds a
//! value) or sparsely (only the positions that were set).
pub mod coords;
pub mod hex;
pub mod layer;
pub mod chunk;
pub mod map_data;
pub mod tilemap;
pub mod manager;
pub mod builder;
