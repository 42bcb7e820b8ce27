//! Decoders for tile-map and tileset documents.
//!
//! A map document is turned into a [`TiledMap`]: grid dimensions, tile size,
//! layers of tile identifiers and the tilesets the map refers to.  A tileset
//! document is turned into a [`TiledTileset`].  Every decoder is total: a
//! broken document gives a [`DecodeError`], never a partial value.
pub mod error;
pub mod fields;
pub mod map;
pub mod payload;
pub mod tileset;
pub mod value;
pub mod xml;

pub use error::{DecodeError, Element, Field};
pub use map::{decode_map, decode_map_events, TiledLayer, TiledMap, TiledMapTileset};
pub use payload::decode_layer_payload;
pub use tileset::{decode_tileset, decode_tileset_events, TiledTileset, TiledTilesetImage};
pub use xml::{read_events, XmlAttribute, XmlEvent};
