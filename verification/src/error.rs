//! The errors a decoder reports.
use vstd::prelude::*;

verus! {

/// The attributes and sub-elements the decoders look for.
#[derive(Clone, Copy, Debug, PartialEq, Eq, Structural)]
pub enum Field {
    /// `width` of a map.
    Width,
    /// `height` of a map.
    Height,
    /// `tilewidth` of a map or a tileset.
    TileWidth,
    /// `tileheight` of a map or a tileset.
    TileHeight,
    /// `tilecount` of a tileset.
    TileCount,
    /// `firstgid` of a tileset reference.
    FirstGid,
    /// `source` of a tileset reference.
    Source,
    /// `name` of a layer.
    LayerName,
    /// `visible` of a layer.
    Visible,
    /// The tile data of a layer.
    LayerData,
    /// `source` of a tileset image.
    ImageSource,
    /// `width` of a tileset image.
    ImageWidth,
    /// `height` of a tileset image.
    ImageHeight,
}

/// The place in a document at which its structure was found broken.
#[derive(Clone, Copy, Debug, PartialEq, Eq, Structural)]
pub enum Element {
    /// The markup itself: a tag that does not parse, a closing tag without
    /// its opening tag.
    Document,
    /// A `map` element.
    MapElement,
    /// A `tileset` element.
    TilesetElement,
    /// A `layer` element.
    LayerElement,
    /// A `data` element.
    DataElement,
    /// An `image` element.
    ImageElement,
}

/// Why a document could not be decoded.
#[derive(Clone, Copy, Debug, PartialEq, Eq, Structural)]
pub enum DecodeError {
    /// The document is not well formed, or it ends inside the named element.
    Structure(Element),
    /// A required attribute or sub-element is absent.
    MissingField(Field),
    /// An attribute is present but its value is not of the expected type.
    Type(Field),
    /// The tile data of a layer is not declared as base64.
    UnsupportedEncoding,
    /// The tile data is not base64, or is not a whole number of 32-bit words.
    PayloadDecode,
    /// The tile data holds `found` tiles where the map needs `expected`.
    SizeMismatch { expected: u64, found: u64 },
}

} // verus!
