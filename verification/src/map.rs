//! The map decoder: a map document becomes a [`TiledMap`].
//!
//! The decoder walks the events of the document once, in order.  It is in
//! one of three places: outside any layer, inside a layer, or inside the
//! data block of a layer.  Each event either moves it on or ends the
//! decoding with an error; the end of the document assembles the map.
use crate::error::{DecodeError, Element, Field};
use crate::fields::{
    flag_field, read_flag, read_required_number, read_required_text, read_size,
    required_number_field, required_text_field, size_field,
};
use crate::payload::{decode_payload, payload_outcome};
use crate::value::{is_word, text_view};
use crate::xml::{
    attribute_value, attributes_view, document_events, events_view, find_attribute, read_events,
    AttributeView, EventView, XmlAttribute, XmlEvent,
};
use vstd::prelude::*;
use vstd::string::StringSliceAdditionalSpecFns;

verus! {

/// One layer of a map: a dense grid of tile identifiers, row by row.  The
/// identifier 0 is an empty cell.
#[derive(Clone, Debug, PartialEq, Eq)]
pub struct TiledLayer {
    pub name: String,
    pub visible: bool,
    pub tiles: Vec<u32>,
}

/// A reference of a map to a tileset document.
#[derive(Clone, Debug, PartialEq, Eq)]
pub struct TiledMapTileset {
    /// The first tile identifier that the tileset supplies.
    pub first_gid: u32,
    /// Where the tileset document is.
    pub source: String,
}

/// A decoded map.
#[derive(Clone, Debug, PartialEq, Eq)]
pub struct TiledMap {
    /// The width of the grid in cells.
    pub width: u32,
    /// The height of the grid in cells.
    pub height: u32,
    /// The width of a tile in pixels.
    pub tile_width: u32,
    /// The height of a tile in pixels.
    pub tile_height: u32,
    /// The layers, in the order of the document.
    pub layers: Vec<TiledLayer>,
    /// The tileset references, in the order of the document.
    pub tilesets: Vec<TiledMapTileset>,
}

/// What a [`TiledLayer`] holds.
pub struct LayerView {
    pub name: Seq<char>,
    pub visible: bool,
    pub tiles: Seq<u32>,
}

/// What a [`TiledMapTileset`] holds.
pub struct TilesetRefView {
    pub first_gid: u32,
    pub source: Seq<char>,
}

/// What a [`TiledMap`] holds.
pub struct MapView {
    pub width: u32,
    pub height: u32,
    pub tile_width: u32,
    pub tile_height: u32,
    pub layers: Seq<LayerView>,
    pub tilesets: Seq<TilesetRefView>,
}

impl View for TiledLayer {
    type V = LayerView;

    open spec fn view(&self) -> LayerView {
        LayerView { name: self.name@, visible: self.visible, tiles: self.tiles@ }
    }
}

impl View for TiledMapTileset {
    type V = TilesetRefView;

    open spec fn view(&self) -> TilesetRefView {
        TilesetRefView { first_gid: self.first_gid, source: self.source@ }
    }
}

/// What a list of layers holds.
pub open spec fn layers_view(layers: Seq<TiledLayer>) -> Seq<LayerView> {
    layers.map_values(|layer: TiledLayer| layer@)
}

/// What a list of tileset references holds.
pub open spec fn tilesets_view(tilesets: Seq<TiledMapTileset>) -> Seq<TilesetRefView> {
    tilesets.map_values(|tileset: TiledMapTileset| tileset@)
}

impl View for TiledMap {
    type V = MapView;

    open spec fn view(&self) -> MapView {
        MapView {
            width: self.width,
            height: self.height,
            tile_width: self.tile_width,
            tile_height: self.tile_height,
            layers: layers_view(self.layers@),
            tilesets: tilesets_view(self.tilesets@),
        }
    }
}

impl MapView {
    /// The grid and the tiles have a size, every layer has a name, and
    /// every layer fills the grid exactly.
    pub open spec fn well_formed(self) -> bool {
        &&& self.width > 0
        &&& self.height > 0
        &&& self.tile_width > 0
        &&& self.tile_height > 0
        &&& forall|i: int|
            0 <= i < self.layers.len() ==> {
                &&& (#[trigger] self.layers[i]).name.len() > 0
                &&& self.layers[i].tiles.len() == self.width * self.height
            }
    }
}

/// Where in the document the decoder is.
#[derive(Clone, Copy, Debug, PartialEq, Eq, Structural)]
pub enum Mode {
    /// Outside any layer.
    Outside,
    /// Inside a layer, outside its data block.
    InLayer,
    /// Inside the data block of a layer.
    InLayerData,
}

/// What the decoder knows at one point of the document.
pub struct MapState {
    /// Whether the `map` element was opened.
    pub root_seen: bool,
    pub width: Option<u32>,
    pub height: Option<u32>,
    pub tile_width: Option<u32>,
    pub tile_height: Option<u32>,
    /// The layers completed so far.
    pub layers: Seq<LayerView>,
    /// The tileset references found so far.
    pub tilesets: Seq<TilesetRefView>,
    pub mode: Mode,
    /// The name of the layer the decoder is in.
    pub layer_name: Seq<char>,
    /// Whether the layer the decoder is in is visible.
    pub layer_visible: bool,
    /// The number of cells of the layer the decoder is in.
    pub layer_cells: u64,
    /// Whether the last data block of this layer declared base64.
    pub base64_declared: bool,
    /// Whether this layer has given its tiles.
    pub filled: bool,
}

/// The state before the first event.
pub open spec fn initial_state() -> MapState {
    MapState {
        root_seen: false,
        width: None,
        height: None,
        tile_width: None,
        tile_height: None,
        layers: Seq::empty(),
        tilesets: Seq::empty(),
        mode: Mode::Outside,
        layer_name: Seq::empty(),
        layer_visible: true,
        layer_cells: 0,
        base64_declared: false,
        filled: false,
    }
}

/// Opening the `map` element: its four sizes are read; each may be absent,
/// none may be zero or anything but a number.  A document has one `map`
/// element.
pub open spec fn open_root(state: MapState, list: Option<Seq<AttributeView>>) -> Result<
    MapState,
    DecodeError,
> {
    if state.root_seen {
        Err(DecodeError::Structure(Element::MapElement))
    } else {
        match list {
            None => Err(DecodeError::Structure(Element::MapElement)),
            Some(list) => match size_field(list, "width".spec_bytes(), Field::Width) {
                Err(error) => Err(error),
                Ok(width) => match size_field(list, "height".spec_bytes(), Field::Height) {
                    Err(error) => Err(error),
                    Ok(height) => match size_field(
                        list,
                        "tilewidth".spec_bytes(),
                        Field::TileWidth,
                    ) {
                        Err(error) => Err(error),
                        Ok(tile_width) => match size_field(
                            list,
                            "tileheight".spec_bytes(),
                            Field::TileHeight,
                        ) {
                            Err(error) => Err(error),
                            Ok(tile_height) => Ok(
                                MapState {
                                    root_seen: true,
                                    width,
                                    height,
                                    tile_width,
                                    tile_height,
                                    ..state
                                },
                            ),
                        },
                    },
                },
            },
        }
    }
}

/// Opening a `tileset` element outside the layers: a reference with its
/// first tile identifier and its source, both required, is added.
pub open spec fn open_tileset_ref(state: MapState, list: Option<Seq<AttributeView>>) -> Result<
    MapState,
    DecodeError,
> {
    match list {
        None => Err(DecodeError::Structure(Element::TilesetElement)),
        Some(list) => match required_number_field(
            list,
            "firstgid".spec_bytes(),
            Field::FirstGid,
        ) {
            Err(error) => Err(error),
            Ok(first_gid) => match required_text_field(
                list,
                "source".spec_bytes(),
                Field::Source,
            ) {
                Err(error) => Err(error),
                Ok(source) => Ok(
                    MapState {
                        tilesets: state.tilesets.push(TilesetRefView { first_gid, source }),
                        ..state
                    },
                ),
            },
        },
    }
}

/// Opening a `layer` element: its name is required and not empty, it is
/// visible unless it says otherwise, and the width and the height of the
/// map must be known by now.
pub open spec fn open_layer(state: MapState, list: Option<Seq<AttributeView>>) -> Result<
    MapState,
    DecodeError,
> {
    match list {
        None => Err(DecodeError::Structure(Element::LayerElement)),
        Some(list) => match required_text_field(list, "name".spec_bytes(), Field::LayerName) {
            Err(error) => Err(error),
            Ok(name) => if name.len() == 0 {
                Err(DecodeError::MissingField(Field::LayerName))
            } else {
                match flag_field(list, "visible".spec_bytes(), Field::Visible, true) {
                    Err(error) => Err(error),
                    Ok(visible) => match (state.width, state.height) {
                        (None, _) => Err(DecodeError::MissingField(Field::Width)),
                        (Some(_), None) => Err(DecodeError::MissingField(Field::Height)),
                        (Some(width), Some(height)) => Ok(
                            MapState {
                                mode: Mode::InLayer,
                                layer_name: name,
                                layer_visible: visible,
                                layer_cells: (width * height) as u64,
                                base64_declared: false,
                                filled: false,
                                ..state
                            },
                        ),
                    },
                }
            },
        },
    }
}

/// Opening a `data` element inside a layer: the decoder notes whether the
/// block declares `base64`.
pub open spec fn open_data(state: MapState, list: Option<Seq<AttributeView>>) -> Result<
    MapState,
    DecodeError,
> {
    match list {
        None => Err(DecodeError::Structure(Element::DataElement)),
        Some(list) => Ok(
            MapState {
                mode: Mode::InLayerData,
                base64_declared: attribute_value(list, "encoding".spec_bytes()) == Some(
                    "base64".spec_bytes(),
                ),
                ..state
            },
        ),
    }
}

/// Closing a `layer` element: a layer that gave no tiles is an error.
pub open spec fn close_layer(state: MapState) -> Result<MapState, DecodeError> {
    if state.filled {
        Ok(MapState { mode: Mode::Outside, ..state })
    } else {
        Err(DecodeError::MissingField(Field::LayerData))
    }
}

/// Character data inside a data block: the block must have declared
/// base64, and the text must decode to the tiles of the grid; the layer is
/// then complete and added.
pub open spec fn take_payload(state: MapState, content: Option<Seq<char>>) -> Result<
    MapState,
    DecodeError,
> {
    if !state.base64_declared {
        Err(DecodeError::UnsupportedEncoding)
    } else {
        match content {
            None => Err(DecodeError::PayloadDecode),
            Some(text) => match payload_outcome(text, "base64"@, state.layer_cells) {
                Err(error) => Err(error),
                Ok(tiles) => Ok(
                    MapState {
                        layers: state.layers.push(
                            LayerView {
                                name: state.layer_name,
                                visible: state.layer_visible,
                                tiles,
                            },
                        ),
                        filled: true,
                        ..state
                    },
                ),
            },
        }
    }
}

/// The state after one event that is not the end of the document.
pub open spec fn step(state: MapState, event: EventView) -> Result<MapState, DecodeError> {
    match event {
        EventView::Malformed => Err(DecodeError::Structure(Element::Document)),
        EventView::Start { name, attributes } => if state.mode == Mode::Outside {
            if name == "map".spec_bytes() {
                open_root(state, attributes)
            } else if name == "tileset".spec_bytes() {
                open_tileset_ref(state, attributes)
            } else if name == "layer".spec_bytes() {
                open_layer(state, attributes)
            } else {
                Ok(state)
            }
        } else if name == "data".spec_bytes() {
            open_data(state, attributes)
        } else {
            Ok(state)
        },
        EventView::End { name } => if state.mode == Mode::Outside {
            Ok(state)
        } else if name == "data".spec_bytes() {
            Ok(MapState { mode: Mode::InLayer, ..state })
        } else if name == "layer".spec_bytes() {
            close_layer(state)
        } else {
            Ok(state)
        },
        EventView::Text { content } => if state.mode == Mode::InLayerData {
            take_payload(state, content)
        } else {
            Ok(state)
        },
        EventView::Eof => Ok(state),
        EventView::Other => Ok(state),
    }
}

/// The map at the end of the document: no layer is open, and the four sizes
/// are known.
pub open spec fn finish(state: MapState) -> Result<MapView, DecodeError> {
    if state.mode != Mode::Outside {
        Err(DecodeError::Structure(Element::LayerElement))
    } else {
        match (state.width, state.height, state.tile_width, state.tile_height) {
            (None, _, _, _) => Err(DecodeError::MissingField(Field::Width)),
            (Some(_), None, _, _) => Err(DecodeError::MissingField(Field::Height)),
            (Some(_), Some(_), None, _) => Err(DecodeError::MissingField(Field::TileWidth)),
            (Some(_), Some(_), Some(_), None) => Err(DecodeError::MissingField(Field::TileHeight)),
            (Some(width), Some(height), Some(tile_width), Some(tile_height)) => Ok(
                MapView {
                    width,
                    height,
                    tile_width,
                    tile_height,
                    layers: state.layers,
                    tilesets: state.tilesets,
                },
            ),
        }
    }
}

/// The map that the events give when the decoder starts them in `state`.
/// Events that stop short of an end of document give no map.
pub open spec fn run(state: MapState, events: Seq<EventView>) -> Result<MapView, DecodeError>
    decreases events.len(),
{
    if events.len() == 0 {
        Err(DecodeError::Structure(Element::Document))
    } else if events[0] is Eof {
        finish(state)
    } else {
        match step(state, events[0]) {
            Ok(next) => run(next, events.drop_first()),
            Err(error) => Err(error),
        }
    }
}

/// The map that the events of a document give.
pub open spec fn decoded_map(events: Seq<EventView>) -> Result<MapView, DecodeError> {
    run(initial_state(), events)
}

/// A map, or the error in its place, with the map as what it holds.
pub open spec fn map_result_view(map: Result<TiledMap, DecodeError>) -> Result<
    MapView,
    DecodeError,
> {
    match map {
        Ok(map) => Ok(map@),
        Err(error) => Err(error),
    }
}

/// What holds of every state the decoder reaches: no size is zero, the
/// sizes are unknown before the `map` element, every completed layer has a
/// name and fills the grid, and so will the layer the decoder is in.
pub open spec fn state_inv(state: MapState) -> bool {
    &&& state.width != Some(0u32)
    &&& state.height != Some(0u32)
    &&& state.tile_width != Some(0u32)
    &&& state.tile_height != Some(0u32)
    &&& !state.root_seen ==> state.width is None
    &&& forall|i: int|
        0 <= i < state.layers.len() ==> {
            &&& (#[trigger] state.layers[i]).name.len() > 0
            &&& state.width is Some
            &&& state.height is Some
            &&& state.layers[i].tiles.len() == state.width->0 * state.height->0
        }
    &&& state.mode != Mode::Outside ==> {
        &&& state.layer_name.len() > 0
        &&& state.width is Some
        &&& state.height is Some
        &&& state.layer_cells == state.width->0 * state.height->0
    }
}

/// One event keeps what holds of every state.
pub proof fn lemma_step_keeps_inv(state: MapState, event: EventView)
    requires
        state_inv(state),
        step(state, event) is Ok,
    ensures
        state_inv(step(state, event)->Ok_0),
{
    let next = step(state, event)->Ok_0;
    match event {
        EventView::Start { name, attributes } => {
            if state.mode == Mode::Outside {
                if name == "map".spec_bytes() {
                    assert(state.layers.len() == 0) by {
                        if state.layers.len() > 0 {
                            assert(state.layers[0].name.len() > 0);
                        }
                    }
                } else if name == "tileset".spec_bytes() {
                } else if name == "layer".spec_bytes() {
                    let width = state.width->0;
                    let height = state.height->0;
                    assert(0 <= width * height <= 0xffff_ffff * 0xffff_ffff) by (nonlinear_arith)
                        requires
                            0 <= width <= 0xffff_ffff,
                            0 <= height <= 0xffff_ffff,
                    ;
                }
            }
        },
        EventView::Text { content } => {
            if state.mode == Mode::InLayerData {
                assert forall|i: int| 0 <= i < next.layers.len() implies {
                    &&& (#[trigger] next.layers[i]).name.len() > 0
                    &&& next.layers[i].tiles.len() == next.width->0 * next.height->0
                } by {
                    if i < state.layers.len() {
                        assert(next.layers[i] == state.layers[i]);
                    }
                }
            }
        },
        _ => {},
    }
}

/// A decoded map is well formed: whatever the events, a map that comes out
/// has a grid and tiles of a size other than zero, and each of its layers
/// has a name and exactly one tile for each cell of the grid.
pub proof fn lemma_run_well_formed(state: MapState, events: Seq<EventView>)
    requires
        state_inv(state),
        run(state, events) is Ok,
    ensures
        run(state, events)->Ok_0.well_formed(),
    decreases events.len(),
{
    if events.len() == 0 {
    } else if events[0] is Eof {
    } else {
        lemma_step_keeps_inv(state, events[0]);
        lemma_run_well_formed(step(state, events[0])->Ok_0, events.drop_first());
    }
}

/// The maps that a list of events decodes to are well formed.
pub proof fn lemma_decoded_map_well_formed(events: Seq<EventView>)
    requires
        decoded_map(events) is Ok,
    ensures
        decoded_map(events)->Ok_0.well_formed(),
{
    lemma_run_well_formed(initial_state(), events);
}

/// Decoding is a function of the document: two results for the same bytes
/// hold the same map or the same error.
pub proof fn lemma_decode_map_repeats(
    bytes: Seq<u8>,
    first: Result<TiledMap, DecodeError>,
    second: Result<TiledMap, DecodeError>,
)
    requires
        map_result_view(first) == decoded_map(document_events(bytes)),
        map_result_view(second) == decoded_map(document_events(bytes)),
    ensures
        map_result_view(first) == map_result_view(second),
{
}

/// The decoder at one point of the document.
struct MapDecoder {
    root_seen: bool,
    width: Option<u32>,
    height: Option<u32>,
    tile_width: Option<u32>,
    tile_height: Option<u32>,
    layers: Vec<TiledLayer>,
    tilesets: Vec<TiledMapTileset>,
    mode: Mode,
    layer_name: String,
    layer_visible: bool,
    layer_cells: u64,
    base64_declared: bool,
    filled: bool,
}

impl View for MapDecoder {
    type V = MapState;

    closed spec fn view(&self) -> MapState {
        MapState {
            root_seen: self.root_seen,
            width: self.width,
            height: self.height,
            tile_width: self.tile_width,
            tile_height: self.tile_height,
            layers: layers_view(self.layers@),
            tilesets: tilesets_view(self.tilesets@),
            mode: self.mode,
            layer_name: self.layer_name@,
            layer_visible: self.layer_visible,
            layer_cells: self.layer_cells,
            base64_declared: self.base64_declared,
            filled: self.filled,
        }
    }
}

/// A decoder, or the error in its place, with the decoder as its state.
spec fn state_result_view(decoder: Result<MapDecoder, DecodeError>) -> Result<
    MapState,
    DecodeError,
> {
    match decoder {
        Ok(decoder) => Ok(decoder@),
        Err(error) => Err(error),
    }
}

impl MapDecoder {
    fn new() -> (decoder: MapDecoder)
        ensures
            decoder@ == initial_state(),
    {
        let decoder = MapDecoder {
            root_seen: false,
            width: None,
            height: None,
            tile_width: None,
            tile_height: None,
            layers: Vec::new(),
            tilesets: Vec::new(),
            mode: Mode::Outside,
            layer_name: String::new(),
            layer_visible: true,
            layer_cells: 0,
            base64_declared: false,
            filled: false,
        };
        assert(decoder@.layers =~= Seq::<LayerView>::empty());
        assert(decoder@.tilesets =~= Seq::<TilesetRefView>::empty());
        decoder
    }

    fn open_root(self, attributes: &Option<Vec<XmlAttribute>>) -> (next: Result<
        MapDecoder,
        DecodeError,
    >)
        ensures
            state_result_view(next) == open_root(self@, attributes_view(*attributes)),
    {
        if self.root_seen {
            return Err(DecodeError::Structure(Element::MapElement));
        }
        match attributes {
            None => Err(DecodeError::Structure(Element::MapElement)),
            Some(list) => {
                let width = read_size(list, "width", Field::Width)?;
                let height = read_size(list, "height", Field::Height)?;
                let tile_width = read_size(list, "tilewidth", Field::TileWidth)?;
                let tile_height = read_size(list, "tileheight", Field::TileHeight)?;
                Ok(MapDecoder { root_seen: true, width, height, tile_width, tile_height, ..self })
            },
        }
    }

    fn open_tileset_ref(self, attributes: &Option<Vec<XmlAttribute>>) -> (next: Result<
        MapDecoder,
        DecodeError,
    >)
        ensures
            state_result_view(next) == open_tileset_ref(
                self@,
                attributes_view(*attributes),
            ),
    {
        match attributes {
            None => Err(DecodeError::Structure(Element::TilesetElement)),
            Some(list) => {
                let first_gid = read_required_number(list, "firstgid", Field::FirstGid)?;
                let source = read_required_text(list, "source", Field::Source)?;
                let mut next = self;
                let ghost before = next.tilesets@;
                let tileset = TiledMapTileset { first_gid, source };
                next.tilesets.push(tileset);
                assert(tilesets_view(next.tilesets@) =~= tilesets_view(before).push(tileset@));
                Ok(next)
            },
        }
    }

    fn open_layer(self, attributes: &Option<Vec<XmlAttribute>>) -> (next: Result<
        MapDecoder,
        DecodeError,
    >)
        ensures
            state_result_view(next) == open_layer(self@, attributes_view(*attributes)),
    {
        match attributes {
            None => Err(DecodeError::Structure(Element::LayerElement)),
            Some(list) => {
                let name = read_required_text(list, "name", Field::LayerName)?;
                if name.as_str().is_empty() {
                    return Err(DecodeError::MissingField(Field::LayerName));
                }
                let visible = read_flag(list, "visible", Field::Visible, true)?;
                let width = match self.width {
                    Some(width) => width,
                    None => { return Err(DecodeError::MissingField(Field::Width)); },
                };
                let height = match self.height {
                    Some(height) => height,
                    None => { return Err(DecodeError::MissingField(Field::Height)); },
                };
                assert(0 <= width * height <= 0xffff_ffff * 0xffff_ffff) by (nonlinear_arith)
                    requires
                        0 <= width <= 0xffff_ffff,
                        0 <= height <= 0xffff_ffff,
                ;
                let cells: u64 = width as u64 * height as u64;
                Ok(
                    MapDecoder {
                        mode: Mode::InLayer,
                        layer_name: name,
                        layer_visible: visible,
                        layer_cells: cells,
                        base64_declared: false,
                        filled: false,
                        ..self
                    },
                )
            },
        }
    }

    fn open_data(self, attributes: &Option<Vec<XmlAttribute>>) -> (next: Result<
        MapDecoder,
        DecodeError,
    >)
        ensures
            state_result_view(next) == open_data(self@, attributes_view(*attributes)),
    {
        match attributes {
            None => Err(DecodeError::Structure(Element::DataElement)),
            Some(list) => {
                let declared = match find_attribute(list, "encoding") {
                    Some(value) => is_word(value.as_slice(), "base64"),
                    None => false,
                };
                Ok(MapDecoder { mode: Mode::InLayerData, base64_declared: declared, ..self })
            },
        }
    }

    fn close_layer(self) -> (next: Result<MapDecoder, DecodeError>)
        ensures
            state_result_view(next) == close_layer(self@),
    {
        if self.filled {
            Ok(MapDecoder { mode: Mode::Outside, ..self })
        } else {
            Err(DecodeError::MissingField(Field::LayerData))
        }
    }

    fn take_payload(self, content: &Option<String>) -> (next: Result<MapDecoder, DecodeError>)
        ensures
            state_result_view(next) == take_payload(self@, text_view(*content)),
    {
        if !self.base64_declared {
            return Err(DecodeError::UnsupportedEncoding);
        }
        match content {
            None => Err(DecodeError::PayloadDecode),
            Some(text) => {
                let tiles = decode_payload(text.as_str(), "base64", self.layer_cells)?;
                let mut next = self;
                let ghost before = next.layers@;
                let layer = TiledLayer {
                    name: next.layer_name.clone(),
                    visible: next.layer_visible,
                    tiles,
                };
                next.layers.push(layer);
                next.filled = true;
                assert(layers_view(next.layers@) =~= layers_view(before).push(layer@));
                Ok(next)
            },
        }
    }

    fn step(self, event: &XmlEvent) -> (next: Result<MapDecoder, DecodeError>)
        ensures
            state_result_view(next) == step(self@, event@),
    {
        match event {
            XmlEvent::Malformed => Err(DecodeError::Structure(Element::Document)),
            XmlEvent::Start { name, attributes } => {
                if self.mode == Mode::Outside {
                    if is_word(name.as_slice(), "map") {
                        self.open_root(attributes)
                    } else if is_word(name.as_slice(), "tileset") {
                        self.open_tileset_ref(attributes)
                    } else if is_word(name.as_slice(), "layer") {
                        self.open_layer(attributes)
                    } else {
                        Ok(self)
                    }
                } else if is_word(name.as_slice(), "data") {
                    self.open_data(attributes)
                } else {
                    Ok(self)
                }
            },
            XmlEvent::End { name } => {
                if self.mode == Mode::Outside {
                    Ok(self)
                } else if is_word(name.as_slice(), "data") {
                    Ok(MapDecoder { mode: Mode::InLayer, ..self })
                } else if is_word(name.as_slice(), "layer") {
                    self.close_layer()
                } else {
                    Ok(self)
                }
            },
            XmlEvent::Text { content } => {
                if self.mode == Mode::InLayerData {
                    self.take_payload(content)
                } else {
                    Ok(self)
                }
            },
            XmlEvent::Eof => Ok(self),
            XmlEvent::Other => Ok(self),
        }
    }

    fn finish(self) -> (map: Result<TiledMap, DecodeError>)
        ensures
            map_result_view(map) == finish(self@),
    {
        if self.mode != Mode::Outside {
            return Err(DecodeError::Structure(Element::LayerElement));
        }
        let width = match self.width {
            Some(width) => width,
            None => { return Err(DecodeError::MissingField(Field::Width)); },
        };
        let height = match self.height {
            Some(height) => height,
            None => { return Err(DecodeError::MissingField(Field::Height)); },
        };
        let tile_width = match self.tile_width {
            Some(tile_width) => tile_width,
            None => { return Err(DecodeError::MissingField(Field::TileWidth)); },
        };
        let tile_height = match self.tile_height {
            Some(tile_height) => tile_height,
            None => { return Err(DecodeError::MissingField(Field::TileHeight)); },
        };
        Ok(
            TiledMap {
                width,
                height,
                tile_width,
                tile_height,
                layers: self.layers,
                tilesets: self.tilesets,
            },
        )
    }
}

/// Decodes a map from the events of its document.
///
/// The events are taken in order up to the first [`XmlEvent::Eof`], which
/// assembles the map.  The first event that the decoder cannot accept ends
/// the decoding with its error, and so does a list without an `Eof`.
pub fn decode_map_events(events: &[XmlEvent]) -> (map: Result<TiledMap, DecodeError>)
    ensures
        map_result_view(map) == decoded_map(events_view(events@)),
        map matches Ok(map) ==> map@.well_formed(),
{
    let ghost all = events_view(events@);
    let mut decoder = MapDecoder::new();
    let mut i: usize = 0;
    assert(all.skip(0) =~= all);
    while i < events.len()
        invariant
            i <= events.len(),
            all == events_view(events@),
            decoded_map(all) == run(decoder@, all.skip(i as int)),
        decreases events.len() - i,
    {
        let event = &events[i];
        proof {
            assert(all.skip(i as int)[0] == event@);
            assert(all.skip(i as int).drop_first() =~= all.skip(i + 1));
        }
        if let XmlEvent::Eof = event {
            let map = decoder.finish();
            proof {
                if map is Ok {
                    lemma_decoded_map_well_formed(all);
                }
            }
            return map;
        }
        match decoder.step(event) {
            Ok(next) => {
                decoder = next;
            },
            Err(error) => {
                return Err(error);
            },
        }
        i += 1;
    }
    Err(DecodeError::Structure(Element::Document))
}

/// Decodes a map document.
///
/// The result is the map that the events of the document give, and a map
/// that is returned is well formed.  Every document is answered: one that
/// cannot be decoded gives the error of the first place at which the
/// decoder had to stop.
pub fn decode_map(bytes: &[u8]) -> (map: Result<TiledMap, DecodeError>)
    ensures
        map_result_view(map) == decoded_map(document_events(bytes@)),
        map matches Ok(map) ==> map@.well_formed(),
{
    let events = read_events(bytes);
    decode_map_events(events.as_slice())
}

impl TiledMap {
    /// Decodes a map document; see [`decode_map`].
    pub fn from_bytes(bytes: &[u8]) -> (map: Result<TiledMap, DecodeError>)
        ensures
            map_result_view(map) == decoded_map(document_events(bytes@)),
            map matches Ok(map) ==> map@.well_formed(),
    {
        decode_map(bytes)
    }
}

} // verus!
