//! The tileset decoder: a tileset document becomes a [`TiledTileset`].
use crate::error::{DecodeError, Element, Field};
use crate::fields::{
    float_field, number_field, read_float, read_number, read_required_number,
    read_required_text, required_number_field, required_text_field,
};
use crate::value::{is_word, text_view};
use crate::xml::{
    attribute_list_view, attributes_view, document_events, events_view, read_events,
    AttributeView, EventView, XmlAttribute, XmlEvent,
};
use vstd::prelude::*;
use vstd::string::StringSliceAdditionalSpecFns;
use vstd::utf8::encode_utf8_decode_utf8;

verus! {

/// An image that a tileset takes its tiles from.
#[derive(Clone, Debug, PartialEq, Eq)]
pub struct TiledTilesetImage {
    /// Where the image is.
    pub source: String,
    /// The width of the image in pixels.
    pub width: u32,
    /// The height of the image in pixels.
    pub height: u32,
}

/// A decoded tileset.
#[derive(Clone, Debug, PartialEq, Eq)]
pub struct TiledTileset {
    /// The width of a tile in pixels: a floating-point number, kept as the
    /// text that the document writes it with.
    pub tile_width: String,
    /// The height of a tile in pixels, kept as the width is.
    pub tile_height: String,
    /// The number of tiles.
    pub tile_count: u32,
    /// The images, in the order of the document.
    pub images: Vec<TiledTilesetImage>,
}

/// What a [`TiledTilesetImage`] holds.
pub struct ImageView {
    pub source: Seq<char>,
    pub width: u32,
    pub height: u32,
}

/// What a [`TiledTileset`] holds.
pub struct TilesetView {
    pub tile_width: Seq<char>,
    pub tile_height: Seq<char>,
    pub tile_count: u32,
    pub images: Seq<ImageView>,
}

impl View for TiledTilesetImage {
    type V = ImageView;

    open spec fn view(&self) -> ImageView {
        ImageView { source: self.source@, width: self.width, height: self.height }
    }
}

/// What a list of images holds.
pub open spec fn images_view(images: Seq<TiledTilesetImage>) -> Seq<ImageView> {
    images.map_values(|image: TiledTilesetImage| image@)
}

impl View for TiledTileset {
    type V = TilesetView;

    open spec fn view(&self) -> TilesetView {
        TilesetView {
            tile_width: self.tile_width@,
            tile_height: self.tile_height@,
            tile_count: self.tile_count,
            images: images_view(self.images@),
        }
    }
}

/// What the decoder knows at one point of the document.
pub struct TilesetState {
    /// Whether the `tileset` element was opened.
    pub root_seen: bool,
    pub tile_width: Option<Seq<char>>,
    pub tile_height: Option<Seq<char>>,
    pub tile_count: Option<u32>,
    /// The images found so far.
    pub images: Seq<ImageView>,
}

/// The state before the first event.
pub open spec fn initial_tileset_state() -> TilesetState {
    TilesetState {
        root_seen: false,
        tile_width: None,
        tile_height: None,
        tile_count: None,
        images: Seq::empty(),
    }
}

/// Opening the `tileset` element: the size of a tile and the number of
/// tiles are read; each may be absent, none may be of the wrong type.  A
/// document has one `tileset` element.
pub open spec fn open_tileset(state: TilesetState, list: Option<Seq<AttributeView>>) -> Result<
    TilesetState,
    DecodeError,
> {
    if state.root_seen {
        Err(DecodeError::Structure(Element::TilesetElement))
    } else {
        match list {
            None => Err(DecodeError::Structure(Element::TilesetElement)),
            Some(list) => match float_field(list, "tilewidth".spec_bytes(), Field::TileWidth) {
                Err(error) => Err(error),
                Ok(tile_width) => match float_field(
                    list,
                    "tileheight".spec_bytes(),
                    Field::TileHeight,
                ) {
                    Err(error) => Err(error),
                    Ok(tile_height) => match number_field(
                        list,
                        "tilecount".spec_bytes(),
                        Field::TileCount,
                    ) {
                        Err(error) => Err(error),
                        Ok(tile_count) => Ok(
                            TilesetState {
                                root_seen: true,
                                tile_width,
                                tile_height,
                                tile_count,
                                ..state
                            },
                        ),
                    },
                },
            },
        }
    }
}

/// The image that the attributes of an `image` element describe: a source
/// and two sizes, all required.
pub open spec fn image_of(list: Seq<AttributeView>) -> Result<ImageView, DecodeError> {
    match required_text_field(list, "source".spec_bytes(), Field::ImageSource) {
        Err(error) => Err(error),
        Ok(source) => match required_number_field(
            list,
            "width".spec_bytes(),
            Field::ImageWidth,
        ) {
            Err(error) => Err(error),
            Ok(width) => match required_number_field(
                list,
                "height".spec_bytes(),
                Field::ImageHeight,
            ) {
                Err(error) => Err(error),
                Ok(height) => Ok(ImageView { source, width, height }),
            },
        },
    }
}

/// Opening an `image` element: its image is added behind those found
/// before.
pub open spec fn open_image(state: TilesetState, list: Option<Seq<AttributeView>>) -> Result<
    TilesetState,
    DecodeError,
> {
    match list {
        None => Err(DecodeError::Structure(Element::ImageElement)),
        Some(list) => match image_of(list) {
            Err(error) => Err(error),
            Ok(image) => Ok(TilesetState { images: state.images.push(image), ..state }),
        },
    }
}

/// The state after one event that is not the end of the document.
pub open spec fn tileset_step(state: TilesetState, event: EventView) -> Result<
    TilesetState,
    DecodeError,
> {
    match event {
        EventView::Malformed => Err(DecodeError::Structure(Element::Document)),
        EventView::Start { name, attributes } => if name == "tileset".spec_bytes() {
            open_tileset(state, attributes)
        } else if name == "image".spec_bytes() {
            open_image(state, attributes)
        } else {
            Ok(state)
        },
        _ => Ok(state),
    }
}

/// The tileset at the end of the document: the size of a tile and the
/// number of tiles are known.
pub open spec fn tileset_finish(state: TilesetState) -> Result<TilesetView, DecodeError> {
    match (state.tile_width, state.tile_height, state.tile_count) {
        (None, _, _) => Err(DecodeError::MissingField(Field::TileWidth)),
        (Some(_), None, _) => Err(DecodeError::MissingField(Field::TileHeight)),
        (Some(_), Some(_), None) => Err(DecodeError::MissingField(Field::TileCount)),
        (Some(tile_width), Some(tile_height), Some(tile_count)) => Ok(
            TilesetView { tile_width, tile_height, tile_count, images: state.images },
        ),
    }
}

/// The tileset that the events give when the decoder starts them in
/// `state`.  Events that stop short of an end of document give no tileset.
pub open spec fn tileset_run(state: TilesetState, events: Seq<EventView>) -> Result<
    TilesetView,
    DecodeError,
>
    decreases events.len(),
{
    if events.len() == 0 {
        Err(DecodeError::Structure(Element::Document))
    } else if events[0] is Eof {
        tileset_finish(state)
    } else {
        match tileset_step(state, events[0]) {
            Ok(next) => tileset_run(next, events.drop_first()),
            Err(error) => Err(error),
        }
    }
}

/// The tileset that the events of a document give.
pub open spec fn decoded_tileset(events: Seq<EventView>) -> Result<TilesetView, DecodeError> {
    tileset_run(initial_tileset_state(), events)
}

/// A tileset, or the error in its place, with the tileset as what it holds.
pub open spec fn tileset_result_view(tileset: Result<TiledTileset, DecodeError>) -> Result<
    TilesetView,
    DecodeError,
> {
    match tileset {
        Ok(tileset) => Ok(tileset@),
        Err(error) => Err(error),
    }
}

/// Whether the event opens an `image` element.
pub open spec fn opens_image(event: EventView) -> bool {
    event matches EventView::Start { name, .. } && name == "image".spec_bytes()
}

/// The attribute lists of the `image` elements that the events open before
/// the end of the document, in the order of the events.
pub open spec fn image_openings(events: Seq<EventView>) -> Seq<Option<Seq<AttributeView>>>
    decreases events.len(),
{
    if events.len() == 0 || events[0] is Eof {
        Seq::empty()
    } else if opens_image(events[0]) {
        seq![events[0]->attributes] + image_openings(events.drop_first())
    } else {
        image_openings(events.drop_first())
    }
}

/// The two element names of a tileset document are different words.
proof fn lemma_names_differ()
    ensures
        "tileset".spec_bytes() != "image".spec_bytes(),
{
    reveal_strlit("tileset");
    reveal_strlit("image");
    encode_utf8_decode_utf8("tileset"@);
    encode_utf8_decode_utf8("image"@);
}

/// A run of the decoder keeps the images it starts with and adds the image
/// of each `image` element behind them, in the order of the events.
proof fn lemma_run_adds_images(state: TilesetState, events: Seq<EventView>)
    requires
        tileset_run(state, events) is Ok,
    ensures
        ({
            let images = tileset_run(state, events)->Ok_0.images;
            let opened = image_openings(events);
            &&& images.len() == state.images.len() + opened.len()
            &&& forall|i: int| 0 <= i < state.images.len() ==> images[i] == state.images[i]
            &&& forall|i: int|
                0 <= i < opened.len() ==> {
                    &&& (#[trigger] opened[i]) is Some
                    &&& image_of(opened[i]->0) == Ok::<ImageView, DecodeError>(
                        images[state.images.len() + i],
                    )
                }
        }),
    decreases events.len(),
{
    if events.len() == 0 {
    } else if events[0] is Eof {
    } else {
        lemma_names_differ();
        let next = tileset_step(state, events[0])->Ok_0;
        let rest = events.drop_first();
        lemma_run_adds_images(next, rest);
        let images = tileset_run(state, events)->Ok_0.images;
        let opened = image_openings(events);
        let later = image_openings(rest);
        if opens_image(events[0]) {
            assert(opened == seq![events[0]->attributes] + later);
            assert(next.images == state.images.push(next.images.last()));
            assert forall|i: int| 0 <= i < opened.len() implies {
                &&& (#[trigger] opened[i]) is Some
                &&& image_of(opened[i]->0) == Ok::<ImageView, DecodeError>(
                    images[state.images.len() + i],
                )
            } by {
                if i == 0 {
                    assert(images[state.images.len() as int] == next.images[
                        state.images.len() as int
                    ]);
                } else {
                    assert(opened[i] == later[i - 1]);
                }
            }
            assert forall|i: int| 0 <= i < state.images.len() implies images[i]
                == state.images[i] by {
                assert(images[i] == next.images[i]);
            }
        } else {
            assert(next.images == state.images);
        }
    }
}

/// The images of a decoded tileset are the images of the `image` elements
/// of the document, one for each and in the order in which the document
/// opens them.
pub proof fn lemma_images_in_document_order(events: Seq<EventView>)
    requires
        decoded_tileset(events) is Ok,
    ensures
        decoded_tileset(events)->Ok_0.images.len() == image_openings(events).len(),
        forall|i: int|
            0 <= i < image_openings(events).len() ==> {
                &&& (#[trigger] image_openings(events)[i]) is Some
                &&& image_of(image_openings(events)[i]->0) == Ok::<ImageView, DecodeError>(
                    decoded_tileset(events)->Ok_0.images[i],
                )
            },
{
    lemma_run_adds_images(initial_tileset_state(), events);
}

/// Decoding is a function of the document: two results for the same bytes
/// hold the same tileset or the same error.
pub proof fn lemma_decode_tileset_repeats(
    bytes: Seq<u8>,
    first: Result<TiledTileset, DecodeError>,
    second: Result<TiledTileset, DecodeError>,
)
    requires
        tileset_result_view(first) == decoded_tileset(document_events(bytes)),
        tileset_result_view(second) == decoded_tileset(document_events(bytes)),
    ensures
        tileset_result_view(first) == tileset_result_view(second),
{
}

/// The decoder at one point of the document.
struct TilesetDecoder {
    root_seen: bool,
    tile_width: Option<String>,
    tile_height: Option<String>,
    tile_count: Option<u32>,
    images: Vec<TiledTilesetImage>,
}

impl View for TilesetDecoder {
    type V = TilesetState;

    closed spec fn view(&self) -> TilesetState {
        TilesetState {
            root_seen: self.root_seen,
            tile_width: text_view(self.tile_width),
            tile_height: text_view(self.tile_height),
            tile_count: self.tile_count,
            images: images_view(self.images@),
        }
    }
}

/// A decoder, or the error in its place, with the decoder as its state.
spec fn tileset_state_view(decoder: Result<TilesetDecoder, DecodeError>) -> Result<
    TilesetState,
    DecodeError,
> {
    match decoder {
        Ok(decoder) => Ok(decoder@),
        Err(error) => Err(error),
    }
}

/// An image, or the error in its place, with the image as what it holds.
spec fn image_result_view(image: Result<TiledTilesetImage, DecodeError>) -> Result<
    ImageView,
    DecodeError,
> {
    match image {
        Ok(image) => Ok(image@),
        Err(error) => Err(error),
    }
}

/// Reads the image that the attributes of an `image` element describe.
fn read_image(list: &Vec<XmlAttribute>) -> (image: Result<TiledTilesetImage, DecodeError>)
    ensures
        image_result_view(image) == image_of(attribute_list_view(list@)),
{
    let source = read_required_text(list, "source", Field::ImageSource)?;
    let width = read_required_number(list, "width", Field::ImageWidth)?;
    let height = read_required_number(list, "height", Field::ImageHeight)?;
    Ok(TiledTilesetImage { source, width, height })
}

impl TilesetDecoder {
    fn new() -> (decoder: TilesetDecoder)
        ensures
            decoder@ == initial_tileset_state(),
    {
        let decoder = TilesetDecoder {
            root_seen: false,
            tile_width: None,
            tile_height: None,
            tile_count: None,
            images: Vec::new(),
        };
        assert(decoder@.images =~= Seq::<ImageView>::empty());
        decoder
    }

    fn open_tileset(self, attributes: &Option<Vec<XmlAttribute>>) -> (next: Result<
        TilesetDecoder,
        DecodeError,
    >)
        ensures
            tileset_state_view(next) == open_tileset(self@, attributes_view(*attributes)),
    {
        if self.root_seen {
            return Err(DecodeError::Structure(Element::TilesetElement));
        }
        match attributes {
            None => Err(DecodeError::Structure(Element::TilesetElement)),
            Some(list) => {
                let tile_width = read_float(list, "tilewidth", Field::TileWidth)?;
                let tile_height = read_float(list, "tileheight", Field::TileHeight)?;
                let tile_count = read_number(list, "tilecount", Field::TileCount)?;
                Ok(
                    TilesetDecoder {
                        root_seen: true,
                        tile_width,
                        tile_height,
                        tile_count,
                        ..self
                    },
                )
            },
        }
    }

    fn open_image(self, attributes: &Option<Vec<XmlAttribute>>) -> (next: Result<
        TilesetDecoder,
        DecodeError,
    >)
        ensures
            tileset_state_view(next) == open_image(self@, attributes_view(*attributes)),
    {
        match attributes {
            None => Err(DecodeError::Structure(Element::ImageElement)),
            Some(list) => {
                let image = read_image(list)?;
                let mut next = self;
                let ghost before = next.images@;
                next.images.push(image);
                assert(images_view(next.images@) =~= images_view(before).push(image@));
                Ok(next)
            },
        }
    }

    fn step(self, event: &XmlEvent) -> (next: Result<TilesetDecoder, DecodeError>)
        ensures
            tileset_state_view(next) == tileset_step(self@, event@),
    {
        match event {
            XmlEvent::Malformed => Err(DecodeError::Structure(Element::Document)),
            XmlEvent::Start { name, attributes } => {
                if is_word(name.as_slice(), "tileset") {
                    self.open_tileset(attributes)
                } else if is_word(name.as_slice(), "image") {
                    self.open_image(attributes)
                } else {
                    Ok(self)
                }
            },
            _ => Ok(self),
        }
    }

    fn finish(self) -> (tileset: Result<TiledTileset, DecodeError>)
        ensures
            tileset_result_view(tileset) == tileset_finish(self@),
    {
        let tile_width = match self.tile_width {
            Some(tile_width) => tile_width,
            None => { return Err(DecodeError::MissingField(Field::TileWidth)); },
        };
        let tile_height = match self.tile_height {
            Some(tile_height) => tile_height,
            None => { return Err(DecodeError::MissingField(Field::TileHeight)); },
        };
        let tile_count = match self.tile_count {
            Some(tile_count) => tile_count,
            None => { return Err(DecodeError::MissingField(Field::TileCount)); },
        };
        Ok(TiledTileset { tile_width, tile_height, tile_count, images: self.images })
    }
}

/// Decodes a tileset from the events of its document.
///
/// The events are taken in order up to the first [`XmlEvent::Eof`], which
/// assembles the tileset.  The first event that the decoder cannot accept
/// ends the decoding with its error, and so does a list without an `Eof`.
pub fn decode_tileset_events(events: &[XmlEvent]) -> (tileset: Result<TiledTileset, DecodeError>)
    ensures
        tileset_result_view(tileset) == decoded_tileset(events_view(events@)),
{
    let ghost all = events_view(events@);
    let mut decoder = TilesetDecoder::new();
    let mut i: usize = 0;
    assert(all.skip(0) =~= all);
    while i < events.len()
        invariant
            i <= events.len(),
            all == events_view(events@),
            decoded_tileset(all) == tileset_run(decoder@, all.skip(i as int)),
        decreases events.len() - i,
    {
        let event = &events[i];
        proof {
            assert(all.skip(i as int)[0] == event@);
            assert(all.skip(i as int).drop_first() =~= all.skip(i + 1));
        }
        if let XmlEvent::Eof = event {
            return decoder.finish();
        }
        match decoder.step(event) {
            Ok(next) => {
                decoder = next;
            },
            Err(error) => {
                return Err(error);
            },
        }
        i += 1;
    }
    Err(DecodeError::Structure(Element::Document))
}

/// Decodes a tileset document.
///
/// The result is the tileset that the events of the document give.  Every
/// document is answered: one that cannot be decoded gives the error of the
/// first place at which the decoder had to stop.
pub fn decode_tileset(bytes: &[u8]) -> (tileset: Result<TiledTileset, DecodeError>)
    ensures
        tileset_result_view(tileset) == decoded_tileset(document_events(bytes@)),
{
    let events = read_events(bytes);
    decode_tileset_events(events.as_slice())
}

impl TiledTileset {
    /// Decodes a tileset document; see [`decode_tileset`].
    pub fn from_bytes(bytes: &[u8]) -> (tileset: Result<TiledTileset, DecodeError>)
        ensures
            tileset_result_view(tileset) == decoded_tileset(document_events(bytes@)),
    {
        decode_tileset(bytes)
    }
}

} // verus!
