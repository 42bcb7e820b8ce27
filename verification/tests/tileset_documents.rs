use tiled_map::{decode_tileset, DecodeError, Element, Field, TiledTileset};

fn tileset_document(attributes: &str, body: &str) -> Vec<u8> {
    format!(
        "<?xml version=\"1.0\" encoding=\"UTF-8\"?>\n<tileset version=\"1.4\" name=\"t\" {}>\n{}\n</tileset>\n",
        attributes, body
    )
    .into_bytes()
}

const SIZES: &str = "tilewidth=\"16\" tileheight=\"24\" tilecount=\"48\"";

#[test]
fn two_images_come_in_the_order_of_the_document() {
    let body = "<image source=\"first.png\" width=\"128\" height=\"96\"/>\n<image source=\"second.png\" width=\"64\" height=\"32\"></image>";
    let tileset = decode_tileset(&tileset_document(SIZES, body)).unwrap();
    assert_eq!(tileset.tile_width, "16");
    assert_eq!(tileset.tile_height, "24");
    assert_eq!(tileset.tile_count, 48);
    assert_eq!(tileset.images.len(), 2);
    assert_eq!(tileset.images[0].source, "first.png");
    assert_eq!(tileset.images[0].width, 128);
    assert_eq!(tileset.images[0].height, 96);
    assert_eq!(tileset.images[1].source, "second.png");
    assert_eq!(tileset.images[1].width, 64);
    assert_eq!(tileset.images[1].height, 32);
}

#[test]
fn images_inside_tiles_are_collected_too() {
    let body = "<tile id=\"0\"><image source=\"a.png\" width=\"1\" height=\"2\"/></tile><tile id=\"1\"><image source=\"b.png\" width=\"3\" height=\"4\"/></tile>";
    let tileset = decode_tileset(&tileset_document(SIZES, body)).unwrap();
    let sources: Vec<&str> = tileset.images.iter().map(|i| i.source.as_str()).collect();
    assert_eq!(sources, vec!["a.png", "b.png"]);
}

#[test]
fn tileset_without_images() {
    let tileset = TiledTileset::from_bytes(&tileset_document(SIZES, "")).unwrap();
    assert!(tileset.images.is_empty());
    assert_eq!(Ok(tileset), decode_tileset(&tileset_document(SIZES, "")));
}

#[test]
fn tile_sizes_are_floating_point_numbers() {
    let tileset = decode_tileset(&tileset_document(
        "tilewidth=\"16.5\" tileheight=\"1e2\" tilecount=\"0\"",
        "",
    ))
    .unwrap();
    assert_eq!(tileset.tile_width, "16.5");
    assert_eq!(tileset.tile_height, "1e2");
    assert_eq!(tileset.tile_width.parse::<f32>(), Ok(16.5));
    assert_eq!(tileset.tile_height.parse::<f32>(), Ok(100.0));
    assert_eq!(tileset.tile_count, 0);
    assert_eq!(
        decode_tileset(&tileset_document(
            "tilewidth=\"wide\" tileheight=\"16\" tilecount=\"1\"",
            ""
        )),
        Err(DecodeError::Type(Field::TileWidth))
    );
    assert_eq!(
        decode_tileset(&tileset_document(
            "tilewidth=\"16\" tileheight=\"16px\" tilecount=\"1\"",
            ""
        )),
        Err(DecodeError::Type(Field::TileHeight))
    );
    assert_eq!(
        decode_tileset(&tileset_document(
            "tilewidth=\"16\" tileheight=\"16\" tilecount=\"1.5\"",
            ""
        )),
        Err(DecodeError::Type(Field::TileCount))
    );
}

#[test]
fn each_missing_tileset_field_is_named() {
    assert_eq!(
        decode_tileset(&tileset_document("tileheight=\"16\" tilecount=\"1\"", "")),
        Err(DecodeError::MissingField(Field::TileWidth))
    );
    assert_eq!(
        decode_tileset(&tileset_document("tilewidth=\"16\" tilecount=\"1\"", "")),
        Err(DecodeError::MissingField(Field::TileHeight))
    );
    assert_eq!(
        decode_tileset(&tileset_document("tilewidth=\"16\" tileheight=\"16\"", "")),
        Err(DecodeError::MissingField(Field::TileCount))
    );
    assert_eq!(
        decode_tileset(b"<other/>"),
        Err(DecodeError::MissingField(Field::TileWidth))
    );
}

#[test]
fn image_attributes_are_required_and_typed() {
    assert_eq!(
        decode_tileset(&tileset_document(SIZES, "<image width=\"1\" height=\"1\"/>")),
        Err(DecodeError::MissingField(Field::ImageSource))
    );
    assert_eq!(
        decode_tileset(&tileset_document(SIZES, "<image source=\"a.png\" height=\"1\"/>")),
        Err(DecodeError::MissingField(Field::ImageWidth))
    );
    assert_eq!(
        decode_tileset(&tileset_document(SIZES, "<image source=\"a.png\" width=\"1\"/>")),
        Err(DecodeError::MissingField(Field::ImageHeight))
    );
    assert_eq!(
        decode_tileset(&tileset_document(
            SIZES,
            "<image source=\"a.png\" width=\"1.5\" height=\"1\"/>"
        )),
        Err(DecodeError::Type(Field::ImageWidth))
    );
    assert_eq!(
        decode_tileset(&tileset_document(
            SIZES,
            "<image source=\"a.png\" width=\"1\" height=\"tall\"/>"
        )),
        Err(DecodeError::Type(Field::ImageHeight))
    );
    assert_eq!(
        decode_tileset(&tileset_document(SIZES, "<image source=\"a.png\" width=1 height=\"1\"/>")),
        Err(DecodeError::Structure(Element::ImageElement))
    );
    let mut document = b"<tileset tilewidth=\"1\" tileheight=\"1\" tilecount=\"1\"><image width=\"1\" height=\"1\" source=\"".to_vec();
    document.extend_from_slice(&[0xc3, 0x28]);
    document.extend_from_slice(b"\"/></tileset>");
    assert_eq!(
        decode_tileset(&document),
        Err(DecodeError::Type(Field::ImageSource))
    );
}

#[test]
fn broken_tileset_documents_are_errors() {
    assert_eq!(
        decode_tileset(b"<tileset tilewidth=\"1\" tileheight=\"1\" tilecount=\"1\"></image>"),
        Err(DecodeError::Structure(Element::Document))
    );
    assert_eq!(
        decode_tileset(b"<tileset tilewidth=\"1\" tileheight=1 tilecount=\"1\"/>"),
        Err(DecodeError::Structure(Element::TilesetElement))
    );
    assert_eq!(
        decode_tileset(b"<tileset tilewidth=\"1\" tileheight=\"1\" tilecount=\"1\"/><tileset/>"),
        Err(DecodeError::Structure(Element::TilesetElement))
    );
}

#[test]
fn arbitrary_bytes_give_an_error_or_a_tileset() {
    let seed = b"<tileset tilewidth=\"1\" tileheight=\"1\" tilecount=\"1\"><image source=\"a\" width=\"1\" height=\"1\"/></tileset>";
    for cut in 0..seed.len() {
        let _ = decode_tileset(&seed[..cut]);
        let mut changed = seed.to_vec();
        changed[cut] = changed[cut].wrapping_sub(1);
        let _ = decode_tileset(&changed);
        changed[cut] = b'"';
        let _ = decode_tileset(&changed);
    }
}
