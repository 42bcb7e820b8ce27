//! Typed attributes: looking an attribute up by its key and reading its
//! value as a number, a boolean or text.  An absent attribute is told apart
//! from one whose value is of the wrong type, and each error names the
//! field it is about.
use crate::error::{DecodeError, Field};
use crate::value::{
    is_float, is_float_text, parse_bool, parse_u32, parsed_bool, parsed_u32, text_of_utf8,
    text_view, utf8_text,
};
use crate::xml::{attribute_list_view, attribute_value, find_attribute, AttributeView, XmlAttribute};
use vstd::prelude::*;
use vstd::string::StringSliceAdditionalSpecFns;

verus! {

/// The number that the attribute `key` holds: nothing where the attribute is
/// absent, an error where its value is no unsigned 32-bit decimal number.
pub open spec fn number_field(list: Seq<AttributeView>, key: Seq<u8>, field: Field) -> Result<
    Option<u32>,
    DecodeError,
> {
    match attribute_value(list, key) {
        None => Ok(None),
        Some(value) => match parsed_u32(value) {
            Some(number) => Ok(Some(number)),
            None => Err(DecodeError::Type(field)),
        },
    }
}

/// The number that the attribute `key` must hold.
pub open spec fn required_number_field(
    list: Seq<AttributeView>,
    key: Seq<u8>,
    field: Field,
) -> Result<u32, DecodeError> {
    match number_field(list, key, field) {
        Ok(Some(number)) => Ok(number),
        Ok(None) => Err(DecodeError::MissingField(field)),
        Err(error) => Err(error),
    }
}

/// The size that the attribute `key` holds: a number other than zero.
pub open spec fn size_field(list: Seq<AttributeView>, key: Seq<u8>, field: Field) -> Result<
    Option<u32>,
    DecodeError,
> {
    match number_field(list, key, field) {
        Ok(Some(number)) => if number == 0 {
            Err(DecodeError::Type(field))
        } else {
            Ok(Some(number))
        },
        other => other,
    }
}

/// The boolean that the attribute `key` holds, `default` where the
/// attribute is absent.
pub open spec fn flag_field(
    list: Seq<AttributeView>,
    key: Seq<u8>,
    field: Field,
    default: bool,
) -> Result<bool, DecodeError> {
    match attribute_value(list, key) {
        None => Ok(default),
        Some(value) => match parsed_bool(value) {
            Some(flag) => Ok(flag),
            None => Err(DecodeError::Type(field)),
        },
    }
}

/// The text that the attribute `key` must hold: the attribute is there and
/// its value is UTF-8.
pub open spec fn required_text_field(
    list: Seq<AttributeView>,
    key: Seq<u8>,
    field: Field,
) -> Result<Seq<char>, DecodeError> {
    match attribute_value(list, key) {
        None => Err(DecodeError::MissingField(field)),
        Some(value) => match utf8_text(value) {
            Some(text) => Ok(text),
            None => Err(DecodeError::Type(field)),
        },
    }
}

/// The floating-point number that the attribute `key` holds, as the text
/// that writes it: nothing where the attribute is absent, an error where
/// its value does not write such a number.
pub open spec fn float_field(list: Seq<AttributeView>, key: Seq<u8>, field: Field) -> Result<
    Option<Seq<char>>,
    DecodeError,
> {
    match attribute_value(list, key) {
        None => Ok(None),
        Some(value) => match utf8_text(value) {
            Some(text) => if is_float_text(value) {
                Ok(Some(text))
            } else {
                Err(DecodeError::Type(field))
            },
            None => Err(DecodeError::Type(field)),
        },
    }
}

/// An optional text, or the error in its place, with the text as a
/// sequence.
pub open spec fn optional_text_result_view(text: Result<Option<String>, DecodeError>) -> Result<
    Option<Seq<char>>,
    DecodeError,
> {
    match text {
        Ok(text) => Ok(text_view(text)),
        Err(error) => Err(error),
    }
}

/// A text, or the error in its place, with the text as a sequence.
pub open spec fn text_result_view(text: Result<String, DecodeError>) -> Result<
    Seq<char>,
    DecodeError,
> {
    match text {
        Ok(text) => Ok(text@),
        Err(error) => Err(error),
    }
}

/// Reads the number of an optional attribute.
pub fn read_number(list: &Vec<XmlAttribute>, key: &str, field: Field) -> (number: Result<
    Option<u32>,
    DecodeError,
>)
    ensures
        number == number_field(attribute_list_view(list@), key.spec_bytes(), field),
{
    match find_attribute(list, key) {
        None => Ok(None),
        Some(value) => match parse_u32(value.as_slice()) {
            Some(number) => Ok(Some(number)),
            None => Err(DecodeError::Type(field)),
        },
    }
}

/// Reads the number of a required attribute.
pub fn read_required_number(list: &Vec<XmlAttribute>, key: &str, field: Field) -> (number: Result<
    u32,
    DecodeError,
>)
    ensures
        number == required_number_field(attribute_list_view(list@), key.spec_bytes(), field),
{
    match read_number(list, key, field) {
        Ok(Some(number)) => Ok(number),
        Ok(None) => Err(DecodeError::MissingField(field)),
        Err(error) => Err(error),
    }
}

/// Reads the size of an optional attribute.
pub fn read_size(list: &Vec<XmlAttribute>, key: &str, field: Field) -> (size: Result<
    Option<u32>,
    DecodeError,
>)
    ensures
        size == size_field(attribute_list_view(list@), key.spec_bytes(), field),
{
    match read_number(list, key, field) {
        Ok(Some(number)) => if number == 0 {
            Err(DecodeError::Type(field))
        } else {
            Ok(Some(number))
        },
        other => other,
    }
}

/// Reads the boolean of an optional attribute.
pub fn read_flag(list: &Vec<XmlAttribute>, key: &str, field: Field, default: bool) -> (flag: Result<
    bool,
    DecodeError,
>)
    ensures
        flag == flag_field(attribute_list_view(list@), key.spec_bytes(), field, default),
{
    match find_attribute(list, key) {
        None => Ok(default),
        Some(value) => match parse_bool(value.as_slice()) {
            Some(flag) => Ok(flag),
            None => Err(DecodeError::Type(field)),
        },
    }
}

/// Reads the floating-point number of an optional attribute, as text.
pub fn read_float(list: &Vec<XmlAttribute>, key: &str, field: Field) -> (text: Result<
    Option<String>,
    DecodeError,
>)
    ensures
        optional_text_result_view(text) == float_field(
            attribute_list_view(list@),
            key.spec_bytes(),
            field,
        ),
{
    match find_attribute(list, key) {
        None => Ok(None),
        Some(value) => match text_of_utf8(value.as_slice()) {
            Some(text) => if is_float(value.as_slice()) {
                Ok(Some(text))
            } else {
                Err(DecodeError::Type(field))
            },
            None => Err(DecodeError::Type(field)),
        },
    }
}

/// Reads the text of a required attribute.
pub fn read_required_text(list: &Vec<XmlAttribute>, key: &str, field: Field) -> (text: Result<
    String,
    DecodeError,
>)
    ensures
        text_result_view(text) == required_text_field(
            attribute_list_view(list@),
            key.spec_bytes(),
            field,
        ),
{
    match find_attribute(list, key) {
        None => Err(DecodeError::MissingField(field)),
        Some(value) => match text_of_utf8(value.as_slice()) {
            Some(text) => Ok(text),
            None => Err(DecodeError::Type(field)),
        },
    }
}

} // verus!
