//! Reading an image from the bytes of a file, in one of three formats.

use crate::assembler::{assemble, assembled};
use crate::hex::{decoded, hex_to_bytes, HexError};
use crate::program::AsmError;
use vstd::prelude::*;
use vstd::utf8::{decode_utf8, valid_utf8};

verus! {

/// The format of a file that holds a program.
#[derive(Clone, Copy, Debug, PartialEq, Eq, Structural)]
pub enum InputFormat {
    /// The text of a program, to be assembled.
    Assembly,
    /// Pairs of hexadecimal digits.
    Hex,
    /// The bytes of the image themselves.
    Binary,
}

/// Why a file gives no image.
#[derive(Clone, Copy, Debug, PartialEq, Eq, Structural)]
pub enum LoadError {
    /// The file is to be read as text and is not UTF-8.
    NotText,
    /// The program does not assemble.
    Assembly(AsmError),
    /// The hexadecimal text is wrong.
    Hex(HexError),
    /// The image has more than 256 bytes.
    TooLarge,
}

/// The bytes that a file of the given format holds, before their number is
/// looked at.
pub open spec fn content(format: InputFormat, bytes: Seq<u8>) -> Result<Seq<u8>, LoadError> {
    match format {
        InputFormat::Binary => Ok(bytes),
        InputFormat::Assembly => if !valid_utf8(bytes) {
            Err(LoadError::NotText)
        } else {
            match assembled(decode_utf8(bytes)) {
                Ok(image) => Ok(image),
                Err(e) => Err(LoadError::Assembly(e)),
            }
        },
        InputFormat::Hex => if !valid_utf8(bytes) {
            Err(LoadError::NotText)
        } else {
            match decoded(decode_utf8(bytes), 0) {
                Ok(image) => Ok(image),
                Err(e) => Err(LoadError::Hex(e)),
            }
        },
    }
}

/// The image that a file of the given format holds: its content, which may
/// have up to 256 bytes.
pub open spec fn image_of(format: InputFormat, bytes: Seq<u8>) -> Result<Seq<u8>, LoadError> {
    match content(format, bytes) {
        Err(e) => Err(e),
        Ok(image) => if image.len() > 256 {
            Err(LoadError::TooLarge)
        } else {
            Ok(image)
        },
    }
}

/// `String::from_utf8` of std: the bytes become a string when they are valid
/// UTF-8, and the string then holds the characters that they encode.
#[verifier::external_body]
fn text_of(bytes: Vec<u8>) -> (text: Option<String>)
    ensures
        text is Some <==> valid_utf8(bytes@),
        text is Some ==> text->0@ == decode_utf8(bytes@),
{
    String::from_utf8(bytes).ok()
}

/// Reads the image that a file of the given format holds.
pub fn read_image(format: InputFormat, bytes: Vec<u8>) -> (r: Result<Vec<u8>, LoadError>)
    ensures
        match image_of(format, bytes@) {
            Ok(image) => r is Ok && r->Ok_0@ == image,
            Err(e) => r == Err::<Vec<u8>, LoadError>(e),
        },
        r is Ok ==> r->Ok_0@.len() <= 256,
{
    let image = match format {
        InputFormat::Binary => bytes,
        InputFormat::Assembly => match text_of(bytes) {
            None => {
                return Err(LoadError::NotText);
            },
            Some(text) => match assemble(text.as_str()) {
                Ok(image) => image,
                Err(e) => {
                    return Err(LoadError::Assembly(e));
                },
            },
        },
        InputFormat::Hex => match text_of(bytes) {
            None => {
                return Err(LoadError::NotText);
            },
            Some(text) => match hex_to_bytes(text) {
                Ok(image) => image,
                Err(e) => {
                    return Err(LoadError::Hex(e));
                },
            },
        },
    };
    if image.len() > 256 {
        Err(LoadError::TooLarge)
    } else {
        Ok(image)
    }
}

} // verus!
