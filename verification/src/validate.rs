//! Validation of an image: the four checks that decide whether a slot holds
//! code that is safe to run.
//!
//! The checks run in a fixed order and stop at the first that fails:
//! magic, header length, header checksum, payload checksum.

use crate::crc32::{crc32, spec_crc32};
use crate::image_header::{HeaderView, ImageHeader};
use vstd::prelude::*;

verus! {

/// The check that an image failed.
#[derive(Clone, Copy, Debug, PartialEq, Eq, Structural)]
pub enum ValidationError {
    /// `header_magic` is not the format's.
    BadMagic,
    /// `header_length` is not the format's.
    BadHeaderLength,
    /// `crc32` is not the CRC-32 of the header bytes in front of it.
    BadHeaderCrc,
    /// `payload_crc` is not the CRC-32 of the `image_length` bytes that follow
    /// the header, or fewer bytes than that follow it.
    BadPayloadCrc,
}

/// The first of the three header checks that `v` fails, if any.
pub open spec fn spec_validate_header(v: HeaderView) -> Result<(), ValidationError> {
    if !v.magic_valid() {
        Err(ValidationError::BadMagic)
    } else if !v.length_valid() {
        Err(ValidationError::BadHeaderLength)
    } else if !v.crc_valid() {
        Err(ValidationError::BadHeaderCrc)
    } else {
        Ok(())
    }
}

/// `body` starts with the payload that `v` declares: `image_length` bytes
/// whose CRC-32 is `payload_crc`.
pub open spec fn spec_payload_valid(v: HeaderView, body: Seq<u8>) -> bool {
    v.image_length <= body.len() && v.payload_crc == spec_crc32(
        body.subrange(0, v.image_length as int),
    )
}

/// The payload check of `v` on the bytes that follow the header.
pub open spec fn spec_validate_payload(v: HeaderView, body: Seq<u8>) -> Result<
    (),
    ValidationError,
> {
    if spec_payload_valid(v, body) {
        Ok(())
    } else {
        Err(ValidationError::BadPayloadCrc)
    }
}

/// The first of the four checks that the image of header `v` and the bytes
/// `body` after it fails, if any.
pub open spec fn spec_ih_validate(v: HeaderView, body: Seq<u8>) -> Result<(), ValidationError> {
    match spec_validate_header(v) {
        Err(e) => Err(e),
        Ok(_) => spec_validate_payload(v, body),
    }
}

/// Checks magic, header length and header checksum, in that order.
pub fn validate_header(ih: &ImageHeader) -> (r: Result<(), ValidationError>)
    ensures
        r == spec_validate_header(ih@),
{
    if !ih.is_correct_magic() {
        return Err(ValidationError::BadMagic);
    }
    if !ih.is_correct_length() {
        return Err(ValidationError::BadHeaderLength);
    }
    if !ih.is_correct_crc() {
        return Err(ValidationError::BadHeaderCrc);
    }
    Ok(())
}

/// Checks the payload checksum over the first `image_length` bytes of `body`,
/// the bytes that follow the header.
pub fn validate_payload(ih: &ImageHeader, body: &[u8]) -> (r: Result<(), ValidationError>)
    ensures
        r == spec_validate_payload(ih@, body@),
{
    let len = ih.image_length as usize;
    if body.len() < len {
        return Err(ValidationError::BadPayloadCrc);
    }
    let payload_crc = crc32(&body[0..len]);
    if ih.payload_crc != payload_crc {
        return Err(ValidationError::BadPayloadCrc);
    }
    Ok(())
}

/// Runs the four checks on the image of header `ih` and the bytes `body` after
/// it, and names the first that fails.
pub fn ih_validate(ih: &ImageHeader, body: &[u8]) -> (r: Result<(), ValidationError>)
    ensures
        r == spec_ih_validate(ih@, body@),
{
    match validate_header(ih) {
        Err(e) => Err(e),
        Ok(_) => validate_payload(ih, body),
    }
}

} // verus!
