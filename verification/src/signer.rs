//! The host-side operations on an image file: a 256-byte header and the
//! payload after it.
//!
//! Every operation decodes the header, changes fields of it, stamps the header
//! checksum last, and gives back the new header followed by the payload as it
//! was. Nothing here reads or writes a file.

use crate::crc32::{crc32, spec_crc32};
use crate::image_header::{
    as_bytes_with_len,
    lemma_bytes_len,
    lemma_decode_encode,
    lemma_decode_prefix,
    lemma_encode_decode,
    lemma_stamped_crc_valid,
    load_from_buf,
    spec_decode,
    HeaderView,
    ImageHeader,
    HEADER_LENGTH,
};
use crate::pattern::{search, spec_captures, spec_compiles};
use crate::text::{parse_uint, spec_parse_uint, spec_strip_newlines, strip_newlines};
use crate::validate::{spec_ih_validate, spec_payload_valid, spec_validate_header};
use vstd::prelude::*;

verus! {

/// Finds the first eight characters of a revision identifier.
pub const HASH_PATTERN: &'static str = "^(.{8})";

/// Finds the three numbers of a semantic version at the end of a package
/// identifier.
pub const PKG_PATTERN: &'static str = "(\\d+)\\.(\\d+)\\.(\\d+)$";

/// Why an image could not be stamped.
#[derive(Clone, Copy, Debug, PartialEq, Eq, Structural)]
pub enum SignError {
    /// The revision or the version cannot be read: a pattern found nothing,
    /// or what it found is not a number that fits its field.
    VersionStringUnparseable,
    /// The pattern matcher refused a pattern.
    PatternRejected,
}

/// The pattern matcher accepts the two patterns on this target.
pub open spec fn spec_patterns_compile() -> bool {
    spec_compiles(HASH_PATTERN@, usize::BITS as nat) && spec_compiles(
        PKG_PATTERN@,
        usize::BITS as nat,
    )
}

/// The bytes of `image` after its header.
pub open spec fn spec_payload(image: Seq<u8>) -> Seq<u8> {
    image.subrange(HEADER_LENGTH as int, image.len() as int)
}

/// `v` with the checksum and the length of `payload`. A length that does not
/// fit the field is cut to its low 32 bits.
pub open spec fn spec_signed(v: HeaderView, payload: Seq<u8>) -> HeaderView {
    HeaderView {
        payload_crc: spec_crc32(payload),
        image_length: (payload.len() % 0x1_0000_0000) as u32,
        ..v
    }
}

/// Capture group `i` of `groups`, if there is one and it took part in the
/// match.
pub open spec fn spec_group(groups: Seq<Option<Seq<char>>>, i: int) -> Option<Seq<char>> {
    if 0 <= i < groups.len() {
        groups[i]
    } else {
        None
    }
}

/// `v` with the build identifier that `found` holds: the whole match, read as
/// a hexadecimal number. Where nothing was found, or what was found is no such
/// number, the revision cannot be read.
pub open spec fn spec_set_build(v: HeaderView, found: Option<Seq<Option<Seq<char>>>>) -> Result<
    HeaderView,
    SignError,
> {
    match found {
        None => Err(SignError::VersionStringUnparseable),
        Some(groups) => match spec_group(groups, 0) {
            None => Err(SignError::VersionStringUnparseable),
            Some(text) => match spec_parse_uint(text, 16, u32::MAX as nat) {
                None => Err(SignError::VersionStringUnparseable),
                Some(build) => Ok(HeaderView { iv_build: build as u32, ..v }),
            },
        },
    }
}

/// `v` with the semantic version that `found` holds: groups 1, 2 and 3, read
/// as decimal numbers. Where nothing was found, or one of the three is no
/// number that fits its field, the version cannot be read.
pub open spec fn spec_set_version(v: HeaderView, found: Option<Seq<Option<Seq<char>>>>) -> Result<
    HeaderView,
    SignError,
> {
    match found {
        None => Err(SignError::VersionStringUnparseable),
        Some(groups) => match (spec_group(groups, 1), spec_group(groups, 2), spec_group(groups, 3)) {
            (Some(major), Some(minor), Some(patch)) => match (
                spec_parse_uint(major, 10, u8::MAX as nat),
                spec_parse_uint(minor, 10, u8::MAX as nat),
                spec_parse_uint(patch, 10, u16::MAX as nat),
            ) {
                (Some(major), Some(minor), Some(patch)) => Ok(
                    HeaderView {
                        iv_major: major as u8,
                        iv_minor: minor as u8,
                        iv_patch: patch as u16,
                        ..v
                    },
                ),
                _ => Err(SignError::VersionStringUnparseable),
            },
            _ => Err(SignError::VersionStringUnparseable),
        },
    }
}

/// `v` with the build identifier of `rev_found`, then the semantic version of
/// `pkg_found`.
pub open spec fn spec_versioned(
    v: HeaderView,
    rev_found: Option<Seq<Option<Seq<char>>>>,
    pkg_found: Option<Seq<Option<Seq<char>>>>,
) -> Result<HeaderView, SignError> {
    match spec_set_build(v, rev_found) {
        Err(e) => Err(e),
        Ok(w) => spec_set_version(w, pkg_found),
    }
}

/// The image that `run_crc` makes of `image`.
pub open spec fn spec_run_crc(image: Seq<u8>) -> Seq<u8> {
    spec_decode(image).stamped().bytes() + spec_payload(image)
}

/// The image that `run_sign` makes of `image`.
pub open spec fn spec_run_sign(image: Seq<u8>) -> Seq<u8> {
    spec_signed(spec_decode(image), spec_payload(image)).stamped().bytes() + spec_payload(image)
}

/// The image that `run_version` makes of `image`, given what the two patterns
/// found.
pub open spec fn spec_run_version(
    image: Seq<u8>,
    rev_found: Option<Seq<Option<Seq<char>>>>,
    pkg_found: Option<Seq<Option<Seq<char>>>>,
) -> Result<Seq<u8>, SignError> {
    match spec_versioned(spec_decode(image), rev_found, pkg_found) {
        Err(e) => Err(e),
        Ok(w) => Ok(w.stamped().bytes() + spec_payload(image)),
    }
}

/// The image that `run_all` makes of `image`, given what the two patterns
/// found.
pub open spec fn spec_run_all(
    image: Seq<u8>,
    rev_found: Option<Seq<Option<Seq<char>>>>,
    pkg_found: Option<Seq<Option<Seq<char>>>>,
) -> Result<Seq<u8>, SignError> {
    match spec_versioned(spec_decode(image), rev_found, pkg_found) {
        Err(e) => Err(e),
        Ok(w) => Ok(spec_signed(w, spec_payload(image)).stamped().bytes() + spec_payload(image)),
    }
}

/// `r` is `expected`: the same error, or the same bytes.
pub open spec fn spec_gives(
    r: Result<Vec<u8>, SignError>,
    expected: Result<Seq<u8>, SignError>,
) -> bool {
    match expected {
        Ok(bytes) => r matches Ok(out) && out@ == bytes,
        Err(e) => r matches Err(f) && f == e,
    }
}

/// Sets the payload checksum and the payload length of `ih` from `payload`.
/// The header checksum is not stamped.
pub fn sign_header(ih: &mut ImageHeader, payload: &[u8])
    ensures
        final(ih)@ == spec_signed(old(ih)@, payload@),
{
    let len = payload.len() as u64;
    assert(len & 0xffff_ffff == len % 0x1_0000_0000) by (bit_vector);
    ih.payload_crc = crc32(payload);
    ih.image_length = (len & 0xffff_ffff) as u32;
}

/// The new header `ih`, followed by the payload of `image`.
fn assemble(ih: &ImageHeader, image: &[u8]) -> (out: Vec<u8>)
    requires
        image@.len() >= HEADER_LENGTH,
    ensures
        out@ == ih@.bytes() + spec_payload(image@),
{
    let mut out = as_bytes_with_len(ih, HEADER_LENGTH as usize);
    assert(out@ =~= ih@.bytes());
    let mut i: usize = HEADER_LENGTH as usize;
    while i < image.len()
        invariant
            HEADER_LENGTH <= i <= image@.len(),
            out@ == ih@.bytes() + image@.subrange(HEADER_LENGTH as int, i as int),
        decreases image.len() - i,
    {
        out.push(image[i]);
        i += 1;
        assert(out@ =~= ih@.bytes() + image@.subrange(HEADER_LENGTH as int, i as int));
    }
    out
}

/// Stamps the header checksum of `image` afresh, for a header whose fields
/// were edited by hand.
pub fn run_crc(image: &[u8]) -> (out: Vec<u8>)
    requires
        image@.len() >= HEADER_LENGTH,
    ensures
        out@ == spec_run_crc(image@),
{
    let mut ih = load_from_buf(image);
    ih.set_crc32();
    assemble(&ih, image)
}

/// Sets payload checksum and payload length of `image` from its payload, then
/// stamps the header checksum.
pub fn run_sign(image: &[u8]) -> (out: Vec<u8>)
    requires
        image@.len() >= HEADER_LENGTH,
    ensures
        out@ == spec_run_sign(image@),
{
    let mut ih = load_from_buf(image);
    sign_header(&mut ih, &image[HEADER_LENGTH as usize..image.len()]);
    ih.set_crc32();
    assemble(&ih, image)
}

/// The text of capture group `i` of `groups`, if there is one and it took part
/// in the match.
fn group(groups: &Vec<Option<String>>, i: usize) -> (r: Option<&str>)
    ensures
        r matches Some(text) ==> spec_group(groups.deep_view(), i as int) == Some(text@),
        r is None ==> spec_group(groups.deep_view(), i as int) is None,
{
    if i < groups.len() {
        assert(groups.deep_view()[i as int] == groups@[i as int].deep_view());
        match &groups[i] {
            Some(text) => Some(text.as_str()),
            None => None,
        }
    } else {
        None
    }
}

/// Sets the build identifier of `ih` from what the revision pattern found.
/// Fails, and leaves `ih` as it is, where nothing was found or the text is no
/// number.
pub fn set_build(ih: &mut ImageHeader, found: &Option<Vec<Option<String>>>) -> (r: Result<
    (),
    SignError,
>)
    ensures
        spec_set_build(old(ih)@, found.deep_view()) matches Ok(w) ==> r is Ok && final(ih)@ == w,
        spec_set_build(old(ih)@, found.deep_view()) matches Err(e) ==> r == Err::<(), SignError>(e)
            && final(ih)@ == old(ih)@,
{
    match found {
        None => Err(SignError::VersionStringUnparseable),
        Some(groups) => {
            let build = match group(groups, 0) {
                None => None,
                Some(text) => parse_uint(text, 16, u32::MAX),
            };
            match build {
                None => Err(SignError::VersionStringUnparseable),
                Some(build) => {
                    ih.iv_build = build;
                    Ok(())
                },
            }
        },
    }
}

/// Sets the semantic version of `ih` from what the package pattern found.
/// Fails, and leaves `ih` as it is, where nothing was found or a text is no
/// number that fits its field.
pub fn set_version(ih: &mut ImageHeader, found: &Option<Vec<Option<String>>>) -> (r: Result<
    (),
    SignError,
>)
    ensures
        spec_set_version(old(ih)@, found.deep_view()) matches Ok(w) ==> r is Ok && final(ih)@ == w,
        spec_set_version(old(ih)@, found.deep_view()) matches Err(e) ==> r == Err::<(), SignError>(
            e,
        ) && final(ih)@ == old(ih)@,
{
    match found {
        None => Err(SignError::VersionStringUnparseable),
        Some(groups) => {
            let major = match group(groups, 1) {
                None => None,
                Some(text) => parse_uint(text, 10, 0xff),
            };
            let minor = match group(groups, 2) {
                None => None,
                Some(text) => parse_uint(text, 10, 0xff),
            };
            let patch = match group(groups, 3) {
                None => None,
                Some(text) => parse_uint(text, 10, 0xffff),
            };
            match (major, minor, patch) {
                (Some(major), Some(minor), Some(patch)) => {
                    ih.iv_major = major as u8;
                    ih.iv_minor = minor as u8;
                    ih.iv_patch = patch as u16;
                    Ok(())
                },
                _ => Err(SignError::VersionStringUnparseable),
            }
        },
    }
}

/// Sets build identifier and semantic version of `image` from what the two
/// patterns found, then stamps the header checksum.
pub fn stamp_version(
    image: &[u8],
    rev_found: &Option<Vec<Option<String>>>,
    pkg_found: &Option<Vec<Option<String>>>,
) -> (r: Result<Vec<u8>, SignError>)
    requires
        image@.len() >= HEADER_LENGTH,
    ensures
        spec_gives(r, spec_run_version(image@, rev_found.deep_view(), pkg_found.deep_view())),
{
    let mut ih = load_from_buf(image);
    match set_build(&mut ih, rev_found) {
        Err(e) => {
            return Err(e);
        },
        Ok(_) => {},
    }
    match set_version(&mut ih, pkg_found) {
        Err(e) => {
            return Err(e);
        },
        Ok(_) => {},
    }
    ih.set_crc32();
    Ok(assemble(&ih, image))
}

/// Sets build identifier and semantic version of `image` from what the two
/// patterns found, then payload checksum and payload length from its payload,
/// then stamps the header checksum.
pub fn stamp_all(
    image: &[u8],
    rev_found: &Option<Vec<Option<String>>>,
    pkg_found: &Option<Vec<Option<String>>>,
) -> (r: Result<Vec<u8>, SignError>)
    requires
        image@.len() >= HEADER_LENGTH,
    ensures
        spec_gives(r, spec_run_all(image@, rev_found.deep_view(), pkg_found.deep_view())),
{
    let mut ih = load_from_buf(image);
    match set_build(&mut ih, rev_found) {
        Err(e) => {
            return Err(e);
        },
        Ok(_) => {},
    }
    match set_version(&mut ih, pkg_found) {
        Err(e) => {
            return Err(e);
        },
        Ok(_) => {},
    }
    sign_header(&mut ih, &image[HEADER_LENGTH as usize..image.len()]);
    ih.set_crc32();
    Ok(assemble(&ih, image))
}

/// Searches the output of the revision tool for the revision pattern and the
/// output of the package tool for the version pattern, each without its line
/// feeds.
fn find_versions(rev_output: &str, pkg_output: &str) -> (r: Result<
    (Option<Vec<Option<String>>>, Option<Vec<Option<String>>>),
    SignError,
>)
    ensures
        r is Ok <==> spec_patterns_compile(),
        r matches Ok(found) ==> found.0.deep_view() == spec_captures(
            HASH_PATTERN@,
            spec_strip_newlines(rev_output@),
        ) && found.1.deep_view() == spec_captures(PKG_PATTERN@, spec_strip_newlines(pkg_output@)),
        r matches Err(e) ==> e == SignError::PatternRejected,
{
    let rev = strip_newlines(rev_output);
    let pkg = strip_newlines(pkg_output);
    let rev_found = match search(HASH_PATTERN, rev.as_str()) {
        Ok(found) => found,
        Err(_) => {
            return Err(SignError::PatternRejected);
        },
    };
    let pkg_found = match search(PKG_PATTERN, pkg.as_str()) {
        Ok(found) => found,
        Err(_) => {
            return Err(SignError::PatternRejected);
        },
    };
    Ok((rev_found, pkg_found))
}

/// Sets the build identifier of `image` from the first eight characters of
/// `rev_output`, the output of the revision tool, and its semantic version
/// from the three numbers at the end of `pkg_output`, the output of the
/// package tool; then stamps the header checksum.
///
/// Where the pattern matcher accepts the two patterns, the result is that of
/// `stamp_version` on what they find; where it refuses one, the operation
/// fails with `PatternRejected`.
pub fn run_version(image: &[u8], rev_output: &str, pkg_output: &str) -> (r: Result<
    Vec<u8>,
    SignError,
>)
    requires
        image@.len() >= HEADER_LENGTH,
    ensures
        spec_patterns_compile() ==> spec_gives(
            r,
            spec_run_version(
                image@,
                spec_captures(HASH_PATTERN@, spec_strip_newlines(rev_output@)),
                spec_captures(PKG_PATTERN@, spec_strip_newlines(pkg_output@)),
            ),
        ),
        !spec_patterns_compile() ==> r == Err::<Vec<u8>, SignError>(SignError::PatternRejected),
{
    match find_versions(rev_output, pkg_output) {
        Err(e) => Err(e),
        Ok((rev_found, pkg_found)) => stamp_version(image, &rev_found, &pkg_found),
    }
}

/// Does what `run_version` does and what `run_sign` does, in that order, and
/// stamps the header checksum once, at the end.
///
/// Where the pattern matcher accepts the two patterns, the result is that of
/// `stamp_all` on what they find; where it refuses one, the operation fails
/// with `PatternRejected`.
pub fn run_all(image: &[u8], rev_output: &str, pkg_output: &str) -> (r: Result<
    Vec<u8>,
    SignError,
>)
    requires
        image@.len() >= HEADER_LENGTH,
    ensures
        spec_patterns_compile() ==> spec_gives(
            r,
            spec_run_all(
                image@,
                spec_captures(HASH_PATTERN@, spec_strip_newlines(rev_output@)),
                spec_captures(PKG_PATTERN@, spec_strip_newlines(pkg_output@)),
            ),
        ),
        !spec_patterns_compile() ==> r == Err::<Vec<u8>, SignError>(SignError::PatternRejected),
{
    match find_versions(rev_output, pkg_output) {
        Err(e) => Err(e),
        Ok((rev_found, pkg_found)) => stamp_all(image, &rev_found, &pkg_found),
    }
}

/// Where one of the two patterns finds nothing, no version is stamped: both
/// operations fail, and no image is given back.
pub proof fn lemma_version_needs_match(
    image: Seq<u8>,
    rev_found: Option<Seq<Option<Seq<char>>>>,
    pkg_found: Option<Seq<Option<Seq<char>>>>,
)
    requires
        rev_found is None || pkg_found is None,
    ensures
        spec_run_version(image, rev_found, pkg_found) == Err::<Seq<u8>, SignError>(
            SignError::VersionStringUnparseable,
        ),
        spec_run_all(image, rev_found, pkg_found) == Err::<Seq<u8>, SignError>(
            SignError::VersionStringUnparseable,
        ),
{
}

/// Where a version is stamped, the header holds the four numbers that the
/// patterns found, and none that it held before.
pub proof fn lemma_versioned_fields(
    v: HeaderView,
    rev_found: Option<Seq<Option<Seq<char>>>>,
    pkg_found: Option<Seq<Option<Seq<char>>>>,
)
    requires
        spec_versioned(v, rev_found, pkg_found) is Ok,
    ensures
        rev_found is Some,
        pkg_found is Some,
        spec_group(rev_found.unwrap(), 0) is Some,
        spec_group(pkg_found.unwrap(), 1) is Some,
        spec_group(pkg_found.unwrap(), 2) is Some,
        spec_group(pkg_found.unwrap(), 3) is Some,
        spec_parse_uint(spec_group(rev_found.unwrap(), 0).unwrap(), 16, u32::MAX as nat) == Some(
            spec_versioned(v, rev_found, pkg_found).unwrap().iv_build as nat,
        ),
        spec_parse_uint(spec_group(pkg_found.unwrap(), 1).unwrap(), 10, u8::MAX as nat) == Some(
            spec_versioned(v, rev_found, pkg_found).unwrap().iv_major as nat,
        ),
        spec_parse_uint(spec_group(pkg_found.unwrap(), 2).unwrap(), 10, u8::MAX as nat) == Some(
            spec_versioned(v, rev_found, pkg_found).unwrap().iv_minor as nat,
        ),
        spec_parse_uint(spec_group(pkg_found.unwrap(), 3).unwrap(), 10, u16::MAX as nat) == Some(
            spec_versioned(v, rev_found, pkg_found).unwrap().iv_patch as nat,
        ),
{
}

/// An image made of the byte image of `v` and of `payload` decodes to `v` and
/// has `payload` as its payload.
pub proof fn lemma_decode_image(v: HeaderView, payload: Seq<u8>)
    requires
        v.wf(),
    ensures
        spec_decode(v.bytes() + payload) == v,
        spec_payload(v.bytes() + payload) == payload,
{
    lemma_bytes_len(v);
    lemma_decode_encode(v);
    lemma_decode_prefix(v.bytes(), payload);
}

/// An image whose header passes the three header checks and holds the length
/// and the checksum of the payload behind it passes the four checks.
pub proof fn lemma_image_valid(v: HeaderView, payload: Seq<u8>)
    requires
        v.wf(),
        v.magic_valid(),
        v.length_valid(),
        v.crc_valid(),
        v.image_length == payload.len(),
        v.payload_crc == spec_crc32(payload),
    ensures
        spec_ih_validate(spec_decode(v.bytes() + payload), spec_payload(v.bytes() + payload))
            is Ok,
{
    lemma_decode_image(v, payload);
    assert(payload.subrange(0, v.image_length as int) == payload) by {
        assert(payload.subrange(0, payload.len() as int) =~= payload);
    }
    assert(spec_payload_valid(v, payload));
    assert(spec_validate_header(v) is Ok);
}

/// A signed image holds the checksum and the length of its payload, and
/// passes the four checks, if its magic and its header length are the
/// format's and the payload length fits the field.
pub proof fn lemma_signed_image_valid(image: Seq<u8>)
    requires
        image.len() >= HEADER_LENGTH,
        image.len() - HEADER_LENGTH <= u32::MAX,
        spec_decode(image).magic_valid(),
        spec_decode(image).length_valid(),
    ensures
        spec_payload(spec_run_sign(image)) == spec_payload(image),
        spec_decode(spec_run_sign(image)).payload_crc == spec_crc32(spec_payload(image)),
        spec_decode(spec_run_sign(image)).image_length == spec_payload(image).len(),
        spec_ih_validate(spec_decode(spec_run_sign(image)), spec_payload(spec_run_sign(image)))
            is Ok,
{
    let payload = spec_payload(image);
    let header = spec_decode(image);
    let signed = spec_signed(header, payload);
    let stamped = signed.stamped();
    assert(header.wf()) by {
        lemma_encode_decode(image);
    }
    assert(signed.wf() && stamped.wf());
    assert(stamped.crc_valid()) by {
        lemma_stamped_crc_valid(signed);
    }
    assert(stamped.magic_valid() && stamped.length_valid());
    assert(stamped.payload_crc == spec_crc32(payload));
    assert(stamped.image_length == payload.len());
    assert(spec_run_sign(image) == stamped.bytes() + payload);
    lemma_decode_image(stamped, payload);
    lemma_image_valid(stamped, payload);
}

} // verus!
