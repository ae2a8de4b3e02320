//! The image header: a 256-byte little-endian record in front of every image.
//!
//! | offset | width | field           |
//! |-------:|------:|-----------------|
//! |      0 |     4 | `header_magic`  |
//! |      4 |     2 | `header_length` |
//! |      6 |     1 | `hv_major`      |
//! |      7 |     1 | `hv_minor`      |
//! |      8 |     1 | `iv_major`      |
//! |      9 |     1 | `iv_minor`      |
//! |     10 |     2 | `iv_patch`      |
//! |     12 |     4 | `iv_build`      |
//! |     16 |     4 | `image_length`  |
//! |     20 |   128 | `signature`     |
//! |    148 |     4 | `payload_crc`   |
//! |    152 |   100 | `padding`       |
//! |    252 |     4 | `crc32`         |
//!
//! The `signature` field is reserved: nothing here fills it in or checks it.

use crate::crc32::{crc32, spec_crc32};
use vstd::prelude::*;

verus! {

/// The length of the header in bytes.
pub const HEADER_LENGTH: u16 = 256;

/// The value of `header_magic` that identifies the format.
pub const IMAGE_HEADER_MAGIC: u32 = 0xb004_10ad;

/// The version of the header format.
pub const HV_MAJOR: u8 = 0;

/// The version of the header format.
pub const HV_MINOR: u8 = 0;

/// The number of header bytes that the header's own checksum covers.
pub const HEADER_CRC_SPAN: usize = 252;

/// The size of an application slot, and the payload length of a fresh header.
pub const APP_SIZE: u32 = 0xe_0000;

/// The address of the base slot: the header of the image that is booted.
pub const APP_BASE_ADDR: u32 = 0x1002_0000;

/// The address of the update slot: the header of the staged image.
pub const APP_UPDATE_ADDR: u32 = 0x1010_0000;

/// The header of an image. It is a plain value: it checks itself and stamps
/// its own checksum, and does nothing else.
#[derive(Clone, Copy, Debug, PartialEq, Eq)]
pub struct ImageHeader {
    /// Identifies the format: `IMAGE_HEADER_MAGIC`.
    pub header_magic: u32,
    /// The length of the header: `HEADER_LENGTH`.
    pub header_length: u16,
    /// The version of the header format.
    pub hv_major: u8,
    /// The version of the header format.
    pub hv_minor: u8,
    /// The semantic version of the application.
    pub iv_major: u8,
    /// The semantic version of the application.
    pub iv_minor: u8,
    /// The semantic version of the application.
    pub iv_patch: u16,
    /// The build of the application: the start of its source revision.
    pub iv_build: u32,
    /// The number of payload bytes after the header.
    pub image_length: u32,
    /// Reserved for a signature. Neither filled in nor checked.
    pub signature: [u8; 128],
    /// The CRC-32 of the payload.
    pub payload_crc: u32,
    /// Reserved, zero.
    pub padding: [u8; 100],
    /// The CRC-32 of the 252 header bytes in front of this field.
    pub crc32: u32,
}

/// A header as a mathematical record: the two byte arrays are sequences.
pub struct HeaderView {
    pub header_magic: u32,
    pub header_length: u16,
    pub hv_major: u8,
    pub hv_minor: u8,
    pub iv_major: u8,
    pub iv_minor: u8,
    pub iv_patch: u16,
    pub iv_build: u32,
    pub image_length: u32,
    pub signature: Seq<u8>,
    pub payload_crc: u32,
    pub padding: Seq<u8>,
    pub crc32: u32,
}

impl View for ImageHeader {
    type V = HeaderView;

    open spec fn view(&self) -> HeaderView {
        HeaderView {
            header_magic: self.header_magic,
            header_length: self.header_length,
            hv_major: self.hv_major,
            hv_minor: self.hv_minor,
            iv_major: self.iv_major,
            iv_minor: self.iv_minor,
            iv_patch: self.iv_patch,
            iv_build: self.iv_build,
            image_length: self.image_length,
            signature: self.signature@,
            payload_crc: self.payload_crc,
            padding: self.padding@,
            crc32: self.crc32,
        }
    }
}

/// The two bytes of `x`, least significant first.
pub open spec fn spec_u16_le_bytes(x: u16) -> Seq<u8> {
    seq![(x & 0xff) as u8, ((x >> 8) & 0xff) as u8]
}

/// The four bytes of `x`, least significant first.
pub open spec fn spec_u32_le_bytes(x: u32) -> Seq<u8> {
    seq![
        (x & 0xff) as u8,
        ((x >> 8) & 0xff) as u8,
        ((x >> 16) & 0xff) as u8,
        ((x >> 24) & 0xff) as u8,
    ]
}

/// The number whose two bytes, least significant first, start at `at`.
pub open spec fn spec_u16_le(bytes: Seq<u8>, at: int) -> u16 {
    (bytes[at] as u16) | ((bytes[at + 1] as u16) << 8)
}

/// The number whose four bytes, least significant first, start at `at`.
pub open spec fn spec_u32_le(bytes: Seq<u8>, at: int) -> u32 {
    (bytes[at] as u32) | ((bytes[at + 1] as u32) << 8) | ((bytes[at + 2] as u32) << 16) | ((
    bytes[at + 3] as u32) << 24)
}

impl HeaderView {
    /// The two byte fields have their fixed lengths.
    pub open spec fn wf(self) -> bool {
        self.signature.len() == 128 && self.padding.len() == 100
    }

    /// The byte image of the header.
    pub open spec fn bytes(self) -> Seq<u8> {
        spec_u32_le_bytes(self.header_magic) + spec_u16_le_bytes(self.header_length)
            + seq![self.hv_major, self.hv_minor, self.iv_major, self.iv_minor]
            + spec_u16_le_bytes(self.iv_patch) + spec_u32_le_bytes(self.iv_build)
            + spec_u32_le_bytes(self.image_length) + self.signature + spec_u32_le_bytes(
            self.payload_crc,
        ) + self.padding + spec_u32_le_bytes(self.crc32)
    }

    /// The header magic is the format's.
    pub open spec fn magic_valid(self) -> bool {
        self.header_magic == IMAGE_HEADER_MAGIC
    }

    /// The header length is the format's.
    pub open spec fn length_valid(self) -> bool {
        self.header_length == HEADER_LENGTH
    }

    /// The CRC-32 of the header bytes in front of the `crc32` field.
    pub open spec fn header_crc(self) -> u32 {
        spec_crc32(self.bytes().subrange(0, HEADER_CRC_SPAN as int))
    }

    /// The stored `crc32` is the CRC-32 of the bytes in front of it.
    pub open spec fn crc_valid(self) -> bool {
        self.crc32 == self.header_crc()
    }

    /// The header with its `crc32` field set to the CRC-32 of the bytes in
    /// front of it.
    pub open spec fn stamped(self) -> HeaderView {
        HeaderView { crc32: self.header_crc(), ..self }
    }
}

/// The header that the first 256 bytes of `bytes` are the image of.
pub open spec fn spec_decode(bytes: Seq<u8>) -> HeaderView {
    HeaderView {
        header_magic: spec_u32_le(bytes, 0),
        header_length: spec_u16_le(bytes, 4),
        hv_major: bytes[6],
        hv_minor: bytes[7],
        iv_major: bytes[8],
        iv_minor: bytes[9],
        iv_patch: spec_u16_le(bytes, 10),
        iv_build: spec_u32_le(bytes, 12),
        image_length: spec_u32_le(bytes, 16),
        signature: bytes.subrange(20, 148),
        payload_crc: spec_u32_le(bytes, 148),
        padding: bytes.subrange(152, 252),
        crc32: spec_u32_le(bytes, 252),
    }
}

/// The header that `ImageHeader::new` makes.
pub open spec fn spec_new() -> HeaderView {
    HeaderView {
        header_magic: IMAGE_HEADER_MAGIC,
        header_length: HEADER_LENGTH,
        hv_major: HV_MAJOR,
        hv_minor: HV_MINOR,
        iv_major: 0,
        iv_minor: 0,
        iv_patch: 0,
        iv_build: 0,
        image_length: APP_SIZE,
        signature: Seq::new(128, |i: int| 0u8),
        payload_crc: 0,
        padding: Seq::new(100, |i: int| 0u8),
        crc32: 0,
    }
}

/// Reading the bytes of a 16-bit number gives the number.
pub proof fn lemma_u16_le_of_bytes(x: u16)
    ensures
        spec_u16_le(spec_u16_le_bytes(x), 0) == x,
{
    assert((((x & 0xff) as u8) as u16) | ((((x >> 8) & 0xff) as u8) as u16) << 8 == x)
        by (bit_vector);
}

/// The bytes of the 16-bit number that is read from two bytes are those two.
pub proof fn lemma_u16_le_bytes_of(b0: u8, b1: u8)
    ensures
        spec_u16_le_bytes(spec_u16_le(seq![b0, b1], 0)) == seq![b0, b1],
{
    let y = (b0 as u16) | ((b1 as u16) << 8);
    assert((y & 0xff) as u8 == b0 && ((y >> 8) & 0xff) as u8 == b1) by (bit_vector)
        requires
            y == (b0 as u16) | ((b1 as u16) << 8),
    ;
    assert(spec_u16_le_bytes(spec_u16_le(seq![b0, b1], 0)) =~= seq![b0, b1]);
}

/// Reading the bytes of a 32-bit number gives the number.
pub proof fn lemma_u32_le_of_bytes(x: u32)
    ensures
        spec_u32_le(spec_u32_le_bytes(x), 0) == x,
{
    assert((((x & 0xff) as u8) as u32) | ((((x >> 8) & 0xff) as u8) as u32) << 8 | ((((x >> 16)
        & 0xff) as u8) as u32) << 16 | ((((x >> 24) & 0xff) as u8) as u32) << 24 == x)
        by (bit_vector);
}

/// The bytes of the 32-bit number that is read from four bytes are those four.
pub proof fn lemma_u32_le_bytes_of(b0: u8, b1: u8, b2: u8, b3: u8)
    ensures
        spec_u32_le_bytes(spec_u32_le(seq![b0, b1, b2, b3], 0)) == seq![b0, b1, b2, b3],
{
    let y = (b0 as u32) | ((b1 as u32) << 8) | ((b2 as u32) << 16) | ((b3 as u32) << 24);
    assert((y & 0xff) as u8 == b0 && ((y >> 8) & 0xff) as u8 == b1 && ((y >> 16) & 0xff) as u8
        == b2 && ((y >> 24) & 0xff) as u8 == b3) by (bit_vector)
        requires
            y == (b0 as u32) | ((b1 as u32) << 8) | ((b2 as u32) << 16) | ((b3 as u32) << 24),
    ;
    assert(spec_u32_le_bytes(spec_u32_le(seq![b0, b1, b2, b3], 0)) =~= seq![b0, b1, b2, b3]);
}

/// A 16-bit number is read back from the place where its bytes stand.
pub proof fn lemma_u16_le_at(bytes: Seq<u8>, at: int, x: u16)
    requires
        0 <= at,
        at + 2 <= bytes.len(),
        bytes.subrange(at, at + 2) == spec_u16_le_bytes(x),
    ensures
        spec_u16_le(bytes, at) == x,
{
    let part = bytes.subrange(at, at + 2);
    assert(part[0] == bytes[at] && part[1] == bytes[at + 1]);
    lemma_u16_le_of_bytes(x);
}

/// A 32-bit number is read back from the place where its bytes stand.
pub proof fn lemma_u32_le_at(bytes: Seq<u8>, at: int, x: u32)
    requires
        0 <= at,
        at + 4 <= bytes.len(),
        bytes.subrange(at, at + 4) == spec_u32_le_bytes(x),
    ensures
        spec_u32_le(bytes, at) == x,
{
    let part = bytes.subrange(at, at + 4);
    assert(part[0] == bytes[at] && part[1] == bytes[at + 1] && part[2] == bytes[at + 2] && part[3]
        == bytes[at + 3]);
    lemma_u32_le_of_bytes(x);
}

/// The bytes of the 16-bit number that is read at `at` are the bytes at `at`.
pub proof fn lemma_u16_le_bytes_at(bytes: Seq<u8>, at: int)
    requires
        0 <= at,
        at + 2 <= bytes.len(),
    ensures
        spec_u16_le_bytes(spec_u16_le(bytes, at)) == bytes.subrange(at, at + 2),
{
    lemma_u16_le_bytes_of(bytes[at], bytes[at + 1]);
    assert(bytes.subrange(at, at + 2) =~= seq![bytes[at], bytes[at + 1]]);
}

/// The bytes of the 32-bit number that is read at `at` are the bytes at `at`.
pub proof fn lemma_u32_le_bytes_at(bytes: Seq<u8>, at: int)
    requires
        0 <= at,
        at + 4 <= bytes.len(),
    ensures
        spec_u32_le_bytes(spec_u32_le(bytes, at)) == bytes.subrange(at, at + 4),
{
    lemma_u32_le_bytes_of(bytes[at], bytes[at + 1], bytes[at + 2], bytes[at + 3]);
    assert(bytes.subrange(at, at + 4) =~= seq![
        bytes[at],
        bytes[at + 1],
        bytes[at + 2],
        bytes[at + 3],
    ]);
}

/// The byte image of a header is 256 bytes long.
pub proof fn lemma_bytes_len(v: HeaderView)
    requires
        v.wf(),
    ensures
        v.bytes().len() == HEADER_LENGTH,
{
}

/// Where each field stands in the byte image of a header.
pub proof fn lemma_bytes_layout(v: HeaderView)
    requires
        v.wf(),
    ensures
        v.bytes().len() == HEADER_LENGTH,
        v.bytes().subrange(0, 4) == spec_u32_le_bytes(v.header_magic),
        v.bytes().subrange(4, 6) == spec_u16_le_bytes(v.header_length),
        v.bytes()[6] == v.hv_major,
        v.bytes()[7] == v.hv_minor,
        v.bytes()[8] == v.iv_major,
        v.bytes()[9] == v.iv_minor,
        v.bytes().subrange(10, 12) == spec_u16_le_bytes(v.iv_patch),
        v.bytes().subrange(12, 16) == spec_u32_le_bytes(v.iv_build),
        v.bytes().subrange(16, 20) == spec_u32_le_bytes(v.image_length),
        v.bytes().subrange(20, 148) == v.signature,
        v.bytes().subrange(148, 152) == spec_u32_le_bytes(v.payload_crc),
        v.bytes().subrange(152, 252) == v.padding,
        v.bytes().subrange(252, 256) == spec_u32_le_bytes(v.crc32),
{
    let b = v.bytes();
    assert(b.subrange(0, 4) =~= spec_u32_le_bytes(v.header_magic));
    assert(b.subrange(4, 6) =~= spec_u16_le_bytes(v.header_length));
    assert(b.subrange(10, 12) =~= spec_u16_le_bytes(v.iv_patch));
    assert(b.subrange(12, 16) =~= spec_u32_le_bytes(v.iv_build));
    assert(b.subrange(16, 20) =~= spec_u32_le_bytes(v.image_length));
    assert(b.subrange(20, 148) =~= v.signature);
    assert(b.subrange(148, 152) =~= spec_u32_le_bytes(v.payload_crc));
    assert(b.subrange(152, 252) =~= v.padding);
    assert(b.subrange(252, 256) =~= spec_u32_le_bytes(v.crc32));
}

/// Two sequences that agree from `from` to `to` agree at every place between.
proof fn lemma_same_range(a: Seq<u8>, b: Seq<u8>, from: int, to: int)
    requires
        0 <= from <= to,
        to <= a.len(),
        to <= b.len(),
        a.subrange(from, to) == b.subrange(from, to),
    ensures
        forall|i: int| from <= i < to ==> a[i] == b[i],
{
    assert forall|i: int| from <= i < to implies a[i] == b[i] by {
        assert(a.subrange(from, to)[i - from] == a[i]);
        assert(b.subrange(from, to)[i - from] == b[i]);
    }
}

/// Two byte images that hold the same fields are the same.
proof fn lemma_same_layout(a: Seq<u8>, b: Seq<u8>)
    requires
        a.len() == HEADER_LENGTH,
        b.len() == HEADER_LENGTH,
        a.subrange(0, 4) == b.subrange(0, 4),
        a.subrange(4, 6) == b.subrange(4, 6),
        a[6] == b[6],
        a[7] == b[7],
        a[8] == b[8],
        a[9] == b[9],
        a.subrange(10, 12) == b.subrange(10, 12),
        a.subrange(12, 16) == b.subrange(12, 16),
        a.subrange(16, 20) == b.subrange(16, 20),
        a.subrange(20, 148) == b.subrange(20, 148),
        a.subrange(148, 152) == b.subrange(148, 152),
        a.subrange(152, 252) == b.subrange(152, 252),
        a.subrange(252, 256) == b.subrange(252, 256),
    ensures
        a == b,
{
    lemma_same_range(a, b, 0, 4);
    lemma_same_range(a, b, 4, 6);
    lemma_same_range(a, b, 10, 12);
    lemma_same_range(a, b, 12, 16);
    lemma_same_range(a, b, 16, 20);
    lemma_same_range(a, b, 20, 148);
    lemma_same_range(a, b, 148, 152);
    lemma_same_range(a, b, 152, 252);
    lemma_same_range(a, b, 252, 256);
    assert(a =~= b);
}

/// Decoding the byte image of a header gives the header back.
pub proof fn lemma_decode_encode(v: HeaderView)
    requires
        v.wf(),
    ensures
        spec_decode(v.bytes()) == v,
{
    let b = v.bytes();
    lemma_bytes_layout(v);
    lemma_u32_le_at(b, 0, v.header_magic);
    lemma_u16_le_at(b, 4, v.header_length);
    lemma_u16_le_at(b, 10, v.iv_patch);
    lemma_u32_le_at(b, 12, v.iv_build);
    lemma_u32_le_at(b, 16, v.image_length);
    lemma_u32_le_at(b, 148, v.payload_crc);
    lemma_u32_le_at(b, 252, v.crc32);
}

/// The header decoded from 256 bytes or more has the first 256 of them as its
/// byte image.
pub proof fn lemma_encode_decode(bytes: Seq<u8>)
    requires
        bytes.len() >= HEADER_LENGTH,
    ensures
        spec_decode(bytes).wf(),
        spec_decode(bytes).bytes() == bytes.subrange(0, HEADER_LENGTH as int),
{
    let d = spec_decode(bytes);
    lemma_u32_le_bytes_at(bytes, 0);
    lemma_u16_le_bytes_at(bytes, 4);
    lemma_u16_le_bytes_at(bytes, 10);
    lemma_u32_le_bytes_at(bytes, 12);
    lemma_u32_le_bytes_at(bytes, 16);
    lemma_u32_le_bytes_at(bytes, 148);
    lemma_u32_le_bytes_at(bytes, 252);
    assert(d.bytes() =~= bytes.subrange(0, 4) + bytes.subrange(4, 6) + seq![
        bytes[6],
        bytes[7],
        bytes[8],
        bytes[9],
    ] + bytes.subrange(10, 12) + bytes.subrange(12, 16) + bytes.subrange(16, 20) + bytes.subrange(
        20,
        148,
    ) + bytes.subrange(148, 152) + bytes.subrange(152, 252) + bytes.subrange(252, 256));
    assert(d.bytes() =~= bytes.subrange(0, 256));
}

/// A header is decoded from the first 256 bytes alone: what follows them
/// changes nothing.
pub proof fn lemma_decode_prefix(header: Seq<u8>, rest: Seq<u8>)
    requires
        header.len() == HEADER_LENGTH,
    ensures
        spec_decode(header + rest) == spec_decode(header),
        (header + rest).subrange(HEADER_LENGTH as int, (header + rest).len() as int) == rest,
{
    let image = header + rest;
    assert(forall|i: int| 0 <= i < 256 ==> image[i] == header[i]);
    assert(image.subrange(20, 148) =~= header.subrange(20, 148));
    assert(image.subrange(152, 252) =~= header.subrange(152, 252));
    assert(image.subrange(256, image.len() as int) =~= rest);
}

/// Two headers with the same fields and the same bytes in their two byte
/// fields are the same header.
pub proof fn lemma_view_injective(a: ImageHeader, b: ImageHeader)
    requires
        a@ == b@,
    ensures
        a == b,
{
    assert(a.signature@ == b.signature@);
    assert(a.padding@ == b.padding@);
    assert(a.signature =~= b.signature);
    assert(a.padding =~= b.padding);
}

/// Decoding the byte image of a header gives that header and no other.
pub proof fn lemma_load_of_bytes(ih: ImageHeader, decoded: ImageHeader)
    requires
        decoded@ == spec_decode(ih@.bytes()),
    ensures
        decoded == ih,
{
    lemma_decode_encode(ih@);
    lemma_view_injective(decoded, ih);
}

/// The bytes that the header's checksum covers do not depend on the `crc32`
/// field.
pub proof fn lemma_crc_span_without_crc(v: HeaderView, crc: u32)
    requires
        v.wf(),
    ensures
        (HeaderView { crc32: crc, ..v }).bytes().subrange(0, HEADER_CRC_SPAN as int)
            == v.bytes().subrange(0, HEADER_CRC_SPAN as int),
{
    let w = HeaderView { crc32: crc, ..v };
    assert(w.bytes().subrange(0, 252) =~= v.bytes().subrange(0, 252));
}

/// A header whose `crc32` field has been stamped has a valid checksum.
pub proof fn lemma_stamped_crc_valid(v: HeaderView)
    requires
        v.wf(),
    ensures
        v.stamped().crc_valid(),
{
    lemma_crc_span_without_crc(v, v.header_crc());
}

/// Changing one of the first 252 of 256 bytes changes that byte of the span
/// that the checksum covers, and leaves the stored checksum as it was.
proof fn lemma_update_in_crc_span(bytes: Seq<u8>, at: int, value: u8)
    requires
        bytes.len() == HEADER_LENGTH,
        0 <= at < HEADER_CRC_SPAN,
    ensures
        spec_u32_le(bytes.update(at, value), 252) == spec_u32_le(bytes, 252),
        bytes.update(at, value).subrange(0, 252) == bytes.subrange(0, 252).update(at, value),
        bytes.update(at, value).subrange(0, 256) == bytes.update(at, value),
{
    let changed = bytes.update(at, value);
    assert(changed.subrange(0, 252) =~= bytes.subrange(0, 252).update(at, value));
    assert(changed.subrange(0, 256) =~= changed);
}

/// Changing one byte in front of the `crc32` field of a header with a valid
/// checksum gives the byte image of a header whose checksum is not valid.
pub proof fn lemma_crc_detects_byte(v: HeaderView, at: int, value: u8)
    requires
        v.wf(),
        v.crc_valid(),
        0 <= at < HEADER_CRC_SPAN,
        value != v.bytes()[at],
    ensures
        !spec_decode(v.bytes().update(at, value)).crc_valid(),
{
    let b = v.bytes();
    let c = b.update(at, value);
    lemma_bytes_len(v);
    lemma_decode_encode(v);
    lemma_encode_decode(c);
    lemma_update_in_crc_span(b, at, value);
    crate::crc32::lemma_crc32_detects_byte(b.subrange(0, 252), at, value);
}

/// Reads the 16-bit number whose bytes, least significant first, start at `at`.
fn read_u16_le(buf: &[u8], at: usize) -> (x: u16)
    requires
        at + 2 <= buf@.len(),
    ensures
        x == spec_u16_le(buf@, at as int),
{
    (buf[at] as u16) | ((buf[at + 1] as u16) << 8)
}

/// Reads the 32-bit number whose bytes, least significant first, start at `at`.
fn read_u32_le(buf: &[u8], at: usize) -> (x: u32)
    requires
        at + 4 <= buf@.len(),
    ensures
        x == spec_u32_le(buf@, at as int),
{
    (buf[at] as u32) | ((buf[at + 1] as u32) << 8) | ((buf[at + 2] as u32) << 16) | ((buf[at
        + 3] as u32) << 24)
}

/// Writes the two bytes of `x`, least significant first, at `at`.
fn put_u16_le(out: &mut [u8; 256], at: usize, x: u16)
    requires
        at + 2 <= 256,
    ensures
        final(out)@.subrange(at as int, at + 2) == spec_u16_le_bytes(x),
        forall|i: int| 0 <= i < 256 && !(at <= i < at + 2) ==> final(out)@[i] == old(out)@[i],
{
    out[at] = (x & 0xff) as u8;
    out[at + 1] = ((x >> 8) & 0xff) as u8;
    assert(out@.subrange(at as int, at + 2) =~= spec_u16_le_bytes(x));
}

/// Writes the four bytes of `x`, least significant first, at `at`.
fn put_u32_le(out: &mut [u8; 256], at: usize, x: u32)
    requires
        at + 4 <= 256,
    ensures
        final(out)@.subrange(at as int, at + 4) == spec_u32_le_bytes(x),
        forall|i: int| 0 <= i < 256 && !(at <= i < at + 4) ==> final(out)@[i] == old(out)@[i],
{
    out[at] = (x & 0xff) as u8;
    out[at + 1] = ((x >> 8) & 0xff) as u8;
    out[at + 2] = ((x >> 16) & 0xff) as u8;
    out[at + 3] = ((x >> 24) & 0xff) as u8;
    assert(out@.subrange(at as int, at + 4) =~= spec_u32_le_bytes(x));
}

/// Writes all of `bytes` at `at`.
fn put_bytes(out: &mut [u8; 256], at: usize, bytes: &[u8])
    requires
        at + bytes@.len() <= 256,
    ensures
        final(out)@.subrange(at as int, at + bytes@.len()) == bytes@,
        forall|i: int|
            0 <= i < 256 && !(at <= i < at + bytes@.len()) ==> final(out)@[i] == old(out)@[i],
{
    let mut k: usize = 0;
    while k < bytes.len()
        invariant
            k <= bytes@.len(),
            at + bytes@.len() <= 256,
            forall|i: int| 0 <= i < k ==> out@[at + i] == bytes@[i],
            forall|i: int| 0 <= i < 256 && !(at <= i < at + bytes@.len()) ==> out@[i] == old(out)@[i],
        decreases bytes.len() - k,
    {
        out[at + k] = bytes[k];
        k += 1;
    }
    assert(out@.subrange(at as int, at + bytes@.len()) =~= bytes@);
}

/// Decodes the header that stands in the first 256 bytes of `buf`.
pub fn load_from_buf(buf: &[u8]) -> (ih: ImageHeader)
    requires
        buf@.len() >= HEADER_LENGTH,
    ensures
        ih@ == spec_decode(buf@),
{
    let mut signature: [u8; 128] = [0u8; 128];
    let mut i: usize = 0;
    while i < 128
        invariant
            i <= 128,
            buf@.len() >= 256,
            forall|j: int| 0 <= j < i ==> #[trigger] signature[j] == buf@[20 + j],
        decreases 128 - i,
    {
        signature[i] = buf[20 + i];
        i += 1;
    }
    let mut padding: [u8; 100] = [0u8; 100];
    let mut k: usize = 0;
    while k < 100
        invariant
            k <= 100,
            buf@.len() >= 256,
            forall|j: int| 0 <= j < k ==> #[trigger] padding[j] == buf@[152 + j],
        decreases 100 - k,
    {
        padding[k] = buf[152 + k];
        k += 1;
    }
    assert(signature@ =~= buf@.subrange(20, 148));
    assert(padding@ =~= buf@.subrange(152, 252));
    ImageHeader {
        header_magic: read_u32_le(buf, 0),
        header_length: read_u16_le(buf, 4),
        hv_major: buf[6],
        hv_minor: buf[7],
        iv_major: buf[8],
        iv_minor: buf[9],
        iv_patch: read_u16_le(buf, 10),
        iv_build: read_u32_le(buf, 12),
        image_length: read_u32_le(buf, 16),
        signature,
        payload_crc: read_u32_le(buf, 148),
        padding,
        crc32: read_u32_le(buf, 252),
    }
}

/// Encodes the first `len` bytes of the byte image of `t`.
pub fn as_bytes_with_len(t: &ImageHeader, len: usize) -> (bytes: Vec<u8>)
    requires
        len <= HEADER_LENGTH,
    ensures
        bytes@ == t@.bytes().subrange(0, len as int),
{
    let image = t.to_bytes();
    let mut out: Vec<u8> = Vec::with_capacity(len);
    let mut i: usize = 0;
    while i < len
        invariant
            i <= len <= 256,
            image@ == t@.bytes(),
            out@ == t@.bytes().subrange(0, i as int),
        decreases len - i,
    {
        out.push(image[i]);
        i += 1;
        assert(out@ =~= t@.bytes().subrange(0, i as int));
    }
    out
}

impl ImageHeader {
    /// A header with the format's magic and length, version 0.0.0, no
    /// checksums, and the payload length of a full application slot.
    pub fn new() -> (ih: Self)
        ensures
            ih@ == spec_new(),
    {
        let ih = ImageHeader {
            header_magic: IMAGE_HEADER_MAGIC,
            header_length: HEADER_LENGTH,
            hv_major: HV_MAJOR,
            hv_minor: HV_MINOR,
            iv_major: 0,
            iv_minor: 0,
            iv_patch: 0,
            iv_build: 0,
            image_length: APP_SIZE,
            signature: [0u8; 128],
            payload_crc: 0,
            padding: [0u8; 100],
            crc32: 0,
        };
        assert(ih.signature@ =~= spec_new().signature);
        assert(ih.padding@ =~= spec_new().padding);
        ih
    }

    /// Whether `header_magic` is the format's.
    pub fn is_correct_magic(&self) -> (ok: bool)
        ensures
            ok == self@.magic_valid(),
    {
        self.header_magic == IMAGE_HEADER_MAGIC
    }

    /// Whether `header_length` is the format's.
    pub fn is_correct_length(&self) -> (ok: bool)
        ensures
            ok == self@.length_valid(),
    {
        self.header_length == HEADER_LENGTH
    }

    /// The byte image of the header.
    pub fn to_bytes(&self) -> (bytes: [u8; 256])
        ensures
            bytes@ == self@.bytes(),
    {
        let mut out: [u8; 256] = [0u8; 256];
        put_u32_le(&mut out, 0, self.header_magic);
        put_u16_le(&mut out, 4, self.header_length);
        out[6] = self.hv_major;
        out[7] = self.hv_minor;
        out[8] = self.iv_major;
        out[9] = self.iv_minor;
        put_u16_le(&mut out, 10, self.iv_patch);
        put_u32_le(&mut out, 12, self.iv_build);
        put_u32_le(&mut out, 16, self.image_length);
        put_bytes(&mut out, 20, &self.signature);
        put_u32_le(&mut out, 148, self.payload_crc);
        put_bytes(&mut out, 152, &self.padding);
        put_u32_le(&mut out, 252, self.crc32);
        proof {
            let target = self@.bytes();
            lemma_bytes_layout(self@);
            assert(out@.subrange(0, 4) =~= target.subrange(0, 4));
            assert(out@.subrange(4, 6) =~= target.subrange(4, 6));
            assert(out@.subrange(10, 12) =~= target.subrange(10, 12));
            assert(out@.subrange(12, 16) =~= target.subrange(12, 16));
            assert(out@.subrange(16, 20) =~= target.subrange(16, 20));
            assert(out@.subrange(20, 148) =~= target.subrange(20, 148));
            assert(out@.subrange(148, 152) =~= target.subrange(148, 152));
            assert(out@.subrange(152, 252) =~= target.subrange(152, 252));
            assert(out@.subrange(252, 256) =~= target.subrange(252, 256));
            lemma_same_layout(out@, target);
        }
        out
    }

    /// The CRC-32 of the header bytes in front of the `crc32` field.
    pub fn calc_crc32(&self) -> (crc: u32)
        ensures
            crc == self@.header_crc(),
    {
        let image = self.to_bytes();
        crc32(&image[0..HEADER_CRC_SPAN])
    }

    /// Sets `crc32` to the CRC-32 of the header bytes in front of it. Every
    /// other field must have its final value by then.
    pub fn set_crc32(&mut self)
        ensures
            final(self)@ == old(self)@.stamped(),
            final(self)@.crc_valid(),
    {
        let crc = self.calc_crc32();
        self.crc32 = crc;
        proof {
            lemma_stamped_crc_valid(old(self)@);
        }
    }

    /// Whether `crc32` is the CRC-32 of the header bytes in front of it.
    pub fn is_correct_crc(&self) -> (ok: bool)
        ensures
            ok == self@.crc_valid(),
    {
        let crc = self.calc_crc32();
        self.crc32 == crc
    }
}

impl Default for ImageHeader {
    fn default() -> (ih: Self)
        ensures
            ih@ == spec_new(),
    {
        Self::new()
    }
}

} // verus!
