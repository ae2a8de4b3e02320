use blxlib::image_header::{
    as_bytes_with_len, load_from_buf, ImageHeader, APP_BASE_ADDR, APP_SIZE, APP_UPDATE_ADDR,
    HEADER_CRC_SPAN, HEADER_LENGTH, HV_MAJOR, HV_MINOR, IMAGE_HEADER_MAGIC,
};

fn sample_header() -> ImageHeader {
    let mut signature = [0u8; 128];
    for (i, b) in signature.iter_mut().enumerate() {
        *b = (i as u8) ^ 0x5a;
    }
    let mut padding = [0u8; 100];
    for (i, b) in padding.iter_mut().enumerate() {
        *b = 200u8.wrapping_add(i as u8);
    }
    ImageHeader {
        header_magic: 0x0102_0304,
        header_length: 0x0506,
        hv_major: 0x07,
        hv_minor: 0x08,
        iv_major: 0x09,
        iv_minor: 0x0a,
        iv_patch: 0x0b0c,
        iv_build: 0x0d0e_0f10,
        image_length: 0x1112_1314,
        signature,
        payload_crc: 0x1516_1718,
        padding,
        crc32: 0x191a_1b1c,
    }
}

#[test]
fn test_is_correct_magic() {
    let mut ih = ImageHeader::new();
    let result = ih.is_correct_magic();
    assert_eq!(result, true);

    ih.header_magic = 0;
    let result = ih.is_correct_magic();
    assert_eq!(result, false);
}

#[test]
fn test_set_crc32() {
    let mut ih = ImageHeader::new();
    ih.header_magic = 0;
    ih.header_length = 0;
    ih.hv_major = 0;
    ih.hv_minor = 0;
    ih.iv_major = 0;
    ih.iv_minor = 0;
    ih.iv_patch = 0;
    ih.iv_build = 0;
    ih.image_length = 0;
    ih.signature = [0u8; 128];
    ih.payload_crc = 0;
    ih.padding = [0u8; 100];

    ih.set_crc32();
    assert_eq!(ih.crc32, 0xA66359F1);
}

#[test]
fn constants_of_the_format() {
    assert_eq!(HEADER_LENGTH, 256);
    assert_eq!(IMAGE_HEADER_MAGIC, 0xb004_10ad);
    assert_eq!(HEADER_CRC_SPAN, 252);
    assert_eq!(APP_BASE_ADDR, 0x1002_0000);
    assert_eq!(APP_UPDATE_ADDR, 0x1010_0000);
    assert_eq!(APP_SIZE, 0xe_0000);
}

#[test]
fn new_header_fields() {
    let ih = ImageHeader::new();
    assert_eq!(ih.header_magic, 0xb004_10ad);
    assert_eq!(ih.header_length, 256);
    assert_eq!(ih.hv_major, HV_MAJOR);
    assert_eq!(ih.hv_minor, HV_MINOR);
    assert_eq!(ih.iv_major, 0);
    assert_eq!(ih.iv_minor, 0);
    assert_eq!(ih.iv_patch, 0);
    assert_eq!(ih.iv_build, 0);
    assert_eq!(ih.image_length, 0xe_0000);
    assert_eq!(ih.signature, [0u8; 128]);
    assert_eq!(ih.payload_crc, 0);
    assert_eq!(ih.padding, [0u8; 100]);
    assert_eq!(ih.crc32, 0);
    assert!(ih.is_correct_length());
}

#[test]
fn default_header_is_new_header() {
    assert_eq!(ImageHeader::default(), ImageHeader::new());
    assert!(ImageHeader::default().is_correct_magic());
}

#[test]
fn byte_image_has_each_field_at_its_offset() {
    let ih = sample_header();
    let bytes = as_bytes_with_len(&ih, 256);
    assert_eq!(bytes.len(), 256);
    assert_eq!(&bytes[0..4], &[0x04, 0x03, 0x02, 0x01]);
    assert_eq!(&bytes[4..6], &[0x06, 0x05]);
    assert_eq!(bytes[6], 0x07);
    assert_eq!(bytes[7], 0x08);
    assert_eq!(bytes[8], 0x09);
    assert_eq!(bytes[9], 0x0a);
    assert_eq!(&bytes[10..12], &[0x0c, 0x0b]);
    assert_eq!(&bytes[12..16], &[0x10, 0x0f, 0x0e, 0x0d]);
    assert_eq!(&bytes[16..20], &[0x14, 0x13, 0x12, 0x11]);
    assert_eq!(&bytes[20..148], &ih.signature[..]);
    assert_eq!(&bytes[148..152], &[0x18, 0x17, 0x16, 0x15]);
    assert_eq!(&bytes[152..252], &ih.padding[..]);
    assert_eq!(&bytes[252..256], &[0x1c, 0x1b, 0x1a, 0x19]);
}

#[test]
fn byte_image_of_new_header() {
    let bytes = as_bytes_with_len(&ImageHeader::new(), 256);
    let mut expected = vec![0u8; 256];
    expected[0..4].copy_from_slice(&[0xad, 0x10, 0x04, 0xb0]);
    expected[4..6].copy_from_slice(&[0x00, 0x01]);
    expected[16..20].copy_from_slice(&[0x00, 0x00, 0x0e, 0x00]);
    assert_eq!(bytes, expected);
}

#[test]
fn as_bytes_with_len_gives_a_prefix() {
    let ih = sample_header();
    let all = as_bytes_with_len(&ih, 256);
    assert_eq!(as_bytes_with_len(&ih, 0), Vec::<u8>::new());
    assert_eq!(as_bytes_with_len(&ih, 5), all[0..5].to_vec());
    assert_eq!(as_bytes_with_len(&ih, 252), all[0..252].to_vec());
}

#[test]
fn decode_of_encode_is_the_header() {
    let ih = sample_header();
    let bytes = as_bytes_with_len(&ih, 256);
    assert_eq!(load_from_buf(&bytes), ih);

    let fresh = ImageHeader::new();
    assert_eq!(load_from_buf(&as_bytes_with_len(&fresh, 256)), fresh);
}

#[test]
fn encode_of_decode_is_the_first_256_bytes() {
    let mut buf = vec![0u8; 300];
    for (i, b) in buf.iter_mut().enumerate() {
        *b = (i * 7 + 3) as u8;
    }
    let ih = load_from_buf(&buf);
    assert_eq!(as_bytes_with_len(&ih, 256), buf[0..256].to_vec());
    assert_eq!(ih.header_magic, u32::from_le_bytes([buf[0], buf[1], buf[2], buf[3]]));
    assert_eq!(ih.header_length, u16::from_le_bytes([buf[4], buf[5]]));
    assert_eq!(ih.iv_patch, u16::from_le_bytes([buf[10], buf[11]]));
    assert_eq!(ih.crc32, u32::from_le_bytes([buf[252], buf[253], buf[254], buf[255]]));
}

#[test]
fn decode_ignores_what_follows_the_header() {
    let ih = sample_header();
    let mut bytes = as_bytes_with_len(&ih, 256);
    bytes.extend_from_slice(&[0xff; 40]);
    assert_eq!(load_from_buf(&bytes), ih);
}

#[test]
fn length_check() {
    let mut ih = ImageHeader::new();
    assert!(ih.is_correct_length());
    ih.header_length = 255;
    assert!(!ih.is_correct_length());
    ih.header_length = 0;
    assert!(!ih.is_correct_length());
}

#[test]
fn stamped_header_has_a_valid_checksum() {
    let mut ih = sample_header();
    assert!(!ih.is_correct_crc());
    ih.set_crc32();
    assert!(ih.is_correct_crc());
    assert_eq!(ih.crc32, ih.calc_crc32());

    let mut fresh = ImageHeader::new();
    fresh.set_crc32();
    assert!(fresh.is_correct_crc());
}

#[test]
fn stamping_changes_the_checksum_only() {
    let before = sample_header();
    let mut after = before;
    after.set_crc32();
    let mut expected = before;
    expected.crc32 = blxlib::crc32::crc32(&as_bytes_with_len(&before, 252));
    assert_eq!(after, expected);
}

#[test]
fn checksum_covers_the_first_252_bytes() {
    let ih = sample_header();
    let bytes = as_bytes_with_len(&ih, 256);
    assert_eq!(ih.calc_crc32(), blxlib::crc32::crc32(&bytes[0..252]));
    let mut other = ih;
    other.crc32 = 0;
    assert_eq!(other.calc_crc32(), ih.calc_crc32());
}

#[test]
fn any_changed_byte_in_front_of_the_checksum_is_detected() {
    let mut ih = sample_header();
    ih.set_crc32();
    let bytes = as_bytes_with_len(&ih, 256);
    for at in 0..252 {
        for value in [bytes[at] ^ 0x01, bytes[at] ^ 0x80, bytes[at].wrapping_add(1), !bytes[at]] {
            let mut changed = bytes.clone();
            changed[at] = value;
            assert!(!load_from_buf(&changed).is_correct_crc());
        }
    }
}

#[test]
fn to_bytes_is_the_whole_byte_image() {
    let ih = sample_header();
    let bytes = ih.to_bytes();
    assert_eq!(bytes.len(), 256);
    assert_eq!(bytes.to_vec(), as_bytes_with_len(&ih, 256));
    assert_eq!(load_from_buf(&bytes), ih);
    assert_eq!(&bytes[0..4], &[0x04, 0x03, 0x02, 0x01]);
    assert_eq!(&bytes[252..256], &[0x1c, 0x1b, 0x1a, 0x19]);
}
