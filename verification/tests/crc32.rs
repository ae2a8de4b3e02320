use blxlib::crc32::{crc32, get_table, table_fn};

#[test]
fn test_crc32() {
    let input = [0u8, 0u8, 0u8, 0u8];
    let result = crc32(&input);
    assert_eq!(result, 0x2144DF1C);

    let input = "hoge".as_bytes();
    let result = crc32(&input);
    assert_eq!(result, 0x8B39E45A);
}

#[test]
fn crc32_of_nothing_is_zero() {
    assert_eq!(crc32(&[]), 0);
}

#[test]
fn crc32_check_value() {
    assert_eq!(crc32(b"123456789"), 0xCBF4_3926);
}

#[test]
fn crc32_of_one_byte() {
    assert_eq!(crc32(b"a"), 0xE8B7_BE43);
    assert_eq!(crc32(&[0u8]), 0xD202_EF8D);
}

#[test]
fn crc32_depends_on_order() {
    assert_ne!(crc32(b"ab"), crc32(b"ba"));
    assert_eq!(crc32(b"ab"), 0x9E83_486D);
}

#[test]
fn crc32_detects_any_single_byte_change() {
    let base: Vec<u8> = (0u8..64).collect();
    let reference = crc32(&base);
    for at in 0..base.len() {
        for delta in 1u8..=255 {
            let mut changed = base.clone();
            changed[at] = changed[at].wrapping_add(delta);
            assert_ne!(crc32(&changed), reference);
        }
    }
}

#[test]
fn table_fn_known_entries() {
    assert_eq!(table_fn(0), 0x0000_0000);
    assert_eq!(table_fn(1), 0x7707_3096);
    assert_eq!(table_fn(2), 0xEE0E_612C);
    assert_eq!(table_fn(8), 0x0EDB_8832);
    assert_eq!(table_fn(128), 0xEDB8_8320);
    assert_eq!(table_fn(255), 0x2D02_EF8D);
}

#[test]
fn table_holds_table_fn_of_each_index() {
    let table = get_table();
    assert_eq!(table.len(), 256);
    for i in 0..256usize {
        assert_eq!(table[i], table_fn(i as u32));
    }
    assert_eq!(table[1], 0x7707_3096);
    assert_eq!(table[255], 0x2D02_EF8D);
}
