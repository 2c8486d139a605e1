use controller_rs::utils::{str_eq, to_u8_slice};

#[test]
pub fn it_works() {
    let a = 60000;
    println!("{:x?}", to_u8_slice(&a));
    assert_eq!([0x60, 0xea, 0, 0], to_u8_slice(&a)[..]);
}

#[test]
fn to_u8_slice_of_each_width() {
    assert_eq!(to_u8_slice(&0x1234u16), vec![0x34, 0x12]);
    assert_eq!(to_u8_slice(&-2i16), vec![0xfe, 0xff]);
    assert_eq!(to_u8_slice(&0xdeadbeefu32), vec![0xef, 0xbe, 0xad, 0xde]);
    assert_eq!(to_u8_slice(&-1i32), vec![0xff, 0xff, 0xff, 0xff]);
    assert_eq!(
        to_u8_slice(&0x0102030405060708u64),
        vec![0x08, 0x07, 0x06, 0x05, 0x04, 0x03, 0x02, 0x01]
    );
}

#[test]
fn to_u8_slice_matches_native_layout() {
    for v in [0u32, 1, 255, 256, 65535, 0x8000_0000, u32::MAX] {
        assert_eq!(to_u8_slice(&v), v.to_le_bytes().to_vec());
    }
    for v in [0i32, -1, i32::MIN, i32::MAX, 12345] {
        assert_eq!(to_u8_slice(&v), v.to_le_bytes().to_vec());
    }
    for v in [0u64, u64::MAX, 0x1122334455667788] {
        assert_eq!(to_u8_slice(&v), v.to_le_bytes().to_vec());
    }
}

#[test]
fn str_eq_compares_characters() {
    assert!(str_eq("PreRst", "PreRst"));
    assert!(!str_eq("PreRst", "PreRs"));
    assert!(!str_eq("PreRst", "PreRsT"));
    assert!(str_eq("", ""));
    assert!(str_eq("Ωmega", "Ωmega"));
}
