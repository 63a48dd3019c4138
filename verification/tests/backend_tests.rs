use ts_native::builtins::{lookup_builtin, ArgType, RetType};
use ts_native::pe_builder::PeBuilder;

#[test]
fn builtin_table_lookup() {
    let sin = lookup_builtin("Math.sin").unwrap();
    assert_eq!(sin.c_name, "js_math_sin");
    assert_eq!(sin.param_count(), 1);
    assert!(sin.has_return());
    assert_eq!(sin.ret_type, RetType::F64);
    let pow = lookup_builtin("Math.pow").unwrap();
    assert_eq!(pow.param_types, &[ArgType::F64, ArgType::F64]);
    assert!(lookup_builtin("Math.tan").is_none());
}

#[test]
fn pe_image_layout_with_fixed_timestamp() {
    let mut b = PeBuilder::new();
    b.add_code(&[0xC3]);
    let img = b.build_with_timestamp(0x1234_5678);
    assert_eq!(img.len(), 0x2000);
    assert_eq!(&img[0..2], b"MZ");
    assert_eq!(&img[0x3C..0x40], &[0x80, 0, 0, 0]);
    assert_eq!(&img[0x70..0x74], b"PE\0\0");
    assert_eq!(&img[0x74..0x76], &[0x64, 0x86]);
    assert_eq!(&img[0x78..0x7C], &[0x78, 0x56, 0x34, 0x12]);
    assert_eq!(img[0x1000], 0xC3);
    assert!(img[0x1001..].iter().all(|&x| x == 0));
    assert_eq!(&img[64..106], b"This program cannot be run in DOS mode.\r\n$");
    let other = b.build_with_timestamp(7);
    assert_eq!(&other[0x78..0x7C], &[7, 0, 0, 0]);
    assert_eq!(&img[..0x78], &other[..0x78]);
    assert_eq!(&img[0x7C..], &other[0x7C..]);
}

#[test]
fn pe_data_offsets_and_size() {
    let mut b = PeBuilder::new();
    b.add_code(&[0x90, 0xC3]);
    assert_eq!(b.add_data(&[1, 2, 3]), 0);
    assert_eq!(b.add_data(&[4]), 3);
    let img = b.build_with_timestamp(0);
    assert_eq!(img.len(), 0x3000);
    assert_eq!(&img[0x2000..0x2004], &[1, 2, 3, 4]);
}

#[test]
fn pe_build_stamps_the_current_time() {
    let mut b = PeBuilder::new();
    b.add_code(&[0xC3]);
    let img = b.build().unwrap();
    assert_eq!(img.len(), 0x2000);
    assert_ne!(&img[0x78..0x7C], &[0, 0, 0, 0]);
    let fixed = b.build_with_timestamp(0);
    assert_eq!(&img[..0x78], &fixed[..0x78]);
    assert_eq!(&img[0x7C..], &fixed[0x7C..]);
}
