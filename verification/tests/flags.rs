use jvmmy::class::{ClassFile, ClassFlags};
use jvmmy::field::FieldFlags;
use jvmmy::method::MethodFlags;

fn class_flags(flags: u16) -> [bool; 9] {
    [
        ClassFlags::is_public(&flags),
        ClassFlags::is_final(&flags),
        ClassFlags::is_super_special(&flags),
        ClassFlags::is_interface(&flags),
        ClassFlags::is_abstract(&flags),
        ClassFlags::is_synthetic(&flags),
        ClassFlags::is_annotation(&flags),
        ClassFlags::is_enum(&flags),
        ClassFlags::is_module(&flags),
    ]
}

fn field_flags(flags: u16) -> [bool; 9] {
    [
        FieldFlags::is_public(&flags),
        FieldFlags::is_private(&flags),
        FieldFlags::is_protected(&flags),
        FieldFlags::is_static(&flags),
        FieldFlags::is_final(&flags),
        FieldFlags::is_volatile(&flags),
        FieldFlags::is_transient(&flags),
        FieldFlags::is_synthetic(&flags),
        FieldFlags::is_enum(&flags),
    ]
}

fn method_flags(flags: u16) -> [bool; 12] {
    [
        MethodFlags::is_public(&flags),
        MethodFlags::is_private(&flags),
        MethodFlags::is_protected(&flags),
        MethodFlags::is_static(&flags),
        MethodFlags::is_final(&flags),
        MethodFlags::is_synchronized(&flags),
        MethodFlags::is_bridge(&flags),
        MethodFlags::is_varargs(&flags),
        MethodFlags::is_native(&flags),
        MethodFlags::is_abstract(&flags),
        MethodFlags::is_strict(&flags),
        MethodFlags::is_synthetic(&flags),
    ]
}

#[test]
fn class_flag_bits() {
    let masks = [0x0001u16, 0x0010, 0x0020, 0x0200, 0x0400, 0x1000, 0x2000, 0x4000, 0x8000];
    assert_eq!(class_flags(0), [false; 9]);
    assert_eq!(class_flags(0xffff), [true; 9]);
    for (i, mask) in masks.iter().enumerate() {
        let mut expected = [false; 9];
        expected[i] = true;
        assert_eq!(class_flags(*mask), expected);
    }
    // the bits without a meaning for a class
    assert_eq!(class_flags(!masks.iter().fold(0, |a, m| a | m)), [false; 9]);
}

#[test]
fn field_flag_bits() {
    let masks = [0x0001u16, 0x0002, 0x0004, 0x0008, 0x0010, 0x0040, 0x0080, 0x1000, 0x4000];
    assert_eq!(field_flags(0), [false; 9]);
    assert_eq!(field_flags(0xffff), [true; 9]);
    for (i, mask) in masks.iter().enumerate() {
        let mut expected = [false; 9];
        expected[i] = true;
        assert_eq!(field_flags(*mask), expected);
    }
}

#[test]
fn method_flag_bits() {
    let masks = [
        0x0001u16, 0x0002, 0x0004, 0x0008, 0x0010, 0x0020, 0x0040, 0x0080, 0x0100, 0x0400, 0x0800,
        0x1000,
    ];
    assert_eq!(method_flags(0), [false; 12]);
    assert_eq!(method_flags(0xffff), [true; 12]);
    for (i, mask) in masks.iter().enumerate() {
        let mut expected = [false; 12];
        expected[i] = true;
        assert_eq!(method_flags(*mask), expected);
    }
}

#[test]
fn class_file_flags_are_those_of_its_access_flags() {
    let class = ClassFile {
        minor_version: 0,
        major_version: 61,
        constant_pool: vec![],
        access_flags: 0x0421,
        this_class: 0,
        super_class: 0,
        interfaces: vec![],
        fields: vec![],
        methods: vec![],
        attributes: vec![],
    };
    assert!(class.is_public());
    assert!(!class.is_final());
    assert!(class.is_super_special());
    assert!(!class.is_interface());
    assert!(class.is_abstract());
    assert!(!class.is_synthetic());
    assert!(!class.is_annotation());
    assert!(!class.is_enum());
    assert!(!class.is_module());
}
