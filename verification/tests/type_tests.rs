// Value types, dimensional types and the Rust type name mapping.

use xcp_lite::McDimType;
use xcp_lite::McIdentifier;
use xcp_lite::McValueType;
use xcp_lite::McValueTypeTrait;

#[test]
fn test_mc_type() {
    let t1 = McValueType::Sbyte;
    assert_eq!(t1.get_size(), 1);

    let byte: u8 = 0;
    let t2 = byte.get_type();
    assert_eq!(t2, McValueType::Ubyte);

    let t2 = McValueType::from_rust_type("u8");
    assert_eq!(t2, McValueType::Ubyte);

    let t3 = McValueType::from_rust_type("[[f64; 3]; 4]");
    assert_eq!(t3, McValueType::Float64Ieee);

    let t4 = McValueType::from_rust_type("MyType");
    assert_eq!(t4, McValueType::TypeDef(McIdentifier::new("MyType")));
}

#[test]
fn value_type_sizes() {
    assert_eq!(McValueType::Bool.get_size(), 1);
    assert_eq!(McValueType::Ubyte.get_size(), 1);
    assert_eq!(McValueType::Uword.get_size(), 2);
    assert_eq!(McValueType::Ulong.get_size(), 4);
    assert_eq!(McValueType::Ulonglong.get_size(), 8);
    assert_eq!(McValueType::Sbyte.get_size(), 1);
    assert_eq!(McValueType::Sword.get_size(), 2);
    assert_eq!(McValueType::Slong.get_size(), 4);
    assert_eq!(McValueType::Slonglong.get_size(), 8);
    assert_eq!(McValueType::Float32Ieee.get_size(), 4);
    assert_eq!(McValueType::Float64Ieee.get_size(), 8);
}

#[test]
fn rust_type_names() {
    assert_eq!(McValueType::from_rust_type("bool"), McValueType::Bool);
    assert_eq!(McValueType::from_rust_type("i16"), McValueType::Sword);
    assert_eq!(McValueType::from_rust_type("usize"), McValueType::Ulonglong);
    assert_eq!(McValueType::from_rust_type("isize"), McValueType::Slonglong);
    assert_eq!(McValueType::from_rust_type("[u16; 2]"), McValueType::Uword);
    assert_eq!(
        McValueType::from_rust_type("[Inner; 4]"),
        McValueType::TypeDef(McIdentifier::new("Inner"))
    );
}

#[test]
fn dim_type_shapes() {
    let scalar = McDimType::new(McValueType::Ulong, 1, 1);
    assert!(scalar.is_scalar());
    assert!(!scalar.is_array());
    assert!(!scalar.is_matrix());
    assert!(scalar.is_basic_type());
    assert_eq!(scalar.get_dim(), [1, 1]);
    assert_eq!(scalar.get_size(), 4);

    let array = McDimType::new(McValueType::Uword, 8, 0);
    assert!(!array.is_scalar());
    assert!(array.is_array());
    assert!(!array.is_matrix());
    assert_eq!(array.get_dim(), [8, 1]);
    assert_eq!(array.get_size(), 16);

    let matrix = McDimType::new(McValueType::Float64Ieee, 3, 4);
    assert!(matrix.is_matrix());
    assert_eq!(matrix.get_dim(), [3, 4]);
    assert_eq!(matrix.get_size(), 96);

    let blob = McDimType::new(McValueType::new_blob("idl"), 1, 1);
    assert!(blob.is_blob());
    assert!(!blob.is_basic_type());
    let td = McDimType::new(McValueType::new_typedef("T1"), 1, 1);
    assert!(td.is_typedef());
    assert!(!td.is_basic_type());
}
