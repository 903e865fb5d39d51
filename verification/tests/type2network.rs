use dnslib::model::{Attribute, Data, DeriveInput, Fields, Variant};
use dnslib::network::{NetReader, NetworkError};
use dnslib::repr::ReprSize;
use dnslib::type2network_derive::enum_builder::EnumDeriveBuilder;
use dnslib::type2network_derive::struct_builder::{FieldAccess, FieldRead, FieldWrite, StructDeriveBuilder};
use dnslib::type2network_derive::{derive_helper, from_network, network_supported, to_network, Direction, NetworkImpl};

fn unit(name: &str, discriminant: Option<i64>) -> Variant {
    Variant { ident: name.to_string(), fields: Fields::Unit, discriminant }
}

fn repr(size: &str) -> Attribute {
    Attribute { path: "repr".to_string(), nested: vec![size.to_string()] }
}

fn qclass_input() -> DeriveInput {
    DeriveInput {
        ident: "QClass".to_string(),
        attrs: vec![repr("u16")],
        data: Data::Enum(vec![
            unit("IN", Some(1)),
            unit("CS", Some(2)),
            unit("CH", Some(3)),
            unit("HS", Some(4)),
            unit("ANY", Some(255)),
        ]),
    }
}

fn enum_impl(r: NetworkImpl) -> dnslib::type2network_derive::enum_builder::EnumNetworkImpl {
    match r {
        NetworkImpl::Enum(imp) => imp,
        NetworkImpl::Struct(_) => panic!("expected an enum implementation"),
    }
}

#[test]
fn u16_enum_writes_two_big_endian_bytes() {
    let imp = enum_impl(to_network(&qclass_input()));
    assert_eq!(imp.enum_name, "QClass");
    assert_eq!(imp.repr, ReprSize::U16);
    let mut buffer = Vec::new();
    assert_eq!(imp.to_network_order(4, &mut buffer), Ok(2));
    assert_eq!(buffer, vec![0x00, 0xFF]);
    assert_eq!(imp.to_network_order(0, &mut buffer), Ok(2));
    assert_eq!(buffer, vec![0x00, 0xFF, 0x00, 0x01]);
}

#[test]
fn u16_enum_reads_back_what_it_wrote() {
    let imp = enum_impl(from_network(&qclass_input()));
    for v in 0..5 {
        let mut buffer = Vec::new();
        imp.to_network_order(v, &mut buffer).unwrap();
        buffer.push(0x42);
        let mut reader = NetReader::new(&buffer);
        assert_eq!(imp.from_network_order(&mut reader), Ok(v));
        assert_eq!(reader.position(), 2);
    }
}

#[test]
fn u16_enum_read_errors() {
    let imp = enum_impl(from_network(&qclass_input()));
    let short = vec![0xFF];
    let mut reader = NetReader::new(&short);
    assert_eq!(imp.from_network_order(&mut reader), Err(NetworkError::UnexpectedEof));
    assert_eq!(reader.position(), 0);
    let unknown = vec![0x00, 0x05];
    let mut reader = NetReader::new(&unknown);
    assert_eq!(imp.from_network_order(&mut reader), Err(NetworkError::NotFound));
    assert_eq!(reader.position(), 2);
}

#[test]
fn u8_enum_is_read_as_one_byte() {
    let input = DeriveInput {
        ident: "Flag".to_string(),
        attrs: vec![repr("u8")],
        data: Data::Enum(vec![unit("Off", None), unit("On", None), unit("Auto", Some(7))]),
    };
    let de = match &input.data {
        Data::Enum(vs) => vs,
        _ => unreachable!(),
    };
    // the code derived to write a `u8` enum does not compile
    assert!(!network_supported(&input, Direction::ToNetwork));
    assert!(network_supported(&input, Direction::FromNetwork));
    let back = EnumDeriveBuilder::from_network(&input, de);
    assert_eq!(back.repr, ReprSize::U8);
    let buffer = vec![7u8, 1];
    let mut reader = NetReader::new(&buffer);
    assert_eq!(back.from_network_order(&mut reader), Ok(2));
    assert_eq!(back.from_network_order(&mut reader), Ok(1));
    assert_eq!(back.from_network_order(&mut reader), Err(NetworkError::UnexpectedEof));
}

#[test]
fn enum_write_passes_on_writer_failure() {
    let imp = enum_impl(to_network(&qclass_input()));
    assert_eq!(imp.encoding(4), vec![0x00, 0xFF]);
    assert_eq!(imp.encoding(1), vec![0x00, 0x02]);
    assert_eq!(imp.to_network_result(Ok(())), Ok(2));
    assert_eq!(imp.to_network_result(Err(NetworkError::UnexpectedEof)), Err(NetworkError::UnexpectedEof));
}

#[test]
fn enums_with_fields_get_no_network_code() {
    let input = DeriveInput {
        ident: "Message".to_string(),
        attrs: vec![repr("u16")],
        data: Data::Enum(vec![
            unit("Quit", None),
            Variant { ident: "Write".to_string(), fields: Fields::Unnamed(1), discriminant: None },
        ]),
    };
    assert!(!network_supported(&input, Direction::ToNetwork));
    assert!(!network_supported(&input, Direction::FromNetwork));
}

#[test]
fn enum_builder_refuses_other_reprs() {
    let input = DeriveInput {
        ident: "Wide".to_string(),
        attrs: vec![repr("u32")],
        data: Data::Enum(vec![unit("A", None)]),
    };
    assert!(!network_supported(&input, Direction::ToNetwork));
    assert!(!network_supported(&input, Direction::FromNetwork));
}

#[test]
fn named_struct_fields_in_order() {
    let input = DeriveInput {
        ident: "Header".to_string(),
        attrs: vec![],
        data: Data::Struct(Fields::Named(vec!["id".to_string(), "flags".to_string(), "qd_count".to_string()])),
    };
    match to_network(&input) {
        NetworkImpl::Struct(Some(imp)) => {
            assert_eq!(imp.struct_name, "Header");
            assert_eq!(imp.fields.len(), 3);
            assert!(matches!(&imp.fields[0], FieldAccess::Named(n) if n == "id"));
            assert!(matches!(&imp.fields[1], FieldAccess::Named(n) if n == "flags"));
            assert!(matches!(&imp.fields[2], FieldAccess::Named(n) if n == "qd_count"));
        },
        _ => panic!("expected a struct implementation"),
    }
}

#[test]
fn tuple_struct_fields_by_index() {
    let input = DeriveInput { ident: "Pair".to_string(), attrs: vec![], data: Data::Struct(Fields::Unnamed(2)) };
    let ds = Fields::Unnamed(2);
    let imp = StructDeriveBuilder::from_network(&input, &ds).unwrap();
    assert!(matches!(imp.fields[0], FieldAccess::Index(0)));
    assert!(matches!(imp.fields[1], FieldAccess::Index(1)));
    assert_eq!(imp.fields.len(), 2);
}

#[test]
fn unit_struct_gets_no_implementation() {
    let input = DeriveInput { ident: "Nothing".to_string(), attrs: vec![], data: Data::Struct(Fields::Unit) };
    assert!(StructDeriveBuilder::is_unit(&Fields::Unit));
    assert!(!StructDeriveBuilder::is_unit(&Fields::Unnamed(0)));
    assert!(network_supported(&input, Direction::ToNetwork));
    assert!(matches!(to_network(&input), NetworkImpl::Struct(None)));
    assert!(matches!(from_network(&input), NetworkImpl::Struct(None)));
}

#[test]
fn union_is_refused() {
    let input = DeriveInput { ident: "U".to_string(), attrs: vec![], data: Data::Union };
    assert!(!network_supported(&input, Direction::ToNetwork));
    assert!(!network_supported(&input, Direction::FromNetwork));
    let pair = DeriveInput { ident: "Pair".to_string(), attrs: vec![], data: Data::Struct(Fields::Unnamed(2)) };
    assert!(network_supported(&pair, Direction::FromNetwork));
    assert!(matches!(derive_helper(&pair, Direction::ToNetwork), NetworkImpl::Struct(Some(_))));
    assert!(matches!(derive_helper(&pair, Direction::FromNetwork), NetworkImpl::Struct(Some(_))));
}

fn write(bytes: &[u8], result: Result<usize, NetworkError>) -> FieldWrite {
    FieldWrite { bytes: bytes.to_vec(), result }
}

#[test]
fn struct_writes_fields_in_order() {
    let ds = Fields::Named(vec!["qtype".to_string(), "qclass".to_string()]);
    let input = DeriveInput { ident: "Question".to_string(), attrs: vec![], data: Data::Struct(Fields::Unit) };
    let imp = StructDeriveBuilder::to_network(&input, &ds).unwrap();
    let mut buffer = vec![9u8];
    let r = imp.write_fields(&mut buffer, &vec![write(&[0, 1], Ok(2)), write(&[0, 255], Ok(2))]);
    assert_eq!(r, Ok(4));
    assert_eq!(buffer, vec![9, 0, 1, 0, 255]);
}

#[test]
fn struct_write_stops_at_first_failure() {
    let ds = Fields::Unnamed(3);
    let input = DeriveInput { ident: "Triple".to_string(), attrs: vec![], data: Data::Struct(Fields::Unit) };
    let imp = StructDeriveBuilder::to_network(&input, &ds).unwrap();
    let mut buffer = Vec::new();
    let r = imp.write_fields(
        &mut buffer,
        &vec![write(&[1, 2], Ok(2)), write(&[3], Err(NetworkError::NotFound)), write(&[4, 5], Ok(2))],
    );
    assert_eq!(r, Err(NetworkError::NotFound));
    // the bytes of the calls made stay; the third field is not written
    assert_eq!(buffer, vec![1, 2, 3]);
}

fn read(value: u16, result: Result<(), NetworkError>) -> FieldRead<u16> {
    FieldRead { value, result }
}

#[test]
fn struct_reads_fields_in_order() {
    let ds = Fields::Unnamed(3);
    let input = DeriveInput { ident: "Triple".to_string(), attrs: vec![], data: Data::Struct(Fields::Unit) };
    let imp = StructDeriveBuilder::from_network(&input, &ds).unwrap();
    let mut values = vec![0u16, 0, 0];
    assert_eq!(imp.read_fields(&mut values, &vec![read(1, Ok(())), read(2, Ok(())), read(3, Ok(()))]), Ok(()));
    assert_eq!(values, vec![1, 2, 3]);
}

#[test]
fn struct_read_stops_at_first_failure() {
    let ds = Fields::Unnamed(3);
    let input = DeriveInput { ident: "Triple".to_string(), attrs: vec![], data: Data::Struct(Fields::Unit) };
    let imp = StructDeriveBuilder::from_network(&input, &ds).unwrap();
    let mut values = vec![7u16, 7, 7];
    let r = imp.read_fields(
        &mut values,
        &vec![read(1, Ok(())), read(5, Err(NetworkError::UnexpectedEof)), read(3, Err(NetworkError::NotFound))],
    );
    assert_eq!(r, Err(NetworkError::UnexpectedEof));
    // the first field keeps what it read, the second what its call left, the third is untouched
    assert_eq!(values, vec![1, 5, 7]);
}

#[test]
fn struct_reads_back_what_it_wrote() {
    // two `QClass`-like fields written as big-endian u16 and read back
    let input = DeriveInput { ident: "Pair".to_string(), attrs: vec![], data: Data::Struct(Fields::Unit) };
    let ds = Fields::Unnamed(2);
    let writer = StructDeriveBuilder::to_network(&input, &ds).unwrap();
    let reader_impl = StructDeriveBuilder::from_network(&input, &ds).unwrap();
    let fields = [0x0102u16, 0x00FF];
    let outs: Vec<FieldWrite> = fields.iter().map(|v| write(&v.to_be_bytes(), Ok(2))).collect();
    let mut buffer = Vec::new();
    assert_eq!(writer.write_fields(&mut buffer, &outs), Ok(4));
    let mut reader = NetReader::new(&buffer);
    let reads: Vec<FieldRead<u16>> = (0..2)
        .map(|_| {
            let v = reader.read_u16().unwrap();
            read(v, Ok(()))
        })
        .collect();
    let mut values = vec![0u16, 0];
    assert_eq!(reader_impl.read_fields(&mut values, &reads), Ok(()));
    assert_eq!(values, fields.to_vec());
    assert_eq!(reader.position(), 4);
}
