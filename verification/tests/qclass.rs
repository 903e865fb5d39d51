use dnslib::model::{Attribute, Data, DeriveInput, Fields, Variant};
use dnslib::network::{NetReader, NetworkError};
use dnslib::rfc1035::qclass::QClass;

fn to_network_test(val: &QClass, size: usize, v: &[u8]) {
    let mut buffer: Vec<u8> = Vec::new();
    assert_eq!(val.to_network_order(&mut buffer).unwrap(), size);
    assert_eq!(buffer, v);
}

fn from_network_test(def: Option<QClass>, val: &QClass, buf: &Vec<u8>) {
    let mut buffer = NetReader::new(buf.as_slice());
    let mut v: QClass = if def.is_none() { QClass::default() } else { def.unwrap() };
    assert!(v.from_network_order(&mut buffer).is_ok());
    assert_eq!(&v, val);
}

#[test]
fn network() {
    let q = QClass::ANY;
    to_network_test(&q, 2, &[0x00, 0xFF]);
    from_network_test(None, &q, &vec![0x00, 0xFF]);
}

#[test]
fn qclass_doc_examples() {
    assert_eq!(QClass::from_str("ANY").unwrap(), QClass::ANY);
    assert!(QClass::from_str("FOO").is_err());
    assert_eq!(QClass::try_from(2).unwrap(), QClass::CS);
    assert!(QClass::try_from(110).is_err());
}

const ALL: [QClass; 5] = [QClass::IN, QClass::CS, QClass::CH, QClass::HS, QClass::ANY];

#[test]
fn qclass_names_and_values() {
    let names = ["IN", "CS", "CH", "HS", "ANY"];
    let values = [1u16, 2, 3, 4, 255];
    for i in 0..5 {
        assert_eq!(QClass::from_str(names[i]), Ok(ALL[i]));
        assert_eq!(QClass::try_from(values[i]), Ok(ALL[i]));
        assert_eq!(ALL[i].value(), values[i]);
    }
    assert_eq!(QClass::from_str("in"), Err("no corresponding variant"));
    assert_eq!(QClass::from_str(""), Err("no corresponding variant"));
    assert_eq!(QClass::try_from(0), Err("no variant corresponding to value"));
    assert_eq!(QClass::try_from(256), Err("no variant corresponding to value"));
}

#[test]
fn qclass_default_is_internet() {
    assert_eq!(QClass::default(), QClass::IN);
}

#[test]
fn qclass_network_roundtrip() {
    for q in ALL {
        let mut buffer: Vec<u8> = vec![0xAB];
        assert_eq!(q.to_network_order(&mut buffer), Ok(2));
        assert_eq!(buffer, vec![0xAB, 0x00, q.value() as u8]);
        buffer.push(0x77);
        let mut reader = NetReader::new(&buffer[1..]);
        let mut read = QClass::HS;
        assert_eq!(read.from_network_order(&mut reader), Ok(()));
        assert_eq!(read, q);
        assert_eq!(reader.position(), 2);
        assert_eq!(reader.remaining(), 1);
    }
}

#[test]
fn qclass_from_network_errors() {
    let short = vec![0x00];
    let mut reader = NetReader::new(&short);
    let mut q = QClass::CH;
    assert_eq!(q.from_network_order(&mut reader), Err(NetworkError::UnexpectedEof));
    assert_eq!(reader.position(), 0);
    assert_eq!(q, QClass::CH);

    let unknown = vec![0x01, 0x00, 0x00, 0x01];
    let mut reader = NetReader::new(&unknown);
    assert_eq!(q.from_network_order(&mut reader), Err(NetworkError::NotFound));
    assert_eq!(reader.position(), 2);
    assert_eq!(q, QClass::CH);
    assert_eq!(q.from_network_order(&mut reader), Ok(()));
    assert_eq!(q, QClass::IN);
}

#[test]
fn net_reader_reads_big_endian() {
    let bytes = vec![2u8, 5, 3, 0, 9];
    let mut reader = NetReader::new(&bytes);
    assert_eq!(reader.read_u16(), Ok(517));
    assert_eq!(reader.read_u16(), Ok(768));
    assert_eq!(reader.read_u16(), Err(NetworkError::UnexpectedEof));
    assert_eq!(reader.read_u8(), Ok(9));
    assert_eq!(reader.read_u8(), Err(NetworkError::UnexpectedEof));
    assert_eq!(reader.position(), 5);
}

fn qclass_definition() -> DeriveInput {
    let variant = |name: &str, d: i64| Variant { ident: name.to_string(), fields: Fields::Unit, discriminant: Some(d) };
    DeriveInput {
        ident: "QClass".to_string(),
        attrs: vec![Attribute { path: "repr".to_string(), nested: vec!["u16".to_string()] }],
        data: Data::Enum(vec![variant("IN", 1), variant("CS", 2), variant("CH", 3), variant("HS", 4), variant("ANY", 255)]),
    }
}

#[test]
fn qclass_behaves_as_derived() {
    let def = qclass_definition();
    let parse = dnslib::derive_enum::from_str(&def);
    let convert = dnslib::derive_enum::try_from(&def);
    for s in ["IN", "CS", "CH", "HS", "ANY", "FOO", "any", ""] {
        assert_eq!(QClass::from_str(s).map(|q| ALL.iter().position(|x| *x == q).unwrap()), parse.from_str(s));
    }
    for v in [0u16, 1, 2, 3, 4, 5, 110, 254, 255, 256, 65535] {
        assert_eq!(QClass::try_from(v).map(|q| ALL.iter().position(|x| *x == q).unwrap()), convert.try_from(v));
    }
    let network = match dnslib::type2network_derive::to_network(&def) {
        dnslib::type2network_derive::NetworkImpl::Enum(imp) => imp,
        _ => panic!("expected an enum implementation"),
    };
    for (i, q) in ALL.iter().enumerate() {
        let mut derived = Vec::new();
        let mut direct = Vec::new();
        assert_eq!(network.to_network_order(i, &mut derived), q.to_network_order(&mut direct));
        assert_eq!(derived, direct);
    }
}

#[test]
fn qclass_parses_through_std_traits() {
    let q: QClass = "CH".parse().unwrap();
    assert_eq!(q, QClass::CH);
    assert!("ch".parse::<QClass>().is_err());
    assert_eq!(<QClass as std::convert::TryFrom<u16>>::try_from(4), Ok(QClass::HS));
    let r: Result<QClass, _> = 7u16.try_into();
    assert_eq!(r, Err("no variant corresponding to value"));
}
