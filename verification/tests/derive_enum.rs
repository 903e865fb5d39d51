use dnslib::derive_enum::{from_str, try_from, try_from_supported};
use dnslib::model::{discriminants, Attribute, Data, DeriveInput, Fields, Variant};
use dnslib::repr::{repr_size, repr_sizes_ok, ReprSize};

fn unit(name: &str, discriminant: Option<i64>) -> Variant {
    Variant { ident: name.to_string(), fields: Fields::Unit, discriminant }
}

fn attr(path: &str, nested: &[&str]) -> Attribute {
    Attribute { path: path.to_string(), nested: nested.iter().map(|s| s.to_string()).collect() }
}

fn enum_input(name: &str, attrs: Vec<Attribute>, variants: Vec<Variant>) -> DeriveInput {
    DeriveInput { ident: name.to_string(), attrs, data: Data::Enum(variants) }
}

fn variant_name(input: &DeriveInput, position: usize) -> String {
    match &input.data {
        Data::Enum(vs) => vs[position].ident.clone(),
        _ => panic!("not an enum"),
    }
}

/// The name of the variant a derived `from_str` picks for `s`.
fn parse_name(input: &DeriveInput, s: &str) -> Result<String, &'static str> {
    from_str(input).from_str(s).map(|p| variant_name(input, p))
}

/// The name of the variant a derived `try_from` picks for `value`.
fn value_name(input: &DeriveInput, value: u16) -> Result<String, &'static str> {
    try_from(input).try_from(value).map(|p| variant_name(input, p))
}

fn message() -> DeriveInput {
    enum_input(
        "Message",
        vec![],
        vec![
            Variant {
                ident: "Move".to_string(),
                fields: Fields::Named(vec!["x".to_string(), "y".to_string()]),
                discriminant: None,
            },
            Variant { ident: "Write".to_string(), fields: Fields::Unnamed(1), discriminant: None },
            Variant { ident: "ChangeColor".to_string(), fields: Fields::Unnamed(3), discriminant: None },
        ],
    )
}

#[test]
fn enum_simple() {
    let color = enum_input("Color", vec![], vec![unit("White", None), unit("Black", None)]);
    assert_eq!(parse_name(&color, "White").unwrap(), "White");

    let choice = enum_input("Choice", vec![], vec![unit("Yes", Some(0)), unit("No", Some(1))]);
    assert_eq!(parse_name(&choice, "Yes").unwrap(), "Yes");
    assert_eq!(value_name(&choice, 1).unwrap(), "No");

    let answer = enum_input("Answer", vec![], vec![unit("A", Some(1000)), unit("B", None), unit("C", None)]);
    assert_eq!(parse_name(&answer, "C").unwrap(), "C");

    // `FromStr` is derived for an enum whose variants carry data too.
    let message = from_str(&message());
    assert_eq!(message.enum_name, "Message");
}

#[test]
fn from_str_on_variants_with_data() {
    let message = message();
    let imp = from_str(&message);
    assert!(imp.arms.is_empty());
    assert_eq!(imp.from_str("Move"), Err("no corresponding variant"));
    assert_eq!(imp.from_str("Write"), Err("no corresponding variant"));

    let mixed = enum_input(
        "Mixed",
        vec![],
        vec![
            unit("Quit", None),
            Variant { ident: "Write".to_string(), fields: Fields::Unnamed(1), discriminant: None },
            unit("Ok", None),
        ],
    );
    let imp = from_str(&mixed);
    assert_eq!(imp.arms.len(), 2);
    assert_eq!(imp.arms[1].position, 2);
    assert_eq!(imp.from_str("Quit"), Ok(0));
    assert_eq!(imp.from_str("Ok"), Ok(2));
    assert_eq!(imp.from_str("Write"), Err("no corresponding variant"));
}

#[test]
fn from_str_arms_follow_variants() {
    let color = enum_input("Color", vec![], vec![unit("White", None), unit("Black", None)]);
    let imp = from_str(&color);
    assert_eq!(imp.enum_name, "Color");
    assert_eq!(imp.arms.len(), 2);
    assert_eq!(imp.arms[0].literal, "White");
    assert_eq!(imp.arms[0].variant, "White");
    assert_eq!(imp.arms[0].position, 0);
    assert_eq!(imp.arms[1].literal, "Black");
    assert_eq!(imp.from_str("White"), Ok(0));
    assert_eq!(imp.from_str("Black"), Ok(1));
}

#[test]
fn from_str_refuses_other_strings() {
    let color = enum_input("Color", vec![], vec![unit("White", None), unit("Black", None)]);
    let imp = from_str(&color);
    assert_eq!(imp.from_str("Grey"), Err("no corresponding variant"));
    assert_eq!(imp.from_str("white"), Err("no corresponding variant"));
    assert_eq!(imp.from_str(""), Err("no corresponding variant"));
}

#[test]
fn from_str_of_empty_enum() {
    let never = enum_input("Never", vec![], vec![]);
    let imp = from_str(&never);
    assert!(imp.arms.is_empty());
    assert_eq!(imp.from_str("Never"), Err("no corresponding variant"));
}

#[test]
fn try_from_needs_an_enum_with_supported_repr() {
    let s = DeriveInput { ident: "S".to_string(), attrs: vec![], data: Data::Struct(Fields::Unit) };
    assert!(!try_from_supported(&s));
    let u = DeriveInput { ident: "U".to_string(), attrs: vec![], data: Data::Union };
    assert!(!try_from_supported(&u));
    let bad_repr = enum_input("E", vec![attr("repr", &["i32"])], vec![unit("A", None)]);
    assert!(!try_from_supported(&bad_repr));
    let overflow = enum_input("E", vec![], vec![unit("A", Some(i64::MAX)), unit("B", None)]);
    assert!(!try_from_supported(&overflow));
    assert!(!try_from_supported(&message()));
    let fine = enum_input("E", vec![attr("repr", &["u16"])], vec![unit("A", None)]);
    assert!(try_from_supported(&fine));
}

#[test]
fn implicit_discriminants_count_up() {
    let answer = vec![unit("A", Some(1000)), unit("B", None), unit("C", None)];
    assert_eq!(discriminants(&answer), Some(vec![1000, 1001, 1002]));
    let plain = vec![unit("X", None), unit("Y", None), unit("Z", Some(-5)), unit("W", None)];
    assert_eq!(discriminants(&plain), Some(vec![0, 1, -5, -4]));
    let overflow = vec![unit("X", Some(i64::MAX)), unit("Y", None)];
    assert_eq!(discriminants(&overflow), None);
}

#[test]
fn repr_size_reads_repr_attributes() {
    assert_eq!(repr_size(&vec![]), ReprSize::U8);
    assert_eq!(repr_size(&vec![attr("repr", &["u8"])]), ReprSize::U8);
    assert_eq!(repr_size(&vec![attr("repr", &["u16"])]), ReprSize::U16);
    assert_eq!(repr_size(&vec![attr("repr", &["u16"]), attr("repr", &["u8"])]), ReprSize::U16);
    assert_eq!(repr_size(&vec![attr("derive", &["Debug"]), attr("repr", &["u16"])]), ReprSize::U16);
    assert_eq!(repr_size(&vec![attr("derive", &["u16"])]), ReprSize::U8);
}

#[test]
fn repr_sizes_other_than_u8_u16_are_refused() {
    assert!(repr_sizes_ok(&vec![]));
    assert!(repr_sizes_ok(&vec![attr("repr", &["u8"]), attr("repr", &["u16"])]));
    assert!(repr_sizes_ok(&vec![attr("derive", &["Debug"])]));
    assert!(!repr_sizes_ok(&vec![attr("repr", &["C"])]));
    assert!(!repr_sizes_ok(&vec![attr("repr", &["u32"])]));
    assert!(!repr_sizes_ok(&vec![attr("repr", &["u16", "C"])]));
}

#[test]
fn try_from_u16_enum() {
    let qclass = enum_input(
        "QClass",
        vec![attr("repr", &["u16"])],
        vec![unit("IN", Some(1)), unit("CS", Some(2)), unit("CH", Some(3)), unit("HS", Some(4)), unit("ANY", Some(255))],
    );
    let imp = try_from(&qclass);
    assert_eq!(imp.repr, ReprSize::U16);
    assert_eq!(imp.try_from(2), Ok(1));
    assert_eq!(imp.try_from(255), Ok(4));
    assert_eq!(imp.try_from(110), Err("no variant corresponding to value"));
    assert_eq!(imp.try_from(0), Err("no variant corresponding to value"));
}

#[test]
fn try_from_u8_enum_compares_truncated_discriminants() {
    // Without a repr the derived function takes a `u8`, and `V as u8` truncates.
    let e = enum_input("E", vec![], vec![unit("A", Some(256)), unit("B", Some(257))]);
    let imp = try_from(&e);
    assert_eq!(imp.repr, ReprSize::U8);
    assert_eq!(imp.try_from(0), Ok(0));
    assert_eq!(imp.try_from(1), Ok(1));
    assert_eq!(imp.try_from(2), Err("no variant corresponding to value"));
}
