use vstd::prelude::*;
use crate::derive_enum::{
    all_unit, arm_discriminants, arm_values, build_arms, distinct_repr_values, find_arm, repr_value,
    TryFromArm,
};
use crate::lookup::position_of;
use crate::model::{
    discriminants_fit, fitting_discriminants, spec_discriminants, DeriveInput, Variant,
};
use crate::network::{
    be_bytes_u16, be_value_u16, lemma_be_u16_roundtrip, write_u16_be, NetReader, NetworkError,
};
use crate::repr::{repr_size, repr_sizes_supported, spec_repr_size, ReprSize};

verus! {

/// How many bytes a value of the representation type takes on the wire.
pub open spec fn repr_width(repr: ReprSize) -> nat {
    match repr {
        ReprSize::U8 => 1,
        ReprSize::U16 => 2,
    }
}

/// The bytes a variant with discriminant `d` is written as: its value as a `u16`,
/// in network (big-endian) order.
///
/// Only `u16` enums are written: the code derived for a `u8` enum calls
/// `write_u8::<BigEndian>`, which takes no byte order, and does not compile.
pub open spec fn spec_encoding(d: i64) -> Seq<u8> {
    be_bytes_u16(d as u16)
}

/// The number that the first bytes of `bytes` denote as the representation type,
/// in network (big-endian) order.
pub open spec fn spec_decoded(repr: ReprSize, bytes: Seq<u8>) -> int {
    match repr {
        ReprSize::U8 => bytes[0] as int,
        ReprSize::U16 => be_value_u16(bytes[0], bytes[1]),
    }
}

/// A derived `ToNetworkOrder` and `FromNetworkOrder` implementation for a C-style
/// enum: a variant travels as its discriminant, two big-endian bytes for a `u16`
/// representation; reading takes one byte for a `u8` representation and two
/// big-endian bytes for a `u16` one, and maps the number back through the enum's
/// `try_from`.
#[derive(Debug)]
pub struct EnumNetworkImpl {
    pub enum_name: String,
    pub repr: ReprSize,
    pub arms: Vec<TryFromArm>,
}

/// `imp` is the network implementation derived for the enum `name` with variants
/// `vs` and representation `repr`.
pub open spec fn enum_impl_of(imp: EnumNetworkImpl, name: Seq<char>, repr: ReprSize, vs: Seq<Variant>) -> bool {
    &&& imp.enum_name@ == name
    &&& imp.repr == repr
    &&& imp.arms@.len() == vs.len()
    &&& forall|i: int|
        0 <= i < vs.len() ==> {
            &&& (#[trigger] imp.arms@[i]).variant@ == vs[i].ident@
            &&& imp.arms@[i].discriminant == spec_discriminants(vs)[i]
        }
}

impl EnumNetworkImpl {
    /// The bytes the derived `to_network_order` hands the writer for the variant at
    /// position `variant`: its discriminant as a big-endian `u16`.
    pub fn encoding(&self, variant: usize) -> (bytes: Vec<u8>)
        requires
            self.repr == ReprSize::U16,
            variant < self.arms@.len(),
        ensures
            bytes@ == spec_encoding(self.arms@[variant as int].discriminant),
    {
        let mut bytes: Vec<u8> = Vec::new();
        write_u16_be(&mut bytes, self.arms[variant].discriminant as u16);
        assert(bytes@ =~= spec_encoding(self.arms@[variant as int].discriminant));
        bytes
    }

    /// What the derived `to_network_order` returns once the writer has taken its
    /// bytes: the writer's error as it is, else the two bytes written.
    pub fn to_network_result(&self, write: Result<(), NetworkError>) -> (r: Result<usize, NetworkError>)
        requires
            self.repr == ReprSize::U16,
        ensures
            match write {
                Ok(_) => r == Ok::<usize, NetworkError>(2),
                Err(e) => r == Err::<usize, NetworkError>(e),
            },
    {
        match write {
            Ok(()) => Ok(2),
            Err(e) => Err(e),
        }
    }

    /// What the derived `to_network_order` does for the variant at position
    /// `variant` with a `Vec<u8>`, a writer that always takes the bytes: appends
    /// the variant's encoding and returns 2.
    pub fn to_network_order(&self, variant: usize, buffer: &mut Vec<u8>) -> (r: Result<usize, NetworkError>)
        requires
            self.repr == ReprSize::U16,
            variant < self.arms@.len(),
        ensures
            final(buffer)@ == old(buffer)@ + spec_encoding(self.arms@[variant as int].discriminant),
            r == Ok::<usize, NetworkError>(2),
    {
        write_u16_be(buffer, self.arms[variant].discriminant as u16);
        self.to_network_result(Ok(()))
    }

    /// What the derived `from_network_order` does: reads the representation type
    /// from `reader` and returns the position of the variant it is the
    /// discriminant of.
    ///
    /// At the end of the input it fails with `UnexpectedEof` and reads nothing; a
    /// number that is no discriminant is read and refused with `NotFound`.
    pub fn from_network_order(&self, reader: &mut NetReader) -> (r: Result<usize, NetworkError>)
        ensures
            final(reader).data() == old(reader).data(),
            old(reader).rest().len() < repr_width(self.repr) ==> {
                &&& r == Err::<usize, NetworkError>(NetworkError::UnexpectedEof)
                &&& final(reader).pos() == old(reader).pos()
            },
            old(reader).rest().len() >= repr_width(self.repr) ==> {
                &&& final(reader).pos() == old(reader).pos() + repr_width(self.repr)
                &&& match position_of(arm_values(self.repr, self.arms@), spec_decoded(self.repr, old(reader).rest())) {
                    Some(i) => r == Ok::<usize, NetworkError>(i as usize),
                    None => r == Err::<usize, NetworkError>(NetworkError::NotFound),
                }
            },
    {
        let value: u16 = match self.repr {
            ReprSize::U8 => match reader.read_u8() {
                Ok(v) => v as u16,
                Err(e) => {
                    return Err(e);
                },
            },
            ReprSize::U16 => match reader.read_u16() {
                Ok(v) => v,
                Err(e) => {
                    return Err(e);
                },
            },
        };
        match find_arm(self.repr, &self.arms, value) {
            Some(i) => Ok(i),
            None => Err(NetworkError::NotFound),
        }
    }
}

/// Reading back what `to_network_order` wrote for a variant of a `u16` enum gives
/// that variant and uses exactly its two bytes, whatever follows them, when no two
/// discriminants have the same value as a `u16`.
pub proof fn law_enum_network_roundtrip(imp: EnumNetworkImpl, i: int, rest: Seq<u8>)
    requires
        imp.repr == ReprSize::U16,
        distinct_repr_values(imp.repr, arm_discriminants(imp.arms@)),
        0 <= i < imp.arms@.len(),
    ensures
        spec_encoding(imp.arms@[i].discriminant).len() == repr_width(imp.repr),
        position_of(
            arm_values(imp.repr, imp.arms@),
            spec_decoded(imp.repr, spec_encoding(imp.arms@[i].discriminant) + rest),
        ) == Some(i),
{
    let d = imp.arms@[i].discriminant;
    let bytes = spec_encoding(d) + rest;
    lemma_be_u16_roundtrip(d as u16);
    assert(bytes[0] == be_bytes_u16(d as u16)[0]);
    assert(bytes[1] == be_bytes_u16(d as u16)[1]);
    assert(spec_decoded(imp.repr, bytes) == repr_value(imp.repr, d));
    crate::derive_enum::law_try_from_finds_variant_values(imp.repr, imp.arms@, i);
}

/// Reading a `u8` enum looks up the byte read itself: a byte `b` followed by
/// anything gives the variant whose discriminant is `b` modulo 256, when no two
/// discriminants agree modulo 256.
pub proof fn law_enum_u8_read(imp: EnumNetworkImpl, i: int, b: u8, rest: Seq<u8>)
    requires
        imp.repr == ReprSize::U8,
        distinct_repr_values(imp.repr, arm_discriminants(imp.arms@)),
        0 <= i < imp.arms@.len(),
        b as int == imp.arms@[i].discriminant % 256,
    ensures
        repr_width(imp.repr) == 1,
        position_of(arm_values(imp.repr, imp.arms@), spec_decoded(imp.repr, seq![b] + rest)) == Some(i),
{
    crate::derive_enum::law_repr_value_keeps_low_bits(imp.arms@[i].discriminant);
    assert((seq![b] + rest)[0] == b);
    crate::derive_enum::law_try_from_finds_variant_values(imp.repr, imp.arms@, i);
}

/// Builds the network implementations of enums.
pub struct EnumDeriveBuilder;

impl EnumDeriveBuilder {
    fn build(ast: &DeriveInput, de: &Vec<Variant>) -> (imp: EnumNetworkImpl)
        requires
            repr_sizes_supported(ast.attrs@),
            discriminants_fit(de@),
        ensures
            enum_impl_of(imp, ast.ident@, spec_repr_size(ast.attrs@), de@),
    {
        let repr = repr_size(&ast.attrs);
        let ds = fitting_discriminants(de);
        let arms = build_arms(de, &ds);
        EnumNetworkImpl { enum_name: ast.ident.clone(), repr, arms }
    }

    /// Derives `ToNetworkOrder` for the `u16` C-style enum `ast` with variants `de`.
    ///
    /// The derive refuses, by panicking, a `#[repr(..)]` other than `u8` or `u16`;
    /// the language refuses discriminants that overflow, and the code derived for
    /// a `u8` enum or for an enum with fields. Those inputs are left out.
    pub fn to_network(ast: &DeriveInput, de: &Vec<Variant>) -> (imp: EnumNetworkImpl)
        requires
            repr_sizes_supported(ast.attrs@),
            spec_repr_size(ast.attrs@) == ReprSize::U16,
            discriminants_fit(de@),
            all_unit(de@),
        ensures
            enum_impl_of(imp, ast.ident@, spec_repr_size(ast.attrs@), de@),
    {
        Self::build(ast, de)
    }

    /// Derives `FromNetworkOrder` for the C-style enum `ast` with variants `de`;
    /// the derived code reads through the enum's derived `try_from`.
    ///
    /// The derive refuses, by panicking, a `#[repr(..)]` other than `u8` or `u16`;
    /// the language refuses discriminants that overflow, and a derived `try_from`
    /// for an enum with fields. Those inputs are left out.
    pub fn from_network(ast: &DeriveInput, de: &Vec<Variant>) -> (imp: EnumNetworkImpl)
        requires
            repr_sizes_supported(ast.attrs@),
            discriminants_fit(de@),
            all_unit(de@),
        ensures
            enum_impl_of(imp, ast.ident@, spec_repr_size(ast.attrs@), de@),
    {
        Self::build(ast, de)
    }
}

} // verus!
