use vstd::prelude::*;
use crate::derive_enum::{
    arm_literals, arm_values, from_str_impl_of, unit_positions, try_from_impl_of, FromStrImpl, TryFromImpl,
};
use crate::lookup::{lemma_position_of, lemma_position_of_is, lemma_position_of_none, position_of, str_eq};
use crate::model::{spec_discriminants, Variant};
use crate::network::{be_bytes_u16, be_value_u16, lemma_be_u16_roundtrip, write_u16_be, NetReader, NetworkError};
use crate::repr::ReprSize;
use crate::type2network_derive::enum_builder::{enum_impl_of, spec_encoding, EnumNetworkImpl};

verus! {

/// The class of a resource record (RFC 1035, section 3.2.4), represented on the
/// wire by a `u16`: `IN` = 1, `CS` = 2, `CH` = 3, `HS` = 4, `ANY` = 255.
#[derive(Debug, Clone, Copy, PartialEq, Eq, Structural)]
pub enum QClass {
    /// the Internet
    IN,
    /// the CSNET class (obsolete, used only for examples in some obsolete RFCs)
    CS,
    /// the CHAOS class
    CH,
    /// Hesiod
    HS,
    /// any class
    ANY,
}

/// The variants in declaration order.
pub open spec fn qclass_variants() -> Seq<QClass> {
    seq![QClass::IN, QClass::CS, QClass::CH, QClass::HS, QClass::ANY]
}

/// The variants' names in declaration order.
pub open spec fn qclass_names() -> Seq<Seq<char>> {
    seq!["IN"@, "CS"@, "CH"@, "HS"@, "ANY"@]
}

/// The variants' numbers in declaration order.
pub open spec fn qclass_values() -> Seq<int> {
    seq![1, 2, 3, 4, 255]
}

/// The class with the number `value`, or the error
/// `"no variant corresponding to value"`: the first number that matches picks
/// the class.
pub open spec fn qclass_from_value(value: u16) -> Result<QClass, &'static str> {
    match position_of(qclass_values(), value as int) {
        Some(i) => Ok(qclass_variants()[i]),
        None => Err("no variant corresponding to value"),
    }
}

impl QClass {
    /// The variant's position in declaration order.
    pub open spec fn position(self) -> int {
        match self {
            QClass::IN => 0,
            QClass::CS => 1,
            QClass::CH => 2,
            QClass::HS => 3,
            QClass::ANY => 4,
        }
    }

    /// The variant's name.
    pub open spec fn spec_name(self) -> Seq<char> {
        qclass_names()[self.position()]
    }

    /// The variant's number.
    pub open spec fn spec_value(self) -> u16 {
        qclass_values()[self.position()] as u16
    }

    /// The number of the class.
    pub fn value(&self) -> (v: u16)
        ensures
            v == self.spec_value(),
    {
        match self {
            QClass::IN => 1,
            QClass::CS => 2,
            QClass::CH => 3,
            QClass::HS => 4,
            QClass::ANY => 255,
        }
    }

    /// Parses a class from its name: `"IN"`, `"CS"`, `"CH"`, `"HS"` or `"ANY"`;
    /// any other string gives the error `"no corresponding variant"`.
    pub fn from_str(s: &str) -> (r: Result<QClass, &'static str>)
        ensures
            match position_of(qclass_names(), s@) {
                Some(i) => r == Ok::<QClass, &'static str>(qclass_variants()[i]),
                None => r matches Err(e) && e@ == "no corresponding variant"@,
            },
    {
        let ghost names = qclass_names();
        if str_eq(s, "IN") {
            proof { lemma_position_of_is(names, s@, 0); }
            return Ok(QClass::IN);
        }
        if str_eq(s, "CS") {
            proof { lemma_position_of_is(names, s@, 1); }
            return Ok(QClass::CS);
        }
        if str_eq(s, "CH") {
            proof { lemma_position_of_is(names, s@, 2); }
            return Ok(QClass::CH);
        }
        if str_eq(s, "HS") {
            proof { lemma_position_of_is(names, s@, 3); }
            return Ok(QClass::HS);
        }
        if str_eq(s, "ANY") {
            proof { lemma_position_of_is(names, s@, 4); }
            return Ok(QClass::ANY);
        }
        proof { lemma_position_of_none(names, s@); }
        Err("no corresponding variant")
    }

    /// The class with the number `value`; any other number gives the error
    /// `"no variant corresponding to value"`.
    pub fn try_from(value: u16) -> (r: Result<QClass, &'static str>)
        ensures
            r == qclass_from_value(value),
    {
        let ghost values = qclass_values();
        if value == 1 {
            proof { lemma_position_of_is(values, value as int, 0); }
            Ok(QClass::IN)
        } else if value == 2 {
            proof { lemma_position_of_is(values, value as int, 1); }
            Ok(QClass::CS)
        } else if value == 3 {
            proof { lemma_position_of_is(values, value as int, 2); }
            Ok(QClass::CH)
        } else if value == 4 {
            proof { lemma_position_of_is(values, value as int, 3); }
            Ok(QClass::HS)
        } else if value == 255 {
            proof { lemma_position_of_is(values, value as int, 4); }
            Ok(QClass::ANY)
        } else {
            proof { lemma_position_of_none(values, value as int); }
            Err("no variant corresponding to value")
        }
    }

    /// Appends the class's number to `buffer` as two big-endian bytes and returns
    /// the number of bytes written.
    pub fn to_network_order(&self, buffer: &mut Vec<u8>) -> (r: Result<usize, NetworkError>)
        ensures
            final(buffer)@ == old(buffer)@ + be_bytes_u16(self.spec_value()),
            r == Ok::<usize, NetworkError>(2),
    {
        write_u16_be(buffer, self.value());
        Ok(2)
    }

    /// Reads a class as two big-endian bytes from `reader` into `self`.
    ///
    /// With fewer than two bytes left it fails with `UnexpectedEof` and reads
    /// nothing; a number that is no class is read and refused with `NotFound`. On
    /// failure `self` is left as it was.
    pub fn from_network_order(&mut self, reader: &mut NetReader) -> (r: Result<(), NetworkError>)
        ensures
            final(reader).data() == old(reader).data(),
            old(reader).rest().len() < 2 ==> {
                &&& r == Err::<(), NetworkError>(NetworkError::UnexpectedEof)
                &&& final(reader).pos() == old(reader).pos()
                &&& *final(self) == *old(self)
            },
            old(reader).rest().len() >= 2 ==> {
                &&& final(reader).pos() == old(reader).pos() + 2
                &&& match position_of(qclass_values(), be_value_u16(old(reader).rest()[0], old(reader).rest()[1])) {
                    Some(i) => r == Ok::<(), NetworkError>(()) && *final(self) == qclass_variants()[i],
                    None => r == Err::<(), NetworkError>(NetworkError::NotFound) && *final(self) == *old(self),
                }
            },
    {
        let value = match reader.read_u16() {
            Ok(v) => v,
            Err(e) => {
                return Err(e);
            },
        };
        match QClass::try_from(value) {
            Ok(q) => {
                *self = q;
                Ok(())
            },
            Err(_) => Err(NetworkError::NotFound),
        }
    }
}

impl std::str::FromStr for QClass {
    type Err = &'static str;

    /// The class named `s`, as `QClass::from_str`.
    fn from_str(s: &str) -> (r: Result<QClass, &'static str>)
        ensures
            match position_of(qclass_names(), s@) {
                Some(i) => r == Ok::<QClass, &'static str>(qclass_variants()[i]),
                None => r is Err,
            },
    {
        QClass::from_str(s)
    }
}

impl std::convert::TryFrom<u16> for QClass {
    type Error = &'static str;

    /// The class with the number `value`, as `QClass::try_from`.
    fn try_from(value: u16) -> Result<QClass, &'static str> {
        QClass::try_from(value)
    }
}

impl vstd::std_specs::convert::TryFromSpecImpl<u16> for QClass {
    open spec fn obeys_try_from_spec() -> bool {
        true
    }

    open spec fn try_from_spec(value: u16) -> Result<QClass, &'static str> {
        qclass_from_value(value)
    }
}

impl Default for QClass {
    /// `IN`, the Internet class.
    fn default() -> (r: QClass)
        ensures
            r == QClass::IN,
    {
        QClass::IN
    }
}

/// Each class is parsed back from its own name.
pub proof fn law_qclass_from_name(q: QClass)
    ensures
        position_of(qclass_names(), q.spec_name()) == Some(q.position()),
        qclass_variants()[q.position()] == q,
{
    reveal_strlit("IN");
    reveal_strlit("CS");
    reveal_strlit("CH");
    reveal_strlit("HS");
    reveal_strlit("ANY");
    let names = qclass_names();
    let i = q.position();
    assert forall|j: int| 0 <= j < i implies #[trigger] names[j] != q.spec_name() by {
        assert(names[j][1] != names[i][1] || names[j].len() != names[i].len() || names[j][0] != names[i][0]);
    }
    lemma_position_of_is(names, q.spec_name(), i);
}

/// A name that parses gives the class of that name, and every name parses to its
/// own class.
pub proof fn law_qclass_parse_gives_named_class(s: Seq<char>, q: QClass)
    ensures
        position_of(qclass_names(), s) matches Some(i) ==> 0 <= i < 5 && qclass_variants()[i].spec_name() == s,
        position_of(qclass_names(), q.spec_name()) == Some(q.position()),
        qclass_variants()[q.position()] == q,
{
    lemma_position_of(qclass_names(), s);
    law_qclass_from_name(q);
}

/// Each class is found back from its own number.
pub proof fn law_qclass_from_value(q: QClass)
    ensures
        position_of(qclass_values(), q.spec_value() as int) == Some(q.position()),
        qclass_from_value(q.spec_value()) == Ok::<QClass, &'static str>(q),
        qclass_variants()[q.position()] == q,
{
    lemma_position_of_is(qclass_values(), q.spec_value() as int, q.position());
}

/// Reading back what `to_network_order` wrote for a class gives that class, and
/// uses exactly two bytes whatever follows them.
pub proof fn law_qclass_network_roundtrip(q: QClass, rest: Seq<u8>)
    ensures
        (be_bytes_u16(q.spec_value()) + rest).len() >= 2,
        position_of(
            qclass_values(),
            be_value_u16((be_bytes_u16(q.spec_value()) + rest)[0], (be_bytes_u16(q.spec_value()) + rest)[1]),
        ) == Some(q.position()),
        qclass_variants()[q.position()] == q,
{
    lemma_be_u16_roundtrip(q.spec_value());
    let bytes = be_bytes_u16(q.spec_value()) + rest;
    assert(bytes[0] == be_bytes_u16(q.spec_value())[0]);
    assert(bytes[1] == be_bytes_u16(q.spec_value())[1]);
    law_qclass_from_value(q);
}

/// The definition of `QClass` as the derives see it: its variants' names and
/// explicit discriminants, in order.
pub open spec fn is_qclass_definition(vs: Seq<Variant>) -> bool {
    &&& vs.len() == 5
    &&& forall|i: int| 0 <= i < 5 ==> {
        &&& (#[trigger] vs[i]).ident@ == qclass_names()[i]
        &&& vs[i].fields is Unit
        &&& vs[i].discriminant == Some(qclass_values()[i] as i64)
    }
}

/// In the definition of `QClass` every variant has an arm, and each variant's
/// discriminant is its number.
proof fn lemma_qclass_definition(vs: Seq<Variant>)
    requires
        is_qclass_definition(vs),
    ensures
        unit_positions(vs) == seq![0int, 1, 2, 3, 4],
        forall|i: int| 0 <= i < 5 ==> #[trigger] spec_discriminants(vs)[i] == qclass_values()[i],
{
    reveal_with_fuel(spec_discriminants, 6);
    reveal_with_fuel(unit_positions, 6);
    assert(vs.drop_last().drop_last().drop_last().drop_last().drop_last() =~= Seq::<Variant>::empty());
    assert(vs[0].fields is Unit && vs[1].fields is Unit && vs[2].fields is Unit && vs[3].fields is Unit
        && vs[4].fields is Unit);
    assert(unit_positions(vs) =~= seq![0int, 1, 2, 3, 4]);
    assert forall|i: int| 0 <= i < 5 implies #[trigger] spec_discriminants(vs)[i] == qclass_values()[i] by {
        assert(vs[i].discriminant == Some(qclass_values()[i] as i64));
    }
}

/// `QClass::from_str` is the `FromStr` implementation derived from the
/// definition of `QClass`: both try the same names in the same order.
pub proof fn law_qclass_from_str_is_derived(imp: FromStrImpl, name: Seq<char>, vs: Seq<Variant>)
    requires
        is_qclass_definition(vs),
        from_str_impl_of(imp, name, vs),
    ensures
        arm_literals(imp.arms@) == qclass_names(),
{
    lemma_qclass_definition(vs);
    assert(arm_literals(imp.arms@) =~= qclass_names()) by {
        assert forall|i: int| 0 <= i < 5 implies arm_literals(imp.arms@)[i] == qclass_names()[i] by {
            assert(imp.arms@[i].literal@ == vs[unit_positions(vs)[i]].ident@);
        }
    }
}

/// `QClass::try_from` is the `TryFrom<u16>` implementation derived from the
/// definition of `QClass` under `#[repr(u16)]`: both try the same numbers in the
/// same order.
pub proof fn law_qclass_try_from_is_derived(imp: TryFromImpl, name: Seq<char>, vs: Seq<Variant>)
    requires
        is_qclass_definition(vs),
        try_from_impl_of(imp, name, ReprSize::U16, vs),
    ensures
        arm_values(imp.repr, imp.arms@) == qclass_values(),
{
    lemma_qclass_definition(vs);
    assert(arm_values(imp.repr, imp.arms@) =~= qclass_values()) by {
        assert forall|i: int| 0 <= i < 5 implies arm_values(imp.repr, imp.arms@)[i] == qclass_values()[i] by {
            assert(imp.arms@[i].discriminant == spec_discriminants(vs)[i]);
        }
    }
}

/// `QClass::to_network_order` and `QClass::from_network_order` are the network
/// implementation derived from the definition of `QClass` under `#[repr(u16)]`:
/// each class travels as the same two bytes, and the same numbers are looked up
/// in the same order.
pub proof fn law_qclass_network_is_derived(imp: EnumNetworkImpl, name: Seq<char>, vs: Seq<Variant>)
    requires
        is_qclass_definition(vs),
        enum_impl_of(imp, name, ReprSize::U16, vs),
    ensures
        arm_values(imp.repr, imp.arms@) == qclass_values(),
        forall|i: int|
            0 <= i < 5 ==> spec_encoding((#[trigger] imp.arms@[i]).discriminant) == be_bytes_u16(
                qclass_variants()[i].spec_value(),
            ),
{
    lemma_qclass_definition(vs);
    assert forall|i: int| 0 <= i < 5 implies imp.arms@[i].discriminant == qclass_values()[i] by {
        assert(imp.arms@[i].discriminant == spec_discriminants(vs)[i]);
    }
    assert(arm_values(imp.repr, imp.arms@) =~= qclass_values());
}

} // verus!
