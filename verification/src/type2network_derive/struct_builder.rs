use vstd::prelude::*;
use crate::model::{DeriveInput, Fields};
use crate::lookup::{first_index, lemma_first_index, lemma_first_index_none};
use crate::network::NetworkError;

verus! {

/// How the derived code reaches one field of `self`.
#[derive(Debug)]
pub enum FieldAccess {
    /// `self.name`, for a struct with named fields.
    Named(String),
    /// `self.0`, `self.1`, ..., for a tuple struct.
    Index(usize),
}

/// A derived `ToNetworkOrder` or `FromNetworkOrder` implementation for a struct:
/// the fields are written, or read, one after the other in declaration order,
/// each by its own implementation.
#[derive(Debug)]
pub struct StructFieldsImpl {
    pub struct_name: String,
    pub fields: Vec<FieldAccess>,
}

/// The number of fields.
pub open spec fn field_count(ds: Fields) -> nat {
    match ds {
        Fields::Named(names) => names@.len(),
        Fields::Unnamed(n) => n as nat,
        Fields::Unit => 0,
    }
}

/// `a` is how the field at position `i` is reached.
pub open spec fn is_access(ds: Fields, i: int, a: FieldAccess) -> bool {
    match ds {
        Fields::Named(names) => a matches FieldAccess::Named(n) && n@ == names@[i]@,
        Fields::Unnamed(_) => a matches FieldAccess::Index(k) && k == i,
        Fields::Unit => false,
    }
}

/// `imp` is the implementation derived for the struct `name` with fields `ds`.
pub open spec fn struct_impl_of(imp: StructFieldsImpl, name: Seq<char>, ds: Fields) -> bool {
    &&& imp.struct_name@ == name
    &&& imp.fields@.len() == field_count(ds)
    &&& forall|i: int| 0 <= i < imp.fields@.len() ==> is_access(ds, i, #[trigger] imp.fields@[i])
}

/// What one field's own `to_network_order` does when the derived code calls it:
/// the bytes it appends to the buffer and what it returns.
#[derive(Debug)]
pub struct FieldWrite {
    pub bytes: Vec<u8>,
    pub result: Result<usize, NetworkError>,
}

/// What one field's own `from_network_order` does when the derived code calls it:
/// the value the field holds afterwards and what it returns.
#[derive(Debug)]
pub struct FieldRead<T> {
    pub value: T,
    pub result: Result<(), NetworkError>,
}

/// The parts joined one after the other.
pub open spec fn concat_bytes(parts: Seq<Seq<u8>>) -> Seq<u8>
    decreases parts.len(),
{
    if parts.len() == 0 {
        Seq::empty()
    } else {
        concat_bytes(parts.drop_last()) + parts.last()
    }
}

/// Joining parts starts with the first one.
pub proof fn lemma_concat_first(parts: Seq<Seq<u8>>)
    requires
        parts.len() > 0,
    ensures
        concat_bytes(parts) == parts[0] + concat_bytes(parts.drop_first()),
    decreases parts.len(),
{
    if parts.len() == 1 {
        assert(parts.drop_last() =~= Seq::<Seq<u8>>::empty());
        assert(parts.drop_first() =~= Seq::<Seq<u8>>::empty());
        assert(concat_bytes(parts) =~= parts[0] + concat_bytes(parts.drop_first()));
    } else {
        lemma_concat_first(parts.drop_last());
        assert(parts.drop_last().drop_first() =~= parts.drop_first().drop_last());
        assert(parts.drop_first().last() == parts.last());
        assert(concat_bytes(parts) =~= parts[0] + concat_bytes(parts.drop_first()));
    }
}

/// The bytes the field calls append, in order.
pub open spec fn written_bytes(outs: Seq<FieldWrite>) -> Seq<u8> {
    concat_bytes(Seq::new(outs.len(), |k: int| outs[k].bytes@))
}

/// The sum of the lengths that the field calls report written.
pub open spec fn written_length(outs: Seq<FieldWrite>) -> int
    decreases outs.len(),
{
    if outs.len() == 0 {
        0
    } else {
        written_length(outs.drop_last()) + match outs.last().result {
            Ok(n) => n as int,
            Err(_) => 0,
        }
    }
}

/// The first field whose `to_network_order` fails, if any.
pub open spec fn write_failure(outs: Seq<FieldWrite>) -> Option<int> {
    first_index(outs, |o: FieldWrite| o.result is Err)
}

/// How many fields the derived `to_network_order` calls: all of them, or those up
/// to and including the first that fails.
pub open spec fn write_calls(outs: Seq<FieldWrite>) -> int {
    match write_failure(outs) {
        Some(j) => j + 1,
        None => outs.len() as int,
    }
}

/// The first field whose `from_network_order` fails, if any.
pub open spec fn read_failure<T>(outs: Seq<FieldRead<T>>) -> Option<int> {
    first_index(outs, |o: FieldRead<T>| o.result is Err)
}

/// How many fields the derived `from_network_order` calls: all of them, or those
/// up to and including the first that fails.
pub open spec fn read_calls<T>(outs: Seq<FieldRead<T>>) -> int {
    match read_failure(outs) {
        Some(j) => j + 1,
        None => outs.len() as int,
    }
}

/// Written lengths add up: a longer run of calls has reported no less.
proof fn lemma_written_length_grows(outs: Seq<FieldWrite>, a: int, b: int)
    requires
        0 <= a <= b <= outs.len(),
    ensures
        written_length(outs.take(a)) <= written_length(outs.take(b)),
    decreases b - a,
{
    if a < b {
        assert(outs.take(b).drop_last() =~= outs.take(b - 1));
        lemma_written_length_grows(outs, a, b - 1);
    }
}

impl StructFieldsImpl {
    /// What the derived `to_network_order` does, given what each field's own call
    /// would do: it calls the fields in declaration order, adding up the lengths
    /// they report, and stops at the first that fails. The bytes appended by the
    /// calls it made stay in `buffer`, and it returns the sum of the lengths or the
    /// first failure.
    ///
    /// The derived code adds in a `usize`, so the lengths of the calls made must
    /// add up to one.
    pub fn write_fields(&self, buffer: &mut Vec<u8>, outs: &Vec<FieldWrite>) -> (r: Result<usize, NetworkError>)
        requires
            outs@.len() == self.fields@.len(),
            written_length(outs@.take(write_calls(outs@))) <= usize::MAX,
        ensures
            final(buffer)@ == old(buffer)@ + written_bytes(outs@.take(write_calls(outs@))),
            match write_failure(outs@) {
                Some(j) => r == outs@[j].result,
                None => r == Ok::<usize, NetworkError>(written_length(outs@) as usize),
            },
    {
        proof {
            lemma_first_index(outs@, |o: FieldWrite| o.result is Err);
        }
        let ghost calls = write_calls(outs@);
        let mut length: usize = 0;
        let mut i: usize = 0;
        assert(outs@.take(0) =~= Seq::<FieldWrite>::empty());
        assert(Seq::new(0, |k: int| outs@.take(0)[k].bytes@) =~= Seq::<Seq<u8>>::empty());
        while i < outs.len()
            invariant
                i <= outs@.len(),
                calls == write_calls(outs@),
                i <= calls,
                written_length(outs@.take(calls)) <= usize::MAX,
                forall|k: int| 0 <= k < i ==> (#[trigger] outs@[k]).result is Ok,
                buffer@ == old(buffer)@ + written_bytes(outs@.take(i as int)),
                length == written_length(outs@.take(i as int)),
                write_failure(outs@) matches Some(j) ==> {
                    &&& 0 <= j < outs@.len()
                    &&& outs@[j].result is Err
                    &&& forall|k: int| 0 <= k < j ==> !((#[trigger] outs@[k]).result is Err)
                },
                write_failure(outs@) is None ==> forall|k: int|
                    0 <= k < outs@.len() ==> !((#[trigger] outs@[k]).result is Err),
            decreases outs@.len() - i,
        {
            let ghost before = outs@.take(i as int);
            let ghost after = outs@.take(i + 1);
            assert(after.drop_last() =~= before);
            assert(Seq::new(after.len(), |k: int| after[k].bytes@).drop_last() =~= Seq::new(
                before.len(),
                |k: int| before[k].bytes@,
            ));
            let out = &outs[i];
            let mut b: usize = 0;
            let ghost start = buffer@;
            while b < out.bytes.len()
                invariant
                    b <= out.bytes@.len(),
                    buffer@ == start + out.bytes@.take(b as int),
                decreases out.bytes@.len() - b,
            {
                buffer.push(out.bytes[b]);
                assert(out.bytes@.take(b + 1) =~= out.bytes@.take(b as int).push(out.bytes@[b as int]));
                b = b + 1;
            }
            assert(out.bytes@.take(b as int) =~= out.bytes@);
            assert(buffer@ =~= old(buffer)@ + written_bytes(after));
            match out.result {
                Ok(n) => {
                    proof {
                        if i + 1 > calls {
                            assert(write_failure(outs@) matches Some(j) && j == i);
                        }
                        lemma_written_length_grows(outs@, i + 1, calls);
                    }
                    length = length + n;
                },
                Err(e) => {
                    assert(write_failure(outs@) == Some(i as int)) by {
                        if let Some(j) = write_failure(outs@) {
                            if j < i {
                                assert(outs@[j].result is Ok);
                            } else if j > i {
                                assert(!(outs@[i as int].result is Err));
                            }
                        } else {
                            assert(!(outs@[i as int].result is Err));
                        }
                    }
                    return Err(e);
                },
            }
            i = i + 1;
        }
        assert(outs@.take(i as int) =~= outs@);
        assert(write_failure(outs@) is None) by {
            if let Some(j) = write_failure(outs@) {
                assert(outs@[j].result is Ok);
            }
        }
        Ok(length)
    }

    /// What the derived `from_network_order` does, given what each field's own
    /// call would do: it calls the fields in declaration order and stops at the
    /// first that fails. The fields it called hold what their calls left in them,
    /// the others keep their values, and it returns the first failure or success.
    pub fn read_fields<T: Copy>(&self, values: &mut Vec<T>, outs: &Vec<FieldRead<T>>) -> (r: Result<(), NetworkError>)
        requires
            old(values)@.len() == self.fields@.len(),
            outs@.len() == self.fields@.len(),
        ensures
            final(values)@.len() == old(values)@.len(),
            forall|k: int|
                0 <= k < old(values)@.len() ==> #[trigger] final(values)@[k] == if k < read_calls(outs@) {
                    outs@[k].value
                } else {
                    old(values)@[k]
                },
            match read_failure(outs@) {
                Some(j) => r == outs@[j].result,
                None => r == Ok::<(), NetworkError>(()),
            },
    {
        proof {
            lemma_first_index(outs@, |o: FieldRead<T>| o.result is Err);
        }
        let ghost calls = read_calls(outs@);
        let mut i: usize = 0;
        while i < outs.len()
            invariant
                i <= outs@.len(),
                outs@.len() == old(values)@.len(),
                calls == read_calls(outs@),
                i <= calls,
                values@.len() == old(values)@.len(),
                forall|k: int| 0 <= k < i ==> (#[trigger] outs@[k]).result is Ok,
                forall|k: int|
                    0 <= k < values@.len() ==> #[trigger] values@[k] == if k < i {
                        outs@[k].value
                    } else {
                        old(values)@[k]
                    },
                read_failure(outs@) matches Some(j) ==> {
                    &&& 0 <= j < outs@.len()
                    &&& outs@[j].result is Err
                    &&& forall|k: int| 0 <= k < j ==> !((#[trigger] outs@[k]).result is Err)
                },
                read_failure(outs@) is None ==> forall|k: int|
                    0 <= k < outs@.len() ==> !((#[trigger] outs@[k]).result is Err),
            decreases outs@.len() - i,
        {
            let v = outs[i].value;
            values.set(i, v);
            match outs[i].result {
                Ok(()) => {
                    proof {
                        if i + 1 > calls {
                            assert(read_failure(outs@) matches Some(j) && j == i);
                        }
                    }
                },
                Err(e) => {
                    assert(read_failure(outs@) == Some(i as int)) by {
                        if let Some(j) = read_failure(outs@) {
                            if j < i {
                                assert(outs@[j].result is Ok);
                            } else if j > i {
                                assert(!(outs@[i as int].result is Err));
                            }
                        } else {
                            assert(!(outs@[i as int].result is Err));
                        }
                    }
                    return Err(e);
                },
            }
            i = i + 1;
        }
        assert(read_failure(outs@) is None) by {
            if let Some(j) = read_failure(outs@) {
                assert(outs@[j].result is Ok);
            }
        }
        Ok(())
    }
}

/// The fields' encodings, joined in declaration order: what the derived
/// `to_network_order` writes when each field writes `enc` of its value.
pub open spec fn encode_fields<T>(enc: spec_fn(T) -> Seq<u8>, s: Seq<T>) -> Seq<u8> {
    concat_bytes(Seq::new(s.len(), |k: int| enc(s[k])))
}

/// Reading `n` fields one after the other from `bytes`, each with `dec`, which
/// gives a field's value and how many bytes it used: the values and the bytes
/// used in all, or nothing if a read fails.
pub open spec fn decode_fields<T>(dec: spec_fn(Seq<u8>) -> Option<(T, nat)>, bytes: Seq<u8>, n: nat) -> Option<(Seq<T>, nat)>
    decreases n,
{
    if n == 0 {
        Some((Seq::empty(), 0))
    } else {
        match dec(bytes) {
            None => None,
            Some((v, k)) => if k <= bytes.len() {
                match decode_fields(dec, bytes.skip(k as int), (n - 1) as nat) {
                    Some((vs, m)) => Some((seq![v] + vs, k + m)),
                    None => None,
                }
            } else {
                None
            },
        }
    }
}

/// When every field reads back what it wrote, using exactly its own bytes, a
/// struct reads back what it wrote, using exactly those bytes, whatever follows.
pub proof fn law_struct_roundtrip<T>(
    enc: spec_fn(T) -> Seq<u8>,
    dec: spec_fn(Seq<u8>) -> Option<(T, nat)>,
    s: Seq<T>,
    rest: Seq<u8>,
)
    requires
        forall|v: T, r: Seq<u8>| #[trigger] dec(enc(v) + r) == Some((v, enc(v).len())),
    ensures
        decode_fields(dec, encode_fields(enc, s) + rest, s.len()) == Some((s, encode_fields(enc, s).len())),
    decreases s.len(),
{
    let parts = Seq::new(s.len(), |k: int| enc(s[k]));
    if s.len() == 0 {
        assert(parts =~= Seq::<Seq<u8>>::empty());
        assert(s =~= Seq::<T>::empty());
    } else {
        let tail = s.drop_first();
        lemma_concat_first(parts);
        assert(parts.drop_first() =~= Seq::new(tail.len(), |k: int| enc(tail[k])));
        law_struct_roundtrip(enc, dec, tail, rest);
        let bytes = encode_fields(enc, s) + rest;
        let et = encode_fields(enc, tail);
        assert(bytes =~= enc(s[0]) + (et + rest));
        assert(dec(bytes) == Some((s[0], enc(s[0]).len())));
        assert(bytes.skip(enc(s[0]).len() as int) =~= et + rest);
        assert(seq![s[0]] + tail =~= s);
    }
}

/// When every call succeeds, the lengths reported add up to the bytes written, if
/// each call reports the number of bytes it appended.
proof fn lemma_written_length_is_len(outs: Seq<FieldWrite>)
    requires
        forall|k: int| 0 <= k < outs.len() ==> (#[trigger] outs[k]).bytes@.len() <= usize::MAX,
        forall|k: int| 0 <= k < outs.len() ==> (#[trigger] outs[k]).result == Ok::<usize, NetworkError>(
            outs[k].bytes@.len() as usize,
        ),
    ensures
        written_length(outs) == written_bytes(outs).len(),
    decreases outs.len(),
{
    if outs.len() > 0 {
        let prev = outs.drop_last();
        lemma_written_length_is_len(prev);
        let parts = Seq::new(outs.len(), |k: int| outs[k].bytes@);
        assert(parts.drop_last() =~= Seq::new(prev.len(), |k: int| prev[k].bytes@));
        assert(outs.last() == outs[outs.len() - 1]);
        assert(parts.last() == outs.last().bytes@);
        assert(written_bytes(outs) == written_bytes(prev) + outs.last().bytes@);
        assert(outs.last().result == Ok::<usize, NetworkError>(outs.last().bytes@.len() as usize));
    }
}

/// When each field's `to_network_order` appends `enc` of its value and reports its
/// length, the derived `to_network_order` calls every field, writes the fields'
/// encodings joined in declaration order, and reports their total length.
pub proof fn law_struct_write_encodes<T>(enc: spec_fn(T) -> Seq<u8>, s: Seq<T>, outs: Seq<FieldWrite>)
    requires
        outs.len() == s.len(),
        forall|k: int|
            0 <= k < s.len() ==> {
                &&& (#[trigger] outs[k]).bytes@ == enc(s[k])
                &&& enc(s[k]).len() <= usize::MAX
                &&& outs[k].result == Ok::<usize, NetworkError>(enc(s[k]).len() as usize)
            },
    ensures
        write_failure(outs) is None,
        write_calls(outs) == s.len(),
        written_bytes(outs.take(write_calls(outs))) == encode_fields(enc, s),
        written_length(outs) == encode_fields(enc, s).len(),
{
    lemma_first_index_none(outs, |o: FieldWrite| o.result is Err);
    assert(outs.take(outs.len() as int) =~= outs);
    assert(Seq::new(outs.len(), |k: int| outs[k].bytes@) =~= Seq::new(s.len(), |k: int| enc(s[k])));
    lemma_written_length_is_len(outs);
}

/// When the fields are read back one after the other from what the derived
/// `to_network_order` wrote, each field reading back its own value, the derived
/// `from_network_order` calls every field and, whatever the struct held before,
/// leaves it holding exactly the values written; the fields use exactly the bytes
/// written.
pub proof fn law_struct_read_decodes<T>(
    enc: spec_fn(T) -> Seq<u8>,
    dec: spec_fn(Seq<u8>) -> Option<(T, nat)>,
    s: Seq<T>,
    rest: Seq<u8>,
    outs: Seq<FieldRead<T>>,
)
    requires
        forall|v: T, r: Seq<u8>| #[trigger] dec(enc(v) + r) == Some((v, enc(v).len())),
        outs.len() == s.len(),
        decode_fields(dec, encode_fields(enc, s) + rest, s.len()) matches Some((vs, _)) && forall|k: int|
            0 <= k < s.len() ==> (#[trigger] outs[k]).value == vs[k] && outs[k].result is Ok,
    ensures
        decode_fields(dec, encode_fields(enc, s) + rest, s.len()) == Some((s, encode_fields(enc, s).len())),
        read_failure(outs) is None,
        read_calls(outs) == s.len(),
        forall|k: int| 0 <= k < s.len() ==> (#[trigger] outs[k]).value == s[k],
{
    law_struct_roundtrip(enc, dec, s, rest);
    lemma_first_index_none(outs, |o: FieldRead<T>| o.result is Err);
}

/// A derived struct implementation reaches the fields in declaration order: the
/// `i`-th access of a struct with named fields is `self.names[i]`, and that of a
/// tuple struct is `self.i`.
pub proof fn law_struct_fields_in_order(imp: StructFieldsImpl, name: Seq<char>, ds: Fields)
    requires
        struct_impl_of(imp, name, ds),
    ensures
        ds matches Fields::Named(names) ==> imp.fields@.len() == names@.len() && forall|i: int|
            0 <= i < names@.len() ==> (#[trigger] imp.fields@[i] matches FieldAccess::Named(n) && n@
                == names@[i]@),
        ds matches Fields::Unnamed(n) ==> imp.fields@.len() == n && forall|i: int|
            0 <= i < n ==> (#[trigger] imp.fields@[i] matches FieldAccess::Index(k) && k == i),
        ds is Unit ==> imp.fields@.len() == 0,
{
}

/// Builds the network implementations of structs.
pub struct StructDeriveBuilder;

impl StructDeriveBuilder {
    /// How each field is reached, in declaration order.
    fn field_accesses(ds: &Fields) -> (r: Vec<FieldAccess>)
        ensures
            r@.len() == field_count(*ds),
            forall|i: int| 0 <= i < r@.len() ==> is_access(*ds, i, #[trigger] r@[i]),
    {
        let mut r: Vec<FieldAccess> = Vec::new();
        match ds {
            Fields::Named(names) => {
                let mut i: usize = 0;
                while i < names.len()
                    invariant
                        *ds == Fields::Named(*names),
                        i <= names@.len(),
                        r@.len() == i,
                        forall|j: int| 0 <= j < i ==> is_access(*ds, j, #[trigger] r@[j]),
                    decreases names@.len() - i,
                {
                    r.push(FieldAccess::Named(names[i].clone()));
                    i = i + 1;
                }
            },
            Fields::Unnamed(n) => {
                let mut i: usize = 0;
                while i < *n
                    invariant
                        *ds == Fields::Unnamed(*n),
                        i <= *n,
                        r@.len() == i,
                        forall|j: int| 0 <= j < i ==> is_access(*ds, j, #[trigger] r@[j]),
                    decreases *n - i,
                {
                    r.push(FieldAccess::Index(i));
                    i = i + 1;
                }
            },
            Fields::Unit => {},
        }
        r
    }

    /// Nothing for a unit struct, else every field in declaration order.
    fn build(ast: &DeriveInput, ds: &Fields) -> (r: Option<StructFieldsImpl>)
        ensures
            *ds is Unit <==> r is None,
            r matches Some(imp) ==> struct_impl_of(imp, ast.ident@, *ds),
    {
        if Self::is_unit(ds) {
            return None;
        }
        Some(StructFieldsImpl { struct_name: ast.ident.clone(), fields: Self::field_accesses(ds) })
    }

    /// The struct has no fields at all (`struct S;`).
    pub fn is_unit(ds: &Fields) -> (r: bool)
        ensures
            r == (*ds is Unit),
    {
        match ds {
            Fields::Unit => true,
            _ => false,
        }
    }

    /// Derives `ToNetworkOrder` for the struct `ast` with fields `ds`: nothing for
    /// a unit struct, else every field written in declaration order.
    pub fn to_network(ast: &DeriveInput, ds: &Fields) -> (r: Option<StructFieldsImpl>)
        ensures
            *ds is Unit <==> r is None,
            r matches Some(imp) ==> struct_impl_of(imp, ast.ident@, *ds),
    {
        Self::build(ast, ds)
    }

    /// Derives `FromNetworkOrder` for the struct `ast` with fields `ds`: nothing
    /// for a unit struct, else every field read in declaration order.
    pub fn from_network(ast: &DeriveInput, ds: &Fields) -> (r: Option<StructFieldsImpl>)
        ensures
            *ds is Unit <==> r is None,
            r matches Some(imp) ==> struct_impl_of(imp, ast.ident@, *ds),
    {
        Self::build(ast, ds)
    }
}

} // verus!
