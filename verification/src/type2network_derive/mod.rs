use vstd::prelude::*;
use crate::model::{discriminants, discriminants_fit, Data, DeriveInput};
use crate::derive_enum::{all_unit, all_unit_variants};
use crate::repr::{repr_size, repr_sizes_ok, repr_sizes_supported, spec_repr_size, ReprSize};

pub mod enum_builder;
pub mod struct_builder;

use enum_builder::{enum_impl_of, EnumDeriveBuilder, EnumNetworkImpl};
use struct_builder::{struct_impl_of, StructDeriveBuilder, StructFieldsImpl};

verus! {

/// A derived network implementation: for an enum, or for a struct (none for a
/// unit struct).
#[derive(Debug)]
pub enum NetworkImpl {
    Enum(EnumNetworkImpl),
    Struct(Option<StructFieldsImpl>),
}

/// Which trait is derived.
#[derive(Debug, Clone, Copy, PartialEq, Eq, Structural)]
pub enum Direction {
    /// `ToNetworkOrder`: write a value in network order.
    ToNetwork,
    /// `FromNetworkOrder`: read a value in network order.
    FromNetwork,
}

/// The item can be given a derived network implementation in `direction`: it is
/// a struct, or a C-style enum whose `#[repr(..)]` sizes are `u8` or `u16`, whose
/// discriminants fit an `i64`, and, to be written, whose representation is `u16`.
/// The derives refuse, by panicking, unions and other representations; the code
/// they derive for other enums does not compile.
pub open spec fn network_derivable(ast: DeriveInput, direction: Direction) -> bool {
    match ast.data {
        Data::Enum(vs) => {
            &&& repr_sizes_supported(ast.attrs@)
            &&& discriminants_fit(vs@)
            &&& all_unit(vs@)
            &&& direction == Direction::ToNetwork ==> spec_repr_size(ast.attrs@) == ReprSize::U16
        },
        Data::Struct(_) => true,
        Data::Union => false,
    }
}

/// Whether the item can be given a derived network implementation in
/// `direction`, as the network derives require.
pub fn network_supported(ast: &DeriveInput, direction: Direction) -> (r: bool)
    ensures
        r == network_derivable(*ast, direction),
{
    match &ast.data {
        Data::Enum(variants) => {
            if !(repr_sizes_ok(&ast.attrs) && discriminants(variants).is_some() && all_unit_variants(variants)) {
                return false;
            }
            match direction {
                Direction::ToNetwork => match repr_size(&ast.attrs) {
                    ReprSize::U16 => true,
                    ReprSize::U8 => false,
                },
                Direction::FromNetwork => true,
            }
        },
        Data::Struct(_) => true,
        Data::Union => false,
    }
}

/// `r` is what deriving a network implementation for `ast` gives: the enum
/// implementation for an enum, the struct implementation for a struct (none for
/// a unit struct).
pub open spec fn network_derive_result(ast: DeriveInput, r: NetworkImpl) -> bool {
    match ast.data {
        Data::Enum(vs) => r matches NetworkImpl::Enum(imp) && enum_impl_of(imp, ast.ident@, spec_repr_size(ast.attrs@), vs@),
        Data::Struct(ds) => if ds is Unit {
            r matches NetworkImpl::Struct(None)
        } else {
            r matches NetworkImpl::Struct(Some(imp)) && struct_impl_of(imp, ast.ident@, ds)
        },
        Data::Union => false,
    }
}

/// Hands `ast` to the enum builder or the struct builder of `direction`.
pub fn derive_helper(ast: &DeriveInput, direction: Direction) -> (r: NetworkImpl)
    requires
        network_derivable(*ast, direction),
    ensures
        network_derive_result(*ast, r),
{
    match &ast.data {
        Data::Enum(de) => {
            let built = match direction {
                Direction::ToNetwork => EnumDeriveBuilder::to_network(ast, de),
                Direction::FromNetwork => EnumDeriveBuilder::from_network(ast, de),
            };
            NetworkImpl::Enum(built)
        },
        Data::Struct(ds) => {
            let built = match direction {
                Direction::ToNetwork => StructDeriveBuilder::to_network(ast, ds),
                Direction::FromNetwork => StructDeriveBuilder::from_network(ast, ds),
            };
            NetworkImpl::Struct(built)
        },
        Data::Union => {
            proof {
                assert(false);
            }
            NetworkImpl::Struct(None)
        },
    }
}

/// Derives `ToNetworkOrder` for a struct or an enum.
pub fn to_network(ast: &DeriveInput) -> (r: NetworkImpl)
    requires
        network_derivable(*ast, Direction::ToNetwork),
    ensures
        network_derive_result(*ast, r),
{
    derive_helper(ast, Direction::ToNetwork)
}

/// Derives `FromNetworkOrder` for a struct or an enum.
pub fn from_network(ast: &DeriveInput) -> (r: NetworkImpl)
    requires
        network_derivable(*ast, Direction::FromNetwork),
    ensures
        network_derive_result(*ast, r),
{
    derive_helper(ast, Direction::FromNetwork)
}

} // verus!
