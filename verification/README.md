# dnslib

Verified building blocks of a DNS library: the functions of `src/` carry contracts proved against their code.

- `src/` is the verified library:
  - `model.rs`: the item a derive is applied to (name, attributes, struct
    fields or enum variants) and the discriminants of enum variants;
  - `repr.rs`: the representation size read from `#[repr(..)]`;
  - `derive_enum.rs`: what `#[derive(FromStr)]` and `#[derive(TryFrom)]`
    generate for a C-style enum, and how the generated functions behave;
  - `type2network_derive/`: what `#[derive(ToNetwork)]` and
    `#[derive(FromNetwork)]` generate for enums and structs, and how the
    generated code reads and writes;
  - `network.rs`: big-endian reading and writing through `byteorder`;
  - `rfc1035/qclass.rs`: the `QClass` of RFC 1035 and proofs that it behaves
    as the derives say;
  - `win.rs`: the steps of listing the DNS servers of the Windows adapters.
- `app/` parses items with `syn`, writes the generated code with `quote`,
  holds the error type of DNS queries and the Windows adapter walk.
- `tests/` exercises the library on concrete values.
