//! DNS building blocks and the derives they are written with.
//!
//! - `model`, `repr`, `derive_enum` and `type2network_derive` decide what the
//!   `FromStr`, `TryFrom`, `ToNetwork` and `FromNetwork` derives generate for an
//!   item, and give the behaviour of the generated code.
//! - `network` reads and writes values in network (big-endian) byte order.
//! - `rfc1035::qclass` is the class of a resource record, with the behaviour the
//!   derives give it.
//! - `win` decides the steps of listing the DNS servers of the Windows network
//!   adapters and builds their addresses.

pub mod derive_enum;
pub mod lookup;
pub mod model;
pub mod network;
pub mod repr;
pub mod rfc1035;
pub mod type2network_derive;
pub mod win;
