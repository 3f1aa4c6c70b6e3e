//! A fixed catalogue of the IP address ranges that networking RFCs reserve,
//! with verified containment queries over single records and over
//! bit-selected subsets of the catalogue.
//!
//! The mathematical model is in [`model`]: a network range contains an
//! address when both agree on the top bits that the prefix length counts.
//! The executable types in [`addr`] and [`net`] hold addresses as unsigned
//! integers; [`rfc`] holds one record, [`catalogue`] the fixed data,
//! [`registry`] the lookup by index, identifier and alias, and [`filter`]
//! and [`subset`] the bit sets that select several records at once.

pub mod addr;
pub mod alias;
pub mod catalogue;
pub mod filter;
pub mod model;
pub mod net;
pub mod prefix;
pub mod registry;
pub mod rfc;
mod sealed;
pub mod subset;

pub use addr::{IpAddr, Ipv4Addr, Ipv6Addr};
pub use catalogue::{
    forwarding_blacklist,
    rfc1112,
    rfc1122,
    rfc1918,
    rfc2544,
    rfc2765,
    rfc2928,
    rfc3056,
    rfc3068,
    rfc3171,
    rfc3330,
    rfc3849,
    rfc3927,
    rfc4038,
    rfc4193,
    rfc4291,
    rfc4380,
    rfc4773,
    rfc4843,
    rfc5180,
    rfc5735,
    rfc5737,
    rfc6052,
    rfc6333,
    rfc6598,
    rfc6666,
    rfc6890,
    rfc7335,
    rfc919,
    FORWARDING_BLACKLIST_ID,
};
pub use filter::Filter;
pub use net::{IpNet, Ipv4Net, Ipv6Net, NetError};
pub use registry::RFCs;
pub use rfc::{Contains, RFC};
pub use subset::Subset;
