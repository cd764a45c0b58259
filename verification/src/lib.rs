//! Encoding and decoding of LDAP v3 protocol messages over BER.
//!
//! [`codec::LdapCodec`] turns the head of a byte buffer into a message and a
//! message into bytes. The messages and what they are made of are in [`proto`],
//! the tree of tagged values that stands between them and the bytes in [`ber`],
//! and [`parse_ldap_filter_str`] reads a search filter from its text form.

pub mod ber;
pub mod codec;
pub mod codes;
pub mod control;
pub mod entry;
pub mod extended;
pub mod field;
pub mod filter;
pub mod filter_text;
pub mod intermediate;
pub mod msg;
pub mod prim;
pub mod proto;
pub mod redact;
pub mod result;
pub mod search;
pub mod sugar;
pub mod wire;

pub use crate::codec::{CodecError, LdapCodec};
pub use crate::filter_text::{parse_ldap_filter_str, LdapFilterError};
