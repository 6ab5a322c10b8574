//! Codec for the fixed DNS message header and for question records
//! (RFC 1035, sections 4.1.1 and 4.1.2).
pub mod bits;
pub mod error;
pub mod header;
pub mod dns;
pub mod question;
pub mod record_type;
