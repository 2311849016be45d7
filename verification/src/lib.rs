//! A small network toolkit whose verified core is an ICMP echo ("ping")
//! packet codec and probe bookkeeping: building Echo Request datagrams
//! with their RFC 1071 Internet checksum, classifying inbound datagrams
//! as Echo Replies, and turning per-probe transport outcomes into
//! per-probe reports.

pub mod checksum;
pub mod commandline;
pub mod ping;
