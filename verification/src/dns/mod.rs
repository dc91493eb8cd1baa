//! A codec for DNS packets.

pub mod packet;
