//! A line protocol for a small bank: sessions and the commands they take.

pub mod manager;
