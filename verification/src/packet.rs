pub mod arp;
pub mod checksum;
pub mod error;
pub mod ethernet;
pub mod icmp;
pub mod ip_protocol;
pub mod ipv4;
pub mod wire;
