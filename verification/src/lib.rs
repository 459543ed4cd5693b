//! Connection monitoring core: packet decoding, protocol detection, HTTP
//! request parsing, connection tracking, storage encodings and the state of
//! the terminal interface, each with its contract proved by Verus.
#![allow(unused_imports)]

pub mod net;
pub mod text;
pub mod clock;
pub mod model;
pub mod analysis;
pub mod packet;
pub mod config;
pub mod capture;
pub mod storage;
pub mod nmap;
pub mod tui;
