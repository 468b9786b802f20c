//! Ranks TLS endpoints by the days left until their certificates expire.
//!
//! The library reads target lists ([`target`]), reads the certificates that servers present
//! ([`certificate`], [`check`]), judges and ranks the findings ([`scan`]), and renders them as a
//! plain report ([`report`]), as a web page ([`web`]) and for a terminal ([`app`], [`layout`]).
//! Sockets, threads, clocks that only run forward and the terminal itself are left to the program.
pub mod app;
pub mod certificate;
pub mod check;
pub mod config;
pub mod layout;
pub mod report;
pub mod scan;
pub mod target;
pub mod text;
pub mod web;
