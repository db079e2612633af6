//! Probes a network path with numbered packets and measures what becomes of them.
//!
//! A sender sends a numbered and timed packet at a steady rate. A receiver works out from the
//! packets of each sender how many were lost and how long each took. A reporter writes what was
//! measured to InfluxDB. Each of the three is a state that takes in events and says what is to be
//! done; sockets, clocks, signals and files are left to the program around them.
pub mod clock;
pub mod config;
pub mod config_laws;
pub mod environment;
pub mod error;
pub mod influx;
pub mod measurement;
pub mod packet;
pub mod receiver;
pub mod receiver_laws;
pub mod receiver_runs;
pub mod reporter;
pub mod sender;
pub mod text;
