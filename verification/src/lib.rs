//! Verified core of a networked thermometer.
//!
//! A DS18B20 is sampled over a one-wire bus; every reading, or the lack of
//! one, is handed to all who subscribed; and once the wireless link is up,
//! the next reading is sent to each TCP client that connects.
//!
//! Nothing in this crate performs input or output. The sensor protocol
//! (`sensor`), the broadcast channel (`distributor`) and the two text
//! formats (`wire`, `readout`) are plain functions and data. The four
//! activities (`acquisition`, `link`, `responder`, `presenter`) are state
//! machines that say what is to be done next and are told how it went, as
//! `protocol` describes; the firmware around them owns the bus, the radio,
//! the sockets, the display and the clock.

pub mod acquisition;
pub mod decimal;
pub mod distributor;
pub mod link;
pub mod presenter;
pub mod protocol;
pub mod readout;
pub mod responder;
pub mod sensor;
pub mod wire;
