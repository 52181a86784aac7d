//! Morse code flashing: an encoder from bytes to Morse symbols, a bounded
//! symbol queue between producers and the flasher, and the flasher's timing
//! engine, which turns each symbol into absolute pin deadlines.

pub mod flasher;
pub mod morse;
pub mod queue;
