//! Control messages and packet framing for a 16-board ADC / SNAP2 correlator
//! front end: the byte layout of every message, the Ethernet frames that
//! carry them, the command sequences that configure the boards, and the
//! reassembly of uploaded FFT data.

pub mod utils;
pub mod msg;
pub mod net;
pub mod fft;
pub mod board_cfg;
