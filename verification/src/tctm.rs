//! TeleCommand (TC) and Telemetry (TM) Transfer Frame definitions and
//! codecs, and the CLTU and randomization machinery built on them.
pub mod cltu;
pub mod randomizer;
pub mod tc;
pub mod tm;
