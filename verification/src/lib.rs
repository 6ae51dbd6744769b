//! Byte-accurate duplication of a supervised child process's standard
//! streams: each stream is copied to its normal destination and to a log
//! sink, and the child's exit status decides the program's own exit code.

pub mod fault;
pub mod stream;
pub mod supervise;
