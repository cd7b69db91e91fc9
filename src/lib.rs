//! Microphone activity detection: the peak amplitude of each captured audio
//! buffer drives a threshold detector with a hold time, whose transitions are
//! handed to every registered consumer.
pub mod amplitude;
pub mod capture;
pub mod consumers;
pub mod detector;
pub mod event;
pub mod fanout;
