//! Background Muter core library.
//!
//! Detects which process owns the foreground window and decides, on every
//! tick, which audio-producing processes must be muted, unmuted, or left
//! alone.  The decision logic, the session cache bookkeeping, the foreground
//! tracker and the process-name resolution rules live here; the operating
//! system calls that feed them (audio session enumeration, mute-control
//! handles, foreground-window queries) are performed by the surrounding
//! application and handed in as plain values.

pub mod audio;
pub mod config;
pub mod muter;
pub mod process;
pub mod text;

pub use audio::AudioManager;
pub use audio::AudioSession;
pub use config::Config;
pub use muter::MuterEngine;
pub use process::ForegroundTracker;
pub use process::ProcessInfo;

