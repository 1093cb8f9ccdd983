//! Idle detection, playlist and thumbnail logic of an idle video looper.
//!
//! - `window`: bounded sliding windows with order statistics.
//! - `noise`: the self-calibrating presence detector; `noise_laws` states
//!   what holds of it across ticks.
//! - `text`: whitespace, trimming, tokens and decimal numbers.
//! - `idle`: interpreting and combining the idle-time reporters.
//! - `config`: settings and the video loop; `config_laws` states what the
//!   loop edits keep.
//! - `player`: mpv playlist planning and event interpretation.
//! - `thumbnail`: cached thumbnail lookup and data URLs.
//! - `monitor`: decisions of the idle monitor and the playback commands.
pub mod config;
pub mod config_laws;
pub mod idle;
pub mod monitor;
pub mod noise;
pub mod noise_laws;
pub mod player;
pub mod text;
pub mod thumbnail;
pub mod window;
