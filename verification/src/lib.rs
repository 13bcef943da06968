//! The decisions of BigSound, a system-wide audio enhancement that runs as a
//! filter chain in PipeWire.
//!
//! BigSound is a chain of five audio modules, a daemon that tunes them live and
//! applies a profile per output device, and clients for the terminal and the
//! desktop. This library holds what those programs decide and compute, with
//! contracts that Verus proves from what the doc comments of the few outside
//! calls take for granted: the table of parameters, the
//! state of the daemon and its requests, its background rounds, what is read
//! from and handed to the PipeWire tools, the settings of the plugins, the delay
//! line of the crossfeed, and what the clients show. Running the tools, files,
//! the bus, and the floating-point arithmetic of the audio modules are left to
//! the caller.
//!
//! - [`text`], [`strmap`], [`json`], [`value`], [`paths`]: strings, maps, JSON
//!   documents, bit patterns of floating-point numbers, and paths.
//! - [`params`], [`controls`], [`profile`]: the parameters, the pushes that carry
//!   their values, and the profiles.
//! - [`pipewire`], [`push`], [`routing`]: the PipeWire tools, one push with its
//!   retry, and the choice of the output.
//! - [`service`], [`background`]: the state of the daemon, and its rounds.
//! - [`ladspa`], [`ring`], [`frames`], [`wav`]: the plugins and the offline
//!   processor.
//! - [`ui`], [`cli`]: the clients.
//!
//! A function named `law_..` states what holds of several functions together.

pub mod background;
pub mod cli;
pub mod controls;
pub mod frames;
pub mod json;
pub mod ladspa;
pub mod params;
pub mod paths;
pub mod pipewire;
pub mod profile;
pub mod push;
pub mod ring;
pub mod routing;
pub mod service;
pub mod strmap;
pub mod text;
pub mod ui;
pub mod value;
pub mod wav;
