//! The logic of a music player: a library, its listener's devices and the peers
//! that publish to it.
//!
//! [`catalog`] and [`queue`] are what is played, [`api`] and [`application`] what
//! a window shows and does. The actor ([`actor`] and the modules named after it)
//! decides what the backend does; it says so in actions, which the program
//! around it performs, and hears of the outcome in events. [`engine`] does the
//! same for the sound device, [`settings`] for the settings, and [`device_store`]
//! with [`device_snapshot`] and [`device_pairing`] for the listener's devices.
//! [`federation`], [`federation_similarity`], [`artwork`], [`streaming`] and
//! [`publishing`] deal with peers, [`merge`] and [`library`] with what is known
//! here. [`view`], [`window`] and the modules beside them say what is shown.
//!
//! Every function states what it does over the models of its types: each type
//! has a view that replaces its strings and vectors by sequences. What holds of
//! several functions together stands in public proof functions beside them, and
//! in [`actor_laws`], [`device_laws`], [`device_convergence`] and
//! [`device_takeover`].
use vstd::prelude::*;

pub mod actor;
pub mod actor_devices;
pub mod actor_dispatch;
pub mod actor_laws;
pub mod actor_library;
pub mod actor_playback;
pub mod actor_search;
pub mod actor_start;
pub mod api;
pub mod application;
pub mod artwork;
pub mod build_info;
pub mod catalog;
mod clock;
pub mod codes;
pub mod control_laws;
pub mod device_convergence;
pub mod device_laws;
pub mod device_pairing;
pub mod device_records;
pub mod device_snapshot;
pub mod device_store;
pub mod device_takeover;
pub mod engine;
pub mod federation;
pub mod federation_similarity;
pub mod find;
pub mod hex;
pub mod library;
pub mod library_laws;
pub mod lockfile;
pub mod lookup;
pub mod media;
pub mod merge;
pub mod merge_laws;
pub mod names;
pub mod pictures;
pub mod playback_laws;
pub mod publishing;
pub mod queue;
pub mod registers;
pub mod search_laws;
pub mod settings;
pub mod similarity;
pub mod sort;
pub mod streaming;
pub mod sync_laws;
pub mod sync_ops;
pub mod text;
pub mod ui_events;
pub mod view;
pub mod view_catalog;
pub mod view_keys;
pub mod view_labels;
pub mod view_selection;
pub mod views;
pub mod window;
pub mod wire;

verus! {

} // verus!
