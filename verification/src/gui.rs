//! The window of the viewer: what it shows, and what its keys do.
//!
//! The window itself, the decoding threads and the playback threads are outside.
//! They are driven by the state kept here: a playback thread runs for
//! [`window::GuiApp::active_video`] and obeys its controls, and what else is to
//! be done comes back as [`window::GuiEffect`]s and [`window::DecodeRequest`]s.

pub mod browsing;
pub mod drawing;
pub mod events;
pub mod keys;
pub mod launch;
pub mod laws;
pub mod live;
pub mod playback;
pub mod schedule;
pub mod textures;
pub mod window;
pub mod work;
