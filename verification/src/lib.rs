//! A playback tool for scenes of simple shapes: the line protocol that
//! describes a scene, the timeline that is built from it, and the planning of
//! its export.
//!
//! * [`text`], [`number`] and [`parse`] read the characters, numbers and
//!   parameters of a protocol line.
//! * [`figure`] holds the shapes and reads each from its line.
//! * [`scene`] reads a whole input into figures, frames and scene parameters,
//!   with [`tags`] for the visibility of tagged figures; [`timeline`] states
//!   what holds of every scene that was read.
//! * [`in_between`] says which keyframes are blended, and at which factors.
//! * [`vector`] paints a frame into a vector document; [`export`] plans the
//!   conversion of many frames, and [`settings`] holds its settings.
//! * [`playback`] steps through the frames.
//! * [`client`] and [`encode`] write the protocol; [`round_trip`] states that
//!   what was written is read back as it was described.
//!
//! Real quantities are carried as the literals that denote them
//! ([`number::Scalar`]); arithmetic on them is left to the caller.

pub mod alignment;
pub mod app_data;
pub mod client;
pub mod color;
pub mod encode;
pub mod export;
pub mod figure;
pub mod in_between;
pub mod number;
pub mod parse;
pub mod playback;
pub mod round_trip;
pub mod scene;
pub mod settings;
pub mod tags;
pub mod text;
pub mod timeline;
pub mod vector;
