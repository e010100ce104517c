//! Locates known visual landmarks inside a captured screen and turns a
//! confident match into a screen area that can be tapped.
//!
//! A screen is cut down to a named region, normalised for matching and
//! searched for a reference template; a confident match becomes an absolute
//! bounding box, and the decision loop turns the first match of a cycle into
//! taps and a wait.
//!
//! * [`bitmap`]: colour and grayscale pixel buffers, and decoding.
//! * [`assets`]: preprocessing and the preprocessed reference templates.
//! * [`ui`]: points, surfaces and the region masks.
//! * [`score`]: match scores and the inclusive threshold comparison.
//! * [`matcher`]: the correlation scan and the match decision.
//! * [`decision`]: one polling cycle, from a screen to taps and a wait.
//! * [`retention`]: which stored snapshots leave when the store is full.
//!
//! Decoding, luminance, thresholding, correlation and random numbers come
//! from the `image`, `imageproc` and `rand` crates. Each call stands in one
//! small function whose contract is taken on trust and says so; everything
//! around these calls is verified.

pub mod assets;
pub mod bitmap;
pub mod decision;
pub mod matcher;
pub mod retention;
pub mod score;
pub mod ui;
