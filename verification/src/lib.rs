//! Verified data plane of a style-transfer pipeline.
//!
//! An image goes in as interleaved RGBA bytes and comes out restyled: it
//! is resized to the resolution of a model, encoded as a planar tensor,
//! run through the model, decoded, resized back and blended over the
//! original. This crate holds every step but the model itself, and the
//! registry and cache that decide which model runs.
//!
//! Real numbers are held as integers. Normalization constants and the
//! blend strength count millionths ([`fixed::UNIT`] is 1.0). A tensor
//! value counts steps of its channel, `255 * |std|` of them to the
//! millionth (see [`codec`]), so that the value of every colour byte is
//! held exactly. Arithmetic is exact; a result is rounded once, where a
//! byte is stored.
//!
//! Nothing here waits or fetches. [`model_cache::ModelCache`] and
//! [`style_transfer::StyleTransferEngine`] are state machines: they say
//! what is to be fetched or run, and are told how it went.

pub mod error;
pub mod fixed;
pub mod blend;
pub mod profile;
pub mod resize;
pub mod codec;
pub mod model_registry;
pub mod model_cache;
pub mod image_utils;
pub mod style_transfer;
