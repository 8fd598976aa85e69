//! Sandhi-aware splitting of transliterated Sanskrit text, and the
//! standardization of corpus morphological tags.
pub mod dcs;
pub mod rules;
pub mod splitter;
