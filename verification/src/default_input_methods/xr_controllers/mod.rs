//! Controllers of an XR runtime as input methods.

pub mod interaction_profiles;
