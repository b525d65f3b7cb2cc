//! Audio devices.

pub mod intel_hda;
