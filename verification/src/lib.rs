//! Verified core of an HDR display settings panel: configuration parsing,
//! EDID capability decoding, connector selection and the panel's update logic.

pub mod pattern;
pub mod text;
pub mod config;
pub mod connector;
pub mod edid;
pub mod panel;
