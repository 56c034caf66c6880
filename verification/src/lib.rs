//! Runs learners' submissions and judges what they printed.

pub mod contract;
pub mod display_laws;
pub mod docker;
pub mod encoding;
pub mod encoding_laws;
pub mod execute;
pub mod fixtures;
pub mod framing;
pub mod judging_laws;
pub mod language;
pub mod laws;
pub mod report_laws;
pub mod runner;
pub mod sandbox;
pub mod script_laws;
pub mod service_laws;
pub mod text;
pub mod text_laws;
