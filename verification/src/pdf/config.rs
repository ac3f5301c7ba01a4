//! The configuration of the PDF renderer.

use crate::config::{Config, FileIds, SharedConfig};
use vstd::prelude::*;

verus! {

/// The settings of the PDF renderer. A file is identified by a UUID, given
/// by its 128-bit value.
#[derive(Debug, Clone, PartialEq, Eq)]
pub struct PdfConfig {
    pub base: SharedConfig,
    pub file_ids: FileIds<u128>,
}

impl Config for PdfConfig {
    open spec fn shared_settings(&self) -> SharedConfig {
        self.base
    }

    fn shared(&self) -> (settings: &SharedConfig) {
        &self.base
    }
}

impl Default for PdfConfig {
    fn default() -> (config: PdfConfig)
        ensures
            config.base.output is None,
            config.base.always_include@.len() == 0,
            !config.base.save_temps,
            config.base.output_files.full is None,
            config.base.output_files.individual_files@.len() == 0,
            config.file_ids.full is None,
            config.file_ids.individual_files@.len() == 0,
    {
        PdfConfig { base: SharedConfig::default(), file_ids: FileIds::default() }
    }
}

} // verus!
