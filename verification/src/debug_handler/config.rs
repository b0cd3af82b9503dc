//! The settings the debug handler needs before it can start a session.
use vstd::prelude::*;
use crate::config::{missing_config_string, missing_config_text};

verus! {

/// The settings of a debugging session.
pub struct Config {
    pub binary: Option<String>,
    pub chip: Option<String>,
    pub probe_num: usize,
    /// The directory that relative source paths are taken from.
    pub cwd: Option<String>,
}

impl Config {
    /// The settings at start: the binary given on the command line, the chip
    /// `STM32F411RETx` and probe 0.
    pub fn new(file_path: Option<String>) -> (c: Config)
        ensures
            c.binary == file_path,
            c.chip matches Some(chip) && chip@ == "STM32F411RETx"@,
            c.probe_num == 0,
            c.cwd is None,
    {
        Config {
            binary: file_path,
            chip: Some("STM32F411RETx".to_owned()),
            probe_num: 0,
            cwd: None,
        }
    }

    /// Whether the binary or the chip is not set.
    pub fn is_missing_config(&self) -> (r: bool)
        ensures
            r == (self.binary is None || self.chip is None),
    {
        self.binary.is_none() || self.chip.is_none()
    }

    /// The message that lists what is missing.
    pub fn missing_config_message(&self) -> (s: String)
        ensures
            s@ == missing_config_text(self.binary is None, self.chip is None),
    {
        missing_config_string(self.binary.is_none(), self.chip.is_none())
    }
}

} // verus!
