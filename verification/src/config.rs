//! The settings the command-line debugger needs before it can attach to a
//! target, and the message that lists the missing ones.
use vstd::prelude::*;
use crate::text::append_chars;
use crate::text::str_chars;

verus! {

/// The message that lists the missing settings: the binary file and the chip.
pub open spec fn missing_config_text(binary_missing: bool, chip_missing: bool) -> Seq<char> {
    if !binary_missing && !chip_missing {
        "No required configurations missing"@
    } else {
        "Missing required configurations:"@ + (if binary_missing {
            "\n\tbinary file"@
        } else {
            Seq::empty()
        }) + (if chip_missing {
            "\n\tchip"@
        } else {
            Seq::empty()
        })
    }
}

/// Builds the message of [`missing_config_text`].
pub fn missing_config_string(binary_missing: bool, chip_missing: bool) -> (s: String)
    ensures
        s@ == missing_config_text(binary_missing, chip_missing),
{
    if !binary_missing && !chip_missing {
        return "No required configurations missing".to_owned();
    }
    let mut error = "Missing required configurations:".to_owned();
    let ghost start = error@;
    if binary_missing {
        append_chars(&mut error, &str_chars("\n\tbinary file"));
    } else {
        assert(error@ =~= start + Seq::<char>::empty());
    }
    let ghost middle = error@;
    if chip_missing {
        append_chars(&mut error, &str_chars("\n\tchip"));
    } else {
        assert(error@ =~= middle + Seq::<char>::empty());
    }
    error
}

/// The settings of a debugging session.
pub struct Config {
    pub bin: Option<String>,
    pub chip: Option<String>,
    pub probe_num: u32,
}

impl Config {
    /// The settings at start: the binary given on the command line, no chip
    /// and probe 0.
    pub fn new(file_path: Option<String>) -> (c: Config)
        ensures
            c.bin == file_path,
            c.chip is None,
            c.probe_num == 0,
    {
        Config { bin: file_path, chip: None, probe_num: 0 }
    }

    /// Whether the binary or the chip is not set.
    pub fn is_missing_config(&self) -> (r: bool)
        ensures
            r == (self.bin is None || self.chip is None),
    {
        self.bin.is_none() || self.chip.is_none()
    }

    /// The message that lists what is missing.
    pub fn missing_config(&self) -> (s: String)
        ensures
            s@ == missing_config_text(self.bin is None, self.chip is None),
    {
        missing_config_string(self.bin.is_none(), self.chip.is_none())
    }
}

} // verus!
