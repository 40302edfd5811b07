//! The settings of a deployment.

use vstd::prelude::*;
use vstd::string::StringExecFns;
use vstd::string::StringSliceAdditionalSpecFns;
use crate::range::{number_written, number_of};

verus! {

/// The port that is served where none is set.
pub const DEFAULT_PORT: u16 = 8080;

/// The most bytes that are read of a resource where no limit is set: 50 MiB.
pub const DEFAULT_MAX_DOWNLOAD_BYTES: u32 = 52_428_800;

/// The most lines that are shown of a text where no limit is set.
pub const DEFAULT_MAX_CODE_LINES: u32 = 25;

/// The settings of a deployment: they are fixed when the service starts and
/// no request changes them.
#[derive(Clone, Debug, PartialEq, Eq)]
pub struct Options {
    pub port: u16,
    /// The address under which the service is reached from outside.
    pub origin: String,
    pub max_download_bytes: u32,
    pub max_code_lines: u32,
}

/// Settings as plain values.
pub struct OptionsView {
    pub port: u16,
    pub origin: Seq<char>,
    pub max_download_bytes: u32,
    pub max_code_lines: u32,
}

impl View for Options {
    type V = OptionsView;

    open spec fn view(&self) -> OptionsView {
        OptionsView {
            port: self.port,
            origin: self.origin@,
            max_download_bytes: self.max_download_bytes,
            max_code_lines: self.max_code_lines,
        }
    }
}

/// The address of a service that runs on this machine at the default port.
pub open spec fn default_origin() -> Seq<char> {
    "http://localhost:8080"@
}

/// The number that a setting gives, or `fallback` where the setting is
/// missing or writes no number.
pub open spec fn setting_or(setting: Option<Seq<u8>>, fallback: u32) -> u32 {
    match setting {
        Some(text) => match number_written(text) {
            Some(n) => n,
            None => fallback,
        },
        None => fallback,
    }
}

/// The port that a setting gives, or the default port where the setting is
/// missing or writes no number that is a port.
pub open spec fn port_or_default(setting: Option<Seq<u8>>) -> u16 {
    match setting {
        Some(text) => match number_written(text) {
            Some(n) => if n <= u16::MAX {
                n as u16
            } else {
                DEFAULT_PORT
            },
            None => DEFAULT_PORT,
        },
        None => DEFAULT_PORT,
    }
}

/// The bytes of a setting, if it is there.
pub open spec fn setting_bytes(setting: Option<&str>) -> Option<Seq<u8>> {
    match setting {
        Some(text) => Some(text.spec_bytes()),
        None => None,
    }
}

/// Reads a number from a setting.
fn number_or(setting: Option<&str>, fallback: u32) -> (n: u32)
    ensures
        n == setting_or(setting_bytes(setting), fallback),
{
    match setting {
        Some(text) => match number_of(text) {
            Some(n) => n,
            None => fallback,
        },
        None => fallback,
    }
}

impl Options {
    /// The settings that the given values ask for. Each value is the text of
    /// one setting, if it is set; a setting that is missing or writes no
    /// number of its kind has its default.
    pub fn configured(
        port: Option<&str>,
        origin: Option<&str>,
        max_download_bytes: Option<&str>,
        max_code_lines: Option<&str>,
    ) -> (options: Options)
        ensures
            options.port == port_or_default(setting_bytes(port)),
            options.origin@ == match origin {
                Some(text) => text@,
                None => default_origin(),
            },
            options.max_download_bytes == setting_or(
                setting_bytes(max_download_bytes),
                DEFAULT_MAX_DOWNLOAD_BYTES,
            ),
            options.max_code_lines == setting_or(
                setting_bytes(max_code_lines),
                DEFAULT_MAX_CODE_LINES,
            ),
    {
        let port_number: u16 = match port {
            Some(text) => match number_of(text) {
                Some(n) => if n <= 65535 {
                    n as u16
                } else {
                    DEFAULT_PORT
                },
                None => DEFAULT_PORT,
            },
            None => DEFAULT_PORT,
        };
        Options {
            port: port_number,
            origin: match origin {
                Some(text) => String::from_str(text),
                None => String::from_str("http://localhost:8080"),
            },
            max_download_bytes: number_or(max_download_bytes, DEFAULT_MAX_DOWNLOAD_BYTES),
            max_code_lines: number_or(max_code_lines, DEFAULT_MAX_CODE_LINES),
        }
    }
}

impl Default for Options {
    /// The settings of a deployment that sets none.
    fn default() -> (options: Options)
        ensures
            options@ == (OptionsView {
                port: DEFAULT_PORT,
                origin: default_origin(),
                max_download_bytes: DEFAULT_MAX_DOWNLOAD_BYTES,
                max_code_lines: DEFAULT_MAX_CODE_LINES,
            }),
    {
        Options {
            port: DEFAULT_PORT,
            origin: String::from_str("http://localhost:8080"),
            max_download_bytes: DEFAULT_MAX_DOWNLOAD_BYTES,
            max_code_lines: DEFAULT_MAX_CODE_LINES,
        }
    }
}

} // verus!
