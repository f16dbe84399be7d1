//! Configuration errors.

use std::path::PathBuf;

use vstd::prelude::*;

use crate::text::quote;

verus! {

/// Why a configuration cannot be used.
#[derive(Debug)]
pub enum ConfigError {
    /// The configuration file at `path` cannot be read, for the reason in `source`. `path_text`
    /// is the path as it is shown.
    ReadConfig {
        path: PathBuf,
        path_text: String,
        source: String,
    },
    /// The configuration file is no TOML of the expected shape.
    ParseConfig(String),
    /// The configuration breaks a rule.
    Invalid(String),
}

impl ConfigError {
    /// The error for a broken rule, explained by `message`.
    pub fn invalid(message: String) -> (result: ConfigError)
        ensures
            result == ConfigError::Invalid(message),
    {
        ConfigError::Invalid(message)
    }

    /// The explanation of a broken rule.
    pub open spec fn is_invalid(self, message: Seq<char>) -> bool {
        self matches ConfigError::Invalid(text) && text@ == message
    }

    /// The error as a line of text.
    pub open spec fn text(self) -> Seq<char> {
        match self {
            ConfigError::ReadConfig { path_text, source, .. } => "cannot read configuration file "@
                + path_text@ + ": "@ + source@,
            ConfigError::ParseConfig(message) => "invalid TOML configuration: "@ + message@,
            ConfigError::Invalid(message) => "invalid configuration: "@ + message@,
        }
    }

    /// The error as a line of text.
    pub fn to_string(&self) -> (result: String)
        ensures
            result@ == self.text(),
    {
        let mut text = String::new();
        match self {
            ConfigError::ReadConfig { path_text, source, .. } => {
                text.append("cannot read configuration file ");
                text.append(path_text.as_str());
                text.append(": ");
                text.append(source.as_str());
            },
            ConfigError::ParseConfig(message) => {
                text.append("invalid TOML configuration: ");
                text.append(message.as_str());
            },
            ConfigError::Invalid(message) => {
                text.append("invalid configuration: ");
                text.append(message.as_str());
            },
        }
        text
    }
}

/// The error for a broken rule with a fixed explanation.
pub(crate) fn plain_error(message: &str) -> (result: ConfigError)
    ensures
        result.is_invalid(message@),
{
    ConfigError::invalid(message.to_owned())
}

/// The error for a broken rule whose explanation ends with a quoted text.
pub(crate) fn quoted_error(start: &str, value: &str) -> (result: ConfigError)
    ensures
        result.is_invalid(start@ + crate::text::quoted(value@)),
{
    let mut message = start.to_owned();
    message.append(quote(value).as_str());
    ConfigError::invalid(message)
}

} // verus!
