//! What the program is configured with from outside: the credential of the
//! completion service.
use vstd::prelude::*;
use vstd::string::StringExecFns;

verus! {

/// Why the program cannot be configured.
#[derive(Debug, Clone, Copy, PartialEq, Eq, Structural)]
pub enum ConfigError {
    /// The environment holds no credential.
    MissingApiKey,
    /// The base URL is no absolute URL.
    InvalidBaseUrl,
}

impl ConfigError {
    /// What the user is told.
    pub open spec fn message_spec(self) -> Seq<char> {
        match self {
            ConfigError::MissingApiKey => "OPENAI_API_KEY environment variable not found"@,
            ConfigError::InvalidBaseUrl => "Base URL is not an absolute URL"@,
        }
    }

    /// What the user is told.
    pub fn message(&self) -> (text: String)
        ensures
            text@ == self.message_spec(),
    {
        match self {
            ConfigError::MissingApiKey => String::from_str(
                "OPENAI_API_KEY environment variable not found",
            ),
            ConfigError::InvalidBaseUrl => String::from_str("Base URL is not an absolute URL"),
        }
    }
}

/// The name of the environment variable that holds the credential.
pub const API_KEY_VARIABLE: &'static str = "OPENAI_API_KEY";

/// The credential of the completion service.
#[derive(Debug, Clone, PartialEq, Eq)]
pub struct Config {
    pub openai_api_key: String,
}

impl Config {
    /// The configuration made from what the environment holds under
    /// [`API_KEY_VARIABLE`]: an absent value is refused.
    pub fn new(value: Option<String>) -> (r: Result<Config, ConfigError>)
        ensures
            match value {
                Some(key) => r matches Ok(config) && config.openai_api_key == key,
                None => r == Err::<Config, ConfigError>(ConfigError::MissingApiKey),
            },
    {
        match value {
            Some(openai_api_key) => Ok(Config { openai_api_key }),
            None => Err(ConfigError::MissingApiKey),
        }
    }
}

} // verus!
