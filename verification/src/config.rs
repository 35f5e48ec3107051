//! Settings of the command-line client and the rules they must meet.

use crate::text::{owned, starts_with, str_starts_with};
use vstd::prelude::*;

verus! {

/// Settings of the command-line client.
#[derive(Debug, Clone)]
pub struct Config {
    pub project_name: String,
    pub backend_url: String,
    pub moodle_url: Option<String>,
    pub auto_sync: bool,
    pub ai_model: Option<String>,
    pub marking_rubric: Option<String>,
    pub default_concurrency: usize,
    pub timeout_seconds: u64,
}

/// The rule that a configuration breaks.
#[derive(Debug, Clone, Copy, PartialEq, Eq, Structural)]
pub enum ConfigError {
    EmptyProjectName,
    EmptyBackendUrl,
    InvalidBackendUrl,
    InvalidMoodleUrl,
    ZeroConcurrency,
}

impl ConfigError {
    /// The text shown for a broken rule.
    pub open spec fn text(self) -> Seq<char> {
        match self {
            ConfigError::EmptyProjectName => "Project name cannot be empty"@,
            ConfigError::EmptyBackendUrl => "Backend URL cannot be empty"@,
            ConfigError::InvalidBackendUrl => "Backend URL must start with http:// or https://"@,
            ConfigError::InvalidMoodleUrl => "Moodle URL must start with http:// or https://"@,
            ConfigError::ZeroConcurrency => "Concurrency must be greater than 0"@,
        }
    }

    /// The text shown for this broken rule.
    pub fn to_string(&self) -> (r: String)
        ensures
            r@ == self.text(),
    {
        match self {
            ConfigError::EmptyProjectName => owned("Project name cannot be empty"),
            ConfigError::EmptyBackendUrl => owned("Backend URL cannot be empty"),
            ConfigError::InvalidBackendUrl => owned(
                "Backend URL must start with http:// or https://",
            ),
            ConfigError::InvalidMoodleUrl => owned(
                "Moodle URL must start with http:// or https://",
            ),
            ConfigError::ZeroConcurrency => owned("Concurrency must be greater than 0"),
        }
    }
}

/// Whether a text starts like a web address.
pub open spec fn has_http_scheme(url: Seq<char>) -> bool {
    starts_with(url, "http://"@) || starts_with(url, "https://"@)
}

fn str_has_http_scheme(url: &str) -> (b: bool)
    ensures
        b == has_http_scheme(url@),
{
    str_starts_with(url, "http://") || str_starts_with(url, "https://")
}

impl Default for Config {
    fn default() -> (c: Self)
        ensures
            c.project_name@ == "Academic Workflow Suite"@,
            c.backend_url@ == "http://localhost:8000"@,
            c.moodle_url is None,
            !c.auto_sync,
            c.ai_model is None,
            c.marking_rubric is None,
            c.default_concurrency == 5,
            c.timeout_seconds == 300,
    {
        Config {
            project_name: owned("Academic Workflow Suite"),
            backend_url: owned("http://localhost:8000"),
            moodle_url: None,
            auto_sync: false,
            ai_model: None,
            marking_rubric: None,
            default_concurrency: 5,
            timeout_seconds: 300,
        }
    }
}

impl Config {
    /// The first rule that the configuration breaks: a name, a backend
    /// address, a web scheme on the backend address and on the Moodle address
    /// if there is one, and a concurrency above zero.
    pub open spec fn first_problem(&self) -> Option<ConfigError> {
        if self.project_name@.len() == 0 {
            Some(ConfigError::EmptyProjectName)
        } else if self.backend_url@.len() == 0 {
            Some(ConfigError::EmptyBackendUrl)
        } else if !has_http_scheme(self.backend_url@) {
            Some(ConfigError::InvalidBackendUrl)
        } else if self.moodle_url is Some && !has_http_scheme(self.moodle_url->0@) {
            Some(ConfigError::InvalidMoodleUrl)
        } else if self.default_concurrency == 0 {
            Some(ConfigError::ZeroConcurrency)
        } else {
            None
        }
    }

    /// Checks the configuration and reports the first rule that it breaks.
    pub fn validate(&self) -> (r: Result<(), ConfigError>)
        ensures
            r is Ok <==> self.first_problem() is None,
            r matches Err(e) ==> self.first_problem() == Some(e),
    {
        if self.project_name.as_str().unicode_len() == 0 {
            return Err(ConfigError::EmptyProjectName);
        }
        if self.backend_url.as_str().unicode_len() == 0 {
            return Err(ConfigError::EmptyBackendUrl);
        }
        if !str_has_http_scheme(self.backend_url.as_str()) {
            return Err(ConfigError::InvalidBackendUrl);
        }
        match &self.moodle_url {
            Some(url) => {
                if !str_has_http_scheme(url.as_str()) {
                    return Err(ConfigError::InvalidMoodleUrl);
                }
            },
            None => {},
        }
        if self.default_concurrency == 0 {
            return Err(ConfigError::ZeroConcurrency);
        }
        Ok(())
    }
}

} // verus!
