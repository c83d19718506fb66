//! The agent's configuration.

use vstd::prelude::*;
use vstd::string::StringExecFns;

verus! {

/// Where the agent reports to when nothing else is configured.
pub open spec fn default_server_url() -> Seq<char> {
    "http://localhost:8080"@
}

/// The directory whose size is scanned when nothing else is configured.
pub open spec fn default_docker_path() -> Seq<char> {
    "/var/lib/docker"@
}

/// The name the agent reports under when it cannot learn its own.
pub open spec fn unknown_hostname() -> Seq<char> {
    "unknown"@
}

/// What the agent needs to know to sample and report.
#[derive(Debug, PartialEq, Eq)]
pub struct Config {
    pub server_url: String,
    pub token: String,
    pub hostname: String,
    pub docker_path: String,
    pub github_repo: Option<String>,
}

/// Why no configuration could be made.
#[derive(Debug, PartialEq, Eq, Clone, Copy)]
pub enum ConfigError {
    /// No credential was given: the agent cannot report without one.
    MissingToken,
}

impl ConfigError {
    /// The error in words.
    pub fn message(&self) -> (text: String)
        ensures
            text@ == "CLIENT_TOKEN environment variable is required"@,
    {
        String::from_str("CLIENT_TOKEN environment variable is required")
    }
}

/// `value` if there is one, else `fallback`.
pub open spec fn text_or(value: Option<String>, fallback: Seq<char>) -> Seq<char> {
    match value {
        Some(s) => s@,
        None => fallback,
    }
}

/// `value` if there is one, else a copy of `fallback`.
fn string_or(value: Option<String>, fallback: &str) -> (text: String)
    ensures
        text@ == text_or(value, fallback@),
{
    match value {
        Some(s) => s,
        None => String::from_str(fallback),
    }
}

impl Config {
    /// The configuration that the given settings amount to. A setting that is
    /// absent takes its default; the host name is the configured one, else
    /// the system's, else a placeholder. Only the credential has no default.
    pub fn from_values(
        server_url: Option<String>,
        token: Option<String>,
        hostname: Option<String>,
        system_hostname: Option<String>,
        docker_path: Option<String>,
        github_repo: Option<String>,
    ) -> (result: Result<Config, ConfigError>)
        ensures
            token is None <==> result is Err,
            result is Err ==> result->Err_0 == ConfigError::MissingToken,
            result is Ok ==> ({
                let config = result->Ok_0;
                &&& config.server_url@ == text_or(server_url, default_server_url())
                &&& config.token == token->Some_0
                &&& config.hostname@ == text_or(
                    hostname,
                    text_or(system_hostname, unknown_hostname()),
                )
                &&& config.docker_path@ == text_or(docker_path, default_docker_path())
                &&& config.github_repo == github_repo
            }),
    {
        let server_url = string_or(server_url, "http://localhost:8080");
        let token = match token {
            Some(t) => t,
            None => {
                return Err(ConfigError::MissingToken);
            },
        };
        let hostname = match hostname {
            Some(h) => h,
            None => string_or(system_hostname, "unknown"),
        };
        let docker_path = string_or(docker_path, "/var/lib/docker");
        Ok(Config { server_url, token, hostname, docker_path, github_repo })
    }
}

impl Clone for Config {
    fn clone(&self) -> (r: Config)
        ensures
            r == *self,
    {
        Config {
            server_url: self.server_url.clone(),
            token: self.token.clone(),
            hostname: self.hostname.clone(),
            docker_path: self.docker_path.clone(),
            github_repo: crate::models::clone_opt_string(&self.github_repo),
        }
    }
}

} // verus!
