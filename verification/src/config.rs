//! Configuration of the agent: where its values come from.
//!
//! Nothing here reads a file or asks the user. The caller does, step by step:
//! `get_config` says where to begin, `merge_config` joins the command line
//! with a stored configuration, `next_question` names the value to ask for
//! next, and `finish_config` closes the draft once nothing is missing.

use crate::utils::decimal_spec;
use crate::utils::push_decimal;
use vstd::prelude::*;
use vstd::string::StringExecFns;

verus! {

/// Host name offered where none is known.
pub const DEFAULT_SERVER_HOSTNAME: &'static str = "localhost";

/// Port of the account-linking service offered where none is known.
pub const DEFAULT_AUTH_PORT: u32 = 8080;

/// Port of the tunnel offered where none is known.
pub const DEFAULT_TUNNEL_PORT: u32 = 9090;

/// Values of the configuration given on the command line, or a draft of the
/// configuration that is being filled.
#[derive(Debug, Clone, PartialEq, Eq)]
pub struct ConfigArgs {
    pub server_hostname: Option<String>,
    pub secret_key: Option<String>,
    pub auth_port: Option<u32>,
    pub tunnel_port: Option<u32>,
}

/// The command line: the path of a configuration file, or values in its place.
#[derive(Debug, Clone, PartialEq, Eq)]
pub struct Cli {
    pub config_file: Option<String>,
    pub config_values: ConfigArgs,
}

/// What the agent needs to know to reach the broker.
#[derive(Debug, Clone, PartialEq, Eq)]
pub struct Config {
    pub server_hostname: String,
    pub secret_key: String,
    pub auth_port: u32,
    pub tunnel_port: u32,
}

/// Where the configuration comes from.
#[derive(Debug, Clone, PartialEq, Eq)]
pub enum ConfigSource {
    /// From the file at `path`, and from nothing else.
    File { path: String },
    /// From the command line, which gives every value.
    Arguments { config: Config },
    /// From the command line, then the stored configuration, then the user.
    Merge { args: ConfigArgs },
}

/// A value to ask the user for.
#[derive(Debug, Clone, PartialEq, Eq)]
pub enum Question {
    ServerHostname { prompt: String, default_host: String },
    AuthPort { prompt: String, default_port: u32 },
    /// Preceded by `notice`, which says where a key is to be had.
    SecretKey { notice: String },
    TunnelPort { prompt: String, default_port: u32 },
}

impl ConfigArgs {
    /// Whether every value is given.
    pub open spec fn is_complete(&self) -> bool {
        &&& self.server_hostname is Some
        &&& self.secret_key is Some
        &&& self.auth_port is Some
        &&& self.tunnel_port is Some
    }
}

/// The page at which an account is linked and a key handed out.
pub open spec fn signup_url_spec(server_hostname: Seq<char>, auth_port: u32) -> Seq<char> {
    server_hostname + ":"@ + decimal_spec(auth_port as nat) + "/auth/signup"@
}

/// What the user is told before being asked for a key.
pub open spec fn signup_notice_spec(server_hostname: Seq<char>, auth_port: u32) -> Seq<char> {
    "Link your discord account at "@ + signup_url_spec(server_hostname, auth_port)
        + " and enter your secret key"@
}

/// Decides where the configuration comes from. A configuration file, where one
/// is named, is the whole configuration. Else the command line is, where it
/// gives every value. Else the values are merged.
pub fn get_config(cli: Cli) -> (source: ConfigSource)
    ensures
        match source {
            ConfigSource::File { path } => cli.config_file == Some(path),
            ConfigSource::Arguments { config } => {
                &&& cli.config_file is None
                &&& cli.config_values.server_hostname == Some(config.server_hostname)
                &&& cli.config_values.secret_key == Some(config.secret_key)
                &&& cli.config_values.auth_port == Some(config.auth_port)
                &&& cli.config_values.tunnel_port == Some(config.tunnel_port)
            },
            ConfigSource::Merge { args } => {
                &&& cli.config_file is None
                &&& !cli.config_values.is_complete()
                &&& args == cli.config_values
            },
        },
{
    let Cli { config_file, config_values } = cli;
    match config_file {
        Some(path) => ConfigSource::File { path },
        None => match config_values {
            ConfigArgs {
                server_hostname: Some(server_hostname),
                secret_key: Some(secret_key),
                auth_port: Some(auth_port),
                tunnel_port: Some(tunnel_port),
            } => ConfigSource::Arguments {
                config: Config { server_hostname, secret_key, auth_port, tunnel_port },
            },
            args => ConfigSource::Merge { args },
        },
    }
}

/// Joins the command line with the stored configuration, if there is one:
/// each value is that of the command line, or else the stored one. Says also
/// whether the outcome is to be stored, which it is where nothing was.
pub fn merge_config(args: ConfigArgs, existing: Option<Config>) -> (merged: (ConfigArgs, bool))
    ensures
        merged.1 == (existing is None),
        match existing {
            Some(stored) => {
                &&& merged.0.server_hostname == Some(
                    match args.server_hostname {
                        Some(given) => given,
                        None => stored.server_hostname,
                    },
                )
                &&& merged.0.secret_key == Some(
                    match args.secret_key {
                        Some(given) => given,
                        None => stored.secret_key,
                    },
                )
                &&& merged.0.auth_port == Some(
                    match args.auth_port {
                        Some(given) => given,
                        None => stored.auth_port,
                    },
                )
                &&& merged.0.tunnel_port == Some(
                    match args.tunnel_port {
                        Some(given) => given,
                        None => stored.tunnel_port,
                    },
                )
            },
            None => merged.0 == args,
        },
{
    match existing {
        Some(stored) => {
            let ConfigArgs { server_hostname, secret_key, auth_port, tunnel_port } = args;
            (
                ConfigArgs {
                    server_hostname: Some(
                        match server_hostname {
                            Some(given) => given,
                            None => stored.server_hostname,
                        },
                    ),
                    secret_key: Some(
                        match secret_key {
                            Some(given) => given,
                            None => stored.secret_key,
                        },
                    ),
                    auth_port: Some(
                        match auth_port {
                            Some(given) => given,
                            None => stored.auth_port,
                        },
                    ),
                    tunnel_port: Some(
                        match tunnel_port {
                            Some(given) => given,
                            None => stored.tunnel_port,
                        },
                    ),
                },
                false,
            )
        },
        None => (args, true),
    }
}

/// The page at which an account is linked and a key handed out.
pub fn signup_url(server_hostname: &str, auth_port: u32) -> (url: String)
    ensures
        url@ == signup_url_spec(server_hostname@, auth_port),
{
    let mut url = String::from_str(server_hostname);
    url.append(":");
    push_decimal(&mut url, auth_port as u64);
    url.append("/auth/signup");
    url
}

/// The value to ask the user for next: the first that the draft lacks, of host
/// name, port of the account-linking service, secret key and tunnel port, in
/// this order. `None` once the draft lacks nothing.
pub fn next_question(draft: &ConfigArgs) -> (question: Option<Question>)
    ensures
        match question {
            Some(Question::ServerHostname { prompt, default_host }) => {
                &&& draft.server_hostname is None
                &&& prompt@ == "Server hostname "@
                &&& default_host@ == DEFAULT_SERVER_HOSTNAME@
            },
            Some(Question::AuthPort { prompt, default_port }) => {
                &&& draft.server_hostname is Some
                &&& draft.auth_port is None
                &&& prompt@ == "Server auth port "@
                &&& default_port == DEFAULT_AUTH_PORT
            },
            Some(Question::SecretKey { notice }) => {
                &&& draft.server_hostname is Some
                &&& draft.auth_port is Some
                &&& draft.secret_key is None
                &&& notice@ == signup_notice_spec(
                    draft.server_hostname->0@,
                    draft.auth_port->0,
                )
            },
            Some(Question::TunnelPort { prompt, default_port }) => {
                &&& draft.server_hostname is Some
                &&& draft.auth_port is Some
                &&& draft.secret_key is Some
                &&& draft.tunnel_port is None
                &&& prompt@ == "Server tunnel port "@
                &&& default_port == DEFAULT_TUNNEL_PORT
            },
            None => draft.is_complete(),
        },
{
    match &draft.server_hostname {
        None => Some(
            Question::ServerHostname {
                prompt: String::from_str("Server hostname "),
                default_host: String::from_str(DEFAULT_SERVER_HOSTNAME),
            },
        ),
        Some(server_hostname) => match draft.auth_port {
            None => Some(
                Question::AuthPort {
                    prompt: String::from_str("Server auth port "),
                    default_port: DEFAULT_AUTH_PORT,
                },
            ),
            Some(auth_port) => {
                if draft.secret_key.is_none() {
                    let mut notice = String::from_str("Link your discord account at ");
                    notice.append(signup_url(server_hostname.as_str(), auth_port).as_str());
                    notice.append(" and enter your secret key");
                    Some(Question::SecretKey { notice })
                } else if draft.tunnel_port.is_none() {
                    Some(
                        Question::TunnelPort {
                            prompt: String::from_str("Server tunnel port "),
                            default_port: DEFAULT_TUNNEL_PORT,
                        },
                    )
                } else {
                    None
                }
            },
        },
    }
}

/// Closes a draft: the configuration that it holds, if it lacks nothing.
pub fn finish_config(draft: ConfigArgs) -> (config: Option<Config>)
    ensures
        match config {
            Some(config) => {
                &&& draft.server_hostname == Some(config.server_hostname)
                &&& draft.secret_key == Some(config.secret_key)
                &&& draft.auth_port == Some(config.auth_port)
                &&& draft.tunnel_port == Some(config.tunnel_port)
            },
            None => !draft.is_complete(),
        },
{
    match draft {
        ConfigArgs {
            server_hostname: Some(server_hostname),
            secret_key: Some(secret_key),
            auth_port: Some(auth_port),
            tunnel_port: Some(tunnel_port),
        } => Some(Config { server_hostname, secret_key, auth_port, tunnel_port }),
        _ => None,
    }
}

} // verus!
