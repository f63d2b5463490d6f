use wombat::config::finish_config;
use wombat::config::get_config;
use wombat::config::merge_config;
use wombat::config::next_question;
use wombat::config::signup_url;
use wombat::config::Cli;
use wombat::config::Config;
use wombat::config::ConfigArgs;
use wombat::config::ConfigSource;
use wombat::config::Question;

fn no_args() -> ConfigArgs {
    ConfigArgs { server_hostname: None, secret_key: None, auth_port: None, tunnel_port: None }
}

fn all_args() -> ConfigArgs {
    ConfigArgs {
        server_hostname: Some("broker.example".to_string()),
        secret_key: Some("k".to_string()),
        auth_port: Some(1),
        tunnel_port: Some(2),
    }
}

fn stored() -> Config {
    Config {
        server_hostname: "stored.example".to_string(),
        secret_key: "stored-key".to_string(),
        auth_port: 8081,
        tunnel_port: 9091,
    }
}

#[test]
fn a_config_file_is_the_whole_configuration() {
    let cli = Cli { config_file: Some("/etc/wombat.toml".to_string()), config_values: no_args() };
    assert_eq!(get_config(cli), ConfigSource::File { path: "/etc/wombat.toml".to_string() });
    let cli = Cli { config_file: Some("w.toml".to_string()), config_values: all_args() };
    assert_eq!(get_config(cli), ConfigSource::File { path: "w.toml".to_string() });
}

#[test]
fn a_full_command_line_is_the_whole_configuration() {
    let cli = Cli { config_file: None, config_values: all_args() };
    assert_eq!(
        get_config(cli),
        ConfigSource::Arguments {
            config: Config {
                server_hostname: "broker.example".to_string(),
                secret_key: "k".to_string(),
                auth_port: 1,
                tunnel_port: 2,
            }
        }
    );
}

#[test]
fn a_partial_command_line_is_merged() {
    let mut args = all_args();
    args.tunnel_port = None;
    let cli = Cli { config_file: None, config_values: args.clone() };
    assert_eq!(get_config(cli), ConfigSource::Merge { args });
    let cli = Cli { config_file: None, config_values: no_args() };
    assert_eq!(get_config(cli), ConfigSource::Merge { args: no_args() });
}

#[test]
fn the_command_line_wins_over_the_stored_configuration() {
    let mut args = no_args();
    args.server_hostname = Some("given.example".to_string());
    args.tunnel_port = Some(7);
    let (merged, write) = merge_config(args, Some(stored()));
    assert!(!write);
    assert_eq!(
        merged,
        ConfigArgs {
            server_hostname: Some("given.example".to_string()),
            secret_key: Some("stored-key".to_string()),
            auth_port: Some(8081),
            tunnel_port: Some(7),
        }
    );
    assert_eq!(next_question(&merged), None);
}

#[test]
fn without_a_stored_configuration_the_outcome_is_written() {
    let mut args = no_args();
    args.secret_key = Some("k".to_string());
    let (merged, write) = merge_config(args.clone(), None);
    assert!(write);
    assert_eq!(merged, args);
}

#[test]
fn questions_come_in_order() {
    let mut draft = no_args();
    assert_eq!(
        next_question(&draft),
        Some(Question::ServerHostname {
            prompt: "Server hostname ".to_string(),
            default_host: "localhost".to_string()
        })
    );
    draft.server_hostname = Some("broker.example".to_string());
    assert_eq!(
        next_question(&draft),
        Some(Question::AuthPort { prompt: "Server auth port ".to_string(), default_port: 8080 })
    );
    draft.auth_port = Some(8443);
    assert_eq!(
        next_question(&draft),
        Some(Question::SecretKey {
            notice: "Link your discord account at broker.example:8443/auth/signup and enter your secret key"
                .to_string()
        })
    );
    draft.secret_key = Some("k".to_string());
    assert_eq!(
        next_question(&draft),
        Some(Question::TunnelPort { prompt: "Server tunnel port ".to_string(), default_port: 9090 })
    );
    draft.tunnel_port = Some(9090);
    assert_eq!(next_question(&draft), None);
    assert_eq!(
        finish_config(draft),
        Some(Config {
            server_hostname: "broker.example".to_string(),
            secret_key: "k".to_string(),
            auth_port: 8443,
            tunnel_port: 9090,
        })
    );
}

#[test]
fn values_that_are_given_are_not_asked_for() {
    let mut draft = no_args();
    draft.server_hostname = Some("h".to_string());
    draft.secret_key = Some("k".to_string());
    assert_eq!(
        next_question(&draft),
        Some(Question::AuthPort { prompt: "Server auth port ".to_string(), default_port: 8080 })
    );
    draft.auth_port = Some(1);
    assert_eq!(
        next_question(&draft),
        Some(Question::TunnelPort { prompt: "Server tunnel port ".to_string(), default_port: 9090 })
    );
}

#[test]
fn a_draft_that_lacks_a_value_is_not_closed() {
    assert_eq!(finish_config(no_args()), None);
    let mut draft = all_args();
    draft.auth_port = None;
    assert_eq!(finish_config(draft), None);
}

#[test]
fn the_signup_url_is_written_out() {
    assert_eq!(signup_url("localhost", 8080), "localhost:8080/auth/signup");
    assert_eq!(signup_url("h", 0), "h:0/auth/signup");
    assert_eq!(signup_url("", u32::MAX), ":4294967295/auth/signup");
}
