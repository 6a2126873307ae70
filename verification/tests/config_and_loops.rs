use std::sync::Arc;

use melatonin_bot::botloop::{server_exit_log, update_loop_step, UpdateOutcome};
use melatonin_bot::config::{Config, MelatoninBotState};
use melatonin_bot::main_client::MainClient;

fn sample_config() -> Config {
    Config {
        telegram_bot_token: "test-token".to_string(),
        admins: vec![111, 222],
        server_addr: "127.0.0.1:8080".to_string(),
    }
}

#[test]
fn state_exposes_config_unchanged() {
    let state = MelatoninBotState::new(sample_config());
    assert_eq!(state.get_telegram_bot_token(), "test-token");
    assert_eq!(state.get_admins(), &vec![111, 222]);
    assert_eq!(state.get_server_addr(), "127.0.0.1:8080");
}

#[test]
fn default_state_is_empty() {
    let state = MelatoninBotState::default();
    assert_eq!(state.get_telegram_bot_token(), "");
    assert!(state.get_admins().is_empty());
    assert_eq!(state.get_server_addr(), "");
    let config = Config::default();
    assert_eq!(config.telegram_bot_token, "");
    assert!(config.admins.is_empty());
    assert_eq!(config.server_addr, "");
}

#[test]
fn main_client_keeps_admin_list() {
    let api = Arc::new(mobot::API::new(mobot::Client::new("test-token".to_string())));
    let client = MainClient::new(api, vec![5, 6, 7]);
    assert_eq!(client.get_admins(), &vec![5, 6, 7]);
    assert_eq!(client.admins, vec![5, 6, 7]);
}

#[test]
fn failed_update_is_logged_and_loop_keeps_running() {
    let d = update_loop_step(UpdateOutcome::Failed { message: "handler blew up".to_string() });
    assert!(d.keep_running);
    assert_eq!(d.log_error.as_deref(), Some("handler blew up"));
}

#[test]
fn handled_update_logs_nothing_and_loop_keeps_running() {
    let d = update_loop_step(UpdateOutcome::Handled);
    assert!(d.keep_running);
    assert_eq!(d.log_error, None);
}

#[test]
fn server_exit_log_names_the_error() {
    assert_eq!(server_exit_log("accept loop died"), "Server error: accept loop died");
}
