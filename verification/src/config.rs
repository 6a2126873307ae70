//! Immutable startup configuration and the bot-side state built from it.

use vstd::prelude::*;

verus! {

/// Startup configuration: bot credential, admin recipient chat ids, and the
/// address the HTTP alert service binds to. Built once, never mutated.
#[derive(Clone, Debug)]
pub struct Config {
    /// Credential for the messaging platform.
    pub telegram_bot_token: String,
    /// Chat ids of the admins every alert is broadcast to, in delivery order.
    pub admins: Vec<i64>,
    /// Address (`host:port`) the HTTP alert service binds to.
    pub server_addr: String,
}

impl Default for Config {
    fn default() -> (c: Self)
        ensures
            c.telegram_bot_token@ == Seq::<char>::empty(),
            c.admins@ == Seq::<i64>::empty(),
            c.server_addr@ == Seq::<char>::empty(),
    {
        Config { telegram_bot_token: String::new(), admins: Vec::new(), server_addr: String::new() }
    }
}

/// Bot-side state: carries the configuration, shared read-only by the HTTP
/// alert service and the bot update loop.
#[derive(Clone, Debug)]
pub struct MelatoninBotState {
    config: Config,
}

impl MelatoninBotState {
    /// The configured credential, as a sequence of characters.
    pub closed spec fn spec_token(self) -> Seq<char> {
        self.config.telegram_bot_token@
    }

    /// The configured admin chat ids, in delivery order.
    pub closed spec fn spec_admins(self) -> Seq<i64> {
        self.config.admins@
    }

    /// The configured bind address, as a sequence of characters.
    pub closed spec fn spec_server_addr(self) -> Seq<char> {
        self.config.server_addr@
    }

    pub fn new(config: Config) -> (s: Self)
        ensures
            s.spec_token() == config.telegram_bot_token@,
            s.spec_admins() == config.admins@,
            s.spec_server_addr() == config.server_addr@,
    {
        MelatoninBotState { config: config }
    }

    pub fn get_telegram_bot_token(&self) -> (t: String)
        ensures
            t@ == self.spec_token(),
    {
        self.config.telegram_bot_token.clone()
    }

    pub fn get_admins(&self) -> (a: &Vec<i64>)
        ensures
            a@ == self.spec_admins(),
    {
        &self.config.admins
    }

    pub fn get_server_addr(&self) -> (a: String)
        ensures
            a@ == self.spec_server_addr(),
    {
        self.config.server_addr.clone()
    }
}

impl Default for MelatoninBotState {
    fn default() -> (s: Self)
        ensures
            s.spec_token() == Seq::<char>::empty(),
            s.spec_admins() == Seq::<i64>::empty(),
            s.spec_server_addr() == Seq::<char>::empty(),
    {
        MelatoninBotState { config: Config::default() }
    }
}

} // verus!
