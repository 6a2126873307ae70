//! The shared outbound client handle: the messaging API client plus the
//! admin recipient list, created once at startup and read-only after.

use std::sync::Arc;

use vstd::prelude::*;

verus! {

#[verifier::external_type_specification]
#[verifier::external_body]
pub struct ExApi(mobot::API);

/// Shared handle to the outbound messaging API and the admins every alert is
/// broadcast to. Never mutated after construction.
pub struct MainClient {
    /// The messaging platform client, shared with the bot update loop.
    pub tg_api: Arc<mobot::API>,
    /// The admin chat ids, in delivery order.
    pub admins: Vec<i64>,
}

impl MainClient {
    pub fn new(mobot_client: Arc<mobot::API>, admins: Vec<i64>) -> (c: Self)
        ensures
            c.tg_api == mobot_client,
            c.admins@ == admins@,
    {
        MainClient { tg_api: mobot_client, admins: admins }
    }

    pub fn get_admins(&self) -> (a: &Vec<i64>)
        ensures
            a@ == self.admins@,
    {
        &self.admins
    }
}

} // verus!
