use vstd::prelude::*;
use crate::text::{decimal, push_decimal};

pub mod env_file;
pub mod launch;
pub mod log_store;
pub mod readiness;
pub mod reaper;
pub mod supervisor;
pub mod text;
pub mod updater;

verus! {

/// Port on which the bundled server listens.
pub const SERVER_PORT: u16 = 17777;

pub open spec fn server_url() -> Seq<char> {
    "http://localhost:"@ + decimal(SERVER_PORT as nat)
}

/// The address at which the bundled server answers.
pub fn get_server_url() -> (r: String)
    ensures
        r@ == server_url(),
{
    let mut url = String::from_str("http://localhost:");
    push_decimal(&mut url, SERVER_PORT as u32);
    url
}

} // verus!
