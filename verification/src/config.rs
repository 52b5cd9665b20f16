//! The stored profile: which Dashboard the CLI talks to and the token pair
//! it holds, and the name of the temporary file a save writes first.

use vstd::prelude::*;

use crate::http::random_u128;
use crate::pkce::RANDOM_UNAVAILABLE;
use crate::text::{concat2, hex32, hex_fixed, opt_ref_view};

verus! {

/// The stored profile.
#[derive(Debug, Clone, PartialEq, Eq)]
pub struct Config {
    pub dashboard: DashboardConfig,
    pub auth: AuthConfig,
}

/// The Dashboard of the profile.
#[derive(Debug, Clone, PartialEq, Eq)]
pub struct DashboardConfig {
    pub base_url: String,
}

/// The token pair of the profile and the permissions it was issued for.
#[derive(Debug, Clone, PartialEq, Eq)]
pub struct AuthConfig {
    pub token_type: String,
    pub access_token: String,
    pub refresh_token: String,
    pub record_id: String,
    pub requested_permissions: Vec<String>,
    pub tenant_id: Option<String>,
    pub user_id: Option<String>,
}

/// The name of the temporary file beside the config file: a dot, the config
/// file's name (`config` when it has none), a dot, 32 hex digits of `nonce`,
/// and `.tmp`.
pub open spec fn temporary_name_text(file_name: Option<Seq<char>>, nonce: u128) -> Seq<char> {
    "."@ + match file_name {
        Some(n) => n,
        None => "config"@,
    } + "."@ + hex_fixed(nonce as nat, 32) + ".tmp"@
}

/// The temporary file name for a given nonce.
pub fn temporary_file_name(file_name: Option<&str>, nonce: u128) -> (r: String)
    ensures
        r@ == temporary_name_text(opt_ref_view(file_name), nonce),
{
    let name = match file_name {
        Some(n) => n,
        None => "config",
    };
    let mut r = concat2(".", name);
    r.append(".");
    r.append(hex32(nonce).as_str());
    r.append(".tmp");
    r
}

/// A fresh temporary file name, with a random nonce; fails with
/// `RANDOM_UNAVAILABLE` when the random source cannot be read.
pub fn temporary_name(file_name: Option<&str>) -> (r: Result<String, String>)
    ensures
        r matches Ok(t) ==> exists|nonce: u128|
            t@ == #[trigger] temporary_name_text(opt_ref_view(file_name), nonce),
        r matches Err(e) ==> e@ == RANDOM_UNAVAILABLE@,
{
    match random_u128() {
        Some(nonce) => Ok(temporary_file_name(file_name, nonce)),
        None => Err(RANDOM_UNAVAILABLE.to_owned()),
    }
}

} // verus!
