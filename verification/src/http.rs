//! The HTTP clients that the fetcher, the Gemini client and the notifier
//! hold. Requests themselves are sent by the program around the library.
use vstd::prelude::*;

verus! {

#[verifier::external_type_specification]
#[verifier::external_body]
pub struct ExHttpClient(reqwest::Client);

#[verifier::external_type_specification]
#[verifier::external_body]
pub struct ExHttpError(reqwest::Error);

/// Trusted: `reqwest::Client`'s `Clone`, used by the derived `Clone` of the
/// clients that hold one. The copy shares the original's connection pool;
/// nothing is stated of it.
pub assume_specification[ <reqwest::Client as Clone>::clone ](client: &reqwest::Client) -> reqwest::Client;

/// Why an HTTP client could not be set up.
#[derive(Debug)]
pub enum ClientError {
    Build(reqwest::Error),
}

/// Trusted: `reqwest::Client::builder()` with `ClientBuilder::timeout` set
/// to `timeout_secs` seconds, then `ClientBuilder::build`; on success the
/// client comes back with the timeout it was built with. Whether building
/// succeeds depends on the machine (a TLS back end and a resolver must be
/// set up), so that is not stated.
#[verifier::external_body]
pub(crate) fn build_client(timeout_secs: u64) -> (r: Result<(reqwest::Client, u64), reqwest::Error>)
    ensures
        r matches Ok(c) ==> c.1 == timeout_secs,
{
    let client = reqwest::Client::builder().timeout(std::time::Duration::from_secs(timeout_secs)).build()?;
    Ok((client, timeout_secs))
}

/// Trusted: as `build_client`, with `ClientBuilder::user_agent` set to
/// `user_agent` (which puts it among the default headers); on success the
/// client comes back with the user agent and timeout it was built with.
/// Whether building succeeds is not stated, for the same reason.
#[verifier::external_body]
pub(crate) fn build_client_with_agent(user_agent: &str, timeout_secs: u64) -> (r: Result<
    (reqwest::Client, String, u64),
    reqwest::Error,
>)
    ensures
        r matches Ok(c) ==> c.1@ == user_agent@ && c.2 == timeout_secs,
{
    let client = reqwest::Client::builder().user_agent(user_agent.to_string()).timeout(
        std::time::Duration::from_secs(timeout_secs),
    ).build()?;
    Ok((client, user_agent.to_string(), timeout_secs))
}

} // verus!
