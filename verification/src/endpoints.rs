//! Where the networked sources are reached, and how an HTTP reply is judged.
use vstd::prelude::*;
use crate::text::{decimal, decimal_string};

verus! {

/// `{address}:{port}`, the form that sockets connect to.
pub open spec fn socket_address_text(address: Seq<char>, port: u16) -> Seq<char> {
    address + ":"@ + decimal(port as nat)
}

/// The port on which a TekHSI oscilloscope serves its data.
pub const TEKHSI_PORT: u16 = 5000;

/// `{address}:{port}`.
pub fn socket_address(address: &str, port: u16) -> (s: String)
    ensures
        s@ == socket_address_text(address@, port),
{
    let mut s = String::from_str(address);
    s.append(":");
    let p = decimal_string(port as u128);
    s.append(p.as_str());
    s
}

/// "{before}{address}{after}"
fn around(before: &str, address: &str, after: &str) -> (s: String)
    ensures
        s@ == before@ + address@ + after@,
{
    let mut s = String::from_str(before);
    s.append(address);
    s.append(after);
    s
}

/// The REST resource of the node that the u.RECS firmware reports on.
pub fn firmware_node_uri(address: &str) -> (s: String)
    ensures
        s@ == "https://"@ + address@ + "/REST/node/RCU_0_BB_1_1"@,
{
    around("https://", address, "/REST/node/RCU_0_BB_1_1")
}

/// The RPC that reads the switch status of a Shelly plug.
pub fn shelly_status_uri(address: &str) -> (s: String)
    ensures
        s@ == "http://"@ + address@ + "/rpc/Switch.GetStatus?id=0"@,
{
    around("http://", address, "/rpc/Switch.GetStatus?id=0")
}

/// The RPC that resets the energy counters of a Shelly plug.
pub fn shelly_reset_uri(address: &str) -> (s: String)
    ensures
        s@ == "http://"@ + address@ + "/rpc/Switch.ResetCounters?id=0"@,
{
    around("http://", address, "/rpc/Switch.ResetCounters?id=0")
}

/// What is wrong with an HTTP reply, judged by its status code.
#[derive(Clone, Copy, Debug, PartialEq, Eq, Structural)]
pub enum ResponseProblem {
    /// 500 to 599.
    ServerError,
    /// 400 to 499.
    ClientError,
    /// Any other code outside 200 to 299.
    CommunicationError,
}

/// The problem of a reply with status `code`, none for a success (200 to 299), as
/// `StatusCode::is_server_error`, `is_client_error` and `is_success` judge it.
pub open spec fn response_problem_of(code: u16) -> Option<ResponseProblem> {
    if 500 <= code < 600 {
        Some(ResponseProblem::ServerError)
    } else if 400 <= code < 500 {
        Some(ResponseProblem::ClientError)
    } else if !(200 <= code < 300) {
        Some(ResponseProblem::CommunicationError)
    } else {
        None
    }
}

/// Judges a reply by its status code: a reply with a problem is skipped.
pub fn response_problem(code: u16) -> (p: Option<ResponseProblem>)
    ensures
        p == response_problem_of(code),
        p is None <==> 200 <= code < 300,
{
    if 500 <= code && code < 600 {
        Some(ResponseProblem::ServerError)
    } else if 400 <= code && code < 500 {
        Some(ResponseProblem::ClientError)
    } else if !(200 <= code && code < 300) {
        Some(ResponseProblem::CommunicationError)
    } else {
        None
    }
}

} // verus!
