//! Defaults and names of the server and client settings.
use vstd::prelude::*;
use vstd::string::*;
use crate::encoding;

verus! {

pub const DEFAULT_PORT: u16 = 2808;

/// The octets of the default host address.
pub const DEFAULT_HOST: [u8; 4] = [127, 0, 0, 1];

pub const DEFAULT_NUM_WORKERS: u8 = 3;

/// How many query messages wait for a worker at most.
pub const MAX_STORED_MESSAGES: usize = 200;

pub const DEFAULT_SELECTED_DB: &'static str = "test";

pub const DEFAULT_DB_VERSION_MAJOR: u8 = 0;

pub const DEFAULT_DB_VERSION_MINOR: u8 = 1;

pub const HOST_STR: &'static str = "--host";

pub const HOST_STR_SHORT: &'static str = "-h";

pub const NUM_EXPECTED_HOST_ARGS: usize = 1;

pub const PORT_STR: &'static str = "--port";

pub const PORT_STR_SHORT: &'static str = "-p";

pub const NUM_EXPECTED_PORT_ARGS: usize = 1;

pub const VERSION_STR: &'static str = "--version";

pub const VERSION_STR_SHORT: &'static str = "-v";

pub const NUM_EXPECTED_VERSION_ARGS: usize = 1;

pub const NUM_WORKERS_STR: &'static str = "--workers";

pub const NUM_WORKERS_STR_SHORT: &'static str = "-w";

pub const NUM_EXPECTED_NUM_WORKERS_ARGS: usize = 1;

pub const DEFAULT_REQUESTED_DB: &'static str = "test";

pub const DEFAULT_USERNAME: &'static str = "Edos";

pub const DEFAULT_PASSWORD: &'static str = "password";

pub const DEFAULT_PROTOCOL_VERSION: u16 = 1;

pub const REQUESTED_DB_STR: &'static str = "--database";

pub const REQUESTED_DB_STR_SHORT: &'static str = "-db";

pub const NUM_EXPECTED_REQUESTED_DB_ARGS: usize = 1;

pub const USERNAME_STR: &'static str = "--username";

pub const USERNAME_STR_SHORT: &'static str = "-n";

pub const NUM_EXPECTED_USERNAME_ARGS: usize = 1;

pub const PASSWORD_STR: &'static str = "--password";

pub const PASSWORD_STR_SHORT: &'static str = "-pw";

pub const NUM_EXPECTED_PASSWORD_ARGS: usize = 1;

pub const PROTOCOL_STR: &'static str = "--protocol";

pub const PROTOCOL_STR_SHORT: &'static str = "-pv";

pub const NUM_EXPECTED_PROTOCOL_ARGS: usize = 1;

pub const REQUESTED_PORT_STR: &'static str = "--port";

pub const REQUESTED_PORT_STR_SHORT: &'static str = "-p";

pub const NUM_EXPECTED_REQUESTED_PORT_ARGS: usize = 1;

pub const REQUESTED_HOST_STR: &'static str = "--host";

pub const REQUESTED_HOST_STR_SHORT: &'static str = "-h";

pub const NUM_EXPECTED_REQUESTED_HOST_ARGS: usize = 1;

/// An address written as four decimal octets separated by dots, a colon and
/// the decimal port.
pub open spec fn host_port_text(host: Seq<u8>, port: u16) -> Seq<char> {
    encoding::decimal_chars(host[0] as nat) + "."@ + encoding::decimal_chars(host[1] as nat) + "."@
        + encoding::decimal_chars(host[2] as nat) + "."@ + encoding::decimal_chars(host[3] as nat)
        + ":"@ + encoding::decimal_chars(port as nat)
}

/// Writes an address and port as `a.b.c.d:port`.
pub fn host_port_string(host: [u8; 4], port: u16) -> (r: String)
    ensures
        r@ == host_port_text(host@, port),
{
    let mut s = String::new();
    encoding::push_decimal_str(&mut s, host[0] as u64);
    s.append(".");
    encoding::push_decimal_str(&mut s, host[1] as u64);
    s.append(".");
    encoding::push_decimal_str(&mut s, host[2] as u64);
    s.append(".");
    encoding::push_decimal_str(&mut s, host[3] as u64);
    s.append(":");
    encoding::push_decimal_str(&mut s, port as u64);
    s
}

/// The default host and port as `a.b.c.d:port`.
pub fn get_host_name_full() -> (r: String)
    ensures
        r@ == host_port_text(DEFAULT_HOST@, DEFAULT_PORT),
{
    host_port_string(DEFAULT_HOST, DEFAULT_PORT)
}

} // verus!
