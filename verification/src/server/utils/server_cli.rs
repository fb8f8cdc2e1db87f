//! The command-line arguments of the server.
use vstd::prelude::*;
use crate::db::db::Version;
use crate::server::utils::cli::{
    args_view,
    parse_single_value_arg,
    prepare_cli_args,
    spec_parse_unsigned,
    spec_prepare_cli_args,
    ArgValue,
    ArgView,
    BadArgumentsError,
    CliArg,
    StringArgToValue,
};
use crate::server::utils::constants::{
    DEFAULT_DB_VERSION_MAJOR,
    DEFAULT_DB_VERSION_MINOR,
    DEFAULT_HOST,
    DEFAULT_NUM_WORKERS,
    DEFAULT_PORT,
    DEFAULT_SELECTED_DB,
    HOST_STR,
    HOST_STR_SHORT,
    NUM_EXPECTED_HOST_ARGS,
    NUM_EXPECTED_NUM_WORKERS_ARGS,
    NUM_EXPECTED_PORT_ARGS,
    NUM_EXPECTED_VERSION_ARGS,
    NUM_WORKERS_STR,
    NUM_WORKERS_STR_SHORT,
    PORT_STR,
    PORT_STR_SHORT,
    VERSION_STR,
    VERSION_STR_SHORT,
};
use crate::server::utils::ip::{spec_parse_ipv4, Ipv4Addr, SocketAddrV4};
use crate::encoding;

verus! {

/// A database version has no text form: every value given for it is refused.
impl ArgValue for Version {
    open spec fn spec_target_type() -> Seq<char> {
        "selia::db::db::Version"@
    }

    fn target_type() -> (r: String) {
        "selia::db::db::Version".to_owned()
    }

    open spec fn parses_to(s: Seq<char>, v: Self) -> bool {
        false
    }

    open spec fn parse_fails(s: Seq<char>) -> bool {
        true
    }

    fn parse_value(s: &str) -> (r: Option<Self>) {
        None
    }
}

/// Where the server listens, the database version and database it serves,
/// and how many workers answer queries.
#[derive(Debug)]
pub struct ServerCliArgs {
    pub addr: SocketAddrV4,
    pub db_version: Version,
    pub selected_db: String,
    pub num_worker_threads: u8,
}

/// The group an argument name belongs to: the host, the port, the database
/// version or the number of workers; -1 for an unknown name.
pub open spec fn server_group(name: Seq<char>) -> int {
    if name == HOST_STR@ || name == HOST_STR_SHORT@ {
        0
    } else if name == PORT_STR@ || name == PORT_STR_SHORT@ {
        1
    } else if name == VERSION_STR@ || name == VERSION_STR_SHORT@ {
        2
    } else if name == NUM_WORKERS_STR@ || name == NUM_WORKERS_STR_SHORT@ {
        3
    } else {
        -1
    }
}

/// The first value of the first of `args[0..n]` in group `g`.
pub open spec fn server_group_value(args: Seq<ArgView>, g: int, n: int) -> Option<Seq<char>>
    decreases n,
{
    if n <= 0 {
        None
    } else {
        match server_group_value(args, g, n - 1) {
            Some(v) => Some(v),
            None => if server_group(args[n - 1].0) == g {
                Some(args[n - 1].1[0])
            } else {
                None
            },
        }
    }
}

/// The value `v` of an argument of group `g` cannot be read.
pub open spec fn server_value_fails(g: int, v: Seq<char>) -> bool {
    ||| (g == 0 && spec_parse_ipv4(v) is None)
    ||| (g == 1 && spec_parse_unsigned(v, u16::MAX as int) is None)
    ||| g == 2
    ||| (g == 3 && spec_parse_unsigned(v, u8::MAX as int) is None)
}

/// Argument `i` is refused: unknown, a repeated group, not one value, or a
/// value that cannot be read.
pub open spec fn server_arg_fails(args: Seq<ArgView>, i: int) -> bool {
    let g = server_group(args[i].0);
    ||| g == -1
    ||| server_group_value(args, g, i) is Some
    ||| args[i].1.len() != 1
    ||| server_value_fails(g, args[i].1[0])
}

/// The first refused argument from `i` on.
pub open spec fn server_first_fail(args: Seq<ArgView>, i: int) -> Option<int>
    decreases args.len() - i,
{
    if i < 0 || i >= args.len() {
        None
    } else if server_arg_fails(args, i) {
        Some(i)
    } else {
        server_first_fail(args, i + 1)
    }
}

/// The name of the type that a value of group `g` is read as.
pub open spec fn server_target_type(g: int) -> Seq<char> {
    if g == 0 {
        "core::net::ip_addr::Ipv4Addr"@
    } else if g == 1 {
        "u16"@
    } else if g == 2 {
        "selia::db::db::Version"@
    } else {
        "u8"@
    }
}

/// `e` is the error for refused argument `i`.
pub open spec fn server_fail_is(e: BadArgumentsError, args: Seq<ArgView>, i: int) -> bool {
    let a = args[i];
    let g = server_group(a.0);
    if g == -1 {
        e matches BadArgumentsError::UnknownArg(x) && x.spec_view() == a
    } else if server_group_value(args, g, i) is Some {
        e matches BadArgumentsError::DuplicateArg(x) && x.spec_view() == a
    } else if a.1.len() < 1 {
        e matches BadArgumentsError::NotEnoughValues { arg: x, expected } && x.spec_view() == a
            && expected == 1
    } else if a.1.len() > 1 {
        e matches BadArgumentsError::TooManyValues { arg: x, expected } && x.spec_view() == a
            && expected == 1
    } else {
        e matches BadArgumentsError::ParseError { arg: x, target_type: t } && x.spec_view() == a
            && t@ == server_target_type(g)
    }
}

/// `c` holds the values that the accepted arguments `args` give, with the
/// defaults for the groups that no argument names.
pub open spec fn server_args_are(c: ServerCliArgs, args: Seq<ArgView>) -> bool {
    let n = args.len() as int;
    &&& c.addr.ip.octets@ == (match server_group_value(args, 0, n) {
        Some(v) => spec_parse_ipv4(v).unwrap(),
        None => DEFAULT_HOST@,
    })
    &&& c.addr.port == (match server_group_value(args, 1, n) {
        Some(v) => spec_parse_unsigned(v, u16::MAX as int).unwrap() as u16,
        None => DEFAULT_PORT,
    })
    &&& c.db_version == Version { major: DEFAULT_DB_VERSION_MAJOR, minor: DEFAULT_DB_VERSION_MINOR }
    &&& c.selected_db@ == DEFAULT_SELECTED_DB@
    &&& c.num_worker_threads == (match server_group_value(args, 3, n) {
        Some(v) => spec_parse_unsigned(v, u8::MAX as int).unwrap() as u8,
        None => DEFAULT_NUM_WORKERS,
    })
}

/// The holder of group `g` reflects `args[0..i]`.
pub open spec fn server_holder_ok<T: ArgValue>(
    h: StringArgToValue<T>,
    args: Seq<ArgView>,
    g: int,
    i: int,
) -> bool {
    &&& (h.val is Some <==> server_group_value(args, g, i) is Some)
    &&& h.val matches Some(v) ==> T::parses_to(server_group_value(args, g, i).unwrap(), v)
}

impl ServerCliArgs {
    /// The defaults: the default host and port, database version and
    /// database, and the default number of workers.
    pub fn default() -> (r: Self)
        ensures
            r.addr.ip.octets@ == DEFAULT_HOST@,
            r.addr.port == DEFAULT_PORT,
            r.db_version == (Version { major: DEFAULT_DB_VERSION_MAJOR, minor: DEFAULT_DB_VERSION_MINOR }),
            r.selected_db@ == DEFAULT_SELECTED_DB@,
            r.num_worker_threads == DEFAULT_NUM_WORKERS,
    {
        ServerCliArgs {
            addr: SocketAddrV4::new(Ipv4Addr { octets: DEFAULT_HOST }, DEFAULT_PORT),
            db_version: Version::new(DEFAULT_DB_VERSION_MAJOR, DEFAULT_DB_VERSION_MINOR),
            selected_db: DEFAULT_SELECTED_DB.to_owned(),
            num_worker_threads: DEFAULT_NUM_WORKERS,
        }
    }

    /// Reads the server's settings from the command-line words (without the
    /// program name). No words give the defaults. The words must group into
    /// named arguments; the first refused argument is answered with its
    /// error; otherwise each group takes the value of its argument, or its
    /// default.
    pub fn from_cli_args(raw_args: Vec<String>) -> (r: Result<Self, BadArgumentsError>)
        requires
            raw_args@.len() > 0 ==> spec_prepare_cli_args(raw_args.deep_view()) is Ok,
        ensures
            raw_args@.len() == 0 ==> (r matches Ok(c) && server_args_are(c, Seq::empty())),
            raw_args@.len() > 0 ==> ({
                let args = spec_prepare_cli_args(raw_args.deep_view())->Ok_0;
                match server_first_fail(args, 0) {
                    Some(i) => r matches Err(e) && server_fail_is(e, args, i),
                    None => r matches Ok(c) && server_args_are(c, args),
                }
            }),
    {
        if raw_args.len() == 0 {
            return Ok(ServerCliArgs::default());
        }
        let ghost all = raw_args.deep_view();
        let mut cli_args: Vec<CliArg> = prepare_cli_args(raw_args).unwrap();
        let ghost args = args_view(cli_args@);
        let mut host: StringArgToValue<Ipv4Addr> = StringArgToValue::new();
        let mut port: StringArgToValue<u16> = StringArgToValue::new();
        let mut db_version: StringArgToValue<Version> = StringArgToValue::new();
        let mut num_worker_threads: StringArgToValue<u8> = StringArgToValue::new();
        let ghost mut i: int = 0;
        while cli_args.len() > 0
            invariant
                raw_args@.len() > 0,
                all == raw_args.deep_view(),
                args == spec_prepare_cli_args(all)->Ok_0,
                0 <= i <= args.len(),
                args_view(cli_args@) == args.skip(i),
                server_first_fail(args, 0) == server_first_fail(args, i),
                server_holder_ok(host, args, 0, i),
                server_holder_ok(port, args, 1, i),
                server_holder_ok(db_version, args, 2, i),
                server_holder_ok(num_worker_threads, args, 3, i),
            decreases cli_args@.len(),
        {
            let ghost before = cli_args@;
            assert(args_view(before).len() == before.len());
            assert(i < args.len());
            let arg = cli_args.remove(0);
            assert(args_view(before)[0] == before[0].spec_view());
            assert(args.skip(i)[0] == args[i]);
            assert(arg.spec_view() == args[i]);
            assert(args_view(cli_args@) =~= args_view(before).skip(1));
            assert(args_view(cli_args@) =~= args.skip(i + 1));
            let name = arg.name.as_str();
            let res = if encoding::str_eq(name, HOST_STR) || encoding::str_eq(name, HOST_STR_SHORT) {
                parse_single_value_arg(arg, &mut host, NUM_EXPECTED_HOST_ARGS)
            } else if encoding::str_eq(name, PORT_STR) || encoding::str_eq(name, PORT_STR_SHORT) {
                parse_single_value_arg(arg, &mut port, NUM_EXPECTED_PORT_ARGS)
            } else if encoding::str_eq(name, VERSION_STR) || encoding::str_eq(name, VERSION_STR_SHORT) {
                parse_single_value_arg(arg, &mut db_version, NUM_EXPECTED_VERSION_ARGS)
            } else if encoding::str_eq(name, NUM_WORKERS_STR) || encoding::str_eq(
                name,
                NUM_WORKERS_STR_SHORT,
            ) {
                parse_single_value_arg(arg, &mut num_worker_threads, NUM_EXPECTED_NUM_WORKERS_ARGS)
            } else {
                Err(BadArgumentsError::UnknownArg(arg))
            };
            match res {
                Ok(()) => {},
                Err(e) => {
                    assert(server_arg_fails(args, i));
                    return Err(e);
                },
            }
            assert(!server_arg_fails(args, i));
            proof {
                i = i + 1;
            }
        }
        assert(args.skip(i).len() == 0);
        assert(server_first_fail(args, i) is None);
        let host = match host.val {
            Some(v) => v,
            None => Ipv4Addr { octets: DEFAULT_HOST },
        };
        let port = match port.val {
            Some(v) => v,
            None => DEFAULT_PORT,
        };
        let num_worker_threads = match num_worker_threads.val {
            Some(v) => v,
            None => DEFAULT_NUM_WORKERS,
        };
        Ok(
            ServerCliArgs {
                addr: SocketAddrV4::new(host, port),
                db_version: Version::new(DEFAULT_DB_VERSION_MAJOR, DEFAULT_DB_VERSION_MINOR),
                selected_db: DEFAULT_SELECTED_DB.to_owned(),
                num_worker_threads,
            },
        )
    }
}

} // verus!
