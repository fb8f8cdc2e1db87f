//! The command-line arguments of the client.
use vstd::prelude::*;
use crate::encoding;
use crate::server::utils::cli::{
    args_view,
    parse_single_value_arg,
    parse_u16,
    prepare_cli_args,
    spec_parse_unsigned,
    spec_prepare_cli_args,
    ArgValue,
    ArgView,
    BadArgumentsError,
    CliArg,
    StringArgToValue,
};
use crate::server::utils::constants::{
    DEFAULT_HOST,
    DEFAULT_PASSWORD,
    DEFAULT_PORT,
    DEFAULT_PROTOCOL_VERSION,
    DEFAULT_REQUESTED_DB,
    DEFAULT_USERNAME,
    NUM_EXPECTED_PASSWORD_ARGS,
    NUM_EXPECTED_PROTOCOL_ARGS,
    NUM_EXPECTED_REQUESTED_DB_ARGS,
    NUM_EXPECTED_REQUESTED_HOST_ARGS,
    NUM_EXPECTED_REQUESTED_PORT_ARGS,
    NUM_EXPECTED_USERNAME_ARGS,
    PASSWORD_STR,
    PASSWORD_STR_SHORT,
    PROTOCOL_STR,
    PROTOCOL_STR_SHORT,
    REQUESTED_DB_STR,
    REQUESTED_DB_STR_SHORT,
    REQUESTED_HOST_STR,
    REQUESTED_HOST_STR_SHORT,
    REQUESTED_PORT_STR,
    REQUESTED_PORT_STR_SHORT,
    USERNAME_STR,
    USERNAME_STR_SHORT,
};
use crate::server::utils::ip::{spec_parse_ipv4, Ipv4Addr};

verus! {

/// What the client connects to and as whom.
#[derive(Debug)]
pub struct ClientCliArgs {
    pub requested_db: String,
    pub requested_host: Ipv4Addr,
    pub requested_port: u16,
    pub username: String,
    pub password: String,
    pub protocol_version: u16,
}

/// The group an argument name belongs to: the database, the host, the port,
/// the password, the user name or the protocol version; -1 for an unknown
/// name.
pub open spec fn client_group(name: Seq<char>) -> int {
    if name == REQUESTED_DB_STR@ || name == REQUESTED_DB_STR_SHORT@ {
        0
    } else if name == REQUESTED_HOST_STR@ || name == REQUESTED_HOST_STR_SHORT@ {
        1
    } else if name == REQUESTED_PORT_STR@ || name == REQUESTED_PORT_STR_SHORT@ {
        2
    } else if name == PASSWORD_STR@ || name == PASSWORD_STR_SHORT@ {
        3
    } else if name == USERNAME_STR@ || name == USERNAME_STR_SHORT@ {
        4
    } else if name == PROTOCOL_STR@ || name == PROTOCOL_STR_SHORT@ {
        5
    } else {
        -1
    }
}

/// The first value of the first of `args[0..n]` in group `g`.
pub open spec fn group_value(args: Seq<ArgView>, g: int, n: int) -> Option<Seq<char>>
    decreases n,
{
    if n <= 0 {
        None
    } else {
        match group_value(args, g, n - 1) {
            Some(v) => Some(v),
            None => if client_group(args[n - 1].0) == g {
                Some(args[n - 1].1[0])
            } else {
                None
            },
        }
    }
}

/// The value `v` of an argument of group `g` cannot be read.
pub open spec fn value_fails(g: int, v: Seq<char>) -> bool {
    (g == 1 && spec_parse_ipv4(v) is None) || (g == 2 && spec_parse_unsigned(v, u16::MAX as int) is None)
}

/// Argument `i` is refused: unknown, a repeated group, not one value, or a
/// value that cannot be read.
pub open spec fn arg_fails(args: Seq<ArgView>, i: int) -> bool {
    let g = client_group(args[i].0);
    ||| g == -1
    ||| group_value(args, g, i) is Some
    ||| args[i].1.len() != 1
    ||| value_fails(g, args[i].1[0])
}

/// The first refused argument from `i` on.
pub open spec fn first_fail(args: Seq<ArgView>, i: int) -> Option<int>
    decreases args.len() - i,
{
    if i < 0 || i >= args.len() {
        None
    } else if arg_fails(args, i) {
        Some(i)
    } else {
        first_fail(args, i + 1)
    }
}

/// `e` is the error for refused argument `i`.
pub open spec fn fail_is(e: BadArgumentsError, args: Seq<ArgView>, i: int) -> bool {
    let a = args[i];
    let g = client_group(a.0);
    if g == -1 {
        e matches BadArgumentsError::UnknownArg(x) && x.spec_view() == a
    } else if group_value(args, g, i) is Some {
        e matches BadArgumentsError::DuplicateArg(x) && x.spec_view() == a
    } else if a.1.len() < 1 {
        e matches BadArgumentsError::NotEnoughValues { arg: x, expected } && x.spec_view() == a
            && expected == 1
    } else if a.1.len() > 1 {
        e matches BadArgumentsError::TooManyValues { arg: x, expected } && x.spec_view() == a
            && expected == 1
    } else {
        e matches BadArgumentsError::ParseError { arg: x, target_type: t } && x.spec_view() == a
            && t@ == (if g == 1 {
            "core::net::ip_addr::Ipv4Addr"@
        } else {
            "u16"@
        })
    }
}

/// `c` holds the values that the accepted arguments `args` give, with the
/// defaults for the groups that no argument names.
pub open spec fn client_args_are(c: ClientCliArgs, args: Seq<ArgView>) -> bool {
    let n = args.len() as int;
    let protocol_text = match group_value(args, 5, n) {
        Some(v) => v,
        None => encoding::decimal_chars(DEFAULT_PROTOCOL_VERSION as nat),
    };
    &&& c.requested_db@ == (match group_value(args, 0, n) {
        Some(v) => v,
        None => DEFAULT_REQUESTED_DB@,
    })
    &&& c.requested_host.octets@ == (match group_value(args, 1, n) {
        Some(v) => spec_parse_ipv4(v).unwrap(),
        None => DEFAULT_HOST@,
    })
    &&& c.requested_port == (match group_value(args, 2, n) {
        Some(v) => spec_parse_unsigned(v, u16::MAX as int).unwrap() as u16,
        None => DEFAULT_PORT,
    })
    &&& c.password@ == (match group_value(args, 3, n) {
        Some(v) => v,
        None => DEFAULT_PASSWORD@,
    })
    &&& c.username@ == (match group_value(args, 4, n) {
        Some(v) => v,
        None => DEFAULT_USERNAME@,
    })
    &&& c.protocol_version == (match spec_parse_unsigned(protocol_text, u16::MAX as int) {
        Some(p) => p as u16,
        None => DEFAULT_PROTOCOL_VERSION,
    })
}

/// The holder of group `g` reflects `args[0..i]`.
pub open spec fn holder_ok<T: ArgValue>(h: StringArgToValue<T>, args: Seq<ArgView>, g: int, i: int) -> bool {
    &&& (h.val is Some <==> group_value(args, g, i) is Some)
    &&& h.val matches Some(v) ==> T::parses_to(group_value(args, g, i).unwrap(), v)
}

impl ClientCliArgs {
    /// The defaults: the test database on the default host and port, the
    /// default user and password, the default protocol version.
    pub fn default() -> (r: Self)
        ensures
            r.requested_db@ == DEFAULT_REQUESTED_DB@,
            r.requested_host.octets@ == DEFAULT_HOST@,
            r.requested_port == DEFAULT_PORT,
            r.username@ == DEFAULT_USERNAME@,
            r.password@ == DEFAULT_PASSWORD@,
            r.protocol_version == DEFAULT_PROTOCOL_VERSION,
    {
        ClientCliArgs {
            requested_db: DEFAULT_REQUESTED_DB.to_owned(),
            requested_host: Ipv4Addr { octets: DEFAULT_HOST },
            requested_port: DEFAULT_PORT,
            username: DEFAULT_USERNAME.to_owned(),
            password: DEFAULT_PASSWORD.to_owned(),
            protocol_version: DEFAULT_PROTOCOL_VERSION,
        }
    }

    /// Reads the client's settings from the command-line words (without the
    /// program name). No words give the defaults. The words must group into
    /// named arguments; the first refused argument is answered with its
    /// error; otherwise each group takes the value of its argument, or its
    /// default. A protocol version that is not a number gives the default
    /// version.
    pub fn from_cli_args(raw_args: Vec<String>) -> (r: Result<Self, BadArgumentsError>)
        requires
            raw_args@.len() > 0 ==> spec_prepare_cli_args(raw_args.deep_view()) is Ok,
        ensures
            raw_args@.len() == 0 ==> (r matches Ok(c) && client_args_are(c, Seq::empty())),
            raw_args@.len() > 0 ==> ({
                let args = spec_prepare_cli_args(raw_args.deep_view())->Ok_0;
                match first_fail(args, 0) {
                    Some(i) => r matches Err(e) && fail_is(e, args, i),
                    None => r matches Ok(c) && client_args_are(c, args),
                }
            }),
    {
        if raw_args.len() == 0 {
            let c = ClientCliArgs::default();
            proof {
                reveal_strlit("1");
            }
            assert(encoding::decimal_chars(DEFAULT_PROTOCOL_VERSION as nat) =~= seq!['1']);
            assert(spec_parse_unsigned(seq!['1'], u16::MAX as int) == Some(1int)) by {
                assert(seq!['1'].drop_last() =~= Seq::<char>::empty());
                assert('0' <= seq!['1'][0] <= '9');
                assert(crate::server::utils::cli::all_digits(seq!['1']));
                assert(crate::server::utils::cli::digits_value(Seq::<char>::empty()) == 0);
                assert(('1' as int) - ('0' as int) == 1);
                assert(crate::server::utils::cli::digits_value(seq!['1']) == 1);
            }
            return Ok(c);
        }
        let ghost all = raw_args.deep_view();
        let mut cli_args: Vec<CliArg> = prepare_cli_args(raw_args).unwrap();
        let ghost args = args_view(cli_args@);
        let mut requested_db: StringArgToValue<String> = StringArgToValue::new();
        let mut requested_host: StringArgToValue<Ipv4Addr> = StringArgToValue::new();
        let mut requested_port: StringArgToValue<u16> = StringArgToValue::new();
        let mut username: StringArgToValue<String> = StringArgToValue::new();
        let mut password: StringArgToValue<String> = StringArgToValue::new();
        let mut protocol_version: StringArgToValue<String> = StringArgToValue::new();
        let ghost mut i: int = 0;
        while cli_args.len() > 0
            invariant
                raw_args@.len() > 0,
                all == raw_args.deep_view(),
                args == spec_prepare_cli_args(all)->Ok_0,
                0 <= i <= args.len(),
                args_view(cli_args@) == args.skip(i),
                first_fail(args, 0) == first_fail(args, i),
                holder_ok(requested_db, args, 0, i),
                holder_ok(requested_host, args, 1, i),
                holder_ok(requested_port, args, 2, i),
                holder_ok(password, args, 3, i),
                holder_ok(username, args, 4, i),
                holder_ok(protocol_version, args, 5, i),
            decreases cli_args@.len(),
        {
            let ghost before = cli_args@;
            assert(args_view(before).len() == before.len());
            assert(i < args.len());
            let arg = cli_args.remove(0);
            assert(args_view(before)[0] == before[0].spec_view());
            assert(args.skip(i)[0] == args[i]);
            assert(arg.spec_view() == args[i]);
            assert(args_view(cli_args@) =~= args_view(before).skip(1));
            assert(args_view(cli_args@) =~= args.skip(i + 1));
            let ghost a = args[i];
            let ghost g = client_group(a.0);
            let name = arg.name.as_str();
            let res = if encoding::str_eq(name, REQUESTED_DB_STR) || encoding::str_eq(
                name,
                REQUESTED_DB_STR_SHORT,
            ) {
                parse_single_value_arg(arg, &mut requested_db, NUM_EXPECTED_REQUESTED_DB_ARGS)
            } else if encoding::str_eq(name, REQUESTED_HOST_STR) || encoding::str_eq(
                name,
                REQUESTED_HOST_STR_SHORT,
            ) {
                parse_single_value_arg(arg, &mut requested_host, NUM_EXPECTED_REQUESTED_HOST_ARGS)
            } else if encoding::str_eq(name, REQUESTED_PORT_STR) || encoding::str_eq(
                name,
                REQUESTED_PORT_STR_SHORT,
            ) {
                parse_single_value_arg(arg, &mut requested_port, NUM_EXPECTED_REQUESTED_PORT_ARGS)
            } else if encoding::str_eq(name, PASSWORD_STR) || encoding::str_eq(
                name,
                PASSWORD_STR_SHORT,
            ) {
                parse_single_value_arg(arg, &mut password, NUM_EXPECTED_PASSWORD_ARGS)
            } else if encoding::str_eq(name, USERNAME_STR) || encoding::str_eq(
                name,
                USERNAME_STR_SHORT,
            ) {
                parse_single_value_arg(arg, &mut username, NUM_EXPECTED_USERNAME_ARGS)
            } else if encoding::str_eq(name, PROTOCOL_STR) || encoding::str_eq(
                name,
                PROTOCOL_STR_SHORT,
            ) {
                parse_single_value_arg(arg, &mut protocol_version, NUM_EXPECTED_PROTOCOL_ARGS)
            } else {
                Err(BadArgumentsError::UnknownArg(arg))
            };
            match res {
                Ok(()) => {},
                Err(e) => {
                    assert(arg_fails(args, i));
                    return Err(e);
                },
            }
            assert(!arg_fails(args, i));
            proof {
                i = i + 1;
            }
        }
        assert(args.skip(i).len() == 0);
        assert(first_fail(args, i) is None);
        let requested_db = match requested_db.val {
            Some(v) => v,
            None => DEFAULT_REQUESTED_DB.to_owned(),
        };
        let requested_host = match requested_host.val {
            Some(v) => v,
            None => Ipv4Addr { octets: DEFAULT_HOST },
        };
        let requested_port = match requested_port.val {
            Some(v) => v,
            None => DEFAULT_PORT,
        };
        let username = match username.val {
            Some(v) => v,
            None => DEFAULT_USERNAME.to_owned(),
        };
        let password = match password.val {
            Some(v) => v,
            None => DEFAULT_PASSWORD.to_owned(),
        };
        let protocol_text = match protocol_version.val {
            Some(v) => v,
            None => {
                let mut t = String::new();
                encoding::push_decimal_str(&mut t, DEFAULT_PROTOCOL_VERSION as u64);
                t
            },
        };
        let protocol_version: u16 = match parse_u16(protocol_text.as_str()) {
            Some(p) => p,
            None => DEFAULT_PROTOCOL_VERSION,
        };
        proof {
            crate::server::utils::cli::lemma_parse_unsigned_nonneg(protocol_text@, u16::MAX as int);
        }
        Ok(
            ClientCliArgs {
                requested_db,
                requested_host,
                requested_port,
                username,
                password,
                protocol_version,
            },
        )
    }
}

} // verus!
