//! The `tcp-echo` command line.

use vstd::prelude::*;
use crate::text::{
    decimal, parse_error_text, parse_u16, parse_u32, parse_u64, parse_usize, push_decimal,
    split_at_commas, split_commas, text_eq, trim, trimmed, u16_parse_error, u64_parse_error,
    unsigned_at_most, unsigned_max, Unsigned,
};

verus! {

/// Maximum number of ports allowed.
pub const MAX_PORTS: usize = 10;

/// Maximum number of connections allowed.
pub const MAX_CONNECTIONS: u32 = 1000;

/// Above this many connections the client ramps up adaptively, in batches.
pub const ADAPTIVE_RAMP_MIN_CONNECTIONS: u32 = 500;

/// Server mode configuration. The report interval is in whole seconds.
pub struct ServerConfig {
    pub ports: Vec<u16>,
    pub bind_addr: String,
    pub report_interval_secs: u64,
}

/// Client mode configuration. Durations are in whole seconds; a total
/// `duration_secs` of 0 runs until interrupted. The ramp is adaptive for
/// more than `ADAPTIVE_RAMP_MIN_CONNECTIONS` connections; its batch settings
/// are not set from the command line.
pub struct ClientConfig {
    pub host: String,
    pub ports: Vec<u16>,
    pub connections: u32,
    pub rate: u64,
    pub ramp_duration_secs: u64,
    pub report_interval_secs: u64,
    pub duration_secs: u64,
    pub payload_size: usize,
    pub adaptive_ramp: bool,
    pub ramp_batch: u32,
    pub ramp_max_batch: u32,
    pub ramp_max_retries: u32,
}

/// Parsed subcommand.
pub enum Command {
    Server(ServerConfig),
    Client(ClientConfig),
}

/// The usage text a `--help` asks for.
#[derive(Debug, Clone, Copy, PartialEq, Eq)]
pub enum HelpTopic {
    Main,
    Server,
    Client,
}

/// What the command line asks for: a run, or a usage text.
pub enum ParsedArgs {
    Run(Command),
    Help(HelpTopic),
}

pub struct ServerConfigView {
    pub ports: Seq<u16>,
    pub bind_addr: Seq<char>,
    pub report_interval_secs: u64,
}

pub struct ClientConfigView {
    pub host: Seq<char>,
    pub ports: Seq<u16>,
    pub connections: u32,
    pub rate: u64,
    pub ramp_duration_secs: u64,
    pub report_interval_secs: u64,
    pub duration_secs: u64,
    pub payload_size: usize,
    pub adaptive_ramp: bool,
    pub ramp_batch: u32,
    pub ramp_max_batch: u32,
    pub ramp_max_retries: u32,
}

pub enum ParsedView {
    Server(ServerConfigView),
    Client(ClientConfigView),
    Help(HelpTopic),
}

impl View for ServerConfig {
    type V = ServerConfigView;

    open spec fn view(&self) -> ServerConfigView {
        ServerConfigView {
            ports: self.ports@,
            bind_addr: self.bind_addr@,
            report_interval_secs: self.report_interval_secs,
        }
    }
}

impl View for ClientConfig {
    type V = ClientConfigView;

    open spec fn view(&self) -> ClientConfigView {
        ClientConfigView {
            host: self.host@,
            ports: self.ports@,
            connections: self.connections,
            rate: self.rate,
            ramp_duration_secs: self.ramp_duration_secs,
            report_interval_secs: self.report_interval_secs,
            duration_secs: self.duration_secs,
            payload_size: self.payload_size,
            adaptive_ramp: self.adaptive_ramp,
            ramp_batch: self.ramp_batch,
            ramp_max_batch: self.ramp_max_batch,
            ramp_max_retries: self.ramp_max_retries,
        }
    }
}

impl View for ParsedArgs {
    type V = ParsedView;

    open spec fn view(&self) -> ParsedView {
        match self {
            ParsedArgs::Run(Command::Server(c)) => ParsedView::Server(c@),
            ParsedArgs::Run(Command::Client(c)) => ParsedView::Client(c@),
            ParsedArgs::Help(t) => ParsedView::Help(*t),
        }
    }
}

/// Server defaults: no ports, bind to all addresses, report every 10 s.
pub open spec fn server_defaults() -> ServerConfigView {
    ServerConfigView { ports: Seq::empty(), bind_addr: "0.0.0.0"@, report_interval_secs: 10 }
}

/// Client defaults: 10 connections to 127.0.0.1 at 1024 B/s in total,
/// ramped over 10 s, reporting every 10 s, running until interrupted, with
/// 1024-byte writes; the adaptive ramp (off) starts with batches of 50,
/// grows up to 2000 and retries a failed connection up to 3 times.
pub open spec fn client_defaults() -> ClientConfigView {
    ClientConfigView {
        host: "127.0.0.1"@,
        ports: Seq::empty(),
        connections: 10,
        rate: 1024,
        ramp_duration_secs: 10,
        report_interval_secs: 10,
        duration_secs: 0,
        payload_size: 1024,
        adaptive_ramp: false,
        ramp_batch: 50,
        ramp_max_batch: 2000,
        ramp_max_retries: 3,
    }
}

impl Default for ServerConfig {
    fn default() -> (c: ServerConfig)
        ensures
            c@ == server_defaults(),
    {
        ServerConfig {
            ports: Vec::new(),
            bind_addr: String::from_str("0.0.0.0"),
            report_interval_secs: 10,
        }
    }
}

impl Default for ClientConfig {
    fn default() -> (c: ClientConfig)
        ensures
            c@ == client_defaults(),
    {
        ClientConfig {
            host: String::from_str("127.0.0.1"),
            ports: Vec::new(),
            connections: 10,
            rate: 1024,
            ramp_duration_secs: 10,
            report_interval_secs: 10,
            duration_secs: 0,
            payload_size: 1024,
            adaptive_ramp: false,
            ramp_batch: 50,
            ramp_max_batch: 2000,
            ramp_max_retries: 3,
        }
    }
}

// --- Ports ---

/// The error text for a port piece that does not parse.
pub open spec fn invalid_port_text(piece: Seq<char>) -> Seq<char> {
    "invalid port '"@ + piece + "': "@ + u16_parse_error(trimmed(piece))
}

/// The ports of `pieces`, each trimmed and read as a `u16`; the first piece
/// that is not one gives its error text.
pub open spec fn parse_pieces(pieces: Seq<Seq<char>>) -> Result<Seq<u16>, Seq<char>>
    decreases pieces.len(),
{
    if pieces.len() == 0 {
        Ok(Seq::empty())
    } else {
        match parse_pieces(pieces.drop_last()) {
            Err(e) => Err(e),
            Ok(ports) => match unsigned_at_most(trimmed(pieces.last()), u16::MAX as nat) {
                Some(p) => Ok(ports.push(p as u16)),
                None => Err(invalid_port_text(pieces.last())),
            },
        }
    }
}

/// A comma-separated list of 1 to 10 non-zero ports.
pub open spec fn parse_ports_spec(s: Seq<char>) -> Result<Seq<u16>, Seq<char>> {
    match parse_pieces(split_commas(s)) {
        Err(e) => Err(e),
        Ok(ports) => if ports.len() == 0 {
            Err("at least one port is required"@)
        } else if ports.len() > MAX_PORTS {
            Err("max "@ + decimal(MAX_PORTS as nat) + " ports allowed"@)
        } else if exists|i: int| 0 <= i < ports.len() && ports[i] == 0 {
            Err("port 0 is not allowed"@)
        } else {
            Ok(ports)
        },
    }
}

/// Parse a comma-separated list of port numbers.
pub fn parse_ports(s: &str) -> (r: Result<Vec<u16>, String>)
    ensures
        match parse_ports_spec(s@) {
            Ok(ports) => r matches Ok(v) && v@ == ports,
            Err(e) => r matches Err(m) && m@ == e,
        },
{
    let pieces = split_at_commas(s);
    let ghost piece_views = pieces@.map_values(|p: String| p@);
    let mut ports: Vec<u16> = Vec::new();
    let mut i: usize = 0;
    while i < pieces.len()
        invariant
            i <= pieces@.len(),
            piece_views == pieces@.map_values(|p: String| p@),
            piece_views == split_commas(s@),
            parse_pieces(piece_views.take(i as int)) == Ok::<Seq<u16>, Seq<char>>(ports@),
        decreases pieces@.len() - i,
    {
        let p = pieces[i].as_str();
        assert(piece_views.take(i + 1).drop_last() =~= piece_views.take(i as int));
        assert(piece_views.take(i + 1).last() == p@);
        match parse_u16(trim(p)) {
            Ok(port) => {
                ports.push(port);
            },
            Err(e) => {
                let mut message = String::from_str("invalid port '");
                message.append(p);
                message.append("': ");
                message.append(e.as_str());
                proof {
                    let pre = piece_views.take(i as int);
                    let k = i as int;
                    // The error of piece i is the first one.
                    assert(parse_pieces(piece_views.take(i + 1)) == Err::<Seq<u16>, Seq<char>>(
                        invalid_port_text(p@),
                    ));
                    lemma_parse_pieces_first_error(piece_views, k + 1);
                }
                return Err(message);
            },
        }
        i = i + 1;
    }
    assert(piece_views.take(pieces@.len() as int) =~= piece_views);
    if ports.len() == 0 {
        return Err(String::from_str("at least one port is required"));
    }
    if ports.len() > MAX_PORTS {
        let mut message = String::from_str("max ");
        push_decimal(&mut message, MAX_PORTS as u64);
        message.append(" ports allowed");
        return Err(message);
    }
    let mut j: usize = 0;
    while j < ports.len()
        invariant
            j <= ports@.len(),
            0 < ports@.len() <= MAX_PORTS,
            parse_pieces(split_commas(s@)) == Ok::<Seq<u16>, Seq<char>>(ports@),
            forall|k: int| 0 <= k < j ==> ports@[k] != 0,
        decreases ports@.len() - j,
    {
        if ports[j] == 0 {
            assert(ports@[j as int] == 0);
            return Err(String::from_str("port 0 is not allowed"));
        }
        j = j + 1;
    }
    Ok(ports)
}

/// An error among the first `n` pieces is the error of the whole list.
proof fn lemma_parse_pieces_first_error(pieces: Seq<Seq<char>>, n: int)
    requires
        0 <= n <= pieces.len(),
        parse_pieces(pieces.take(n)) is Err,
    ensures
        parse_pieces(pieces) == parse_pieces(pieces.take(n)),
    decreases pieces.len() - n,
{
    if n < pieces.len() {
        assert(pieces.take(n + 1).drop_last() =~= pieces.take(n));
        lemma_parse_pieces_first_error(pieces, n + 1);
    } else {
        assert(pieces.take(n) =~= pieces);
    }
}

// --- Arguments ---

/// The characters of each argument.
pub open spec fn arg_views(args: Seq<String>) -> Seq<Seq<char>> {
    args.map_values(|a: String| a@)
}

/// A whole-second interval argument: the error text, or its value.
pub open spec fn positive_secs(flag: Seq<char>, value: Seq<char>) -> Result<u64, Seq<char>> {
    match unsigned_at_most(value, u64::MAX as nat) {
        None => Err("invalid "@ + flag + " value: "@ + u64_parse_error(value)),
        Some(v) => if v == 0 {
            Err(flag + " must be positive"@)
        } else {
            Ok(v as u64)
        },
    }
}

/// The server arguments from `i` on, applied to `c`.
pub open spec fn server_args_spec(args: Seq<Seq<char>>, i: int, c: ServerConfigView) -> Result<
    ParsedView,
    Seq<char>,
>
    decreases args.len() - i,
{
    if i < 0 || i >= args.len() {
        if c.ports.len() == 0 {
            Err("--ports is required"@)
        } else {
            Ok(ParsedView::Server(c))
        }
    } else {
        let a = args[i];
        if a == "--ports"@ {
            if i + 1 >= args.len() {
                Err("--ports requires a value"@)
            } else {
                match parse_ports_spec(args[i + 1]) {
                    Err(e) => Err(e),
                    Ok(p) => server_args_spec(args, i + 2, ServerConfigView { ports: p, ..c }),
                }
            }
        } else if a == "--bind"@ {
            if i + 1 >= args.len() {
                Err("--bind requires a value"@)
            } else {
                server_args_spec(args, i + 2, ServerConfigView { bind_addr: args[i + 1], ..c })
            }
        } else if a == "--report-interval"@ {
            if i + 1 >= args.len() {
                Err("--report-interval requires a value"@)
            } else {
                match positive_secs("--report-interval"@, args[i + 1]) {
                    Err(e) => Err(e),
                    Ok(v) => server_args_spec(
                        args,
                        i + 2,
                        ServerConfigView { report_interval_secs: v, ..c },
                    ),
                }
            }
        } else if a == "--help"@ || a == "-h"@ {
            Ok(ParsedView::Help(HelpTopic::Server))
        } else {
            Err("unknown server argument: "@ + a)
        }
    }
}

fn invalid_value(flag: &str, e: &String) -> (m: String)
    ensures
        m@ == "invalid "@ + flag@ + " value: "@ + e@,
{
    let mut m = String::from_str("invalid ");
    m.append(flag);
    m.append(" value: ");
    m.append(e.as_str());
    m
}

fn must_be_positive(flag: &str) -> (m: String)
    ensures
        m@ == flag@ + " must be positive"@,
{
    let mut m = String::from_str(flag);
    m.append(" must be positive");
    m
}

fn parse_positive_secs(flag: &str, value: &str) -> (r: Result<u64, String>)
    ensures
        match positive_secs(flag@, value@) {
            Ok(v) => r == Ok::<u64, String>(v),
            Err(e) => r matches Err(m) && m@ == e,
        },
{
    match parse_u64(value) {
        Err(e) => Err(invalid_value(flag, &e)),
        Ok(v) => if v == 0 {
            Err(must_be_positive(flag))
        } else {
            Ok(v)
        },
    }
}

fn parse_server_args(args: &[String]) -> (r: Result<ParsedArgs, String>)
    ensures
        match server_args_spec(arg_views(args@), 0, server_defaults()) {
            Ok(p) => r matches Ok(v) && v@ == p,
            Err(e) => r matches Err(m) && m@ == e,
        },
{
    let ghost av = arg_views(args@);
    let mut config = ServerConfig::default();
    let mut i: usize = 0;
    while i < args.len()
        invariant
            av == arg_views(args@),
            i <= args@.len(),
            server_args_spec(av, 0, server_defaults()) == server_args_spec(av, i as int, config@),
        decreases args@.len() - i,
    {
        let a = args[i].as_str();
        assert(av[i as int] == a@);
        if text_eq(a, "--ports") {
            if i + 1 >= args.len() {
                return Err(String::from_str("--ports requires a value"));
            }
            assert(av[i + 1] == args@[i + 1]@);
            config.ports = parse_ports(args[i + 1].as_str())?;
        } else if text_eq(a, "--bind") {
            if i + 1 >= args.len() {
                return Err(String::from_str("--bind requires a value"));
            }
            assert(av[i + 1] == args@[i + 1]@);
            config.bind_addr = args[i + 1].clone();
        } else if text_eq(a, "--report-interval") {
            if i + 1 >= args.len() {
                return Err(String::from_str("--report-interval requires a value"));
            }
            assert(av[i + 1] == args@[i + 1]@);
            config.report_interval_secs = parse_positive_secs("--report-interval", args[i + 1].as_str())?;
        } else if text_eq(a, "--help") || text_eq(a, "-h") {
            return Ok(ParsedArgs::Help(HelpTopic::Server));
        } else {
            let mut m = String::from_str("unknown server argument: ");
            m.append(a);
            return Err(m);
        }
        i = i + 2;
    }
    if config.ports.len() == 0 {
        return Err(String::from_str("--ports is required"));
    }
    Ok(ParsedArgs::Run(Command::Server(config)))
}

/// The value of a numeric client argument read as a `k`: its error text, or
/// its value.
pub open spec fn number_arg(flag: Seq<char>, value: Seq<char>, k: Unsigned) -> Result<nat, Seq<char>> {
    match unsigned_at_most(value, unsigned_max(k)) {
        None => Err("invalid "@ + flag + " value: "@ + parse_error_text(k, value)),
        Some(v) => Ok(v),
    }
}

/// The client arguments from `i` on, applied to `c`.
pub open spec fn client_args_spec(args: Seq<Seq<char>>, i: int, c: ClientConfigView) -> Result<
    ParsedView,
    Seq<char>,
>
    decreases args.len() - i,
{
    if i < 0 || i >= args.len() {
        if c.ports.len() == 0 {
            Err("--ports is required"@)
        } else {
            Ok(
                ParsedView::Client(
                    ClientConfigView {
                        adaptive_ramp: c.connections > ADAPTIVE_RAMP_MIN_CONNECTIONS,
                        ..c
                    },
                ),
            )
        }
    } else {
        let a = args[i];
        let has_value = i + 1 < args.len();
        let v = args[i + 1];
        if a == "--host"@ {
            if !has_value {
                Err("--host requires a value"@)
            } else {
                client_args_spec(args, i + 2, ClientConfigView { host: v, ..c })
            }
        } else if a == "--ports"@ {
            if !has_value {
                Err("--ports requires a value"@)
            } else {
                match parse_ports_spec(v) {
                    Err(e) => Err(e),
                    Ok(p) => client_args_spec(args, i + 2, ClientConfigView { ports: p, ..c }),
                }
            }
        } else if a == "--connections"@ {
            if !has_value {
                Err("--connections requires a value"@)
            } else {
                match number_arg(a, v, Unsigned::U32) {
                    Err(e) => Err(e),
                    Ok(n) => if n == 0 {
                        Err("--connections must be positive"@)
                    } else if n > MAX_CONNECTIONS {
                        Err("--connections max is "@ + decimal(MAX_CONNECTIONS as nat))
                    } else {
                        client_args_spec(args, i + 2, ClientConfigView { connections: n as u32, ..c })
                    },
                }
            }
        } else if a == "--rate"@ {
            if !has_value {
                Err("--rate requires a value"@)
            } else {
                match number_arg(a, v, Unsigned::U64) {
                    Err(e) => Err(e),
                    Ok(n) => if n == 0 {
                        Err("--rate must be positive"@)
                    } else {
                        client_args_spec(args, i + 2, ClientConfigView { rate: n as u64, ..c })
                    },
                }
            }
        } else if a == "--ramp-duration"@ {
            if !has_value {
                Err("--ramp-duration requires a value"@)
            } else {
                match number_arg(a, v, Unsigned::U64) {
                    Err(e) => Err(e),
                    Ok(n) => client_args_spec(
                        args,
                        i + 2,
                        ClientConfigView { ramp_duration_secs: n as u64, ..c },
                    ),
                }
            }
        } else if a == "--report-interval"@ {
            if !has_value {
                Err("--report-interval requires a value"@)
            } else {
                match positive_secs(a, v) {
                    Err(e) => Err(e),
                    Ok(n) => client_args_spec(
                        args,
                        i + 2,
                        ClientConfigView { report_interval_secs: n, ..c },
                    ),
                }
            }
        } else if a == "--duration"@ {
            if !has_value {
                Err("--duration requires a value"@)
            } else {
                match number_arg(a, v, Unsigned::U64) {
                    Err(e) => Err(e),
                    Ok(n) => client_args_spec(
                        args,
                        i + 2,
                        ClientConfigView { duration_secs: n as u64, ..c },
                    ),
                }
            }
        } else if a == "--payload-size"@ {
            if !has_value {
                Err("--payload-size requires a value"@)
            } else {
                match number_arg(a, v, Unsigned::Usize) {
                    Err(e) => Err(e),
                    Ok(n) => if n == 0 {
                        Err("--payload-size must be positive"@)
                    } else {
                        client_args_spec(args, i + 2, ClientConfigView { payload_size: n as usize, ..c })
                    },
                }
            }
        } else if a == "--help"@ || a == "-h"@ {
            Ok(ParsedView::Help(HelpTopic::Client))
        } else {
            Err("unknown client argument: "@ + a)
        }
    }
}

fn parse_client_args(args: &[String]) -> (r: Result<ParsedArgs, String>)
    ensures
        match client_args_spec(arg_views(args@), 0, client_defaults()) {
            Ok(p) => r matches Ok(v) && v@ == p,
            Err(e) => r matches Err(m) && m@ == e,
        },
{
    let ghost av = arg_views(args@);
    let mut config = ClientConfig::default();
    let mut i: usize = 0;
    while i < args.len()
        invariant
            av == arg_views(args@),
            i <= args@.len(),
            client_args_spec(av, 0, client_defaults()) == client_args_spec(av, i as int, config@),
        decreases args@.len() - i,
    {
        let a = args[i].as_str();
        assert(av[i as int] == a@);
        if i + 1 < args.len() {
            assert(av[i + 1] == args@[i + 1]@);
        }
        if text_eq(a, "--host") {
            if i + 1 >= args.len() {
                return Err(String::from_str("--host requires a value"));
            }
            config.host = args[i + 1].clone();
        } else if text_eq(a, "--ports") {
            if i + 1 >= args.len() {
                return Err(String::from_str("--ports requires a value"));
            }
            config.ports = parse_ports(args[i + 1].as_str())?;
        } else if text_eq(a, "--connections") {
            if i + 1 >= args.len() {
                return Err(String::from_str("--connections requires a value"));
            }
            let n = match parse_u32(args[i + 1].as_str()) {
                Ok(n) => n,
                Err(e) => {
                    return Err(invalid_value(a, &e));
                },
            };
            if n == 0 {
                return Err(String::from_str("--connections must be positive"));
            }
            if n > MAX_CONNECTIONS {
                let mut m = String::from_str("--connections max is ");
                push_decimal(&mut m, MAX_CONNECTIONS as u64);
                return Err(m);
            }
            config.connections = n;
        } else if text_eq(a, "--rate") {
            if i + 1 >= args.len() {
                return Err(String::from_str("--rate requires a value"));
            }
            let r = match parse_u64(args[i + 1].as_str()) {
                Ok(r) => r,
                Err(e) => {
                    return Err(invalid_value(a, &e));
                },
            };
            if r == 0 {
                return Err(String::from_str("--rate must be positive"));
            }
            config.rate = r;
        } else if text_eq(a, "--ramp-duration") {
            if i + 1 >= args.len() {
                return Err(String::from_str("--ramp-duration requires a value"));
            }
            config.ramp_duration_secs = match parse_u64(args[i + 1].as_str()) {
                Ok(secs) => secs,
                Err(e) => {
                    return Err(invalid_value(a, &e));
                },
            };
        } else if text_eq(a, "--report-interval") {
            if i + 1 >= args.len() {
                return Err(String::from_str("--report-interval requires a value"));
            }
            config.report_interval_secs = parse_positive_secs(a, args[i + 1].as_str())?;
        } else if text_eq(a, "--duration") {
            if i + 1 >= args.len() {
                return Err(String::from_str("--duration requires a value"));
            }
            config.duration_secs = match parse_u64(args[i + 1].as_str()) {
                Ok(secs) => secs,
                Err(e) => {
                    return Err(invalid_value(a, &e));
                },
            };
        } else if text_eq(a, "--payload-size") {
            if i + 1 >= args.len() {
                return Err(String::from_str("--payload-size requires a value"));
            }
            let sz = match parse_usize(args[i + 1].as_str()) {
                Ok(sz) => sz,
                Err(e) => {
                    return Err(invalid_value(a, &e));
                },
            };
            if sz == 0 {
                return Err(String::from_str("--payload-size must be positive"));
            }
            config.payload_size = sz;
        } else if text_eq(a, "--help") || text_eq(a, "-h") {
            return Ok(ParsedArgs::Help(HelpTopic::Client));
        } else {
            let mut m = String::from_str("unknown client argument: ");
            m.append(a);
            return Err(m);
        }
        i = i + 2;
    }
    if config.ports.len() == 0 {
        return Err(String::from_str("--ports is required"));
    }
    config.adaptive_ramp = config.connections > ADAPTIVE_RAMP_MIN_CONNECTIONS;
    Ok(ParsedArgs::Run(Command::Client(config)))
}

/// The command line (without the program name): a subcommand and its
/// arguments. No arguments, or `--help`/`-h`, ask for the main usage text.
pub open spec fn parse_args_spec(args: Seq<Seq<char>>) -> Result<ParsedView, Seq<char>> {
    if args.len() == 0 {
        Ok(ParsedView::Help(HelpTopic::Main))
    } else if args[0] == "server"@ {
        server_args_spec(args.drop_first(), 0, server_defaults())
    } else if args[0] == "client"@ {
        client_args_spec(args.drop_first(), 0, client_defaults())
    } else if args[0] == "--help"@ || args[0] == "-h"@ {
        Ok(ParsedView::Help(HelpTopic::Main))
    } else {
        Err("unknown subcommand: "@ + args[0])
    }
}

/// Parse command-line arguments (without the program name) into a command
/// or a request for a usage text.
pub fn parse_args(args: &[String]) -> (r: Result<ParsedArgs, String>)
    ensures
        match parse_args_spec(arg_views(args@)) {
            Ok(p) => r matches Ok(v) && v@ == p,
            Err(e) => r matches Err(m) && m@ == e,
        },
{
    if args.len() == 0 {
        return Ok(ParsedArgs::Help(HelpTopic::Main));
    }
    let rest = &args[1..args.len()];
    assert(arg_views(rest@) =~= arg_views(args@).drop_first());
    let first = args[0].as_str();
    if text_eq(first, "server") {
        parse_server_args(rest)
    } else if text_eq(first, "client") {
        parse_client_args(rest)
    } else if text_eq(first, "--help") || text_eq(first, "-h") {
        Ok(ParsedArgs::Help(HelpTopic::Main))
    } else {
        let mut m = String::from_str("unknown subcommand: ");
        m.append(first);
        Err(m)
    }
}

/// Accepted port lists hold 1 to `MAX_PORTS` ports, none of them 0.
pub proof fn lemma_parsed_ports_valid(s: Seq<char>)
    ensures
        parse_ports_spec(s) matches Ok(ports) ==> 1 <= ports.len() <= MAX_PORTS && forall|i: int|
            0 <= i < ports.len() ==> #[trigger] ports[i] != 0,
{
}

} // verus!
