//! How the terminal starts: its command-line options and what they set up.
use vstd::prelude::*;
use crate::app::{AppState, TerminalMode};
use crate::parser::{parse_uint_range, spec_parse_uint};
use crate::protocol::DEFAULT_PORT;
use crate::text::{chars_of, decimal, push_decimal, str_eq};

verus! {

/// The options the terminal was started with.
pub struct LaunchOptions {
    pub admin: bool,
    pub client: bool,
    pub connect: Option<String>,
    pub port: u16,
}

/// The options as plain values: admin, client, the address to connect to,
/// the port.
pub type LaunchView = (bool, bool, Option<Seq<char>>, u16);

/// `--port`'s value, when it is a port number.
pub open spec fn port_value(s: Seq<char>) -> Option<u16> {
    match spec_parse_uint(s, 65535) {
        Some(n) => Some(n as u16),
        None => None,
    }
}

/// The options after reading the arguments from position `i` on, starting
/// from `acc`.
pub open spec fn scan_args(args: Seq<Seq<char>>, i: int, acc: LaunchView) -> LaunchView
    decreases args.len() - i,
{
    if i < 0 || i >= args.len() {
        acc
    } else {
        let a = args[i];
        let has_next = i + 1 < args.len();
        if a == "--admin"@ {
            scan_args(args, i + 1, (true, acc.1, acc.2, acc.3))
        } else if a == "--client"@ {
            scan_args(args, i + 1, (acc.0, true, acc.2, acc.3))
        } else if a == "--connect"@ && has_next {
            scan_args(args, i + 2, (acc.0, true, Some(args[i + 1]), acc.3))
        } else if a == "--port"@ && has_next && port_value(args[i + 1]) is Some {
            scan_args(args, i + 2, (acc.0, acc.1, acc.2, port_value(args[i + 1])->0))
        } else {
            scan_args(args, i + 1, acc)
        }
    }
}

/// The options of a command line (the program's name first): `--admin`,
/// `--client`, `--connect <ip>` (which implies the client) and
/// `--port <n>`; without `--admin` or a client option, the admin.
pub open spec fn launch_options(args: Seq<Seq<char>>) -> LaunchView {
    let o = scan_args(args, 1, (false, false, None, DEFAULT_PORT));
    if !o.0 && !o.1 {
        (true, o.1, o.2, o.3)
    } else {
        o
    }
}

pub open spec fn arg_views(args: Seq<String>) -> Seq<Seq<char>> {
    args.map_values(|a: String| a@)
}

pub open spec fn options_view(o: LaunchOptions) -> LaunchView {
    (
        o.admin,
        o.client,
        match o.connect {
            Some(c) => Some(c@),
            None => None,
        },
        o.port,
    )
}

/// Read the command line (the program's name first).
pub fn parse_launch_args(args: &Vec<String>) -> (r: LaunchOptions)
    ensures
        options_view(r) == launch_options(arg_views(args@)),
{
    let ghost views = arg_views(args@);
    let mut admin = false;
    let mut client = false;
    let mut connect: Option<String> = None;
    let mut port: u16 = DEFAULT_PORT;
    let mut i: usize = 1;
    proof {
        reveal_strlit("--admin");
        reveal_strlit("--client");
        reveal_strlit("--connect");
        reveal_strlit("--port");
    }
    while i < args.len()
        invariant
            views == arg_views(args@),
            i >= 1,
            scan_args(views, i as int, options_view(LaunchOptions { admin, client, connect, port }))
                == scan_args(views, 1, (false, false, None, DEFAULT_PORT)),
        decreases args.len() - i,
    {
        let a = args[i].as_str();
        assert(views[i as int] == a@);
        let has_next = i + 1 < args.len();
        if str_eq(a, "--admin") {
            admin = true;
        } else if str_eq(a, "--client") {
            client = true;
        } else if str_eq(a, "--connect") && has_next {
            assert(views[i + 1] == args@[i + 1]@);
            connect = Some(args[i + 1].clone());
            client = true;
            i = i + 1;
        } else if str_eq(a, "--port") && has_next && port_of(args[i + 1].as_str()).is_some() {
            assert(views[i + 1] == args@[i + 1]@);
            port = match port_of(args[i + 1].as_str()) {
                Some(p) => p,
                None => port,
            };
            i = i + 1;
        }
        i = i + 1;
    }
    if !admin && !client {
        admin = true;
    }
    LaunchOptions { admin, client, connect, port }
}

fn port_of(s: &str) -> (r: Option<u16>)
    ensures
        r == port_value(s@),
{
    let v = chars_of(s);
    assert(v@.subrange(0, v.len() as int) =~= s@);
    match parse_uint_range(&v, 0, v.len(), 65535) {
        Some(n) => Some(n as u16),
        None => None,
    }
}

/// Sets up the state for the options: the client view when only the client
/// runs, the port, and whether the server runs.
pub fn apply_launch(st: &mut AppState, o: &LaunchOptions)
    ensures
        final(st).mode == if o.client && !o.admin {
            TerminalMode::Client
        } else {
            TerminalMode::Admin
        },
        final(st).admin_port == o.port,
        final(st).server_active == o.admin,
        final(st).output_lines == old(st).output_lines,
        final(st).clients == old(st).clients,
        final(st).client_output == old(st).client_output,
{
    if o.client && !o.admin {
        st.mode = TerminalMode::Client;
    } else {
        st.mode = TerminalMode::Admin;
    }
    st.admin_port = o.port;
    st.server_active = o.admin;
}

/// Where the client agent connects: the `--connect` address, with the port
/// appended when it names none. `None` when the agent does not run.
pub open spec fn agent_target_text(o: LaunchView) -> Option<Seq<char>> {
    if o.1 {
        match o.2 {
            Some(ip) => Some(
                if ip.contains(':') {
                    ip
                } else {
                    ip + ":"@ + decimal(o.3 as nat)
                },
            ),
            None => None,
        }
    } else {
        None
    }
}

/// Where the client agent connects, if it runs.
pub fn agent_target(o: &LaunchOptions) -> (r: Option<String>)
    ensures
        match agent_target_text(options_view(*o)) {
            Some(t) => r matches Some(s) && s@ == t,
            None => r is None,
        },
{
    if !o.client {
        return None;
    }
    match &o.connect {
        Some(ip) => {
            let v = chars_of(ip.as_str());
            let mut has_colon = false;
            let mut i: usize = 0;
            while i < v.len()
                invariant
                    i <= v@.len(),
                    v@ == ip@,
                    has_colon == exists|j: int| 0 <= j < i && v@[j] == ':',
                decreases v.len() - i,
            {
                if v[i] == ':' {
                    has_colon = true;
                }
                i = i + 1;
            }
            if has_colon {
                Some(ip.clone())
            } else {
                let mut s = ip.clone();
                s.append(":");
                push_decimal(&mut s, o.port as u64);
                Some(s)
            }
        },
        None => None,
    }
}

} // verus!
