//! What the admin server and the client agent decide about their
//! connections. The sockets, the reading and writing, and the JSON
//! encoding are the caller's; it reports each thing that happened as an
//! event, and these functions update the state and say how to go on.
use vstd::prelude::*;
use crate::app::{
    addrs_unique, appended_lines, local_time_hms, none_from, removed, same_but_output, same_session,
    targets, AppState, ClientServiceStatus,
    LineColor, OutputLine, SCROLL_BOTTOM, is_hms,
};
use crate::protocol::{ClientResponse, DEFAULT_PORT};
use crate::text::{chars_of, decimal, push_decimal, spec_trim, str_eq, string_of_range, trim_range};

verus! {

/// A line read from a connection: trimmed, and `None` when nothing is left.
pub open spec fn received_text(raw: Seq<char>) -> Option<Seq<char>> {
    if spec_trim(raw).len() == 0 {
        None
    } else {
        Some(spec_trim(raw))
    }
}

/// The message carried by a line read from a connection, if any.
pub fn received_line(raw: &str) -> (r: Option<String>)
    ensures
        match received_text(raw@) {
            Some(t) => r matches Some(s) && s@ == t,
            None => r is None,
        },
{
    let v = chars_of(raw);
    let (a, b) = trim_range(&v, 0, v.len());
    assert(v@.subrange(0, v.len() as int) =~= raw@);
    if a == b {
        None
    } else {
        Some(string_of_range(&v, a, b))
    }
}

/// What happened on the connection of a client, as the admin server saw it.
pub enum LinkEvent {
    /// Reading the handshake failed; the error's text.
    HandshakeReadFailed(String),
    /// The handshake was not a valid handshake; the error's text.
    HandshakeInvalid(String),
    /// The client answered a command.
    Response { output: String, success: bool },
    /// A line from the client was not a valid answer; the error's text.
    ResponseInvalid(String),
    /// Reading from the client failed; the error's text. The connection ends.
    ReadFailed(String),
}

/// The line an event shows: its tag, its text and its colour.
pub open spec fn link_line(addr: Seq<char>, tag: Seq<char>, ev: LinkEvent) -> (Seq<char>, Seq<char>, LineColor) {
    match ev {
        LinkEvent::HandshakeReadFailed(e) => (
            "system"@,
            "Handshake read error from "@ + addr + ": "@ + e@,
            LineColor::Error,
        ),
        LinkEvent::HandshakeInvalid(e) => (
            "system"@,
            "Invalid handshake from "@ + addr + ": "@ + e@,
            LineColor::Error,
        ),
        LinkEvent::Response { output, success } => (
            tag,
            output@,
            if success { LineColor::Text } else { LineColor::Error },
        ),
        LinkEvent::ResponseInvalid(e) => (
            tag,
            "Parse error from ["@ + tag + "]: "@ + e@,
            LineColor::Error,
        ),
        LinkEvent::ReadFailed(e) => (tag, "Read error from ["@ + tag + "]: "@ + e@, LineColor::Error),
    }
}

/// Shows what happened on the connection from `addr` of the client `tag`.
pub fn on_link_event(st: &mut AppState, addr: &str, tag: &str, ev: LinkEvent)
    ensures
        ({
            let (t, text, color) = link_line(addr@, tag@, ev);
            appended_lines(old(st).output_lines@, final(st).output_lines@, t, text, color)
        }),
        final(st).scroll_offset == SCROLL_BOTTOM,
        final(st).client_output == old(st).client_output,
        same_but_output(old(st), final(st)),
{
    match ev {
        LinkEvent::HandshakeReadFailed(e) => {
            let mut s = String::from_str("Handshake read error from ");
            s.append(addr);
            s.append(": ");
            s.append(e.as_str());
            st.add_output("system", s.as_str(), LineColor::Error);
        },
        LinkEvent::HandshakeInvalid(e) => {
            let mut s = String::from_str("Invalid handshake from ");
            s.append(addr);
            s.append(": ");
            s.append(e.as_str());
            st.add_output("system", s.as_str(), LineColor::Error);
        },
        LinkEvent::Response { output, success } => {
            let color = if success {
                LineColor::Text
            } else {
                LineColor::Error
            };
            st.add_output(tag, output.as_str(), color);
        },
        LinkEvent::ResponseInvalid(e) => {
            let mut s = String::from_str("Parse error from [");
            s.append(tag);
            s.append("]: ");
            s.append(e.as_str());
            st.add_output(tag, s.as_str(), LineColor::Error);
        },
        LinkEvent::ReadFailed(e) => {
            let mut s = String::from_str("Read error from [");
            s.append(tag);
            s.append("]: ");
            s.append(e.as_str());
            st.add_output(tag, s.as_str(), LineColor::Error);
        },
    }
}

/// The client `tag` stopped taking commands: it is forgotten and that is
/// shown.
pub fn on_writer_ended(st: &mut AppState, addr: &str, tag: &str)
    ensures
        exists|r: Option<String>|
            removed(
                old(st).clients@,
                old(st).alter_target,
                final(st).clients@,
                final(st).alter_target,
                addr@,
                r,
            ),
        addrs_unique(old(st).clients@) ==> addrs_unique(final(st).clients@) && none_from(
            final(st).clients@,
            addr@,
        ),
        appended_lines(
            old(st).output_lines@,
            final(st).output_lines@,
            tag@,
            "Client ["@ + tag@ + "] writer disconnected."@,
            LineColor::Warning,
        ),
        final(st).scroll_offset == SCROLL_BOTTOM,
        same_session(&*old(st), &*final(st)),
{
    let _ = st.remove_client(addr);
    let mut s = String::from_str("Client [");
    s.append(tag);
    s.append("] writer disconnected.");
    st.add_output(tag, s.as_str(), LineColor::Warning);
}

/// The connection from `addr` closed: the client there, if any, is forgotten
/// and its leaving shown. Returns its tag.
pub fn on_link_closed(st: &mut AppState, addr: &str) -> (r: Option<String>)
    ensures
        removed(
            old(st).clients@,
            old(st).alter_target,
            final(st).clients@,
            final(st).alter_target,
            addr@,
            r,
        ),
        addrs_unique(old(st).clients@) ==> addrs_unique(final(st).clients@) && none_from(
            final(st).clients@,
            addr@,
        ),
        match r {
            Some(tag) => {
                &&& appended_lines(
                    old(st).output_lines@,
                    final(st).output_lines@,
                    tag@,
                    "Client ["@ + tag@ + "] disconnected."@,
                    LineColor::Warning,
                )
                &&& final(st).scroll_offset == SCROLL_BOTTOM
            },
            None => {
                &&& final(st).output_lines == old(st).output_lines
                &&& final(st).scroll_offset == old(st).scroll_offset
            },
        },
        same_session(&*old(st), &*final(st)),
{
    let removed = st.remove_client(addr);
    match removed {
        Some(removed_tag) => {
            let mut s = String::from_str("Client [");
            s.append(removed_tag.as_str());
            s.append("] disconnected.");
            st.add_output(removed_tag.as_str(), s.as_str(), LineColor::Warning);
            let was_target = match &st.alter_target {
                Some(t) => str_eq(t.as_str(), removed_tag.as_str()),
                None => false,
            };
            if was_target {
                st.alter_target = None;
                let mut m = String::from_str("Alter target [");
                m.append(removed_tag.as_str());
                m.append("] disconnected. Returning to local mode.");
                st.add_output("system", m.as_str(), LineColor::Warning);
            }
            Some(removed_tag)
        },
        None => None,
    }
}

/// The address the admin server listens on.
pub fn listen_address(port: u16) -> (r: String)
    ensures
        r@ == "0.0.0.0:"@ + decimal(port as nat),
{
    let mut s = String::from_str("0.0.0.0:");
    push_decimal(&mut s, port as u64);
    s
}

/// What happened to the admin server.
pub enum ServerEvent {
    /// It listens on its port.
    Listening,
    /// It could not bind its port; the error's text.
    BindFailed(String),
    /// Accepting a connection failed; the error's text.
    AcceptFailed(String),
}

/// The line a server event shows.
pub open spec fn server_line(port: u16, ev: ServerEvent) -> (Seq<char>, LineColor) {
    match ev {
        ServerEvent::Listening => (
            "Fluffy admin server listening on port "@ + decimal(port as nat),
            LineColor::Brand,
        ),
        ServerEvent::BindFailed(e) => (
            "Failed to bind port "@ + decimal(port as nat) + ": "@ + e@,
            LineColor::Error,
        ),
        ServerEvent::AcceptFailed(e) => ("Accept error: "@ + e@, LineColor::Error),
    }
}

/// Shows what happened to the admin server on its port.
pub fn on_server_event(st: &mut AppState, ev: ServerEvent)
    ensures
        appended_lines(
            old(st).output_lines@,
            final(st).output_lines@,
            "system"@,
            server_line(old(st).admin_port, ev).0,
            server_line(old(st).admin_port, ev).1,
        ),
        final(st).scroll_offset == SCROLL_BOTTOM,
        final(st).client_output == old(st).client_output,
        same_but_output(old(st), final(st)),
{
    let port = st.admin_port;
    match ev {
        ServerEvent::Listening => {
            let mut s = String::from_str("Fluffy admin server listening on port ");
            push_decimal(&mut s, port as u64);
            st.add_output("system", s.as_str(), LineColor::Brand);
        },
        ServerEvent::BindFailed(e) => {
            let mut s = String::from_str("Failed to bind port ");
            push_decimal(&mut s, port as u64);
            s.append(": ");
            s.append(e.as_str());
            st.add_output("system", s.as_str(), LineColor::Error);
        },
        ServerEvent::AcceptFailed(e) => {
            let mut s = String::from_str("Accept error: ");
            s.append(e.as_str());
            st.add_output("system", s.as_str(), LineColor::Error);
        },
    }
}

/// The address of the admin: `admin_ip` when it names a port, else with the
/// default port.
pub open spec fn admin_addr_text(admin_ip: Seq<char>) -> Seq<char> {
    if admin_ip.contains(':') {
        admin_ip
    } else {
        admin_ip + ":"@ + decimal(DEFAULT_PORT as nat)
    }
}

fn has_colon(s: &str) -> (r: bool)
    ensures
        r == s@.contains(':'),
{
    let n = s.unicode_len();
    let mut i: usize = 0;
    while i < n
        invariant
            n == s@.len(),
            i <= n,
            forall|j: int| 0 <= j < i ==> s@[j] != ':',
        decreases n - i,
    {
        if s.get_char(i) == ':' {
            return true;
        }
        i = i + 1;
    }
    false
}

/// The address the client agent connects to.
pub fn admin_address(admin_ip: &str) -> (r: String)
    ensures
        r@ == admin_addr_text(admin_ip@),
{
    if has_colon(admin_ip) {
        String::from_str(admin_ip)
    } else {
        let mut s = String::from_str(admin_ip);
        s.append(":");
        push_decimal(&mut s, DEFAULT_PORT as u64);
        s
    }
}

/// What happened to the client agent.
pub enum AgentEvent {
    /// It starts connecting.
    Connecting,
    /// It connected.
    Connected,
    /// It could not connect; the error's text.
    ConnectFailed(String),
    /// The handshake could not be encoded; the error's text.
    HandshakeFailed(String),
    /// The handshake was sent.
    HandshakeSent,
    /// The admin closed the connection.
    Disconnected,
    /// A line was not a valid command; the error's text and the line.
    BadCommand { error: String, line: String },
    /// Reading failed; the error's text.
    ReadFailed(String),
    /// An answer could not be encoded; the error's text.
    ResponseFailed(String),
    /// The agent stopped.
    Finished,
}

/// The log line of an agent event, given the admin's address.
pub open spec fn agent_line(addr: Seq<char>, ev: AgentEvent) -> (Seq<char>, LineColor) {
    match ev {
        AgentEvent::Connecting => ("Connecting to admin at "@ + addr + "..."@, LineColor::Dim),
        AgentEvent::Connected => ("Connected to admin."@, LineColor::Success),
        AgentEvent::ConnectFailed(e) => (
            "Failed to connect to "@ + addr + ": "@ + e@,
            LineColor::Error,
        ),
        AgentEvent::HandshakeFailed(e) => ("Failed to serialize handshake: "@ + e@, LineColor::Error),
        AgentEvent::HandshakeSent => ("Handshake sent. Waiting for commands..."@, LineColor::Dim),
        AgentEvent::Disconnected => ("Admin disconnected."@, LineColor::Dim),
        AgentEvent::BadCommand { error, line } => (
            "Failed to parse command: "@ + error@ + ". Raw: "@ + line@,
            LineColor::Error,
        ),
        AgentEvent::ReadFailed(e) => ("Read error: "@ + e@, LineColor::Error),
        AgentEvent::ResponseFailed(e) => ("Failed to serialize response: "@ + e@, LineColor::Error),
        AgentEvent::Finished => ("Client agent stopped."@, LineColor::Dim),
    }
}

/// Whether the agent goes on after an event.
pub open spec fn agent_goes_on(ev: AgentEvent) -> bool {
    match ev {
        AgentEvent::ConnectFailed(_) | AgentEvent::HandshakeFailed(_) | AgentEvent::Disconnected
        | AgentEvent::ReadFailed(_) | AgentEvent::Finished => false,
        _ => true,
    }
}

/// The service status after an event: `None` when it stays as it was.
pub open spec fn agent_status(admin_ip: Seq<char>, ev: AgentEvent, s: ClientServiceStatus) -> bool {
    match ev {
        AgentEvent::Connecting => s matches ClientServiceStatus::Connecting(x) && x@ == admin_ip,
        AgentEvent::Connected => s matches ClientServiceStatus::Running(x) && x@ == admin_ip,
        AgentEvent::ConnectFailed(e) => s matches ClientServiceStatus::Error(x) && x@ == e@,
        AgentEvent::ReadFailed(e) => s matches ClientServiceStatus::Error(x) && x@ == e@,
        AgentEvent::Disconnected | AgentEvent::Finished => s == ClientServiceStatus::Stopped,
        _ => true,
    }
}

/// Whether an event changes the service status.
pub open spec fn agent_sets_status(ev: AgentEvent) -> bool {
    match ev {
        AgentEvent::HandshakeFailed(_) | AgentEvent::HandshakeSent | AgentEvent::BadCommand { .. }
        | AgentEvent::ResponseFailed(_) => false,
        _ => true,
    }
}

/// Records what happened to the client agent connecting to `admin_ip`
/// (at `addr`): the status changes and one line is logged, untagged by
/// the line splitter. Returns whether the agent goes on.
pub fn on_agent_event(st: &mut AppState, admin_ip: &str, addr: &str, ev: AgentEvent) -> (go_on: bool)
    ensures
        go_on == agent_goes_on(ev),
        agent_sets_status(ev) ==> agent_status(admin_ip@, ev, final(st).client_service_status),
        !agent_sets_status(ev) ==> final(st).client_service_status == old(
            st,
        ).client_service_status,
        final(st).client_output@.len() == old(st).client_output@.len() + 1,
        final(st).client_output@.drop_last() == old(st).client_output@,
        final(st).client_output@.last().tag@ == "client"@,
        final(st).client_output@.last().text@ == agent_line(addr@, ev).0,
        final(st).client_output@.last().color == agent_line(addr@, ev).1,
        is_hms(final(st).client_output@.last().timestamp@),
        final(st).output_lines == old(st).output_lines,
        final(st).scroll_offset == old(st).scroll_offset,
        final(st).clients == old(st).clients,
        final(st).alter_target == old(st).alter_target,
        final(st).mode == old(st).mode,
{
    let (text, color, go_on) = match &ev {
        AgentEvent::Connecting => {
            st.client_service_status = ClientServiceStatus::Connecting(String::from_str(admin_ip));
            let mut s = String::from_str("Connecting to admin at ");
            s.append(addr);
            s.append("...");
            (s, LineColor::Dim, true)
        },
        AgentEvent::Connected => {
            st.client_service_status = ClientServiceStatus::Running(String::from_str(admin_ip));
            (String::from_str("Connected to admin."), LineColor::Success, true)
        },
        AgentEvent::ConnectFailed(e) => {
            st.client_service_status = ClientServiceStatus::Error(e.clone());
            let mut s = String::from_str("Failed to connect to ");
            s.append(addr);
            s.append(": ");
            s.append(e.as_str());
            (s, LineColor::Error, false)
        },
        AgentEvent::HandshakeFailed(e) => {
            let mut s = String::from_str("Failed to serialize handshake: ");
            s.append(e.as_str());
            (s, LineColor::Error, false)
        },
        AgentEvent::HandshakeSent => (
            String::from_str("Handshake sent. Waiting for commands..."),
            LineColor::Dim,
            true,
        ),
        AgentEvent::Disconnected => {
            st.client_service_status = ClientServiceStatus::Stopped;
            (String::from_str("Admin disconnected."), LineColor::Dim, false)
        },
        AgentEvent::BadCommand { error, line } => {
            let mut s = String::from_str("Failed to parse command: ");
            s.append(error.as_str());
            s.append(". Raw: ");
            s.append(line.as_str());
            (s, LineColor::Error, true)
        },
        AgentEvent::ReadFailed(e) => {
            st.client_service_status = ClientServiceStatus::Error(e.clone());
            let mut s = String::from_str("Read error: ");
            s.append(e.as_str());
            (s, LineColor::Error, false)
        },
        AgentEvent::ResponseFailed(e) => {
            let mut s = String::from_str("Failed to serialize response: ");
            s.append(e.as_str());
            (s, LineColor::Error, true)
        },
        AgentEvent::Finished => {
            st.client_service_status = ClientServiceStatus::Stopped;
            (String::from_str("Client agent stopped."), LineColor::Dim, false)
        },
    };
    let line = OutputLine {
        tag: String::from_str("client"),
        text,
        color,
        timestamp: local_time_hms(),
    };
    st.client_output.push(line);
    proof {
        assert(st.client_output@.drop_last() =~= old(st).client_output@);
    }
    go_on
}

/// Whether the agent was told to stop.
pub fn agent_should_stop(st: &AppState) -> (r: bool)
    ensures
        r == (st.client_service_status == ClientServiceStatus::Stopped),
{
    match st.client_service_status {
        ClientServiceStatus::Stopped => true,
        _ => false,
    }
}

/// The answer sent when an answer could not be encoded.
pub fn serialization_error_response(id: u64, error: &str) -> (r: ClientResponse)
    ensures
        r.id == id,
        r.client_id@.len() == 0,
        r.tag@.len() == 0,
        r.output@ == "Internal serialization error: "@ + error@,
        !r.success,
{
    let mut output = String::from_str("Internal serialization error: ");
    output.append(error);
    ClientResponse {
        id,
        client_id: String::new(),
        tag: String::new(),
        output,
        success: false,
    }
}

} // verus!
