//! The admin terminal's application state.
use vstd::prelude::*;
use crate::protocol::{ClientHandshake, DEFAULT_PORT};
use crate::text::{
    chars_of, decimal, lemma_prefix_len, lines_of, prefix_len, push_char, push_decimal,
    spec_lines, str_eq,
};

verus! {

/// Whether the terminal shows the admin console or the client agent's log.
#[derive(Debug, Clone, Copy, PartialEq, Eq, Structural)]
pub enum TerminalMode {
    Admin,
    Client,
}

/// Status of the background client service.
#[derive(Debug, Clone, PartialEq, Eq)]
pub enum ClientServiceStatus {
    Stopped,
    Connecting(String),
    Running(String),
    Error(String),
}

/// The colour role of an output line; the terminal maps each role to the
/// colour of its theme.
#[derive(Debug, Clone, Copy, PartialEq, Eq, Structural)]
pub enum LineColor {
    Brand,
    Success,
    Error,
    Warning,
    LocalTag,
    ClientTag,
    Dim,
    Text,
}

/// A wall-clock time written as `HH:MM:SS`.
pub open spec fn is_hms(s: Seq<char>) -> bool {
    &&& s.len() == 8
    &&& s[2] == ':' && s[5] == ':'
    &&& forall|i: int| 0 <= i < 8 && i != 2 && i != 5 ==> '0' <= #[trigger] s[i] <= '9'
}

/// `chrono::Local::now().format("%H:%M:%S")`: the current local time as
/// zero-padded two-digit hours, minutes and seconds joined by colons.
/// Which time it is is not stated.
#[verifier::external_body]
pub(crate) fn local_time_hms() -> (s: String)
    ensures
        is_hms(s@),
{
    chrono::Local::now().format("%H:%M:%S").to_string()
}

/// Represents a connected client.
#[derive(Clone)]
pub struct ClientInfo {
    pub tag: String,
    pub hostname: String,
    pub os: String,
    pub os_version: String,
    pub ip: String,
    pub arch: String,
    /// Local time of connection, `HH:MM:SS`.
    pub connected_at: String,
}

/// An output line shown in the output panel.
#[derive(Clone)]
pub struct OutputLine {
    pub tag: String,
    pub text: String,
    pub color: LineColor,
    /// Local time the line was added, `HH:MM:SS`.
    pub timestamp: String,
}

/// The "sticky bottom" scroll position: follow the newest output.
pub const SCROLL_BOTTOM: u32 = 0xffff_ffff;

/// Full application state.
pub struct AppState {
    /// Connected clients, each with the socket address it connected from
    pub clients: Vec<(String, ClientInfo)>,
    /// All output lines to display
    pub output_lines: Vec<OutputLine>,
    /// Command history
    pub command_history: Vec<String>,
    /// Alter mode target (e.g., "f1")
    pub alter_target: Option<String>,
    /// Current input buffer
    pub input_buffer: String,
    /// Cursor position in the input buffer
    pub cursor_pos: usize,
    /// Index in history we are currently navigating (None if typing new command)
    pub history_index: Option<usize>,
    /// Temporary storage for the input buffer before navigating history
    pub saved_input: String,
    /// Whether the help overlay is shown
    pub show_help: bool,
    /// Scroll offset for the output panel (rendered lines)
    pub scroll_offset: u32,
    /// Counter for assigning client tags (never resets)
    pub client_counter: usize,
    /// Whether the app should quit
    pub should_quit: bool,
    /// Help scroll offset
    pub help_scroll: u16,
    /// Last calculated total visual rows (for scroll transitions)
    pub last_visual_row_count: u32,
    /// Pending command ID counter
    pub command_id_counter: u64,
    /// Current display mode (Admin or Client)
    pub mode: TerminalMode,
    /// Status of the background client service
    pub client_service_status: ClientServiceStatus,
    /// Buffer for client-specific logs/output
    pub client_output: Vec<OutputLine>,
    /// The port the admin server is listening on
    pub admin_port: u16,
    /// Whether the TCP server is active in this process
    pub server_active: bool,
}

/// The text of a tag: `f` followed by the counter value.
pub open spec fn tag_text(n: nat) -> Seq<char> {
    seq!['f'] + decimal(n)
}

/// The prompt shown before the input.
pub open spec fn prompt_text(alter: Option<String>) -> Seq<char> {
    match alter {
        Some(tag) => "fluffy ["@ + tag@ + "]> "@,
        None => "fluffy> "@,
    }
}

/// Whether `alter` names the client tag `tag`.
pub open spec fn targets(alter: Option<String>, tag: Seq<char>) -> bool {
    match alter {
        Some(t) => t@ == tag,
        None => false,
    }
}

/// `new` is `old` with the lines of `text` appended, tagged and coloured.
pub open spec fn appended_lines(
    old: Seq<OutputLine>,
    new: Seq<OutputLine>,
    tag: Seq<char>,
    text: Seq<char>,
    color: LineColor,
) -> bool {
    let lines = spec_lines(text);
    &&& new.len() == old.len() + lines.len()
    &&& forall|i: int| 0 <= i < old.len() ==> new[i] == old[i]
    &&& forall|j: int|
        0 <= j < lines.len() ==> {
            &&& (#[trigger] new[old.len() + j]).tag@ == tag
            &&& new[old.len() + j].text@ == lines[j]
            &&& new[old.len() + j].color == color
            &&& is_hms(new[old.len() + j].timestamp@)
        }
}

/// Every field but the output panel and its scroll position are equal.
pub open spec fn same_but_output(a: &AppState, b: &AppState) -> bool {
    &&& a.clients == b.clients
    &&& a.command_history == b.command_history
    &&& a.alter_target == b.alter_target
    &&& a.input_buffer == b.input_buffer
    &&& a.cursor_pos == b.cursor_pos
    &&& a.history_index == b.history_index
    &&& a.saved_input == b.saved_input
    &&& a.show_help == b.show_help
    &&& a.client_counter == b.client_counter
    &&& a.should_quit == b.should_quit
    &&& a.help_scroll == b.help_scroll
    &&& a.last_visual_row_count == b.last_visual_row_count
    &&& a.command_id_counter == b.command_id_counter
    &&& a.mode == b.mode
    &&& a.client_service_status == b.client_service_status
    &&& a.admin_port == b.admin_port
    &&& a.server_active == b.server_active
}

/// Everything but the clients and the alter target is as it was.
pub open spec fn same_but_clients(a: &AppState, b: &AppState) -> bool {
    &&& a.output_lines == b.output_lines
    &&& a.scroll_offset == b.scroll_offset
    &&& same_session(a, b)
}

/// Everything but the clients, the alter target and the output is as it was.
pub open spec fn same_session(a: &AppState, b: &AppState) -> bool {
    &&& a.command_history == b.command_history
    &&& a.input_buffer == b.input_buffer
    &&& a.cursor_pos == b.cursor_pos
    &&& a.history_index == b.history_index
    &&& a.saved_input == b.saved_input
    &&& a.show_help == b.show_help
    &&& a.client_counter == b.client_counter
    &&& a.should_quit == b.should_quit
    &&& a.help_scroll == b.help_scroll
    &&& a.last_visual_row_count == b.last_visual_row_count
    &&& a.command_id_counter == b.command_id_counter
    &&& a.mode == b.mode
    &&& a.client_service_status == b.client_service_status
    &&& a.client_output == b.client_output
    &&& a.admin_port == b.admin_port
    &&& a.server_active == b.server_active
}

/// No two clients are connected from the same address: the clients are
/// keyed by their address.
pub open spec fn addrs_unique(clients: Seq<(String, ClientInfo)>) -> bool {
    forall|i: int, j: int| 0 <= i < j < clients.len() ==> (#[trigger] clients[i]).0@ != (#[trigger] clients[j]).0@
}

/// No client is connected from `addr`.
pub open spec fn none_from(clients: Seq<(String, ClientInfo)>, addr: Seq<char>) -> bool {
    forall|i: int| 0 <= i < clients.len() ==> (#[trigger] clients[i]).0@ != addr
}

/// Index of the first client whose tag is `tag` (the number of clients if none).
pub open spec fn tag_index(clients: Seq<(String, ClientInfo)>, tag: Seq<char>) -> int {
    prefix_len(clients, |e: (String, ClientInfo)| e.1.tag@ != tag) as int
}

/// A client not connected from `addr`.
pub open spec fn not_from(addr: Seq<char>) -> spec_fn((String, ClientInfo)) -> bool {
    |e: (String, ClientInfo)| e.0@ != addr
}

/// Index of the first client connected from `addr` (the number of clients if none).
pub open spec fn addr_index(clients: Seq<(String, ClientInfo)>, addr: Seq<char>) -> int {
    prefix_len(clients, not_from(addr)) as int
}

/// Some connected client carries the tag `tag`.
pub open spec fn has_tag(clients: Seq<(String, ClientInfo)>, tag: Seq<char>) -> bool {
    exists|i: int| 0 <= i < clients.len() && (#[trigger] clients[i]).1.tag@ == tag
}

/// Index of the first client with tag `tag`, or the number of clients.
pub fn find_tag_index(clients: &Vec<(String, ClientInfo)>, tag: &str) -> (r: usize)
    ensures
        r == tag_index(clients@, tag@),
        r <= clients@.len(),
        r < clients@.len() ==> clients@[r as int].1.tag@ == tag@,
        r == clients@.len() <==> !has_tag(clients@, tag@),
{
    let ghost p = |e: (String, ClientInfo)| e.1.tag@ != tag@;
    let mut i: usize = 0;
    while i < clients.len()
        invariant
            i <= clients@.len(),
            forall|j: int| 0 <= j < i ==> #[trigger] p(clients@[j]),
            p == |e: (String, ClientInfo)| e.1.tag@ != tag@,
        decreases clients.len() - i,
    {
        if str_eq(clients[i].1.tag.as_str(), tag) {
            proof {
                lemma_prefix_len(clients@, p, i as int);
            }
            return i;
        }
        i = i + 1;
    }
    proof {
        lemma_prefix_len(clients@, p, i as int);
        if has_tag(clients@, tag@) {
            let k = choose|k: int| 0 <= k < clients@.len() && (#[trigger] clients@[k]).1.tag@ == tag@;
            assert(p(clients@[k]));
        }
    }
    i
}

fn find_addr_index(clients: &Vec<(String, ClientInfo)>, addr: &str) -> (r: usize)
    ensures
        r == addr_index(clients@, addr@),
        r <= clients@.len(),
        r < clients@.len() ==> clients@[r as int].0@ == addr@,
{
    let ghost p = not_from(addr@);
    let mut i: usize = 0;
    while i < clients.len()
        invariant
            i <= clients@.len(),
            forall|j: int| 0 <= j < i ==> #[trigger] p(clients@[j]),
            p == not_from(addr@),
        decreases clients.len() - i,
    {
        if str_eq(clients[i].0.as_str(), addr) {
            proof {
                lemma_prefix_len(clients@, p, i as int);
            }
            return i;
        }
        i = i + 1;
    }
    proof {
        lemma_prefix_len(clients@, p, i as int);
    }
    i
}

/// Appends the lines of `text` to `out`.
fn push_lines(out: &mut Vec<OutputLine>, tag: &str, text: &str, color: LineColor)
    ensures
        appended_lines(old(out)@, final(out)@, tag@, text@, color),
{
    let v = chars_of(text);
    let lines = lines_of(&v, 0);
    assert(v@.skip(0) =~= text@);
    let ghost start = out@.len();
    let mut i: usize = 0;
    while i < lines.len()
        invariant
            i <= lines@.len(),
            lines@.len() == spec_lines(text@).len(),
            forall|j: int| 0 <= j < lines@.len() ==> #[trigger] lines@[j]@ == spec_lines(text@)[j],
            start == old(out)@.len(),
            out@.len() == start + i,
            forall|k: int| 0 <= k < start ==> out@[k] == old(out)@[k],
            forall|j: int|
                0 <= j < i ==> {
                    &&& (#[trigger] out@[start + j]).tag@ == tag@
                    &&& out@[start + j].text@ == spec_lines(text@)[j]
                    &&& out@[start + j].color == color
                    &&& is_hms(out@[start + j].timestamp@)
                },
        decreases lines.len() - i,
    {
        let line = OutputLine {
            tag: String::from_str(tag),
            text: lines[i].clone(),
            color,
            timestamp: local_time_hms(),
        };
        out.push(line);
        i = i + 1;
    }
}

impl AppState {
    pub fn new() -> (r: Self)
        ensures
            r.clients@.len() == 0,
            addrs_unique(r.clients@),
            r.output_lines@.len() == 0,
            r.command_history@.len() == 0,
            r.alter_target is None,
            r.input_buffer@.len() == 0,
            r.cursor_pos == 0,
            r.history_index is None,
            r.saved_input@.len() == 0,
            !r.show_help,
            r.scroll_offset == SCROLL_BOTTOM,
            r.client_counter == 0,
            !r.should_quit,
            r.command_id_counter == 0,
            r.help_scroll == 0,
            r.last_visual_row_count == 0,
            r.mode == TerminalMode::Admin,
            r.client_service_status == ClientServiceStatus::Stopped,
            r.client_output@.len() == 0,
            r.admin_port == DEFAULT_PORT,
            !r.server_active,
    {
        AppState {
            clients: Vec::new(),
            output_lines: Vec::new(),
            command_history: Vec::new(),
            alter_target: None,
            input_buffer: String::new(),
            cursor_pos: 0,
            history_index: None,
            saved_input: String::new(),
            show_help: false,
            scroll_offset: SCROLL_BOTTOM,
            client_counter: 0,
            should_quit: false,
            command_id_counter: 0,
            help_scroll: 0,
            last_visual_row_count: 0,
            mode: TerminalMode::Admin,
            client_service_status: ClientServiceStatus::Stopped,
            client_output: Vec::new(),
            admin_port: DEFAULT_PORT,
            server_active: false,
        }
    }

    /// Get the next command ID.
    pub fn next_command_id(&mut self) -> (r: u64)
        requires
            old(self).command_id_counter < u64::MAX,
        ensures
            r == old(self).command_id_counter + 1,
            final(self).command_id_counter == r,
            final(self).clients == old(self).clients,
            final(self).output_lines == old(self).output_lines,
            final(self).client_counter == old(self).client_counter,
            final(self).alter_target == old(self).alter_target,
    {
        self.command_id_counter = self.command_id_counter + 1;
        self.command_id_counter
    }

    /// Assign a new tag (f1, f2, ...) for a connecting client.
    pub fn next_client_tag(&mut self) -> (r: String)
        requires
            old(self).client_counter < usize::MAX,
        ensures
            final(self).client_counter == old(self).client_counter + 1,
            r@ == tag_text(final(self).client_counter as nat),
            final(self).clients == old(self).clients,
            final(self).output_lines == old(self).output_lines,
            final(self).command_id_counter == old(self).command_id_counter,
            final(self).alter_target == old(self).alter_target,
    {
        self.client_counter = self.client_counter + 1;
        let mut tag = String::new();
        push_char(&mut tag, 'f');
        push_decimal(&mut tag, self.client_counter as u64);
        tag
    }

    /// Add an output line. Splits by newlines automatically.
    pub fn add_output(&mut self, tag: &str, text: &str, color: LineColor)
        ensures
            appended_lines(old(self).output_lines@, final(self).output_lines@, tag@, text@, color),
            final(self).scroll_offset == SCROLL_BOTTOM,
            final(self).client_output == old(self).client_output,
            same_but_output(old(self), final(self)),
    {
        push_lines(&mut self.output_lines, tag, text, color);
        // Auto-scroll to bottom
        self.scroll_to_bottom();
    }

    /// Add a client output line. Splits by newlines automatically.
    pub fn add_client_output(&mut self, tag: &str, text: &str, color: LineColor)
        ensures
            appended_lines(old(self).client_output@, final(self).client_output@, tag@, text@, color),
            final(self).scroll_offset == SCROLL_BOTTOM,
            final(self).output_lines == old(self).output_lines,
            same_but_output(old(self), final(self)),
    {
        push_lines(&mut self.client_output, tag, text, color);
        // Auto-scroll to bottom
        self.scroll_to_bottom();
    }

    /// Scroll to bottom of output.
    pub fn scroll_to_bottom(&mut self)
        ensures
            final(self).scroll_offset == SCROLL_BOTTOM,
            final(self).output_lines == old(self).output_lines,
            final(self).client_output == old(self).client_output,
            same_but_output(old(self), final(self)),
    {
        self.scroll_offset = SCROLL_BOTTOM;
    }

    /// Get the prompt string.
    pub fn prompt(&self) -> (r: String)
        ensures
            r@ == prompt_text(self.alter_target),
    {
        match &self.alter_target {
            Some(tag) => {
                let mut s = String::from_str("fluffy [");
                s.append(tag.as_str());
                s.append("]> ");
                s
            },
            None => String::from_str("fluffy> "),
        }
    }

    /// Find a client by tag (f1, f2, ...).
    pub fn find_client_by_tag(&self, tag: &str) -> (r: Option<(&String, &ClientInfo)>)
        ensures
            r is None <==> !has_tag(self.clients@, tag@),
            r matches Some((a, c)) ==> {
                let i = tag_index(self.clients@, tag@);
                &&& 0 <= i < self.clients@.len()
                &&& *a == self.clients@[i].0
                &&& *c == self.clients@[i].1
                &&& c.tag@ == tag@
            },
    {
        let i = find_tag_index(&self.clients, tag);
        if i < self.clients.len() {
            let entry = &self.clients[i];
            Some((&entry.0, &entry.1))
        } else {
            None
        }
    }

    /// Remove a client by socket address and return its tag.
    pub fn remove_client(&mut self, addr: &str) -> (r: Option<String>)
        ensures
            removed(old(self).clients@, old(self).alter_target, final(self).clients@, final(self).alter_target, addr@, r),
            same_but_clients(&*old(self), &*final(self)),
            addrs_unique(old(self).clients@) ==> addrs_unique(final(self).clients@) && none_from(
                final(self).clients@,
                addr@,
            ),
    {
        proof {
            if addrs_unique(old(self).clients@) {
                lemma_removed_keeps_unique(old(self).clients@, addr@);
            }
        }
        let i = find_addr_index(&self.clients, addr);
        if i < self.clients.len() {
            let (_, client) = self.clients.remove(i);
            // If this was the alter target, clear alter mode
            let clear = match &self.alter_target {
                Some(t) => str_eq(t.as_str(), client.tag.as_str()),
                None => false,
            };
            if clear {
                self.alter_target = None;
            }
            Some(client.tag)
        } else {
            None
        }
    }

    /// Register the client that connected from `addr` with `handshake`:
    /// it gets the next tag, replaces any client from the same address, and
    /// its arrival is announced in the output. Returns the tag.
    pub fn connect_client(&mut self, addr: String, handshake: &ClientHandshake) -> (r: String)
        requires
            old(self).client_counter < usize::MAX,
        ensures
            connected(*old(self), *final(self), addr@, *handshake, r@),
            appended_lines(
                old(self).output_lines@,
                final(self).output_lines@,
                r@,
                connected_message(r@, handshake),
                LineColor::Success,
            ),
            final(self).alter_target == old(self).alter_target,
            final(self).command_id_counter == old(self).command_id_counter,
            addrs_unique(old(self).clients@) ==> addrs_unique(final(self).clients@),
    {
        let ghost addr_v = addr@;
        let tag = self.next_client_tag();
        let info = ClientInfo {
            tag: tag.clone(),
            hostname: handshake.hostname.clone(),
            os: handshake.os.clone(),
            os_version: handshake.os_version.clone(),
            ip: handshake.ip.clone(),
            arch: handshake.arch.clone(),
            connected_at: local_time_hms(),
        };
        let i = find_addr_index(&self.clients, addr.as_str());
        if i < self.clients.len() {
            self.clients.set(i, (addr, info));
        } else {
            self.clients.push((addr, info));
        }
        proof {
            lemma_connected_keeps_unique(old(self).clients@, self.clients@, addr_index(old(self).clients@, addr_v), addr_v);
        }
        let msg = connected_message_exec(&tag, handshake);
        self.add_output(tag.as_str(), msg.as_str(), LineColor::Success);
        tag
    }
}

/// The first client from `addr` is the only one when addresses are unique;
/// removing it leaves none from `addr` and the others still unique.
pub proof fn lemma_removed_keeps_unique(clients: Seq<(String, ClientInfo)>, addr: Seq<char>)
    requires
        addrs_unique(clients),
    ensures
        ({
            let i = addr_index(clients, addr);
            &&& 0 <= i <= clients.len()
            &&& i < clients.len() ==> addrs_unique(clients.remove(i)) && none_from(clients.remove(i), addr)
            &&& i == clients.len() ==> none_from(clients, addr)
        }),
{
    let i = addr_index(clients, addr);
    crate::order::lemma_prefix_len_facts(clients, not_from(addr));
    assert forall|j: int| 0 <= j < i implies (#[trigger] clients[j]).0@ != addr by {
        assert(not_from(addr)(clients[j]));
    }
    if i < clients.len() {
        let r = clients.remove(i);
        assert forall|a: int, b: int| 0 <= a < b < r.len() implies (#[trigger] r[a]).0@ != (#[trigger] r[b]).0@ by {
            let a2 = if a < i { a } else { a + 1 };
            let b2 = if b < i { b } else { b + 1 };
            assert(r[a] == clients[a2]);
            assert(r[b] == clients[b2]);
            assert(clients[a2].0@ != clients[b2].0@);
        }
        assert forall|k: int| 0 <= k < r.len() implies (#[trigger] r[k]).0@ != addr by {
            if k < i {
                assert(r[k] == clients[k]);
            } else {
                assert(r[k] == clients[k + 1]);
                assert(clients[i].0@ == addr);
                assert(clients[i].0@ != clients[k + 1].0@);
            }
        }
    }
}

/// Putting the client from `addr` at `addr_index` (in place of the first
/// client from there, or at the end) keeps the addresses unique.
proof fn lemma_connected_keeps_unique(
    o: Seq<(String, ClientInfo)>,
    f: Seq<(String, ClientInfo)>,
    i: int,
    addr: Seq<char>,
)
    requires
        i == addr_index(o, addr),
        i < o.len() ==> f.len() == o.len(),
        i == o.len() ==> f.len() == o.len() + 1,
        f[i].0@ == addr,
        forall|j: int| 0 <= j < o.len() && j != i ==> f[j] == o[j],
    ensures
        addrs_unique(o) ==> addrs_unique(f),
{
    if addrs_unique(o) {
        lemma_removed_keeps_unique(o, addr);
        crate::order::lemma_prefix_len_facts(o, not_from(addr));
        assert forall|a: int, b: int| 0 <= a < b < f.len() implies (#[trigger] f[a]).0@ != (#[trigger] f[b]).0@ by {
            if a == i {
                assert(f[b] == o[b]);
                if i < o.len() {
                    assert(o[i].0@ == addr);
                    assert(o[i].0@ != o[b].0@);
                }
            } else if b == i {
                assert(f[a] == o[a]);
                assert(not_from(addr)(o[a]));
            } else {
                assert(f[a] == o[a]);
                assert(f[b] == o[b]);
            }
        }
    }
}

/// What `remove_client(addr)` does to the clients and the alter target:
/// the first client from `addr`, if any, leaves, and alter mode ends when it
/// was its target; the tag of the client that left is returned.
pub open spec fn removed(
    clients: Seq<(String, ClientInfo)>,
    alter: Option<String>,
    clients2: Seq<(String, ClientInfo)>,
    alter2: Option<String>,
    addr: Seq<char>,
    r: Option<String>,
) -> bool {
    let i = addr_index(clients, addr);
    if i < clients.len() {
        let tag = clients[i].1.tag;
        &&& r == Some(tag)
        &&& clients2 == clients.remove(i)
        &&& alter2 == if targets(alter, tag@) {
            None
        } else {
            alter
        }
    } else {
        &&& r is None
        &&& clients2 == clients
        &&& alter2 == alter
    }
}

/// What `connect_client(addr, handshake)` does to the clients: the counter
/// moves on, and the client from `addr` (replacing the one there was, else
/// appended) gets the tag `r` of the new counter value and the handshake's
/// details.
pub open spec fn connected(o: AppState, f: AppState, addr: Seq<char>, handshake: ClientHandshake, r: Seq<char>) -> bool {
    let i = addr_index(o.clients@, addr);
    let c = f.clients@[i].1;
    &&& f.client_counter == o.client_counter + 1
    &&& r == tag_text(f.client_counter as nat)
    &&& i < o.clients@.len() ==> f.clients@.len() == o.clients@.len()
    &&& i == o.clients@.len() ==> f.clients@.len() == o.clients@.len() + 1
    &&& f.clients@[i].0@ == addr
    &&& forall|j: int| 0 <= j < o.clients@.len() && j != i ==> f.clients@[j] == o.clients@[j]
    &&& c.tag@ == r
    &&& c.hostname == handshake.hostname
    &&& c.os == handshake.os
    &&& c.os_version == handshake.os_version
    &&& c.ip == handshake.ip
    &&& c.arch == handshake.arch
    &&& is_hms(c.connected_at@)
}

/// `Client [tag] connected: host (os version) at ip`.
pub open spec fn connected_message(tag: Seq<char>, h: &ClientHandshake) -> Seq<char> {
    "Client ["@ + tag + "] connected: "@ + h.hostname@ + " ("@ + h.os@ + " "@ + h.os_version@
        + ") at "@ + h.ip@
}

fn connected_message_exec(tag: &String, h: &ClientHandshake) -> (r: String)
    ensures
        r@ == connected_message(tag@, h),
{
    let mut s = String::from_str("Client [");
    s.append(tag.as_str());
    s.append("] connected: ");
    s.append(h.hostname.as_str());
    s.append(" (");
    s.append(h.os.as_str());
    s.append(" ");
    s.append(h.os_version.as_str());
    s.append(") at ");
    s.append(h.ip.as_str());
    s
}

} // verus!
