//! The text of the terminal's panels: the status bars and the help overlay.
//! Drawing them is left to the caller, which maps each text style to the
//! theme.
use vstd::prelude::*;
use crate::app::AppState;
use crate::app::has_tag;
use crate::text::{
    chars_of, decimal, lemma_utf8_len, push_decimal, push_spaces, spaces, spec_lines, string_of_range,
    lines_of, utf8_len,
};
use crate::repl::{range_starts_with, starts_with};

verus! {

/// The theme style of a piece of text.
#[derive(Debug, Clone, Copy, PartialEq, Eq, Structural)]
pub enum TextStyle {
    Brand,
    Highlight,
    Dim,
    Text,
    StatusBar,
}

/// The help overlay popup.
pub struct HelpOverlayWidget {
    pub scroll: u16,
}

/// The help text.
pub open spec fn help_text() -> Seq<char> {
    "
  ═══════════════════════════════════════
  ADMIN COMMANDS (run locally)
  ─────────────────────────────────────

  rolecall            → List all connected clients
  fluffy --help       → Show this help overlay
  f alter <tag>       → Set target (e.g., f alter f1)
  f alter local       → Clear alter mode (run locally)
  f alter off         → Same as f alter local
  clean               → Clear the output panel
  history             → Show command history
  !!                  → Re-run the last command
  broadcast \"msg\"     → Send notification to ALL clients
  exit / quit         → Exit fluffy-admin

  ═══════════════════════════════════════
  CLIENT COMMANDS (sent to target)
  ─────────────────────────────────────

  ls [path]           → List files and folders
  pwd                 → Print working directory
  cd <path>           → Change directory
  cat <file>          → Print file contents
  whoami              → Device name + username + role
  sysinfo             → Full system information
  processes           → List all processes (by CPU%)
  kill <pid>          → Kill a process by PID
  disk --info         → RAM + disk usage info
  lock                → Lock the target's screen
  shutdown            → Shutdown the target
  restart             → Restart the target
  notify \"msg\"        → Desktop notification on target
  alert               → Play alert sound on target
  locate              → Network geolocation (IP-based)
  netinfo             → Network information
  users               → List user accounts
  screenshot          → Capture screen (save as PNG)
  clipboard           → Read clipboard text content
  battery             → Battery status
  upload <file>       → Transfer file TO target
  download <file>     → Transfer file FROM target
  ping                → Latency check (returns PONG)
  sh <command>        → Run raw shell command

  ═══════════════════════════════════════
  TARGETING
  ─────────────────────────────────────

  f1 sysinfo          → Run sysinfo on client f1
  f alter f1          → All commands go to f1
  sysinfo             → (after alter) same as f1 sysinfo
  f alter off         → Back to local mode

  ═══════════════════════════════════════
  SHORTCUTS
  ─────────────────────────────────────

  Ctrl+C              → Exit
  ESC                 → Close help overlay
  ↑/↓                 → Scroll output
  Page Up/Down        → Scroll output (fast)
"@
}

/// The help text.
pub fn get_help_text() -> (r: &'static str)
    ensures
        r@ == help_text(),
{
    "
  ═══════════════════════════════════════
  ADMIN COMMANDS (run locally)
  ─────────────────────────────────────

  rolecall            → List all connected clients
  fluffy --help       → Show this help overlay
  f alter <tag>       → Set target (e.g., f alter f1)
  f alter local       → Clear alter mode (run locally)
  f alter off         → Same as f alter local
  clean               → Clear the output panel
  history             → Show command history
  !!                  → Re-run the last command
  broadcast \"msg\"     → Send notification to ALL clients
  exit / quit         → Exit fluffy-admin

  ═══════════════════════════════════════
  CLIENT COMMANDS (sent to target)
  ─────────────────────────────────────

  ls [path]           → List files and folders
  pwd                 → Print working directory
  cd <path>           → Change directory
  cat <file>          → Print file contents
  whoami              → Device name + username + role
  sysinfo             → Full system information
  processes           → List all processes (by CPU%)
  kill <pid>          → Kill a process by PID
  disk --info         → RAM + disk usage info
  lock                → Lock the target's screen
  shutdown            → Shutdown the target
  restart             → Restart the target
  notify \"msg\"        → Desktop notification on target
  alert               → Play alert sound on target
  locate              → Network geolocation (IP-based)
  netinfo             → Network information
  users               → List user accounts
  screenshot          → Capture screen (save as PNG)
  clipboard           → Read clipboard text content
  battery             → Battery status
  upload <file>       → Transfer file TO target
  download <file>     → Transfer file FROM target
  ping                → Latency check (returns PONG)
  sh <command>        → Run raw shell command

  ═══════════════════════════════════════
  TARGETING
  ─────────────────────────────────────

  f1 sysinfo          → Run sysinfo on client f1
  f alter f1          → All commands go to f1
  sysinfo             → (after alter) same as f1 sysinfo
  f alter off         → Back to local mode

  ═══════════════════════════════════════
  SHORTCUTS
  ─────────────────────────────────────

  Ctrl+C              → Exit
  ESC                 → Close help overlay
  ↑/↓                 → Scroll output
  Page Up/Down        → Scroll output (fast)
"
}

/// A line of styled pieces.
pub type StyledLine = Vec<(String, TextStyle)>;

pub open spec fn styled_view(l: Seq<(String, TextStyle)>) -> Seq<(Seq<char>, TextStyle)> {
    l.map_values(|p: (String, TextStyle)| (p.0@, p.1))
}

/// How the help overlay shows a line: rules and headings in the brand style,
/// a line with an arrow as a highlighted command, a dim arrow and its
/// description, anything else as text.
pub open spec fn help_line_view(l: Seq<char>) -> Seq<(Seq<char>, TextStyle)> {
    if starts_with(l, "  ─"@) || starts_with(l, "═"@) || starts_with(l, "  ADMIN"@) || starts_with(
        l,
        "  CLIENT"@,
    ) || starts_with(l, "  PLUGIN"@) {
        seq![(l, TextStyle::Brand)]
    } else if l.contains('→') {
        let k = crate::text::prefix_len(l, |c: char| c != '→') as int;
        seq![
            (l.take(k), TextStyle::Highlight),
            ("→"@, TextStyle::Dim),
            (l.skip(k + 1), TextStyle::Text),
        ]
    } else {
        seq![(l, TextStyle::Text)]
    }
}

fn help_line(l: &str) -> (r: StyledLine)
    ensures
        styled_view(r@) == help_line_view(l@),
{
    let v = chars_of(l);
    let n = v.len();
    assert(v@.subrange(0, n as int) =~= l@);
    if range_starts_with(&v, 0, n, "  ─") || range_starts_with(&v, 0, n, "═") || range_starts_with(
        &v,
        0,
        n,
        "  ADMIN",
    ) || range_starts_with(&v, 0, n, "  CLIENT") || range_starts_with(&v, 0, n, "  PLUGIN") {
        let r = vec![(String::from_str(l), TextStyle::Brand)];
        assert(styled_view(r@) =~= help_line_view(l@));
        return r;
    }
    let mut k: usize = 0;
    while k < n && v[k] != '→'
        invariant
            k <= n,
            n == v@.len(),
            v@ == l@,
            forall|j: int| 0 <= j < k ==> #[trigger] v@[j] != '→',
        decreases n - k,
    {
        k = k + 1;
    }
    if k == n {
        proof {
            assert(!l@.contains('→'));
        }
        let r = vec![(String::from_str(l), TextStyle::Text)];
        assert(styled_view(r@) =~= help_line_view(l@));
        return r;
    }
    proof {
        crate::text::lemma_prefix_len(l@, |c: char| c != '→', k as int);
        assert(l@.contains('→')) by {
            assert(l@[k as int] == '→');
        }
        assert(l@.take(k as int) =~= v@.subrange(0, k as int));
        assert(l@.skip(k + 1) =~= v@.subrange(k + 1, n as int));
    }
    let r = vec![
        (string_of_range(&v, 0, k), TextStyle::Highlight),
        (String::from_str("→"), TextStyle::Dim),
        (string_of_range(&v, k + 1, n), TextStyle::Text),
    ];
    assert(styled_view(r@) =~= help_line_view(l@));
    r
}

/// The lines of the help overlay.
pub fn help_lines() -> (r: Vec<StyledLine>)
    ensures
        r@.len() == spec_lines(help_text()).len(),
        forall|i: int|
            0 <= i < r@.len() ==> styled_view(#[trigger] r@[i]@) == help_line_view(
                spec_lines(help_text())[i],
            ),
{
    let text = get_help_text();
    let v = chars_of(text);
    assert(v@.skip(0) =~= text@);
    let lines = lines_of(&v, 0);
    let mut r: Vec<StyledLine> = Vec::new();
    let mut i: usize = 0;
    while i < lines.len()
        invariant
            i <= lines@.len(),
            lines@.len() == spec_lines(help_text()).len(),
            forall|j: int| 0 <= j < lines@.len() ==> #[trigger] lines@[j]@ == spec_lines(help_text())[j],
            r@.len() == i,
            forall|j: int|
                0 <= j < i ==> styled_view(#[trigger] r@[j]@) == help_line_view(
                    spec_lines(help_text())[j],
                ),
        decreases lines.len() - i,
    {
        let l = help_line(lines[i].as_str());
        r.push(l);
        i = i + 1;
    }
    r
}

/// A reusable status bar widget showing key-value pairs.
pub struct FluffyStatusBar<'a> {
    items: Vec<(&'a str, String)>,
}

impl<'a> FluffyStatusBar<'a> {
    pub closed spec fn spec_items(&self) -> Seq<(&'a str, String)> {
        self.items@
    }

    pub fn new(items: Vec<(&'a str, String)>) -> (r: Self)
        ensures
            r.spec_items() == items@,
            r.pieces() == seq![" FLUFFY "@] + bar_items(items@),
    {
        Self { items }
    }

    /// The pieces of the bar: the name, then for each item a separator and
    /// `label: value`.
    pub closed spec fn pieces(&self) -> Seq<Seq<char>> {
        seq![" FLUFFY "@] + bar_items(self.items@)
    }

    /// The text of the bar `width` columns wide: its pieces, and spaces up to
    /// `width` bytes when they are shorter.
    pub fn bar_text(&self, width: u16) -> (r: String)
        ensures
            r@ == padded_bar(self.pieces(), width as nat),
    {
        let mut out = String::from_str(" FLUFFY ");
        proof {
            reveal_with_fuel(concat, 2);
            assert(concat(seq![" FLUFFY "@]) =~= " FLUFFY "@);
        }
        let mut i: usize = 0;
        while i < self.items.len()
            invariant
                i <= self.items@.len(),
                out@ == concat(seq![" FLUFFY "@] + bar_items(self.items@.take(i as int))),
            decreases self.items.len() - i,
        {
            let (label, value) = &self.items[i];
            let ghost before = out@;
            out.append("  │  ");
            out.append(label);
            out.append(": ");
            out.append(value.as_str());
            proof {
                let s = self.items@.take(i + 1);
                assert(s.drop_last() =~= self.items@.take(i as int));
                let p = seq![" FLUFFY "@] + bar_items(self.items@.take(i as int));
                lemma_concat_push2(p, "  │  "@, label@ + ": "@ + value@);
                assert(seq![" FLUFFY "@] + bar_items(s) =~= p + seq!["  │  "@, label@ + ": "@ + value@]);
                assert(out@ =~= before + "  │  "@ + (label@ + ": "@ + value@));
            }
            i = i + 1;
        }
        proof {
            assert(self.items@.take(self.items@.len() as int) =~= self.items@);
        }
        push_padding(&mut out, width);
        out
    }
}

proof fn lemma_utf8_len_push(s: Seq<char>, c: char)
    ensures
        utf8_len(s.push(c)) == utf8_len(s) + crate::text::char_len(c),
    decreases s.len(),
{
    if s.len() > 0 {
        assert(s.push(c).drop_first() =~= s.drop_first().push(c));
        assert(s.push(c)[0] == s[0]);
        lemma_utf8_len_push(s.drop_first(), c);
    } else {
        assert(s.push(c).drop_first() =~= Seq::<char>::empty());
        assert(s.push(c)[0] == c);
        assert(utf8_len(Seq::<char>::empty()) == 0);
    }
}

/// Appends spaces up to `width` bytes when the text is shorter.
fn push_padding(out: &mut String, width: u16)
    ensures
        final(out)@ == if width > utf8_len(old(out)@) {
            old(out)@ + spaces((width - utf8_len(old(out)@)) as nat)
        } else {
            old(out)@
        },
{
    let v = chars_of(out.as_str());
    let mut acc: usize = 0;
    let mut i: usize = 0;
    while i < v.len() && acc < width as usize
        invariant
            i <= v@.len(),
            v@ == out@,
            acc == utf8_len(v@.take(i as int)),
            acc <= width + 4,
        decreases v.len() - i,
    {
        proof {
            assert(v@.take(i + 1) =~= v@.take(i as int).push(v@[i as int]));
            lemma_utf8_len_push(v@.take(i as int), v@[i as int]);
        }
        acc = acc + crate::text::char_len_exec(v[i]);
        i = i + 1;
    }
    proof {
        assert(v@.take(v@.len() as int) =~= v@);
        if i < v@.len() {
            lemma_utf8_len_take(v@, i as int);
        }
    }
    if acc < width as usize {
        push_spaces(out, width as usize - acc);
    }
}

proof fn lemma_utf8_len_take(s: Seq<char>, i: int)
    requires
        0 <= i <= s.len(),
    ensures
        utf8_len(s.take(i)) <= utf8_len(s),
    decreases s.len() - i,
{
    if i < s.len() {
        lemma_utf8_len_take(s, i + 1);
        assert(s.take(i + 1) =~= s.take(i).push(s[i]));
        lemma_utf8_len_push(s.take(i), s[i]);
    } else {
        assert(s.take(i) =~= s);
    }
}

/// The pieces of the items: a separator, then `label: value`.
pub open spec fn bar_items<'a>(items: Seq<(&'a str, String)>) -> Seq<Seq<char>>
    decreases items.len(),
{
    if items.len() == 0 {
        Seq::empty()
    } else {
        bar_items(items.drop_last()) + bar_item(items.last())
    }
}

pub open spec fn bar_item<'a>(item: (&'a str, String)) -> Seq<Seq<char>> {
    seq!["  │  "@, item.0@ + ": "@ + item.1@]
}

/// The pieces written one after the other.
pub open spec fn concat(pieces: Seq<Seq<char>>) -> Seq<char>
    decreases pieces.len(),
{
    if pieces.len() == 0 {
        Seq::empty()
    } else {
        concat(pieces.drop_last()) + pieces.last()
    }
}

proof fn lemma_concat_push2(p: Seq<Seq<char>>, a: Seq<char>, b: Seq<char>)
    ensures
        concat(p + seq![a, b]) == concat(p) + a + b,
{
    let q = p + seq![a, b];
    assert(q.drop_last() =~= p.push(a));
    assert(p.push(a).drop_last() =~= p);
    assert(concat(q) == concat(q.drop_last()) + q.last());
    assert(concat(p.push(a)) == concat(p.push(a).drop_last()) + p.push(a).last());
}

/// A status bar: the pieces, then spaces up to `width` bytes when they are
/// shorter.
pub open spec fn padded_bar(pieces: Seq<Seq<char>>, width: nat) -> Seq<char> {
    let t = concat(pieces);
    if width > utf8_len(t) {
        t + spaces((width - utf8_len(t)) as nat)
    } else {
        t
    }
}

/// What the status bar shows as the target: the alter target and its host
/// (`?` when no client has that tag), or `local`.
pub open spec fn target_text(st: AppState) -> Seq<char> {
    match st.alter_target {
        Some(tag) => tag@ + " ["@ + (if has_tag(st.clients@, tag@) {
            st.clients@[crate::app::tag_index(st.clients@, tag@)].1.hostname@
        } else {
            "?"@
        }) + "]"@,
        None => "local"@,
    }
}

/// The pieces of the top status bar at local time `time`.
pub open spec fn status_pieces(st: AppState, time: Seq<char>) -> Seq<Seq<char>> {
    seq![
        " FLUFFY "@,
        "  │  "@,
        "Target: "@ + target_text(st),
        "  │  "@,
        decimal(st.clients@.len()) + " online"@,
        "  │  "@,
        time,
    ]
}

/// The top status bar, `width` columns wide, at local time `time`.
pub fn status_bar_text(st: &AppState, time: &str, width: u16) -> (r: String)
    ensures
        r@ == padded_bar(status_pieces(*st, time@), width as nat),
{
    let target = match &st.alter_target {
        Some(tag) => {
            let mut t = tag.clone();
            t.append(" [");
            match st.find_client_by_tag(tag.as_str()) {
                Some((_, c)) => t.append(c.hostname.as_str()),
                None => t.append("?"),
            }
            t.append("]");
            t
        },
        None => String::from_str("local"),
    };
    let mut out = String::from_str(" FLUFFY ");
    out.append("  │  ");
    out.append("Target: ");
    out.append(target.as_str());
    out.append("  │  ");
    push_decimal(&mut out, st.clients.len() as u64);
    out.append(" online");
    out.append("  │  ");
    out.append(time);
    proof {
        let p = status_pieces(*st, time@);
        assert(target@ == target_text(*st));
        reveal_with_fuel(concat, 8);
        assert(out@ =~= concat(p));
    }
    push_padding(&mut out, width);
    out
}

} // verus!
