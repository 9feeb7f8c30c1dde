//! The admin's view of its clients: delivering commands, broadcasting, and
//! the client table. The channels to the clients are the caller's.
use vstd::prelude::*;
use crate::app::{
    appended_lines, has_tag, same_but_output, AppState, ClientInfo, LineColor, SCROLL_BOTTOM,
};
use crate::order::{lex_le, stable_sort, str_le, insert_pos};
use crate::text::{
    decimal, fit_chars, lemma_prefix_len, lemma_utf8_len, pad_right, prefix_within_bytes,
    push_char, push_decimal, push_padded_right, utf8_len,
};

verus! {

/// The message shown when a command could not reach the client `tag`:
/// `found` tells whether a client had that tag.
pub open spec fn delivery_failure_text(tag: Seq<char>, found: bool) -> Seq<char> {
    if found {
        "Client ["@ + tag + "] disconnected before command could be sent."@
    } else {
        "Client ["@ + tag + "] not found. Use 'rolecall' to see connected clients."@
    }
}

/// Reports how sending a command to the client `tag` went: `sent` is `None`
/// when no client has that tag, else whether the client's channel took it.
/// A failure is shown (under the client's tag, or under `system` when there
/// is no such client) and returned.
pub fn report_delivery(st: &mut AppState, tag: &str, sent: Option<bool>) -> (r: Result<(), String>)
    ensures
        match sent {
            Some(true) => r is Ok && *final(st) == *old(st),
            Some(false) => {
                let msg = delivery_failure_text(tag@, true);
                &&& r matches Err(m) && m@ == msg
                &&& appended_lines(
                    old(st).output_lines@,
                    final(st).output_lines@,
                    tag@,
                    msg,
                    LineColor::Error,
                )
            },
            None => {
                let msg = delivery_failure_text(tag@, false);
                &&& r matches Err(m) && m@ == msg
                &&& appended_lines(
                    old(st).output_lines@,
                    final(st).output_lines@,
                    "system"@,
                    msg,
                    LineColor::Error,
                )
            },
        },
        sent != Some(true) ==> final(st).scroll_offset == SCROLL_BOTTOM,
        sent != Some(true) ==> same_but_output(old(st), final(st)),
        final(st).client_output == old(st).client_output,
{
    match sent {
        Some(true) => Ok(()),
        Some(false) => {
            let mut msg = String::from_str("Client [");
            msg.append(tag);
            msg.append("] disconnected before command could be sent.");
            st.add_output(tag, msg.as_str(), LineColor::Error);
            Err(msg)
        },
        None => {
            let mut msg = String::from_str("Client [");
            msg.append(tag);
            msg.append("] not found. Use 'rolecall' to see connected clients.");
            st.add_output("system", msg.as_str(), LineColor::Error);
            Err(msg)
        },
    }
}

/// The error when a command could not be encoded.
pub fn serialize_failure(error: &str) -> (r: String)
    ensures
        r@ == "Failed to serialize command: "@ + error@,
{
    let mut s = String::from_str("Failed to serialize command: ");
    s.append(error);
    s
}

/// The command ids of a broadcast: the `i`-th client gets the id after the
/// counter plus `i`, in the order of the client table.
pub fn broadcast_plan(st: &AppState) -> (r: Vec<(String, u64)>)
    requires
        st.command_id_counter + st.clients@.len() + 1 <= u64::MAX,
    ensures
        r@.len() == st.clients@.len(),
        forall|i: int|
            0 <= i < r@.len() ==> (#[trigger] r@[i]).0 == st.clients@[i].1.tag && r@[i].1
                == st.command_id_counter + i + 1,
{
    let base = st.command_id_counter;
    let mut r: Vec<(String, u64)> = Vec::new();
    let mut i: usize = 0;
    while i < st.clients.len()
        invariant
            i <= st.clients@.len(),
            base == st.command_id_counter,
            base + st.clients@.len() + 1 <= u64::MAX,
            r@.len() == i,
            forall|j: int|
                0 <= j < i ==> (#[trigger] r@[j]).0 == st.clients@[j].1.tag && r@[j].1 == base + j
                    + 1,
        decreases st.clients.len() - i,
    {
        let tag = st.clients[i].1.tag.clone();
        r.push((tag, base + i as u64 + 1));
        i = i + 1;
    }
    r
}

/// Shows that the broadcast did not reach the client `tag`.
pub fn report_broadcast_failure(st: &mut AppState, tag: &str)
    ensures
        appended_lines(
            old(st).output_lines@,
            final(st).output_lines@,
            tag@,
            "Failed to send broadcast to ["@ + tag@ + "]"@,
            LineColor::Error,
        ),
        final(st).scroll_offset == SCROLL_BOTTOM,
        final(st).client_output == old(st).client_output,
        same_but_output(old(st), final(st)),
{
    let mut s = String::from_str("Failed to send broadcast to [");
    s.append(tag);
    s.append("]");
    st.add_output(tag, s.as_str(), LineColor::Error);
}

/// Ends a broadcast of `message` planned for `planned` clients from the
/// counter value `base`, `sent` of which took it: the counter moves past the
/// ids used and one more, and the count is shown.
pub fn finish_broadcast(st: &mut AppState, base: u64, planned: usize, sent: usize, message: &str)
    requires
        base + planned + 1 <= u64::MAX,
    ensures
        final(st).command_id_counter == base + planned + 1,
        appended_lines(
            old(st).output_lines@,
            final(st).output_lines@,
            "system"@,
            "Broadcast sent to "@ + decimal(sent as nat) + " clients: \""@ + message@ + "\""@,
            LineColor::Success,
        ),
        final(st).scroll_offset == SCROLL_BOTTOM,
        final(st).clients == old(st).clients,
        final(st).alter_target == old(st).alter_target,
        final(st).client_output == old(st).client_output,
{
    st.command_id_counter = base + planned as u64 + 1;
    let mut s = String::from_str("Broadcast sent to ");
    push_decimal(&mut s, sent as u64);
    s.append(" clients: \"");
    s.append(message);
    s.append("\"");
    st.add_output("system", s.as_str(), LineColor::Success);
}

/// The order of the client table: the positions of the clients, stably
/// sorted by tag.
pub open spec fn by_tag(clients: Seq<(String, ClientInfo)>) -> Seq<usize> {
    stable_sort(Seq::new(clients.len(), |i: int| i as usize), tag_key(clients))
}

/// The tag of the client at a position.
pub open spec fn tag_key(clients: Seq<(String, ClientInfo)>) -> spec_fn(usize) -> Seq<char> {
    |i: usize| clients[i as int].1.tag@
}

/// The positions of the clients in the order of their tags.
pub fn order_by_tag(clients: &Vec<(String, ClientInfo)>) -> (r: Vec<usize>)
    ensures
        r@ == by_tag(clients@),
        r@.len() == clients@.len(),
        forall|j: int| 0 <= j < r@.len() ==> #[trigger] r@[j] < clients@.len(),
{
    let ghost key = tag_key(clients@);
    let ghost all = Seq::new(clients@.len(), |i: int| i as usize);
    let mut out: Vec<usize> = Vec::new();
    let mut i: usize = 0;
    while i < clients.len()
        invariant
            i <= clients@.len(),
            key == tag_key(clients@),
            all == Seq::new(clients@.len(), |i: int| i as usize),
            out@ == stable_sort(all.take(i as int), key),
            forall|j: int| 0 <= j < out@.len() ==> #[trigger] out@[j] < clients@.len(),
            out@.len() == i,
        decreases clients.len() - i,
    {
        let ghost t = out@;
        let mut k: usize = 0;
        while k < out.len()
            invariant
                k <= out@.len(),
                t == out@,
                key == tag_key(clients@),
                i < clients@.len(),
                forall|j: int| 0 <= j < out@.len() ==> #[trigger] out@[j] < clients@.len(),
                forall|j: int| 0 <= j < k ==> #[trigger] lex_le(key(t[j]), key(i)),
            ensures
                k <= out@.len(),
                forall|j: int| 0 <= j < k ==> #[trigger] lex_le(key(t[j]), key(i)),
                k < out@.len() ==> !lex_le(key(t[k as int]), key(i)),
            decreases out.len() - k,
        {
            if !str_le(clients[out[k]].1.tag.as_str(), clients[i].1.tag.as_str()) {
                break;
            }
            k = k + 1;
        }
        proof {
            lemma_prefix_len(t, |e: usize| lex_le(key(e), key(i)), k as int);
            let s = all.take(i + 1);
            assert(s.drop_last() =~= all.take(i as int));
            assert(s.last() == i);
            crate::order::lemma_stable_sort(all.take(i as int), key);
        }
        out.insert(k, i);
        proof {
            assert forall|j: int| 0 <= j < out@.len() implies #[trigger] out@[j] < clients@.len() by {
                if j < k {
                    assert(out@[j] == t[j]);
                } else if j > k {
                    assert(out@[j] == t[j - 1]);
                }
            }
        }
        i = i + 1;
    }
    assert(all.take(clients@.len() as int) =~= all);
    out
}

/// `truncate(s, max)`: `s` cut to `max - 1` bytes and an ellipsis when it is
/// longer than `max` bytes.
pub open spec fn truncated(s: Seq<char>, max: nat) -> Seq<char> {
    if utf8_len(s) > max {
        s.take(fit_chars(s, max - 1) as int) + "…"@
    } else {
        s
    }
}

/// `s` can be cut where `truncate` cuts it.
pub open spec fn cut_ok(s: Seq<char>, max: nat) -> bool {
    &&& utf8_len(s) <= usize::MAX
    &&& utf8_len(s) > max ==> max >= 1 && vstd::utf8::is_char_boundary(
        vstd::utf8::encode_utf8(s),
        max - 1,
    )
}

fn truncate(s: &str, max_len: usize) -> (r: String)
    requires
        cut_ok(s@, max_len as nat),
    ensures
        r@ == truncated(s@, max_len as nat),
{
    proof {
        lemma_utf8_len(s@);
    }
    if s.len() > max_len {
        let mut r = prefix_within_bytes(s, max_len - 1);
        r.append("…");
        r
    } else {
        String::from_str(s)
    }
}

/// A client's OS as the table shows it.
pub open spec fn os_text(c: ClientInfo) -> Seq<char> {
    c.os@ + " "@ + c.os_version@
}

/// A client's names can be cut where the table cuts them.
pub open spec fn row_ok(c: ClientInfo) -> bool {
    cut_ok(c.hostname@, 18) && cut_ok(os_text(c), 10)
}

/// The host, address and OS columns of a row.
pub open spec fn rolecall_middle(c: ClientInfo) -> Seq<char> {
    pad_right(truncated(c.hostname@, 18), 20) + " "@ + pad_right(c.ip@, 16) + " "@ + pad_right(
        truncated(os_text(c), 10),
        12,
    )
}

/// One row of the client table.
pub open spec fn rolecall_row(c: ClientInfo) -> Seq<char> {
    "  "@ + pad_right(c.tag@, 6) + " "@ + rolecall_middle(c) + " "@ + pad_right(c.arch@, 10) + " "@
        + c.connected_at@ + "\n"@
}

/// The rows of the clients at the positions `order`.
pub open spec fn rolecall_rows(clients: Seq<(String, ClientInfo)>, order: Seq<usize>) -> Seq<char>
    decreases order.len(),
{
    if order.len() == 0 {
        Seq::empty()
    } else {
        rolecall_rows(clients, order.drop_last()) + rolecall_row(clients[order.last() as int].1)
    }
}

/// The client table.
pub open spec fn rolecall_text(clients: Seq<(String, ClientInfo)>) -> Seq<char> {
    if clients.len() == 0 {
        "No clients connected."@
    } else {
        "  "@ + pad_right("TAG"@, 6) + " "@ + pad_right("HOSTNAME"@, 20) + " "@ + pad_right(
            "IP"@,
            16,
        ) + " "@ + pad_right("OS"@, 12) + " "@ + pad_right("ARCH"@, 10) + " "@ + "CONNECTED"@
            + "\n"@ + "  "@ + Seq::new(75, |i: int| '─') + "\n"@ + rolecall_rows(
            clients,
            by_tag(clients),
        ) + "\n  Total: "@ + decimal(clients.len()) + " client(s) connected"@
    }
}

fn push_rolecall_middle(out: &mut String, c: &ClientInfo)
    requires
        row_ok(*c),
    ensures
        final(out)@ == old(out)@ + rolecall_middle(*c),
{
    let host = truncate(c.hostname.as_str(), 18);
    push_padded_right(out, host.as_str(), 20);
    out.append(" ");
    push_padded_right(out, c.ip.as_str(), 16);
    out.append(" ");
    let mut os = c.os.clone();
    os.append(" ");
    os.append(c.os_version.as_str());
    let os_cut = truncate(os.as_str(), 10);
    push_padded_right(out, os_cut.as_str(), 12);
    assert(out@ =~= old(out)@ + rolecall_middle(*c));
}

fn push_rolecall_row(out: &mut String, c: &ClientInfo)
    requires
        row_ok(*c),
    ensures
        final(out)@ == old(out)@ + rolecall_row(*c),
{
    out.append("  ");
    push_padded_right(out, c.tag.as_str(), 6);
    out.append(" ");
    push_rolecall_middle(out, c);
    out.append(" ");
    push_padded_right(out, c.arch.as_str(), 10);
    out.append(" ");
    out.append(c.connected_at.as_str());
    out.append("\n");
    assert(out@ =~= old(out)@ + rolecall_row(*c));
}

/// Generate the rolecall table output.
pub fn rolecall(st: &AppState) -> (r: String)
    requires
        forall|i: int| 0 <= i < st.clients@.len() ==> row_ok(#[trigger] st.clients@[i].1),
    ensures
        r@ == rolecall_text(st.clients@),
{
    if st.clients.len() == 0 {
        return String::from_str("No clients connected.");
    }
    let mut output = String::from_str("  ");
    push_padded_right(&mut output, "TAG", 6);
    output.append(" ");
    push_padded_right(&mut output, "HOSTNAME", 20);
    output.append(" ");
    push_padded_right(&mut output, "IP", 16);
    output.append(" ");
    push_padded_right(&mut output, "OS", 12);
    output.append(" ");
    push_padded_right(&mut output, "ARCH", 10);
    output.append(" ");
    output.append("CONNECTED");
    output.append("\n");
    output.append("  ");
    let ghost head = output@;
    let mut k: usize = 0;
    while k < 75
        invariant
            k <= 75,
            output@ == head + Seq::new(k as nat, |i: int| '─'),
        decreases 75 - k,
    {
        push_char(&mut output, '─');
        k = k + 1;
        assert(output@ =~= head + Seq::new(k as nat, |i: int| '─'));
    }
    output.append("\n");
    let order = order_by_tag(&st.clients);
    let ghost prefix = output@;
    let mut i: usize = 0;
    while i < order.len()
        invariant
            i <= order@.len(),
            order@ == by_tag(st.clients@),
            forall|j: int| 0 <= j < order@.len() ==> #[trigger] order@[j] < st.clients@.len(),
            forall|j: int| 0 <= j < st.clients@.len() ==> row_ok(#[trigger] st.clients@[j].1),
            output@ == prefix + rolecall_rows(st.clients@, order@.take(i as int)),
        decreases order.len() - i,
    {
        let c = &st.clients[order[i]].1;
        push_rolecall_row(&mut output, c);
        proof {
            let s = order@.take(i + 1);
            assert(s.drop_last() =~= order@.take(i as int));
            assert(s.last() == order@[i as int]);
            assert(output@ =~= prefix + rolecall_rows(st.clients@, s));
        }
        i = i + 1;
    }
    assert(order@.take(order@.len() as int) =~= order@);
    output.append("\n  Total: ");
    push_decimal(&mut output, st.clients.len() as u64);
    output.append(" client(s) connected");
    output
}

/// An entry of the client list panel: the tag, the host name, and whether
/// it is the alter target.
pub open spec fn list_entry(st: AppState, i: usize) -> (Seq<char>, Seq<char>, bool) {
    let c = st.clients@[i as int].1;
    (
        c.tag@,
        c.hostname@,
        match st.alter_target {
            Some(t) => t@ == c.tag@,
            None => false,
        },
    )
}

/// The entries of the client list panel, in the order of their tags.
pub fn client_list_entries(st: &AppState) -> (r: Vec<(String, String, bool)>)
    ensures
        r@.len() == st.clients@.len(),
        forall|j: int|
            0 <= j < r@.len() ==> {
                let (t, h, hl) = list_entry(*st, by_tag(st.clients@)[j]);
                &&& (#[trigger] r@[j]).0@ == t
                &&& r@[j].1@ == h
                &&& r@[j].2 == hl
            },
{
    let order = order_by_tag(&st.clients);
    let mut r: Vec<(String, String, bool)> = Vec::new();
    let mut i: usize = 0;
    while i < order.len()
        invariant
            i <= order@.len(),
            order@ == by_tag(st.clients@),
            order@.len() == st.clients@.len(),
            forall|j: int| 0 <= j < order@.len() ==> #[trigger] order@[j] < st.clients@.len(),
            r@.len() == i,
            forall|j: int|
                0 <= j < i ==> {
                    let (t, h, hl) = list_entry(*st, by_tag(st.clients@)[j]);
                    &&& (#[trigger] r@[j]).0@ == t
                    &&& r@[j].1@ == h
                    &&& r@[j].2 == hl
                },
        decreases order.len() - i,
    {
        let c = &st.clients[order[i]].1;
        let hl = match &st.alter_target {
            Some(t) => crate::text::str_eq(t.as_str(), c.tag.as_str()),
            None => false,
        };
        r.push((c.tag.clone(), c.hostname.clone(), hl));
        i = i + 1;
    }
    r
}

} // verus!
