//! The network report of the client: the texts that `ip route` and
//! `/etc/resolv.conf` hold are read here; running the tools and reading the
//! interfaces is left to the caller.
use vstd::prelude::*;
use crate::handlers::{reply_view, ProcessOutcome};
use crate::order::lemma_prefix_len_facts;
use crate::repl::starts_with;
use crate::text::{
    chars_of, decimal, is_ws, is_ws_char, lines_of, non_ws_pred, pad_right, prefix_len,
    push_decimal, push_padded_right, spec_lines, spec_trim, string_of_range, trim_range, ws_pred,
};

verus! {

/// `str::split_whitespace`: the maximal runs of non-whitespace characters.
pub open spec fn words(s: Seq<char>) -> Seq<Seq<char>>
    decreases s.len(),
{
    let t = s.skip(prefix_len(s, ws_pred()) as int);
    if t.len() == 0 {
        Seq::empty()
    } else {
        let w = prefix_len(t, non_ws_pred());
        proof {
            lemma_prefix_len_facts(s, ws_pred());
            lemma_prefix_len_facts(t, non_ws_pred());
        }
        seq![t.take(w as int)] + words(t.skip(w as int))
    }
}

/// The `n`-th word of `v`, if it has that many.
fn nth_word(v: &Vec<char>, n: usize) -> (r: Option<String>)
    ensures
        n < words(v@).len() ==> (r matches Some(w) && w@ == words(v@)[n as int]),
        n >= words(v@).len() ==> r is None,
{
    let len = v.len();
    let mut pos: usize = 0;
    let mut k: usize = 0;
    assert(v@.skip(0) =~= v@);
    assert(words(v@).skip(0) =~= words(v@));
    loop
        invariant
            pos <= len,
            len == v@.len(),
            k <= words(v@).len(),
            k <= n,
            words(v@).skip(k as int) == words(v@.skip(pos as int)),
        decreases len - pos,
    {
        let ghost s = v@.skip(pos as int);
        let mut a = pos;
        while a < len && is_ws_char(v[a])
            invariant
                pos <= a <= len,
                len == v@.len(),
                s == v@.skip(pos as int),
                forall|j: int| 0 <= j < a - pos ==> #[trigger] ws_pred()(s[j]),
            decreases len - a,
        {
            assert(s[a - pos] == v@[a as int]);
            a = a + 1;
        }
        proof {
            if a < len {
                assert(s[a - pos] == v@[a as int]);
            }
            crate::text::lemma_prefix_len(s, ws_pred(), a - pos);
            assert(s.skip(a - pos) =~= v@.skip(a as int));
        }
        if a == len {
            proof {
                assert(words(s).len() == 0);
            }
            return None;
        }
        let ghost t = v@.skip(a as int);
        let mut b = a;
        while b < len && !is_ws_char(v[b])
            invariant
                a <= b <= len,
                len == v@.len(),
                t == v@.skip(a as int),
                forall|j: int| 0 <= j < b - a ==> #[trigger] non_ws_pred()(t[j]),
            decreases len - b,
        {
            assert(t[b - a] == v@[b as int]);
            b = b + 1;
        }
        proof {
            if b < len {
                assert(t[b - a] == v@[b as int]);
            }
            crate::text::lemma_prefix_len(t, non_ws_pred(), b - a);
            assert(t.skip(b - a) =~= v@.skip(b as int));
            assert(t.take(b - a) =~= v@.subrange(a as int, b as int));
            assert(words(s) == seq![t.take(b - a)] + words(t.skip(b - a)));
            assert(words(v@)[k as int] == words(v@).skip(k as int)[0]);
            assert(words(v@).skip(k + 1) =~= words(v@).skip(k as int).drop_first());
        }
        if k == n {
            return Some(string_of_range(v, a, b));
        }
        k = k + 1;
        pos = b;
    }
}

/// The default gateway as `ip route show default` prints it: its third
/// word (`default via <gateway> ...`).
pub open spec fn gateway_text(route: Option<Seq<char>>) -> Seq<char> {
    match route {
        Some(text) => if words(text).len() > 2 {
            words(text)[2]
        } else {
            "Unknown"@
        },
        None => "Unknown"@,
    }
}

/// The default gateway, from the output of `ip route show default`
/// (`None` when the tool could not run).
pub fn gateway_from_route(route: Option<&str>) -> (r: String)
    ensures
        r@ == gateway_text(match route {
            Some(t) => Some(t@),
            None => None,
        }),
{
    match route {
        Some(text) => {
            let v = chars_of(text);
            match nth_word(&v, 2) {
                Some(w) => w,
                None => String::from_str("Unknown"),
            }
        },
        None => String::from_str("Unknown"),
    }
}

/// The name servers of the `nameserver` lines of `lines`: the second word
/// of each that has one.
pub open spec fn name_servers(lines: Seq<Seq<char>>) -> Seq<Seq<char>>
    decreases lines.len(),
{
    if lines.len() == 0 {
        Seq::empty()
    } else {
        let rest = name_servers(lines.drop_last());
        let l = lines.last();
        if starts_with(l, "nameserver"@) && words(l).len() > 1 {
            rest.push(words(l)[1])
        } else {
            rest
        }
    }
}

/// `parts.join(", ")`.
pub open spec fn comma_joined(parts: Seq<Seq<char>>) -> Seq<char>
    decreases parts.len(),
{
    if parts.len() == 0 {
        Seq::empty()
    } else if parts.len() == 1 {
        parts[0]
    } else {
        comma_joined(parts.drop_last()) + ", "@ + parts.last()
    }
}

/// The DNS servers as `/etc/resolv.conf` lists them.
pub open spec fn dns_text(resolv: Option<Seq<char>>) -> Seq<char> {
    match resolv {
        Some(content) => comma_joined(name_servers(spec_lines(content))),
        None => "Unknown"@,
    }
}

/// The DNS servers, from the contents of `/etc/resolv.conf` (`None` when
/// it could not be read).
pub fn dns_from_resolv(resolv: Option<&str>) -> (r: String)
    ensures
        r@ == dns_text(match resolv {
            Some(t) => Some(t@),
            None => None,
        }),
{
    match resolv {
        None => String::from_str("Unknown"),
        Some(content) => {
            let v = chars_of(content);
            let lines = lines_of(&v, 0);
            assert(v@.skip(0) =~= content@);
            let ghost ls = spec_lines(content@);
            let mut out = String::new();
            let mut count: usize = 0;
            let mut i: usize = 0;
            while i < lines.len()
                invariant
                    i <= lines@.len(),
                    lines@.len() == ls.len(),
                    ls == spec_lines(content@),
                    forall|j: int| 0 <= j < lines@.len() ==> #[trigger] lines@[j]@ == ls[j],
                    count == name_servers(ls.take(i as int)).len(),
                    count <= i,
                    out@ == comma_joined(name_servers(ls.take(i as int))),
                decreases lines.len() - i,
            {
                let l = chars_of(lines[i].as_str());
                let is_ns = crate::repl::range_starts_with(&l, 0, l.len(), "nameserver");
                proof {
                    let s = ls.take(i + 1);
                    assert(s.drop_last() =~= ls.take(i as int));
                    assert(s.last() == ls[i as int]);
                    assert(l@.subrange(0, l@.len() as int) =~= l@);
                }
                if is_ns {
                    match nth_word(&l, 1) {
                        Some(w) => {
                            let ghost prev = name_servers(ls.take(i as int));
                            proof {
                                assert(name_servers(ls.take(i + 1)) == prev.push(w@));
                                assert(prev.push(w@).drop_last() =~= prev);
                            }
                            if count > 0 {
                                out.append(", ");
                            }
                            out.append(w.as_str());
                            count = count + 1;
                            proof {
                                if prev.len() == 0 {
                                    assert(out@ =~= w@);
                                } else {
                                    assert(out@ =~= comma_joined(prev) + ", "@ + w@);
                                }
                            }
                        },
                        None => {},
                    }
                }
                i = i + 1;
            }
            assert(ls.take(lines@.len() as int) =~= ls);
            out
        },
    }
}

/// The public address as `curl -s https://api.ipify.org` gave it.
pub open spec fn public_ip_text(o: ProcessOutcome) -> Seq<char> {
    match o {
        ProcessOutcome::Finished { success, stdout, .. } if success => spec_trim(stdout@),
        _ => "Unable to determine (no internet or service unavailable)"@,
    }
}

/// The public address, from the outcome of `curl -s --max-time 3 https://api.ipify.org`.
pub fn public_ip(o: ProcessOutcome) -> (r: String)
    ensures
        r@ == public_ip_text(o),
{
    match o {
        ProcessOutcome::Finished { success, stdout, .. } => {
            if success {
                let v = chars_of(stdout.as_str());
                let (a, b) = trim_range(&v, 0, v.len());
                assert(v@.subrange(0, v.len() as int) =~= stdout@);
                string_of_range(&v, a, b)
            } else {
                String::from_str("Unable to determine (no internet or service unavailable)")
            }
        },
        _ => String::from_str("Unable to determine (no internet or service unavailable)"),
    }
}

/// A network interface: its name, its MAC address as text, and the bytes it
/// received and sent.
pub struct NetInterface {
    pub name: String,
    pub mac: String,
    pub received: u64,
    pub sent: u64,
}

/// The lines of one interface.
pub open spec fn interface_text(i: NetInterface) -> Seq<char> {
    "  "@ + pad_right(i.name@, 16) + " MAC: "@ + i.mac@ + "\n"@ + "    Received  : "@ + decimal(
        i.received as nat,
    ) + " bytes\n"@ + "    Sent      : "@ + decimal(i.sent as nat) + " bytes\n"@
}

/// The lines of the interfaces, in order.
pub open spec fn interfaces_text(is: Seq<NetInterface>) -> Seq<char>
    decreases is.len(),
{
    if is.len() == 0 {
        Seq::empty()
    } else {
        interfaces_text(is.drop_last()) + interface_text(is.last())
    }
}

/// The network report.
pub open spec fn netinfo_text(
    local_ip: Seq<char>,
    public_ip: Seq<char>,
    interfaces: Seq<NetInterface>,
    gateway: Seq<char>,
    dns: Seq<char>,
) -> Seq<char> {
    "  ── Network Information ──────────────────\n\n"@ + "  Local IP      : "@ + local_ip + "\n"@
        + "  Public IP     : "@ + public_ip + "\n"@ + "\n  ── Interfaces ──────────────────────────\n"@
        + interfaces_text(interfaces) + "\n  Gateway       : "@ + gateway + "\n"@
        + "  DNS Servers   : "@ + dns + "\n"@
}

fn push_interface(output: &mut String, it: &NetInterface)
    ensures
        final(output)@ == old(output)@ + interface_text(*it),
{
    output.append("  ");
    push_padded_right(output, it.name.as_str(), 16);
    output.append(" MAC: ");
    output.append(it.mac.as_str());
    output.append("\n");
    output.append("    Received  : ");
    push_decimal(output, it.received);
    output.append(" bytes\n");
    output.append("    Sent      : ");
    push_decimal(output, it.sent);
    output.append(" bytes\n");
    assert(output@ =~= old(output)@ + interface_text(*it));
}

/// Handle netinfo command — network information.
pub fn handle_netinfo(
    local_ip: &str,
    public_ip: &str,
    interfaces: &Vec<NetInterface>,
    gateway: &str,
    dns: &str,
) -> (r: Result<String, String>)
    ensures
        reply_view(r) == Ok::<Seq<char>, Seq<char>>(
            netinfo_text(local_ip@, public_ip@, interfaces@, gateway@, dns@),
        ),
{
    let mut output = String::from_str("  ── Network Information ──────────────────\n\n");
    output.append("  Local IP      : ");
    output.append(local_ip);
    output.append("\n");
    output.append("  Public IP     : ");
    output.append(public_ip);
    output.append("\n");
    output.append("\n  ── Interfaces ──────────────────────────\n");
    let ghost head = output@;
    let mut i: usize = 0;
    while i < interfaces.len()
        invariant
            i <= interfaces@.len(),
            output@ == head + interfaces_text(interfaces@.take(i as int)),
        decreases interfaces.len() - i,
    {
        push_interface(&mut output, &interfaces[i]);
        proof {
            let s = interfaces@.take(i + 1);
            assert(s.drop_last() =~= interfaces@.take(i as int));
            assert(s.last() == interfaces@[i as int]);
            assert(output@ =~= head + interfaces_text(s));
        }
        i = i + 1;
    }
    assert(interfaces@.take(interfaces@.len() as int) =~= interfaces@);
    output.append("\n  Gateway       : ");
    output.append(gateway);
    output.append("\n");
    output.append("  DNS Servers   : ");
    output.append(dns);
    output.append("\n");
    assert(output@ =~= netinfo_text(local_ip@, public_ip@, interfaces@, gateway@, dns@));
    Ok(output)
}

} // verus!
