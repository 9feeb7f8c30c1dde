//! The client's executor: its session state and the replies it builds
//! around the handlers.
use vstd::prelude::*;
use crate::handlers::{canonical_view, cd_reply, handle_cd, reply_view, ProcessOutcome};
use crate::order::lex_le;
use crate::protocol::ClientResponse;
use crate::text::{
    decimal, fit_chars, longer_than_bytes, pad_left, pad_right, prefix_within_bytes, push_char,
    push_decimal, push_padded_left, push_padded_right, push_signed_decimal, signed_decimal,
    utf8_len,
};

verus! {

/// Executor state holds the current working directory for the session.
pub struct ExecutorState {
    pub cwd: String,
}

impl ExecutorState {
    /// The session starts in the process's working directory (`None` when it
    /// could not be read), else at the root.
    pub fn new(current_dir: Option<String>) -> (r: Self)
        ensures
            r.cwd@ == match current_dir {
                Some(d) => d@,
                None => "/"@,
            },
    {
        match current_dir {
            Some(d) => ExecutorState { cwd: d },
            None => ExecutorState { cwd: String::from_str("/") },
        }
    }

    /// `cd`: moves the session to where the target resolved, when it is a
    /// directory, and replies with the new directory.
    pub fn change_dir(&mut self, path: &str, canonical: Result<(String, bool), String>) -> (r: Result<String, String>)
        ensures
            reply_view(r) == cd_reply(path@, canonical_view(canonical)),
            match r {
                Ok(d) => final(self).cwd@ == d@,
                Err(_) => final(self).cwd == old(self).cwd,
            },
    {
        let r = handle_cd(path, canonical);
        match r {
            Ok(d) => {
                self.cwd = d.clone();
                Ok(d)
            },
            Err(e) => Err(e),
        }
    }
}

/// Wraps a handler's result into the response to command `id`.
pub fn execute_response(id: u64, result: Result<String, String>, client_id: &str, tag: &str) -> (r: ClientResponse)
    ensures
        r.id == id,
        r.client_id@ == client_id@,
        r.tag@ == tag@,
        r.success == result is Ok,
        r.output@ == match result {
            Ok(o) => o@,
            Err(e) => e@,
        },
{
    match result {
        Ok(output) => ClientResponse {
            id,
            client_id: String::from_str(client_id),
            tag: String::from_str(tag),
            output,
            success: true,
        },
        Err(error) => ClientResponse {
            id,
            client_id: String::from_str(client_id),
            tag: String::from_str(tag),
            output: error,
            success: false,
        },
    }
}

/// What a shell command printed: its output, then its error output after
/// `[stderr] ` (on a line of its own when there was output), or
/// `(no output)`.
pub open spec fn shell_result(stdout: Seq<char>, stderr: Seq<char>) -> Seq<char> {
    let a = stdout;
    let b = if stderr.len() > 0 {
        (if a.len() > 0 {
            a + "\n"@
        } else {
            a
        }) + "[stderr] "@ + stderr
    } else {
        a
    };
    if b.len() == 0 {
        "(no output)"@
    } else {
        b
    }
}

/// The reply to `sh`, given how `sh -c <command>` ended.
pub open spec fn shell_reply(o: ProcessOutcome) -> Result<Seq<char>, Seq<char>> {
    match o {
        ProcessOutcome::SpawnFailed(e) => Err("Failed to execute shell command: "@ + e@),
        ProcessOutcome::Finished { success, code, stdout, stderr } => if success {
            Ok(shell_result(stdout@, stderr@))
        } else {
            Err(
                "Exit code "@ + signed_decimal(
                    match code {
                        Some(c) => c as int,
                        None => -1,
                    },
                ) + ": "@ + shell_result(stdout@, stderr@),
            )
        },
    }
}

/// Handle `sh`: the reply for how the command ended.
pub fn handle_shell(o: ProcessOutcome) -> (r: Result<String, String>)
    ensures
        reply_view(r) == shell_reply(o),
{
    match o {
        ProcessOutcome::SpawnFailed(e) => {
            let mut s = String::from_str("Failed to execute shell command: ");
            s.append(e.as_str());
            Err(s)
        },
        ProcessOutcome::Finished { success, code, stdout, stderr } => {
            let mut result = String::new();
            if !stdout.as_str().is_empty() {
                result.append(stdout.as_str());
            }
            if !stderr.as_str().is_empty() {
                if !result.as_str().is_empty() {
                    push_char(&mut result, '\n');
                }
                result.append("[stderr] ");
                result.append(stderr.as_str());
            }
            if result.as_str().is_empty() {
                result = String::from_str("(no output)");
            }
            proof {
                reveal_strlit("\n");
                assert(result@ =~= shell_result(stdout@, stderr@));
            }
            if success {
                Ok(result)
            } else {
                let mut s = String::from_str("Exit code ");
                let c: i64 = match code {
                    Some(c) => c as i64,
                    None => -1,
                };
                push_signed_decimal(&mut s, c);
                s.append(": ");
                s.append(result.as_str());
                Err(s)
            }
        },
    }
}

/// Handle `ping`.
pub fn handle_ping() -> (r: Result<String, String>)
    ensures
        reply_view(r) == Ok::<Seq<char>, Seq<char>>("PONG"@),
{
    Ok(String::from_str("PONG"))
}

/// A running process: its id, name, memory in bytes, status, its CPU share
/// written with one decimal, and the order of that share (larger is
/// busier; equal shares have equal orders).
pub struct ProcessRow {
    pub pid: u32,
    pub name: String,
    pub memory: u64,
    pub status: String,
    pub cpu_text: String,
    pub cpu_order: u64,
}

/// The processes, busiest first; the order among equally busy ones is
/// kept (a stable sort).
pub open spec fn busiest_first(ps: Seq<ProcessRow>) -> Seq<ProcessRow>
    decreases ps.len(),
{
    if ps.len() == 0 {
        ps
    } else {
        let t = busiest_first(ps.drop_last());
        let x = ps.last();
        t.insert(
            crate::text::prefix_len(t, |e: ProcessRow| e.cpu_order >= x.cpu_order) as int,
            x,
        )
    }
}

/// The process name as the table shows it: cut to 27 bytes and an ellipsis
/// when longer than 28 bytes.
pub open spec fn process_name(n: Seq<char>) -> Seq<char> {
    if utf8_len(n) > 28 {
        n.take(fit_chars(n, 27) as int) + "…"@
    } else {
        n
    }
}

/// A row of the process table.
pub open spec fn process_line(p: ProcessRow) -> Seq<char> {
    "  "@ + pad_right(decimal(p.pid as nat), 8) + " "@ + pad_right(process_name(p.name@), 30) + " "@
        + pad_left(p.cpu_text@, 5) + "% "@ + pad_left(decimal((p.memory / 1024) as nat), 10) + " "@
        + pad_right(p.status@, 10) + "\n"@
}

pub open spec fn process_lines(ps: Seq<ProcessRow>) -> Seq<char>
    decreases ps.len(),
{
    if ps.len() == 0 {
        Seq::empty()
    } else {
        process_lines(ps.drop_last()) + process_line(ps.last())
    }
}

/// The process table.
pub open spec fn processes_text(ps: Seq<ProcessRow>) -> Seq<char> {
    "  "@ + pad_right("PID"@, 8) + " "@ + pad_right("NAME"@, 30) + " "@ + pad_left("CPU%"@, 6) + " "@
        + pad_left("MEM (KB)"@, 10) + " "@ + pad_right("STATUS"@, 10) + "\n"@ + "  "@ + Seq::new(
        70,
        |i: int| '─',
    ) + "\n"@ + process_lines(busiest_first(ps)) + "\n  Total processes: "@ + decimal(ps.len())
}

pub fn sort_busiest(ps: Vec<ProcessRow>) -> (r: Vec<ProcessRow>)
    ensures
        r@ == busiest_first(ps@),
{
    let mut out: Vec<ProcessRow> = Vec::new();
    let mut rest = ps;
    let ghost all = rest@;
    assert(all.len() == rest.len());
    let mut i: usize = 0;
    while rest.len() > 0
        invariant
            i <= all.len(),
            all.len() <= usize::MAX,
            rest@ == all.skip(i as int),
            out@ == busiest_first(all.take(i as int)),
        decreases rest.len(),
    {
        let x = rest.remove(0);
        let ghost t = out@;
        let mut k: usize = 0;
        while k < out.len() && out[k].cpu_order >= x.cpu_order
            invariant
                k <= out@.len(),
                t == out@,
                forall|j: int| 0 <= j < k ==> #[trigger] out@[j].cpu_order >= x.cpu_order,
            decreases out.len() - k,
        {
            k = k + 1;
        }
        proof {
            crate::text::lemma_prefix_len(t, |e: ProcessRow| e.cpu_order >= x.cpu_order, k as int);
            let s = all.take(i + 1);
            assert(s.drop_last() =~= all.take(i as int));
            assert(s.last() == all[i as int]);
            assert(all[i as int] == x);
            assert(rest@ =~= all.skip(i + 1));
        }
        out.insert(k, x);
        i = i + 1;
    }
    assert(all.take(i as int) =~= all);
    out
}

fn push_process_line(out: &mut String, p: &ProcessRow)
    ensures
        final(out)@ == old(out)@ + process_line(*p),
{
    let name = if longer_than_bytes(p.name.as_str(), 28) {
        let mut s = prefix_within_bytes(p.name.as_str(), 27);
        s.append("…");
        s
    } else {
        p.name.clone()
    };
    let mut pid = String::new();
    push_decimal(&mut pid, p.pid as u64);
    let mut mem = String::new();
    push_decimal(&mut mem, p.memory / 1024);
    out.append("  ");
    push_padded_right(out, pid.as_str(), 8);
    out.append(" ");
    push_padded_right(out, name.as_str(), 30);
    out.append(" ");
    push_padded_left(out, p.cpu_text.as_str(), 5);
    out.append("% ");
    push_padded_left(out, mem.as_str(), 10);
    out.append(" ");
    push_padded_right(out, p.status.as_str(), 10);
    out.append("\n");
    assert(out@ =~= old(out)@ + process_line(*p));
}

/// List all running processes with PID, name, CPU%, MEM, status, busiest
/// first.
pub fn handle_processes(ps: Vec<ProcessRow>) -> (r: Result<String, String>)
    ensures
        reply_view(r) == Ok::<Seq<char>, Seq<char>>(processes_text(ps@)),
{
    let ghost orig = ps@;
    let n = ps.len();
    let sorted = sort_busiest(ps);
    let mut out = String::from_str("  ");
    push_padded_right(&mut out, "PID", 8);
    out.append(" ");
    push_padded_right(&mut out, "NAME", 30);
    out.append(" ");
    push_padded_left(&mut out, "CPU%", 6);
    out.append(" ");
    push_padded_left(&mut out, "MEM (KB)", 10);
    out.append(" ");
    push_padded_right(&mut out, "STATUS", 10);
    out.append("\n");
    out.append("  ");
    let ghost head = out@;
    let mut k: usize = 0;
    while k < 70
        invariant
            k <= 70,
            out@ == head + Seq::new(k as nat, |i: int| '─'),
        decreases 70 - k,
    {
        push_char(&mut out, '─');
        k = k + 1;
        assert(out@ =~= head + Seq::new(k as nat, |i: int| '─'));
    }
    out.append("\n");
    let ghost prefix = out@;
    let mut i: usize = 0;
    while i < sorted.len()
        invariant
            i <= sorted@.len(),
            sorted@ == busiest_first(orig),
            out@ == prefix + process_lines(sorted@.take(i as int)),
        decreases sorted.len() - i,
    {
        push_process_line(&mut out, &sorted[i]);
        proof {
            let s = sorted@.take(i + 1);
            assert(s.drop_last() =~= sorted@.take(i as int));
            assert(s.last() == sorted@[i as int]);
        }
        i = i + 1;
    }
    assert(sorted@.take(sorted@.len() as int) =~= sorted@);
    out.append("\n  Total processes: ");
    push_decimal(&mut out, n as u64);
    Ok(out)
}

/// The busiest-first order keeps the processes.
pub proof fn lemma_busiest_first_elems(ps: Seq<ProcessRow>)
    ensures
        busiest_first(ps).len() == ps.len(),
        forall|j: int|
            0 <= j < busiest_first(ps).len() ==> exists|k: int|
                0 <= k < ps.len() && #[trigger] busiest_first(ps)[j] == ps[k],
    decreases ps.len(),
{
    if ps.len() > 0 {
        let t = busiest_first(ps.drop_last());
        let x = ps.last();
        lemma_busiest_first_elems(ps.drop_last());
        let p = |e: ProcessRow| e.cpu_order >= x.cpu_order;
        crate::order::lemma_prefix_len_facts(t, p);
        let k = crate::text::prefix_len(t, p) as int;
        let r = t.insert(k, x);
        assert forall|j: int| 0 <= j < r.len() implies exists|m: int|
            0 <= m < ps.len() && #[trigger] r[j] == ps[m] by {
            if j < k {
                assert(r[j] == t[j]);
                let m = choose|m: int| 0 <= m < ps.drop_last().len() && t[j] == ps.drop_last()[m];
                assert(ps[m] == ps.drop_last()[m]);
            } else if j == k {
                assert(r[j] == ps[ps.len() - 1]);
            } else {
                assert(r[j] == t[j - 1]);
                let m = choose|m: int| 0 <= m < ps.drop_last().len() && t[j - 1] == ps.drop_last()[m];
                assert(ps[m] == ps.drop_last()[m]);
            }
        }
    }
}

} // verus!
