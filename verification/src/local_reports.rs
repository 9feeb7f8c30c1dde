//! The reports of the admin's own machine. The numbers are gathered by the
//! caller; CPU shares come written with one decimal.
use vstd::prelude::*;
use crate::executor::{busiest_first, ProcessRow};
use crate::network::NetInterface;
use crate::sizes::{format_size, size_text};
use crate::text::{decimal, pad_left, pad_right, push_char, push_decimal, push_padded_left, push_padded_right};

verus! {

/// The admin's system summary.
pub open spec fn local_sysinfo_text(
    hostname: Seq<char>,
    cpu_brand: Seq<char>,
    cores: nat,
    threads: nat,
    used_ram: nat,
    total_ram: nat,
    uptime: nat,
    arch: Seq<char>,
) -> Seq<char> {
    "Device   : "@ + hostname + "\nCPU      : "@ + cpu_brand + " ("@ + decimal(cores) + " cores, "@
        + decimal(threads) + " threads)\nRAM      : "@ + size_text(used_ram) + " / "@ + size_text(
        total_ram,
    ) + " used\nUptime   : "@ + decimal(uptime / 3600) + "h "@ + decimal((uptime % 3600) / 60)
        + "m\nArch     : "@ + arch
}

/// The admin's system summary.
pub fn local_sysinfo(
    hostname: &str,
    cpu_brand: &str,
    cores: usize,
    threads: usize,
    used_ram: u64,
    total_ram: u64,
    uptime: u64,
    arch: &str,
) -> (r: String)
    ensures
        r@ == local_sysinfo_text(
            hostname@,
            cpu_brand@,
            cores as nat,
            threads as nat,
            used_ram as nat,
            total_ram as nat,
            uptime as nat,
            arch@,
        ),
{
    let mut s = String::from_str("Device   : ");
    s.append(hostname);
    s.append("\nCPU      : ");
    s.append(cpu_brand);
    s.append(" (");
    push_decimal(&mut s, cores as u64);
    s.append(" cores, ");
    push_decimal(&mut s, threads as u64);
    s.append(" threads)\nRAM      : ");
    s.append(format_size(used_ram).as_str());
    s.append(" / ");
    s.append(format_size(total_ram).as_str());
    s.append(" used\nUptime   : ");
    push_decimal(&mut s, uptime / 3600);
    s.append("h ");
    push_decimal(&mut s, (uptime % 3600) / 60);
    s.append("m\nArch     : ");
    s.append(arch);
    s
}

/// The admin's `whoami`.
pub fn local_whoami(hostname: &str, username: &str) -> (r: String)
    ensures
        r@ == "Device   : "@ + hostname@ + "\nUsername : "@ + username@,
{
    let mut s = String::from_str("Device   : ");
    s.append(hostname);
    s.append("\nUsername : ");
    s.append(username);
    s
}

/// A row of the admin's process table.
pub open spec fn local_process_line(p: ProcessRow) -> Seq<char> {
    "  "@ + pad_right(decimal(p.pid as nat), 8) + " "@ + pad_right(p.name@, 30) + " "@ + pad_left(
        p.cpu_text@,
        5,
    ) + "% "@ + pad_left(decimal((p.memory / 1024) as nat), 10) + "\n"@
}

pub open spec fn local_process_lines(ps: Seq<ProcessRow>) -> Seq<char>
    decreases ps.len(),
{
    if ps.len() == 0 {
        Seq::empty()
    } else {
        local_process_lines(ps.drop_last()) + local_process_line(ps.last())
    }
}

/// The admin's process table: the 50 busiest processes.
pub open spec fn local_processes_text(ps: Seq<ProcessRow>) -> Seq<char> {
    let sorted = busiest_first(ps);
    let shown = if sorted.len() > 50 {
        sorted.take(50)
    } else {
        sorted
    };
    "  "@ + pad_right("PID"@, 8) + " "@ + pad_right("NAME"@, 30) + " "@ + pad_left("CPU%"@, 6) + " "@
        + pad_left("MEM(KB)"@, 10) + "\n"@ + "  "@ + Seq::new(58, |i: int| '─') + "\n"@
        + local_process_lines(shown) + "\n  Showing top 50 of "@ + decimal(ps.len()) + " processes"@
}

fn push_rule(out: &mut String, n: usize)
    ensures
        final(out)@ == old(out)@ + Seq::new(n as nat, |i: int| '─'),
{
    let mut k: usize = 0;
    while k < n
        invariant
            k <= n,
            out@ == old(out)@ + Seq::new(k as nat, |i: int| '─'),
        decreases n - k,
    {
        push_char(out, '─');
        k = k + 1;
        assert(out@ =~= old(out)@ + Seq::new(k as nat, |i: int| '─'));
    }
}

fn push_local_process_line(out: &mut String, p: &ProcessRow)
    ensures
        final(out)@ == old(out)@ + local_process_line(*p),
{
    let mut pid = String::new();
    push_decimal(&mut pid, p.pid as u64);
    let mut mem = String::new();
    push_decimal(&mut mem, p.memory / 1024);
    out.append("  ");
    push_padded_right(out, pid.as_str(), 8);
    out.append(" ");
    push_padded_right(out, p.name.as_str(), 30);
    out.append(" ");
    push_padded_left(out, p.cpu_text.as_str(), 5);
    out.append("% ");
    push_padded_left(out, mem.as_str(), 10);
    out.append("\n");
    assert(out@ =~= old(out)@ + local_process_line(*p));
}

/// The admin's process table.
pub fn local_processes(ps: Vec<ProcessRow>) -> (r: String)
    ensures
        r@ == local_processes_text(ps@),
{
    let ghost orig = ps@;
    let n = ps.len();
    let sorted = crate::executor::sort_busiest(ps);
    let mut out = String::from_str("  ");
    push_padded_right(&mut out, "PID", 8);
    out.append(" ");
    push_padded_right(&mut out, "NAME", 30);
    out.append(" ");
    push_padded_left(&mut out, "CPU%", 6);
    out.append(" ");
    push_padded_left(&mut out, "MEM(KB)", 10);
    out.append("\n");
    out.append("  ");
    push_rule(&mut out, 58);
    out.append("\n");
    let shown: usize = if sorted.len() > 50 {
        50
    } else {
        sorted.len()
    };
    let ghost prefix = out@;
    let mut i: usize = 0;
    while i < shown
        invariant
            i <= shown <= sorted@.len(),
            sorted@ == busiest_first(orig),
            shown == if sorted@.len() > 50 { 50 } else { sorted@.len() },
            out@ == prefix + local_process_lines(sorted@.take(i as int)),
        decreases shown - i,
    {
        push_local_process_line(&mut out, &sorted[i]);
        proof {
            let s = sorted@.take(i + 1);
            assert(s.drop_last() =~= sorted@.take(i as int));
            assert(s.last() == sorted@[i as int]);
        }
        i = i + 1;
    }
    proof {
        if sorted@.len() <= 50 {
            assert(sorted@.take(shown as int) =~= sorted@);
        }
    }
    out.append("\n  Showing top 50 of ");
    push_decimal(&mut out, n as u64);
    out.append(" processes");
    out
}

/// A disk of the admin's machine: mount point, total and free bytes, file
/// system.
pub struct LocalDisk {
    pub mount: String,
    pub total: u64,
    pub available: u64,
    pub file_system: String,
}

/// The size columns of a disk: total, used, free.
pub open spec fn local_disk_sizes(d: LocalDisk) -> Seq<char> {
    let used = if d.available > d.total {
        0nat
    } else {
        (d.total - d.available) as nat
    };
    pad_left(size_text(d.total as nat), 10) + " "@ + pad_left(size_text(used), 10) + " "@ + pad_left(
        size_text(d.available as nat),
        10,
    )
}

pub open spec fn local_disk_line(d: LocalDisk) -> Seq<char> {
    "  "@ + pad_right(d.mount@, 15) + " "@ + local_disk_sizes(d) + " "@ + d.file_system@ + "\n"@
}

pub open spec fn local_disk_lines(ds: Seq<LocalDisk>) -> Seq<char>
    decreases ds.len(),
{
    if ds.len() == 0 {
        Seq::empty()
    } else {
        local_disk_lines(ds.drop_last()) + local_disk_line(ds.last())
    }
}

/// The admin's memory and disk report.
pub open spec fn local_disk_text(used: nat, total: nat, available: nat, ds: Seq<LocalDisk>) -> Seq<char> {
    "  RAM: "@ + size_text(used) + " used / "@ + size_text(total) + " total ("@ + size_text(available)
        + " available)\n\n"@ + "  "@ + pad_right("MOUNT"@, 15) + " "@ + pad_left("TOTAL"@, 10) + " "@
        + pad_left("USED"@, 10) + " "@ + pad_left("FREE"@, 10) + " "@ + "FS"@ + "\n"@ + "  "@
        + Seq::new(55, |i: int| '─') + "\n"@ + local_disk_lines(ds)
}

fn push_local_disk_sizes(out: &mut String, d: &LocalDisk)
    ensures
        final(out)@ == old(out)@ + local_disk_sizes(*d),
{
    let used: u64 = if d.available > d.total {
        0
    } else {
        d.total - d.available
    };
    push_padded_left(out, format_size(d.total).as_str(), 10);
    out.append(" ");
    push_padded_left(out, format_size(used).as_str(), 10);
    out.append(" ");
    push_padded_left(out, format_size(d.available).as_str(), 10);
    assert(out@ =~= old(out)@ + local_disk_sizes(*d));
}

fn push_local_disk_line(out: &mut String, d: &LocalDisk)
    ensures
        final(out)@ == old(out)@ + local_disk_line(*d),
{
    out.append("  ");
    push_padded_right(out, d.mount.as_str(), 15);
    out.append(" ");
    push_local_disk_sizes(out, d);
    out.append(" ");
    out.append(d.file_system.as_str());
    out.append("\n");
    assert(out@ =~= old(out)@ + local_disk_line(*d));
}

/// The admin's memory and disk report.
pub fn local_disk_info(used: u64, total: u64, available: u64, disks: &Vec<LocalDisk>) -> (r: String)
    ensures
        r@ == local_disk_text(used as nat, total as nat, available as nat, disks@),
{
    let mut out = String::from_str("  RAM: ");
    out.append(format_size(used).as_str());
    out.append(" used / ");
    out.append(format_size(total).as_str());
    out.append(" total (");
    out.append(format_size(available).as_str());
    out.append(" available)\n\n");
    out.append("  ");
    push_padded_right(&mut out, "MOUNT", 15);
    out.append(" ");
    push_padded_left(&mut out, "TOTAL", 10);
    out.append(" ");
    push_padded_left(&mut out, "USED", 10);
    out.append(" ");
    push_padded_left(&mut out, "FREE", 10);
    out.append(" ");
    out.append("FS");
    out.append("\n");
    out.append("  ");
    push_rule(&mut out, 55);
    out.append("\n");
    let ghost prefix = out@;
    let mut i: usize = 0;
    while i < disks.len()
        invariant
            i <= disks@.len(),
            out@ == prefix + local_disk_lines(disks@.take(i as int)),
        decreases disks.len() - i,
    {
        push_local_disk_line(&mut out, &disks[i]);
        proof {
            let s = disks@.take(i + 1);
            assert(s.drop_last() =~= disks@.take(i as int));
            assert(s.last() == disks@[i as int]);
        }
        i = i + 1;
    }
    assert(disks@.take(disks@.len() as int) =~= disks@);
    out
}

pub open spec fn local_net_lines(is: Seq<NetInterface>) -> Seq<char>
    decreases is.len(),
{
    if is.len() == 0 {
        Seq::empty()
    } else {
        local_net_lines(is.drop_last()) + "  "@ + is.last().name@ + ": MAC="@ + is.last().mac@
            + " RX="@ + decimal(is.last().received as nat) + " TX="@ + decimal(
            is.last().sent as nat,
        ) + "\n"@
    }
}

/// The admin's network interfaces.
pub fn local_netinfo(interfaces: &Vec<NetInterface>) -> (r: String)
    ensures
        r@ == "  ── Network Interfaces ──\n"@ + local_net_lines(interfaces@),
{
    let mut out = String::from_str("  ── Network Interfaces ──\n");
    let ghost head = out@;
    let mut i: usize = 0;
    while i < interfaces.len()
        invariant
            i <= interfaces@.len(),
            out@ == head + local_net_lines(interfaces@.take(i as int)),
        decreases interfaces.len() - i,
    {
        let it = &interfaces[i];
        let ghost before = out@;
        out.append("  ");
        out.append(it.name.as_str());
        out.append(": MAC=");
        out.append(it.mac.as_str());
        out.append(" RX=");
        push_decimal(&mut out, it.received);
        out.append(" TX=");
        push_decimal(&mut out, it.sent);
        out.append("\n");
        proof {
            let s = interfaces@.take(i + 1);
            assert(s.drop_last() =~= interfaces@.take(i as int));
            assert(s.last() == interfaces@[i as int]);
            assert(out@ =~= head + local_net_lines(s));
        }
        i = i + 1;
    }
    assert(interfaces@.take(interfaces@.len() as int) =~= interfaces@);
    out
}

} // verus!
