//! The system reports of the client: memory and disks, the system summary,
//! the current user and the network location. The caller gathers the
//! numbers; percentages, which are computed in floating point, come in
//! already written with one decimal.
use vstd::prelude::*;
use crate::handlers::reply_view;
use crate::parser::{parse_u32_range, spec_parse_u32};
use crate::platform::OsDetails;
use crate::sizes::{bytes_text, format_bytes, format_size, size_text};
use crate::text::{
    chars_of, decimal, fit_chars, pad_left, pad_right, prefix_within_bytes,
    push_char, push_decimal, push_padded_left, push_padded_right, spec_trim, str_eq, trim_range,
    utf8_len,
};

verus! {

/// Memory figures, in bytes, and the share in use written with one decimal.
pub struct MemoryInfo {
    pub total: u64,
    pub used: u64,
    pub available: u64,
    pub usage: String,
}

/// A mounted disk. `usage` is the share of `total` in use, written with one
/// decimal.
pub struct DiskInfo {
    pub mount: String,
    pub name: String,
    pub file_system: String,
    pub removable: bool,
    pub total: u64,
    pub available: u64,
    pub usage: String,
}

/// `n` copies of `c`.
pub open spec fn repeat_char(c: char, n: nat) -> Seq<char> {
    Seq::new(n, |i: int| c)
}

fn push_repeat(out: &mut String, c: char, n: usize)
    ensures
        final(out)@ == old(out)@ + repeat_char(c, n as nat),
{
    let mut i: usize = 0;
    while i < n
        invariant
            i <= n,
            out@ == old(out)@ + repeat_char(c, i as nat),
        decreases n - i,
    {
        push_char(out, c);
        i = i + 1;
        assert(out@ =~= old(out)@ + repeat_char(c, i as nat));
    }
}

/// The mount point as the table shows it: cut to 12 bytes and an ellipsis
/// when longer than 13 bytes.
pub open spec fn mount_display(m: Seq<char>) -> Seq<char> {
    if utf8_len(m) > 13 {
        m.take(fit_chars(m, 12) as int) + "…"@
    } else {
        m
    }
}

/// The name a disk is labelled with.
pub open spec fn disk_label(d: DiskInfo) -> Seq<char> {
    if d.name@.len() == 0 {
        d.mount@
    } else {
        d.name@ + if d.removable {
            " [removable]"@
        } else {
            Seq::empty()
        }
    }
}

/// The bytes in use on a disk.
pub open spec fn disk_used(d: DiskInfo) -> nat {
    if d.available > d.total {
        0
    } else {
        (d.total - d.available) as nat
    }
}

/// The size columns of a disk: total, used and free.
pub open spec fn disk_sizes(d: DiskInfo) -> Seq<char> {
    pad_left(bytes_text(d.total as nat), 10) + " "@ + pad_left(bytes_text(disk_used(d)), 10) + " "@
        + pad_left(bytes_text(d.available as nat), 10)
}

/// The row of a disk, given its mount point as shown.
pub open spec fn disk_row(md: Seq<char>, d: DiskInfo) -> Seq<char> {
    "  "@ + pad_right(md, 15) + " "@ + disk_sizes(d) + " "@ + pad_left(d.usage@, 5) + "% "@
        + pad_right(d.file_system@, 10) + "\n"@
}

/// The label line of a disk, shown when it differs from the mount point.
pub open spec fn label_line(md: Seq<char>, d: DiskInfo) -> Seq<char> {
    if disk_label(d).len() > 0 && disk_label(d) != md {
        "    Label: "@ + disk_label(d) + "\n"@
    } else {
        Seq::empty()
    }
}

/// The lines of one disk.
pub open spec fn disk_text(d: DiskInfo) -> Seq<char> {
    disk_row(mount_display(d.mount@), d) + label_line(mount_display(d.mount@), d)
}

pub open spec fn disks_text(ds: Seq<DiskInfo>) -> Seq<char>
    decreases ds.len(),
{
    if ds.len() == 0 {
        Seq::empty()
    } else {
        disks_text(ds.drop_last()) + disk_text(ds.last())
    }
}

/// The memory and disk report.
pub open spec fn disk_info_text(ram: MemoryInfo, ds: Seq<DiskInfo>) -> Seq<char> {
    "  ── RAM ─────────────────────────────────\n"@ + "  Total     : "@ + bytes_text(
        ram.total as nat,
    ) + "\n"@ + "  Used      : "@ + bytes_text(ram.used as nat) + "\n"@ + "  Available : "@
        + bytes_text(ram.available as nat) + "\n"@ + "  Usage     : "@ + ram.usage@ + "%\n\n"@
        + "  ── Disks ───────────────────────────────\n"@ + "  "@ + pad_right("MOUNT"@, 15) + " "@
        + pad_left("TOTAL"@, 10) + " "@ + pad_left("USED"@, 10) + " "@ + pad_left("FREE"@, 10)
        + " "@ + pad_left("USE%"@, 6) + " "@ + pad_right("FILESYSTEM"@, 10) + "\n"@ + "  "@
        + repeat_char('─', 65) + "\n"@ + disks_text(ds)
}

fn push_disk_sizes(out: &mut String, d: &DiskInfo)
    ensures
        final(out)@ == old(out)@ + disk_sizes(*d),
{
    let used: u64 = if d.available > d.total {
        0
    } else {
        d.total - d.available
    };
    let t = format_bytes(d.total);
    push_padded_left(out, t.as_str(), 10);
    out.append(" ");
    let u = format_bytes(used);
    push_padded_left(out, u.as_str(), 10);
    out.append(" ");
    let a = format_bytes(d.available);
    push_padded_left(out, a.as_str(), 10);
    assert(out@ =~= old(out)@ + disk_sizes(*d));
}

fn push_disk_row(out: &mut String, md: &str, d: &DiskInfo)
    ensures
        final(out)@ == old(out)@ + disk_row(md@, *d),
{
    out.append("  ");
    push_padded_right(out, md, 15);
    out.append(" ");
    push_disk_sizes(out, d);
    out.append(" ");
    push_padded_left(out, d.usage.as_str(), 5);
    out.append("% ");
    push_padded_right(out, d.file_system.as_str(), 10);
    out.append("\n");
    assert(out@ =~= old(out)@ + disk_row(md@, *d));
}

fn push_disk(out: &mut String, d: &DiskInfo)
    ensures
        final(out)@ == old(out)@ + disk_text(*d),
{
    let md = if crate::text::longer_than_bytes(d.mount.as_str(), 13) {
        let mut s = prefix_within_bytes(d.mount.as_str(), 12);
        s.append("…");
        s
    } else {
        d.mount.clone()
    };
    let label = if d.name.as_str().is_empty() {
        d.mount.clone()
    } else {
        let mut s = d.name.clone();
        if d.removable {
            s.append(" [removable]");
        }
        s
    };
    assert(label@ == disk_label(*d));
    assert(md@ == mount_display(d.mount@));
    let ghost start = out@;
    push_disk_row(out, md.as_str(), d);
    let ghost mid = out@;
    if !label.as_str().is_empty() && !str_eq(label.as_str(), md.as_str()) {
        out.append("    Label: ");
        out.append(label.as_str());
        out.append("\n");
    }
    assert(out@ =~= mid + label_line(md@, *d));
    assert(out@ =~= old(out)@ + disk_text(*d));
}

/// Handle disk --info command: RAM + all disks info.
pub fn handle_disk_info(ram: &MemoryInfo, disks: &Vec<DiskInfo>) -> (r: Result<String, String>)
    ensures
        reply_view(r) == Ok::<Seq<char>, Seq<char>>(disk_info_text(*ram, disks@)),
{
    let mut output = String::from_str("  ── RAM ─────────────────────────────────\n");
    output.append("  Total     : ");
    output.append(format_bytes(ram.total).as_str());
    output.append("\n");
    output.append("  Used      : ");
    output.append(format_bytes(ram.used).as_str());
    output.append("\n");
    output.append("  Available : ");
    output.append(format_bytes(ram.available).as_str());
    output.append("\n");
    output.append("  Usage     : ");
    output.append(ram.usage.as_str());
    output.append("%\n\n");
    output.append("  ── Disks ───────────────────────────────\n");
    output.append("  ");
    push_padded_right(&mut output, "MOUNT", 15);
    output.append(" ");
    push_padded_left(&mut output, "TOTAL", 10);
    output.append(" ");
    push_padded_left(&mut output, "USED", 10);
    output.append(" ");
    push_padded_left(&mut output, "FREE", 10);
    output.append(" ");
    push_padded_left(&mut output, "USE%", 6);
    output.append(" ");
    push_padded_right(&mut output, "FILESYSTEM", 10);
    output.append("\n");
    output.append("  ");
    push_repeat(&mut output, '─', 65);
    output.append("\n");
    let ghost head = output@;
    let mut i: usize = 0;
    while i < disks.len()
        invariant
            i <= disks@.len(),
            output@ == head + disks_text(disks@.take(i as int)),
        decreases disks.len() - i,
    {
        push_disk(&mut output, &disks[i]);
        proof {
            let s = disks@.take(i + 1);
            assert(s.drop_last() =~= disks@.take(i as int));
            assert(s.last() == disks@[i as int]);
            assert(output@ =~= head + disks_text(s));
        }
        i = i + 1;
    }
    assert(disks@.take(disks@.len() as int) =~= disks@);
    assert(output@ =~= disk_info_text(*ram, disks@));
    Ok(output)
}

/// What the system summary reports. Usage shares come written with one
/// decimal.
pub struct SystemSnapshot {
    pub hostname: String,
    pub arch: String,
    pub os: OsDetails,
    pub install_date: String,
    pub gpu_info: String,
    pub cpu_brand: String,
    pub physical_cores: usize,
    pub logical_cores: usize,
    pub cpu_mhz: u64,
    pub cpu_usage: String,
    pub total_ram: u64,
    pub used_ram: u64,
    pub available_ram: u64,
    pub ram_usage: String,
    pub uptime_secs: u64,
}

/// An optional `label` line: shown when the value is not empty.
pub open spec fn opt_line(label: Seq<char>, v: Seq<char>) -> Seq<char> {
    if v.len() > 0 {
        label + v + "\n"@
    } else {
        Seq::empty()
    }
}

/// Uptime as `{days}d {hours}h {minutes}m`.
pub open spec fn uptime_text(secs: nat) -> Seq<char> {
    decimal(secs / 86400) + "d "@ + decimal((secs % 86400) / 3600) + "h "@ + decimal(
        (secs % 3600) / 60,
    ) + "m"@
}

/// The head of the summary: the device and the OS.
pub open spec fn sysinfo_head(s: SystemSnapshot) -> Seq<char> {
    "╔══════════════════════════════════════════╗\n"@
        + "║          SYSTEM INFORMATION              ║\n"@
        + "╚══════════════════════════════════════════╝\n\n"@ + "  Device Name  : "@ + s.hostname@
        + "\n"@ + "  System Type  : "@ + s.arch@ + "\n\n"@
        + "  ── OS ──────────────────────────────────\n"@ + "  OS           : "@ + s.os.name@
        + "\n"@ + opt_line("  Edition      : "@, s.os.edition@) + opt_line(
        "  Version      : "@,
        s.os.version@,
    ) + opt_line("  Build        : "@, s.os.build@) + "  Install Date : "@ + s.install_date@
        + "\n\n"@
}

/// The CPU part of the summary.
pub open spec fn sysinfo_cpu(s: SystemSnapshot) -> Seq<char> {
    "  ── CPU ─────────────────────────────────\n"@ + "  Brand        : "@ + s.cpu_brand@ + "\n"@
        + "  Cores        : "@ + decimal(s.physical_cores as nat) + " physical, "@ + decimal(
        s.logical_cores as nat,
    ) + " logical\n"@ + "  Clock        : "@ + decimal(s.cpu_mhz as nat) + " MHz\n"@
        + "  Usage        : "@ + s.cpu_usage@ + "%\n\n"@
}

/// The memory part of the summary.
pub open spec fn sysinfo_ram(s: SystemSnapshot) -> Seq<char> {
    "  ── RAM ─────────────────────────────────\n"@ + "  Total        : "@ + size_text(
        s.total_ram as nat,
    ) + "\n"@ + "  Used         : "@ + size_text(s.used_ram as nat) + "\n"@
        + "  Available    : "@ + size_text(s.available_ram as nat) + "\n"@ + "  Usage        : "@
        + s.ram_usage@ + "%\n\n"@
}

/// The GPU and uptime part of the summary.
pub open spec fn sysinfo_tail(s: SystemSnapshot) -> Seq<char> {
    "  ── GPU ─────────────────────────────────\n"@ + "  "@ + s.gpu_info@ + "\n\n"@
        + "  ── Uptime ──────────────────────────────\n"@ + "  "@ + uptime_text(
        s.uptime_secs as nat,
    ) + "\n"@
}

/// The rest of the summary: CPU, memory, GPU and uptime.
pub open spec fn sysinfo_body(s: SystemSnapshot) -> Seq<char> {
    sysinfo_cpu(s) + sysinfo_ram(s) + sysinfo_tail(s)
}

fn push_opt_line(out: &mut String, label: &str, v: &str)
    ensures
        final(out)@ == old(out)@ + opt_line(label@, v@),
{
    if !v.is_empty() {
        out.append(label);
        out.append(v);
        out.append("\n");
        assert(out@ =~= old(out)@ + opt_line(label@, v@));
    } else {
        assert(out@ =~= old(out)@ + opt_line(label@, v@));
    }
}

fn push_sysinfo_head(out: &mut String, s: &SystemSnapshot)
    ensures
        final(out)@ == old(out)@ + sysinfo_head(*s),
{
    out.append("╔══════════════════════════════════════════╗\n");
    out.append("║          SYSTEM INFORMATION              ║\n");
    out.append("╚══════════════════════════════════════════╝\n\n");
    out.append("  Device Name  : ");
    out.append(s.hostname.as_str());
    out.append("\n");
    out.append("  System Type  : ");
    out.append(s.arch.as_str());
    out.append("\n\n");
    out.append("  ── OS ──────────────────────────────────\n");
    out.append("  OS           : ");
    out.append(s.os.name.as_str());
    out.append("\n");
    push_opt_line(out, "  Edition      : ", s.os.edition.as_str());
    push_opt_line(out, "  Version      : ", s.os.version.as_str());
    push_opt_line(out, "  Build        : ", s.os.build.as_str());
    out.append("  Install Date : ");
    out.append(s.install_date.as_str());
    out.append("\n\n");
    assert(out@ =~= old(out)@ + sysinfo_head(*s));
}

fn push_sysinfo_cpu(out: &mut String, s: &SystemSnapshot)
    ensures
        final(out)@ == old(out)@ + sysinfo_cpu(*s),
{
    out.append("  ── CPU ─────────────────────────────────\n");
    out.append("  Brand        : ");
    out.append(s.cpu_brand.as_str());
    out.append("\n");
    out.append("  Cores        : ");
    push_decimal(out, s.physical_cores as u64);
    out.append(" physical, ");
    push_decimal(out, s.logical_cores as u64);
    out.append(" logical\n");
    out.append("  Clock        : ");
    push_decimal(out, s.cpu_mhz);
    out.append(" MHz\n");
    out.append("  Usage        : ");
    out.append(s.cpu_usage.as_str());
    out.append("%\n\n");
    assert(out@ =~= old(out)@ + sysinfo_cpu(*s));
}

fn push_sysinfo_ram(out: &mut String, s: &SystemSnapshot)
    ensures
        final(out)@ == old(out)@ + sysinfo_ram(*s),
{
    out.append("  ── RAM ─────────────────────────────────\n");
    out.append("  Total        : ");
    out.append(format_size(s.total_ram).as_str());
    out.append("\n");
    out.append("  Used         : ");
    out.append(format_size(s.used_ram).as_str());
    out.append("\n");
    out.append("  Available    : ");
    out.append(format_size(s.available_ram).as_str());
    out.append("\n");
    out.append("  Usage        : ");
    out.append(s.ram_usage.as_str());
    out.append("%\n\n");
    assert(out@ =~= old(out)@ + sysinfo_ram(*s));
}

fn push_sysinfo_tail(out: &mut String, s: &SystemSnapshot)
    ensures
        final(out)@ == old(out)@ + sysinfo_tail(*s),
{
    out.append("  ── GPU ─────────────────────────────────\n");
    out.append("  ");
    out.append(s.gpu_info.as_str());
    out.append("\n\n");
    out.append("  ── Uptime ──────────────────────────────\n");
    out.append("  ");
    let secs = s.uptime_secs;
    push_decimal(out, secs / 86400);
    out.append("d ");
    push_decimal(out, (secs % 86400) / 3600);
    out.append("h ");
    push_decimal(out, (secs % 3600) / 60);
    out.append("m");
    out.append("\n");
    assert(out@ =~= old(out)@ + sysinfo_tail(*s));
}

fn push_sysinfo_body(out: &mut String, s: &SystemSnapshot)
    ensures
        final(out)@ == old(out)@ + sysinfo_body(*s),
{
    push_sysinfo_cpu(out, s);
    push_sysinfo_ram(out, s);
    push_sysinfo_tail(out, s);
    assert(out@ =~= old(out)@ + sysinfo_body(*s));
}

/// Handle the sysinfo command — full system information.
pub fn handle_sysinfo(s: &SystemSnapshot) -> (r: Result<String, String>)
    ensures
        reply_view(r) == Ok::<Seq<char>, Seq<char>>(sysinfo_head(*s) + sysinfo_body(*s)),
{
    let mut output = String::new();
    push_sysinfo_head(&mut output, s);
    push_sysinfo_body(&mut output, s);
    assert(output@ =~= sysinfo_head(*s) + sysinfo_body(*s));
    Ok(output)
}

/// Handle whoami command.
pub fn handle_whoami(hostname: &str, username: &str, role: &str) -> (r: Result<String, String>)
    ensures
        reply_view(r) == Ok::<Seq<char>, Seq<char>>(
            "Device   : "@ + hostname@ + "\nUsername : "@ + username@ + "\nRole     : "@ + role@,
        ),
{
    let mut s = String::from_str("Device   : ");
    s.append(hostname);
    s.append("\nUsername : ");
    s.append(username);
    s.append("\nRole     : ");
    s.append(role);
    Ok(s)
}

/// The effective user id from what `id -u` printed (`None` when it could not
/// run): 1000 when it is not a number.
pub fn current_uid(id_output: Option<&str>) -> (uid: u32)
    ensures
        uid == match id_output {
            Some(o) => match spec_parse_u32(spec_trim(o@)) {
                Some(u) => u,
                None => 1000,
            },
            None => 1000,
        },
{
    match id_output {
        Some(o) => {
            let v = chars_of(o);
            let (a, b) = trim_range(&v, 0, v.len());
            assert(v@.subrange(0, v.len() as int) =~= o@);
            match parse_u32_range(&v, a, b) {
                Some(u) => u,
                None => 1000,
            }
        },
        None => 1000,
    }
}

/// The role of the current user on Unix.
pub fn get_current_role(uid: u32) -> (r: String)
    ensures
        r@ == if uid == 0 {
            "admin (root)"@
        } else {
            "standard"@
        },
{
    if uid == 0 {
        String::from_str("admin (root)")
    } else {
        String::from_str("standard")
    }
}

/// What the geolocation service answered, each field when it gave one.
/// The coordinates come written as `{}` writes the numbers.
pub struct GeoLocation {
    pub ip: Option<String>,
    pub city: Option<String>,
    pub region: Option<String>,
    pub country_name: Option<String>,
    pub latitude: Option<String>,
    pub longitude: Option<String>,
    pub org: Option<String>,
    pub timezone: Option<String>,
}

pub open spec fn or_unknown(v: Option<String>) -> Seq<char> {
    match v {
        Some(s) => s@,
        None => "Unknown"@,
    }
}

/// The location report.
pub open spec fn locate_text(g: GeoLocation) -> Seq<char> {
    "  ── Network Geolocation ─────────────────\n"@ + "  (Based on IP address, not GPS)\n\n"@
        + "  IP        : "@ + or_unknown(g.ip) + "\n"@ + "  City      : "@ + or_unknown(g.city)
        + "\n"@ + "  Region    : "@ + or_unknown(g.region) + "\n"@ + "  Country   : "@ + or_unknown(
        g.country_name,
    ) + "\n"@ + "  Latitude  : "@ + or_unknown(g.latitude) + "\n"@ + "  Longitude : "@
        + or_unknown(g.longitude) + "\n"@ + "  ISP       : "@ + or_unknown(g.org) + "\n"@
        + "  Timezone  : "@ + or_unknown(g.timezone) + "\n"@
}

/// How asking the geolocation service went.
pub enum LocateOutcome {
    /// The service could not be reached; the error's text.
    Unreachable(String),
    /// It answered with an error status.
    ErrorStatus,
    /// Its answer could not be read; the error's text.
    BadAnswer(String),
    /// Its answer.
    Located(GeoLocation),
}

fn push_field(out: &mut String, label: &str, v: &Option<String>)
    ensures
        final(out)@ == old(out)@ + label@ + or_unknown(*v) + "\n"@,
{
    out.append(label);
    match v {
        Some(s) => out.append(s.as_str()),
        None => out.append("Unknown"),
    }
    out.append("\n");
}

/// Handle locate command — network-based geolocation.
pub fn handle_locate(o: LocateOutcome) -> (r: Result<String, String>)
    ensures
        reply_view(r) == match o {
            LocateOutcome::Unreachable(e) => Err(
                "Location unavailable: Could not reach geolocation service. "@ + e@,
            ),
            LocateOutcome::ErrorStatus => Err(
                "Location unavailable: Geolocation service returned an error."@,
            ),
            LocateOutcome::BadAnswer(e) => Err(
                "Location unavailable: Failed to parse response. "@ + e@,
            ),
            LocateOutcome::Located(g) => Ok(locate_text(g)),
        },
{
    match o {
        LocateOutcome::Unreachable(e) => {
            let mut s = String::from_str(
                "Location unavailable: Could not reach geolocation service. ",
            );
            s.append(e.as_str());
            Err(s)
        },
        LocateOutcome::ErrorStatus => Err(
            String::from_str("Location unavailable: Geolocation service returned an error."),
        ),
        LocateOutcome::BadAnswer(e) => {
            let mut s = String::from_str("Location unavailable: Failed to parse response. ");
            s.append(e.as_str());
            Err(s)
        },
        LocateOutcome::Located(g) => {
            let mut out = String::from_str("  ── Network Geolocation ─────────────────\n");
            out.append("  (Based on IP address, not GPS)\n\n");
            push_field(&mut out, "  IP        : ", &g.ip);
            push_field(&mut out, "  City      : ", &g.city);
            push_field(&mut out, "  Region    : ", &g.region);
            push_field(&mut out, "  Country   : ", &g.country_name);
            push_field(&mut out, "  Latitude  : ", &g.latitude);
            push_field(&mut out, "  Longitude : ", &g.longitude);
            push_field(&mut out, "  ISP       : ", &g.org);
            push_field(&mut out, "  Timezone  : ", &g.timezone);
            assert(out@ =~= locate_text(g));
            Ok(out)
        },
    }
}

} // verus!
