//! The commands a client can execute, and their help metadata.
use vstd::prelude::*;

verus! {

/// All commands that can be executed on a client or locally.
/// Each variant carries its own arguments if needed.
#[allow(inconsistent_fields)]
#[derive(Debug, Clone)]
pub enum Command {
    /// List files at path (default: cwd)
    Ls { path: Option<String> },
    /// Print working directory
    Pwd,
    /// Change directory
    Cd { path: String },
    /// Print file contents
    Cat { path: String },
    /// Show device name + logged-in user
    Whoami,
    /// Full system information
    Sysinfo,
    /// List all running processes
    Processes,
    /// Kill a process by PID
    Kill { pid: u32 },
    /// Disk and RAM info
    DiskInfo,
    /// Lock the screen
    Lock,
    /// Shutdown the machine
    Shutdown,
    /// Restart the machine
    Restart,
    /// Show a desktop notification
    Notify { message: String },
    /// Play an alert sound
    Alert,
    /// Network-based geolocation
    Locate,
    /// Network information
    NetInfo,
    /// List user accounts
    Users,
    /// Capture screenshot
    Screenshot,
    /// Read clipboard text
    Clipboard,
    /// Battery status
    Battery,
    /// Upload file from admin to client
    Upload { filename: String, data: Vec<u8> },
    /// Download file from client to admin
    Download { path: String },
    /// Ping/pong latency check
    Ping,
    /// Execute a raw shell command
    Shell { command: String },
}

/// The mathematical value of a [`Command`]: its text as `Seq<char>`.
#[allow(inconsistent_fields)]
pub enum CommandView {
    Ls { path: Option<Seq<char>> },
    Pwd,
    Cd { path: Seq<char> },
    Cat { path: Seq<char> },
    Whoami,
    Sysinfo,
    Processes,
    Kill { pid: u32 },
    DiskInfo,
    Lock,
    Shutdown,
    Restart,
    Notify { message: Seq<char> },
    Alert,
    Locate,
    NetInfo,
    Users,
    Screenshot,
    Clipboard,
    Battery,
    Upload { filename: Seq<char>, data: Seq<u8> },
    Download { path: Seq<char> },
    Ping,
    Shell { command: Seq<char> },
}

impl View for Command {
    type V = CommandView;

    open spec fn view(&self) -> CommandView {
        match self {
            Command::Ls { path } => CommandView::Ls {
                path: match path {
                    Some(p) => Some(p@),
                    None => None,
                },
            },
            Command::Pwd => CommandView::Pwd,
            Command::Cd { path } => CommandView::Cd { path: path@ },
            Command::Cat { path } => CommandView::Cat { path: path@ },
            Command::Whoami => CommandView::Whoami,
            Command::Sysinfo => CommandView::Sysinfo,
            Command::Processes => CommandView::Processes,
            Command::Kill { pid } => CommandView::Kill { pid: *pid },
            Command::DiskInfo => CommandView::DiskInfo,
            Command::Lock => CommandView::Lock,
            Command::Shutdown => CommandView::Shutdown,
            Command::Restart => CommandView::Restart,
            Command::Notify { message } => CommandView::Notify { message: message@ },
            Command::Alert => CommandView::Alert,
            Command::Locate => CommandView::Locate,
            Command::NetInfo => CommandView::NetInfo,
            Command::Users => CommandView::Users,
            Command::Screenshot => CommandView::Screenshot,
            Command::Clipboard => CommandView::Clipboard,
            Command::Battery => CommandView::Battery,
            Command::Upload { filename, data } => CommandView::Upload {
                filename: filename@,
                data: data@,
            },
            Command::Download { path } => CommandView::Download { path: path@ },
            Command::Ping => CommandView::Ping,
            Command::Shell { command } => CommandView::Shell { command: command@ },
        }
    }
}

/// The view of an optional command.
pub open spec fn option_command_view(c: Option<Command>) -> Option<CommandView> {
    match c {
        Some(c) => Some(c@),
        None => None,
    }
}

/// Name, usage line and description of a client command, as shown in the help.
pub struct CommandMetadata {
    pub name: &'static str,
    pub usage: &'static str,
    pub description: &'static str,
}

/// The client commands in the order the help lists them.
pub open spec fn client_command_table() -> Seq<CommandMetadata> {
    seq![
        CommandMetadata { name: "ls", usage: "ls [path]", description: "List files and folders" },
        CommandMetadata { name: "pwd", usage: "pwd", description: "Print working directory" },
        CommandMetadata { name: "cd", usage: "cd <path>", description: "Change directory" },
        CommandMetadata { name: "cat", usage: "cat <file>", description: "Print file contents" },
        CommandMetadata { name: "whoami", usage: "whoami", description: "Device name + username + role" },
        CommandMetadata { name: "sysinfo", usage: "sysinfo", description: "Full system information" },
        CommandMetadata { name: "processes", usage: "processes", description: "List all processes (by CPU%)" },
        CommandMetadata { name: "kill", usage: "kill <pid>", description: "Kill a process by PID" },
        CommandMetadata { name: "disk", usage: "disk --info", description: "RAM + disk usage info" },
        CommandMetadata { name: "lock", usage: "lock", description: "Lock the target's screen" },
        CommandMetadata { name: "shutdown", usage: "shutdown", description: "Shutdown the target" },
        CommandMetadata { name: "restart", usage: "restart", description: "Restart the target" },
        CommandMetadata { name: "notify", usage: "notify \"msg\"", description: "Desktop notification on target" },
        CommandMetadata { name: "alert", usage: "alert", description: "Play alert sound on target" },
        CommandMetadata { name: "locate", usage: "locate", description: "Network geolocation (IP-based)" },
        CommandMetadata { name: "netinfo", usage: "netinfo", description: "Network information" },
        CommandMetadata { name: "users", usage: "users", description: "List user accounts" },
        CommandMetadata { name: "screenshot", usage: "screenshot", description: "Capture screen (save as PNG)" },
        CommandMetadata { name: "clipboard", usage: "clipboard", description: "Read clipboard text content" },
        CommandMetadata { name: "battery", usage: "battery", description: "Battery status" },
        CommandMetadata { name: "upload", usage: "upload <file>", description: "Transfer file TO target" },
        CommandMetadata { name: "download", usage: "download <file>", description: "Transfer file FROM target" },
        CommandMetadata { name: "ping", usage: "ping", description: "Latency check (returns PONG)" },
        CommandMetadata { name: "sh", usage: "sh <command>", description: "Run raw shell command" },
    ]
}

/// The metadata of every client command, in help order.
pub fn get_client_commands() -> (res: Vec<CommandMetadata>)
    ensures
        res@ == client_command_table(),
{
    let res = vec![
        CommandMetadata { name: "ls", usage: "ls [path]", description: "List files and folders" },
        CommandMetadata { name: "pwd", usage: "pwd", description: "Print working directory" },
        CommandMetadata { name: "cd", usage: "cd <path>", description: "Change directory" },
        CommandMetadata { name: "cat", usage: "cat <file>", description: "Print file contents" },
        CommandMetadata { name: "whoami", usage: "whoami", description: "Device name + username + role" },
        CommandMetadata { name: "sysinfo", usage: "sysinfo", description: "Full system information" },
        CommandMetadata { name: "processes", usage: "processes", description: "List all processes (by CPU%)" },
        CommandMetadata { name: "kill", usage: "kill <pid>", description: "Kill a process by PID" },
        CommandMetadata { name: "disk", usage: "disk --info", description: "RAM + disk usage info" },
        CommandMetadata { name: "lock", usage: "lock", description: "Lock the target's screen" },
        CommandMetadata { name: "shutdown", usage: "shutdown", description: "Shutdown the target" },
        CommandMetadata { name: "restart", usage: "restart", description: "Restart the target" },
        CommandMetadata { name: "notify", usage: "notify \"msg\"", description: "Desktop notification on target" },
        CommandMetadata { name: "alert", usage: "alert", description: "Play alert sound on target" },
        CommandMetadata { name: "locate", usage: "locate", description: "Network geolocation (IP-based)" },
        CommandMetadata { name: "netinfo", usage: "netinfo", description: "Network information" },
        CommandMetadata { name: "users", usage: "users", description: "List user accounts" },
        CommandMetadata { name: "screenshot", usage: "screenshot", description: "Capture screen (save as PNG)" },
        CommandMetadata { name: "clipboard", usage: "clipboard", description: "Read clipboard text content" },
        CommandMetadata { name: "battery", usage: "battery", description: "Battery status" },
        CommandMetadata { name: "upload", usage: "upload <file>", description: "Transfer file TO target" },
        CommandMetadata { name: "download", usage: "download <file>", description: "Transfer file FROM target" },
        CommandMetadata { name: "ping", usage: "ping", description: "Latency check (returns PONG)" },
        CommandMetadata { name: "sh", usage: "sh <command>", description: "Run raw shell command" },
    ];
    assert(res@ =~= client_command_table());
    res
}

} // verus!
