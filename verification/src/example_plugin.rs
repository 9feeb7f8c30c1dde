//! Example plugin demonstrating the [`FluffyPlugin`] trait.
use vstd::prelude::*;
use crate::plugin::{CommandDef, FluffyPlugin, PluginResponse};
use crate::text::{decimal, push_char, push_decimal, str_eq};

verus! {

/// Example plugin demonstrating the FluffyPlugin trait.
pub struct ExamplePlugin;

impl ExamplePlugin {
    pub fn new() -> (r: Self)
        ensures
            r == ExamplePlugin,
    {
        ExamplePlugin
    }
}

impl Default for ExamplePlugin {
    fn default() -> (r: Self)
        ensures
            r == ExamplePlugin,
    {
        Self::new()
    }
}

/// `parts` joined with single spaces (`[&str]::join(" ")`).
pub open spec fn join_spaces(parts: Seq<Seq<char>>) -> Seq<char>
    decreases parts.len(),
{
    if parts.len() == 0 {
        Seq::empty()
    } else if parts.len() == 1 {
        parts[0]
    } else {
        join_spaces(parts.drop_last()) + seq![' '] + parts.last()
    }
}

/// The texts of the arguments.
pub open spec fn arg_views(args: Seq<&str>) -> Seq<Seq<char>> {
    args.map_values(|a: &str| a@)
}

pub open spec fn hello_text(name: Seq<char>) -> Seq<char> {
    "🐾 Hello, "@ + name + "! Welcome to the Fluffy ecosystem!"@
}

pub open spec fn random_text(n: nat) -> Seq<char> {
    "🎲 Random number: "@ + decimal(n)
}

pub open spec fn unknown_text(cmd: Seq<char>) -> Seq<char> {
    "Unknown plugin command: '"@ + cmd + "'. Available: hello, echo, random"@
}

/// The response of the example plugin to `cmd` with `args`, except for
/// `random`, whose number comes from the clock.
pub open spec fn spec_execute(cmd: Seq<char>, args: Seq<Seq<char>>) -> (Seq<char>, bool) {
    if cmd == "hello"@ {
        (hello_text(if args.len() == 0 { "World"@ } else { args[0] }), true)
    } else if cmd == "echo"@ {
        if args.len() == 0 {
            ("Usage: echo <message>"@, false)
        } else {
            (join_spaces(args), true)
        }
    } else {
        (unknown_text(cmd), false)
    }
}

/// The nanoseconds within the current second of the system clock
/// (`SystemTime::now().duration_since(UNIX_EPOCH)`, `subsec_nanos`, with a
/// zero duration when the clock is before the epoch).
#[verifier::external_body]
fn clock_subsec_nanos() -> (n: u32)
    ensures
        n < 1_000_000_000,
{
    std::time::SystemTime::now().duration_since(std::time::UNIX_EPOCH).unwrap_or_default().subsec_nanos()
}

/// The `random` response for a clock reading of `seed` nanoseconds: a
/// number between 1 and 100.
pub fn random_response(seed: u32) -> (r: PluginResponse)
    ensures
        r.output@ == random_text((seed % 100 + 1) as nat),
        r.success,
{
    let num = (seed % 100 + 1) as u64;
    let mut output = String::from_str("🎲 Random number: ");
    push_decimal(&mut output, num);
    PluginResponse { output, success: true }
}

/// `args` joined with single spaces.
pub fn join_args(args: &[&str]) -> (r: String)
    ensures
        r@ == join_spaces(arg_views(args@)),
{
    let mut out = String::new();
    let n = args.len();
    let ghost views = arg_views(args@);
    let mut i: usize = 0;
    while i < n
        invariant
            n == args@.len(),
            views == arg_views(args@),
            i <= n,
            out@ == join_spaces(views.take(i as int)),
        decreases n - i,
    {
        let ghost prev = views.take(i as int);
        let ghost next = views.take(i + 1);
        assert(next.drop_last() =~= prev);
        assert(next.last() == args@[i as int]@);
        if i > 0 {
            push_char(&mut out, ' ');
        }
        out.append(args[i]);
        proof {
            if i == 0 {
                assert(out@ =~= next[0]);
            } else {
                assert(out@ =~= join_spaces(prev) + seq![' '] + next.last());
            }
        }
        i = i + 1;
    }
    assert(views.take(n as int) =~= views);
    out
}

impl FluffyPlugin for ExamplePlugin {
    fn name(&self) -> (r: &str)
        ensures
            r@ == "example-plugin"@,
    {
        "example-plugin"
    }

    fn version(&self) -> (r: &str)
        ensures
            r@ == "0.1.0"@,
    {
        "0.1.0"
    }

    fn commands(&self) -> (r: Vec<CommandDef>)
        ensures
            r@.len() == 3,
            r@[0].name@ == "hello"@,
            r@[0].syntax@ == "hello [name]"@,
            r@[0].description@ == "Say hello! Optionally provide a name."@,
            r@[1].name@ == "echo"@,
            r@[1].syntax@ == "echo <message>"@,
            r@[1].description@ == "Echo back the given message."@,
            r@[2].name@ == "random"@,
            r@[2].syntax@ == "random"@,
            r@[2].description@ == "Generate a random number between 1 and 100."@,
    {
        vec![
            CommandDef {
                name: String::from_str("hello"),
                syntax: String::from_str("hello [name]"),
                description: String::from_str("Say hello! Optionally provide a name."),
            },
            CommandDef {
                name: String::from_str("echo"),
                syntax: String::from_str("echo <message>"),
                description: String::from_str("Echo back the given message."),
            },
            CommandDef {
                name: String::from_str("random"),
                syntax: String::from_str("random"),
                description: String::from_str("Generate a random number between 1 and 100."),
            },
        ]
    }

    fn execute(&self, cmd: &str, args: &[&str]) -> (r: PluginResponse)
        ensures
            cmd@ == "random"@ ==> r.success && exists|n: nat|
                1 <= n <= 100 && r.output@ == #[trigger] random_text(n),
            cmd@ != "random"@ ==> (r.output@, r.success) == spec_execute(cmd@, arg_views(args@)),
    {
        proof {
            reveal_strlit("hello");
            reveal_strlit("echo");
            reveal_strlit("random");
            assert("hello"@.len() == 5);
            assert("random"@.len() == 6);
            assert("echo"@.len() == 4);
            assert("hello"@ != "random"@);
            assert("echo"@ != "random"@);
        }
        if str_eq(cmd, "hello") {
            let name = if args.len() == 0 {
                "World"
            } else {
                args[0]
            };
            let mut output = String::from_str("🐾 Hello, ");
            output.append(name);
            output.append("! Welcome to the Fluffy ecosystem!");
            PluginResponse { output, success: true }
        } else if str_eq(cmd, "echo") {
            if args.len() == 0 {
                PluginResponse { output: String::from_str("Usage: echo <message>"), success: false }
            } else {
                PluginResponse { output: join_args(args), success: true }
            }
        } else if str_eq(cmd, "random") {
            // Simple pseudo-random using system time
            let seed = clock_subsec_nanos();
            let r = random_response(seed);
            let ghost n: nat = (seed % 100 + 1) as nat;
            assert(1 <= n <= 100 && r.output@ == random_text(n));
            r
        } else {
            let mut output = String::from_str("Unknown plugin command: '");
            output.append(cmd);
            output.append("'. Available: hello, echo, random");
            PluginResponse { output, success: false }
        }
    }
}

} // verus!
