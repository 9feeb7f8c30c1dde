use fluffy::example_plugin::ExamplePlugin;
use fluffy::plugin::FluffyPlugin;

#[test]
fn test_hello() {
    let plugin = ExamplePlugin::new();
    let resp = plugin.execute("hello", &[]);
    assert!(resp.success);
    assert!(resp.output.contains("Hello, World"));
}

#[test]
fn test_hello_with_name() {
    let plugin = ExamplePlugin::new();
    let resp = plugin.execute("hello", &["Fluffy"]);
    assert!(resp.success);
    assert!(resp.output.contains("Hello, Fluffy"));
}

#[test]
fn test_echo() {
    let plugin = ExamplePlugin::new();
    let resp = plugin.execute("echo", &["test", "message"]);
    assert!(resp.success);
    assert_eq!(resp.output, "test message");
}

#[test]
fn test_random() {
    let plugin = ExamplePlugin::new();
    let resp = plugin.execute("random", &[]);
    assert!(resp.success);
    assert!(resp.output.contains("Random number"));
}

#[test]
fn test_unknown() {
    let plugin = ExamplePlugin::new();
    let resp = plugin.execute("nonexistent", &[]);
    assert!(!resp.success);
}

#[test]
fn test_commands_list() {
    let plugin = ExamplePlugin::new();
    let cmds = plugin.commands();
    assert_eq!(cmds.len(), 3);
}

#[test]
fn plugin_identity_and_messages() {
    let plugin = ExamplePlugin::default();
    assert_eq!(plugin.name(), "example-plugin");
    assert_eq!(plugin.version(), "0.1.0");
    let resp = plugin.execute("echo", &[]);
    assert!(!resp.success);
    assert_eq!(resp.output, "Usage: echo <message>");
    let resp = plugin.execute("nope", &["x"]);
    assert_eq!(resp.output, "Unknown plugin command: 'nope'. Available: hello, echo, random");
    let resp = plugin.execute("hello", &["A", "B"]);
    assert_eq!(resp.output, "🐾 Hello, A! Welcome to the Fluffy ecosystem!");
}

#[test]
fn random_response_is_one_to_hundred() {
    assert_eq!(fluffy::example_plugin::random_response(0).output, "🎲 Random number: 1");
    assert_eq!(fluffy::example_plugin::random_response(999_999_999).output, "🎲 Random number: 100");
    assert_eq!(fluffy::example_plugin::random_response(1234).output, "🎲 Random number: 35");
}
