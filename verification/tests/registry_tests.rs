use plugin_host::env_store::EnvVar;
use plugin_host::errors::PluginError;
use plugin_host::registry::{finish_execute, PluginRegistry};
use plugin_host::runtime::{DenoRuntime, ProcessOutcome};

const INTROSPECTION: &str = "{\"name\":\"demo\",\"description\":\"a demo plugin\",\"tools\":[{\"name\":\"greet\",\"description\":\"says hello\"},{\"name\":\"sum\",\"description\":\"adds\",\"parameters\":{\"type\":\"object\"}}]}";

#[test]
fn import_then_get_returns_the_supplied_content() {
    let mut reg = PluginRegistry::new();
    let plugin = reg
        .import_plugin("id1".to_string(), "export const x = 1;".to_string(), INTROSPECTION)
        .unwrap();
    assert_eq!(plugin.id, "id1");
    assert_eq!(plugin.name, "demo");
    assert_eq!(plugin.description.as_deref(), Some("a demo plugin"));
    assert_eq!(plugin.tools.len(), 2);
    assert_eq!(plugin.tools[0].name, "greet");
    assert_eq!(plugin.tools[1].name, "sum");
    assert!(plugin.tools[1].parameters.is_some());

    let entry = reg.get("id1").unwrap();
    assert_eq!(entry.content, "export const x = 1;");
    assert_eq!(entry.info.name, "demo");

    let listed = reg.list();
    assert_eq!(listed.len(), 1);
    assert_eq!(listed[0].id, "id1");
}

#[test]
fn update_replaces_content_and_metadata() {
    let mut reg = PluginRegistry::new();
    reg.import_plugin("id1".to_string(), "v1".to_string(), INTROSPECTION).unwrap();
    let out2 = "{\"name\":\"demo2\",\"description\":\"\",\"tools\":[]}";
    let updated = reg.update_plugin("id1".to_string(), "v2".to_string(), out2).unwrap();
    assert_eq!(updated.name, "demo2");
    let entry = reg.get("id1").unwrap();
    assert_eq!(entry.content, "v2");
    assert_eq!(entry.info.name, "demo2");
    assert_eq!(reg.list().len(), 1);
}

#[test]
fn update_of_unknown_id_fails_not_found() {
    let mut reg = PluginRegistry::new();
    match reg.update_plugin("ghost".to_string(), "c".to_string(), INTROSPECTION) {
        Err(PluginError::NotFound(id)) => assert_eq!(id, "ghost"),
        _ => panic!("expected not-found"),
    }
    assert_eq!(reg.len(), 0);
}

#[test]
fn remove_then_get_finds_nothing() {
    let mut reg = PluginRegistry::new();
    reg.import_plugin("id1".to_string(), "c".to_string(), INTROSPECTION).unwrap();
    reg.remove("id1");
    assert!(reg.get("id1").is_none());
    assert!(!reg.contains("id1"));
}

#[test]
fn remove_of_unknown_id_is_not_an_error() {
    let mut reg = PluginRegistry::new();
    reg.import_plugin("id1".to_string(), "c".to_string(), INTROSPECTION).unwrap();
    reg.remove("never-there");
    assert_eq!(reg.len(), 1);
    assert!(reg.contains("id1"));
}

#[test]
fn failed_import_leaves_the_catalog_untouched() {
    let mut reg = PluginRegistry::new();
    match reg.import_plugin("id1".to_string(), "c".to_string(), "not json at all") {
        Err(PluginError::Json(raw)) => assert_eq!(raw, "not json at all"),
        _ => panic!("expected a json error"),
    }
    assert_eq!(reg.len(), 0);
    assert!(reg.get("id1").is_none());
}

#[test]
fn import_with_malformed_tool_is_rejected() {
    let mut reg = PluginRegistry::new();
    let bad = "{\"name\":\"demo\",\"description\":\"\",\"tools\":[{\"description\":\"no name\"}]}";
    match reg.import_plugin("id1".to_string(), "c".to_string(), bad) {
        Err(PluginError::Json(_)) => {},
        _ => panic!("expected a json error"),
    }
    assert_eq!(reg.len(), 0);
}

#[test]
fn import_propagates_wrapper_reported_failure() {
    let mut reg = PluginRegistry::new();
    match reg.import_plugin("id1".to_string(), "c".to_string(), "{\"error\":\"syntax error\"}") {
        Err(PluginError::PluginRuntimeError(m)) => assert_eq!(m, "syntax error"),
        _ => panic!("expected the plugin's own failure"),
    }
    assert_eq!(reg.len(), 0);
}

fn demo_args() -> serde_json::Value {
    serde_json::from_str("{\"name\":\"world\"}").unwrap()
}

#[test]
fn execute_of_unknown_id_is_not_found_never_io() {
    let reg = PluginRegistry::new();
    let rt = DenoRuntime::new(true, "deno".to_string());
    let args = demo_args();
    match reg.prepare_execute(&rt, "ghost", "greet", &args, "/p/ghost.ts", "/p/t.ts".to_string(), Vec::new()) {
        Err(PluginError::NotFound(id)) => assert_eq!(id, "ghost"),
        _ => panic!("expected not-found"),
    }
}

#[test]
fn execute_without_interpreter_is_runtime_not_installed() {
    let mut reg = PluginRegistry::new();
    reg.import_plugin("id1".to_string(), "c".to_string(), INTROSPECTION).unwrap();
    let rt = DenoRuntime::new(false, "deno".to_string());
    let args = demo_args();
    match reg.prepare_execute(&rt, "id1", "greet", &args, "/p/id1.ts", "/p/t.ts".to_string(), Vec::new()) {
        Err(PluginError::RuntimeNotInstalled) => {},
        _ => panic!("expected runtime-not-installed, never a generic io error"),
    }
}

#[test]
fn execute_plan_carries_everything_one_run_needs() {
    let mut reg = PluginRegistry::new();
    reg.import_plugin("id1".to_string(), "export const x = 1;".to_string(), INTROSPECTION)
        .unwrap();
    let mut rt = DenoRuntime::new(true, "/usr/bin/deno".to_string());
    rt.set_timeout(5000);
    let env = vec![EnvVar { key: "K".to_string(), value: "V".to_string() }];
    let args = demo_args();
    let (content, plan) = reg
        .prepare_execute(&rt, "id1", "greet", &args, "/p/id1.ts", "/p/temp_x.ts".to_string(), env)
        .unwrap();
    assert_eq!(content, "export const x = 1;");
    assert_eq!(plan.program, "/usr/bin/deno");
    assert_eq!(plan.args.first().map(|s| s.as_str()), Some("run"));
    assert_eq!(plan.args.last().map(|s| s.as_str()), Some("/p/temp_x.ts"));
    assert_eq!(plan.temp_path, "/p/temp_x.ts");
    assert_eq!(plan.timeout_ms, 5000);
    assert_eq!(plan.env.len(), 1);
    assert_eq!(plan.env[0].key, "K");
    assert!(plan.script.contains("import('file:///p/id1.ts')"));
    assert!(plan.script.contains("plugin['greet']"));
    assert!(plan.script.contains("JSON.parse('{\\\"name\\\":\\\"world\\\"}')"));
}

#[test]
fn finish_execute_classifies_timeout() {
    match finish_execute(&ProcessOutcome::TimedOut) {
        Err(PluginError::Timeout) => {},
        _ => panic!("expected timeout"),
    }
}

#[test]
fn finish_execute_reports_thrown_tool_as_plugin_failure() {
    let outcome = ProcessOutcome::Completed {
        success: true,
        stdout: "{\"error\":\"tool threw\"}\n".to_string(),
        stderr: String::new(),
    };
    match finish_execute(&outcome) {
        Err(PluginError::PluginRuntimeError(m)) => assert_eq!(m, "tool threw"),
        _ => panic!("expected the plugin's own failure, not a transport failure"),
    }
}

#[test]
fn finish_execute_reports_nonzero_exit_with_stderr() {
    let outcome = ProcessOutcome::Completed {
        success: false,
        stdout: String::new(),
        stderr: "segfault".to_string(),
    };
    match finish_execute(&outcome) {
        Err(PluginError::PluginRuntimeError(m)) => assert_eq!(m, "segfault"),
        _ => panic!("expected the plugin's own failure"),
    }
}

#[test]
fn finish_execute_decodes_the_result_value() {
    let outcome = ProcessOutcome::Completed {
        success: true,
        stdout: "  {\"result\": [1, 2]}  \n".to_string(),
        stderr: String::new(),
    };
    let v = finish_execute(&outcome).unwrap();
    let expected: serde_json::Value = serde_json::from_str("[1,2]").unwrap();
    assert_eq!(v, expected);
}

#[test]
fn clone_plugin_copies_tools_and_parameters() {
    let mut reg = PluginRegistry::new();
    let p = reg.import_plugin("id1".to_string(), "c".to_string(), INTROSPECTION).unwrap();
    let q = plugin_host::registry::clone_plugin(&p);
    assert_eq!(q.id, p.id);
    assert_eq!(q.tools.len(), p.tools.len());
    assert_eq!(q.tools[1].parameters, p.tools[1].parameters);
}
