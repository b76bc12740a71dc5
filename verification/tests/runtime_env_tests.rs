use plugin_host::env_store::{format_env_text, parse_env_text, EnvManager, EnvVar};
use plugin_host::errors::PluginError;
use plugin_host::runtime::{
    candidate_paths, interpret_outcome, parse_version_output, DenoRuntime, NodeRuntime,
    ProcessOutcome,
};

#[test]
fn env_text_parses_keys_and_values_trimmed() {
    let vars = parse_env_text("A=1\n# a comment\n\n  \nB = two words = x \nNOEQ\nC=");
    assert_eq!(vars.len(), 3);
    assert_eq!(vars[0].key, "A");
    assert_eq!(vars[0].value, "1");
    assert_eq!(vars[1].key, "B");
    assert_eq!(vars[1].value, "two words = x");
    assert_eq!(vars[2].key, "C");
    assert_eq!(vars[2].value, "");
}

#[test]
fn env_text_ignores_comment_lines() {
    let vars = parse_env_text("# K=V\nK2=V2");
    assert_eq!(vars.len(), 1);
    assert_eq!(vars[0].key, "K2");
}

#[test]
fn env_format_then_parse_round_trips() {
    let vars = vec![
        EnvVar { key: "ONE".to_string(), value: "1".to_string() },
        EnvVar { key: "TWO".to_string(), value: "a b c".to_string() },
    ];
    let text = format_env_text(&vars);
    assert_eq!(text, "ONE=1\nTWO=a b c");
    let back = parse_env_text(&text);
    assert_eq!(back.len(), 2);
    assert_eq!(back[0].key, "ONE");
    assert_eq!(back[0].value, "1");
    assert_eq!(back[1].key, "TWO");
    assert_eq!(back[1].value, "a b c");
}

#[test]
fn env_manager_knows_its_file() {
    let m = EnvManager::new("/home/u/.ghostie");
    assert_eq!(m.env_file(), "/home/u/.ghostie/plugins/.env");
    let loaded = m.load("X=1");
    assert_eq!(loaded.len(), 1);
    let text = m.save(&loaded);
    assert_eq!(text, "X=1");
}

#[test]
fn base_args_are_the_minimal_privilege_flags() {
    let args = DenoRuntime::get_base_args();
    let expected =
        vec!["run", "--no-check", "--allow-read", "--allow-write", "--allow-net", "--allow-env", "--allow-run"];
    let got: Vec<&str> = args.iter().map(|s| s.as_str()).collect();
    assert_eq!(got, expected);
}

#[test]
fn plan_fails_without_an_installed_interpreter() {
    let rt = DenoRuntime::new(false, "deno".to_string());
    assert!(!rt.check_installed());
    match rt.plan_execution("code".to_string(), Vec::new(), "/t.ts".to_string()) {
        Err(PluginError::RuntimeNotInstalled) => {},
        _ => panic!("expected runtime-not-installed"),
    }
}

#[test]
fn plan_carries_the_configured_timeout() {
    let mut rt = DenoRuntime::new(true, "deno".to_string());
    let plan = rt.plan_execution("x".to_string(), Vec::new(), "/t.ts".to_string()).unwrap();
    assert_eq!(plan.timeout_ms, 30000);
    rt.set_timeout(1234);
    let plan2 = rt.plan_execution("x".to_string(), Vec::new(), "/t.ts".to_string()).unwrap();
    assert_eq!(plan2.timeout_ms, 1234);
}

#[test]
fn node_plan_runs_node_on_the_temp_file() {
    let rt = NodeRuntime::new(true);
    assert!(rt.check_installed());
    let plan = rt.plan_execution("x".to_string(), Vec::new(), "/t.js".to_string()).unwrap();
    assert_eq!(plan.program, "node");
    assert_eq!(plan.args.len(), 1);
    assert_eq!(plan.args[0], "/t.js");
    let off = NodeRuntime::new(false);
    assert!(matches!(
        off.plan_execution("x".to_string(), Vec::new(), "/t.js".to_string()),
        Err(PluginError::RuntimeNotInstalled)
    ));
}

#[test]
fn outcome_timeout_maps_to_timeout_error() {
    match interpret_outcome(&ProcessOutcome::TimedOut) {
        Err(PluginError::Timeout) => {},
        _ => panic!("expected timeout"),
    }
}

#[test]
fn outcome_success_yields_trimmed_stdout() {
    let o = ProcessOutcome::Completed {
        success: true,
        stdout: "  answer \n".to_string(),
        stderr: String::new(),
    };
    assert_eq!(interpret_outcome(&o).unwrap(), "answer");
}

#[test]
fn outcome_failure_carries_stderr() {
    let o = ProcessOutcome::Completed {
        success: false,
        stdout: String::new(),
        stderr: "bad import".to_string(),
    };
    match interpret_outcome(&o) {
        Err(PluginError::PluginRuntimeError(m)) => assert_eq!(m, "bad import"),
        _ => panic!("expected the plugin's failure"),
    }
}

#[test]
fn candidate_paths_walk_fixed_locations_then_path_entries() {
    let c = candidate_paths("C:\\bin; D:\\tools ", "C:\\Users\\u");
    assert_eq!(c.len(), 6);
    assert_eq!(c[0], "deno.exe");
    assert_eq!(c[3], "C:\\Users\\u/.deno/bin/deno.exe");
    assert_eq!(c[4], "C:\\bin/deno.exe");
    assert_eq!(c[5], "D:\\tools/deno.exe");
}

#[test]
fn version_output_yields_the_second_word() {
    assert_eq!(parse_version_output("deno 1.46.3 (release, x86_64)\nv8 12.9"), "1.46.3");
    assert_eq!(parse_version_output("deno  2.0.0"), "2.0.0");
    assert_eq!(parse_version_output("justoneword"), "unknown");
    assert_eq!(parse_version_output(""), "unknown");
}
