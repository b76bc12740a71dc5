use plugin_host::errors::PluginError;
use plugin_host::ids::{fresh_temp_path, generate_id, id_from_seed};
use plugin_host::js_manager::{JsPlugin, JsPluginError, JsPluginManager};
use plugin_host::knowledge::{get_api_key_path, split_text_into_chunks};
use plugin_host::llm_config::Config;
use plugin_host::model_manager::{ModelConfig, ModelError, ModelManager};
use plugin_host::shell::{
    interpret_shell_output, shell_escape, CommandArg, Plugin as ShellPlugin, PluginManager,
};
use plugin_host::supervisor::MCPManager;

fn model(n: &str) -> ModelConfig {
    ModelConfig {
        api_key: format!("key-{}", n),
        api_url: format!("https://example.test/{}", n),
        model: n.to_string(),
    }
}

#[test]
fn first_model_added_becomes_current() {
    let mut mm = ModelManager::new();
    mm.add("alpha".to_string(), model("alpha"));
    mm.add("beta".to_string(), model("beta"));
    let cur = mm.get_current().unwrap();
    assert_eq!(cur.model, "alpha");
}

#[test]
fn removing_the_current_model_moves_the_selection() {
    let mut mm = ModelManager::new();
    mm.add("alpha".to_string(), model("alpha"));
    mm.add("beta".to_string(), model("beta"));
    mm.remove("alpha").unwrap();
    let cur = mm.get_current().unwrap();
    assert_eq!(cur.model, "beta");
    mm.remove("beta").unwrap();
    assert!(mm.get_current().is_none());
}

#[test]
fn removing_an_unknown_model_fails_not_found() {
    let mut mm = ModelManager::new();
    match mm.remove("ghost") {
        Err(ModelError::NotFound(n)) => {
            assert_eq!(n, "ghost");
            assert_eq!(ModelError::NotFound(n).message(), "model not found: ghost");
        },
        _ => panic!("expected not-found"),
    }
}

#[test]
fn set_current_requires_an_existing_model() {
    let mut mm = ModelManager::new();
    mm.add("alpha".to_string(), model("alpha"));
    assert!(mm.set_current("alpha").is_ok());
    assert!(matches!(mm.set_current("ghost"), Err(ModelError::NotFound(_))));
}

#[test]
fn update_model_renames_without_collisions() {
    let mut mm = ModelManager::new();
    mm.add("alpha".to_string(), model("alpha"));
    mm.add("beta".to_string(), model("beta"));
    match mm.update_model("alpha", "beta".to_string(), model("x")) {
        Err(ModelError::AlreadyExists(n)) => assert_eq!(n, "beta"),
        _ => panic!("expected already-exists"),
    }
    mm.update_model("alpha", "gamma".to_string(), model("gamma")).unwrap();
    let names = mm.list_models();
    assert_eq!(names.len(), 2);
    assert!(names.iter().any(|n| n == "gamma"));
    assert!(!names.iter().any(|n| n == "alpha"));
    // the selection followed the rename
    assert_eq!(mm.get_current().unwrap().model, "gamma");
}

#[test]
fn config_keeps_the_old_key_when_none_is_given() {
    let mut cfg = Config::new();
    cfg.add_model(
        "m".to_string(),
        "secret".to_string(),
        "https://u".to_string(),
        "gpt".to_string(),
    );
    cfg.update_model("m", "m".to_string(), None, "https://u2".to_string(), "gpt2".to_string())
        .unwrap();
    let (name, mc) = cfg.get_current_model().unwrap();
    assert_eq!(name, "m");
    assert_eq!(mc.api_key, "secret");
    assert_eq!(mc.api_url, "https://u2");
    assert_eq!(mc.model, "gpt2");
}

#[test]
fn config_paths_are_fixed_under_the_config_dir() {
    assert_eq!(ModelManager::get_path("/c"), "/c/config.toml");
    assert_eq!(Config::get_path("/c"), "/c/config.toml");
    assert_eq!(get_api_key_path("/c"), "/c/aliyun_api_key.txt");
    assert_eq!(plugin_host::paths::get_plugin_dir("/c"), "/c/plugins");
    assert_eq!(plugin_host::paths::get_plugin_file_path("/c", "id7"), "/c/plugins/id7.ts");
    assert_eq!(plugin_host::paths::get_plugin_list_path("/c"), "/c/plugins/list.toml");
    assert_eq!(
        plugin_host::history::HistoryManager::get_history_dir("/c"),
        "/c/histories"
    );
    assert_eq!(
        plugin_host::history::HistoryManager::history_file_path("/c", "h1"),
        "/c/histories/h1.json"
    );
}

#[test]
fn start_twice_leaves_exactly_one_handle() {
    let mut sup: MCPManager<u32> = MCPManager::new();
    assert!(sup.start_service("svc", 11).is_none());
    let discarded = sup.start_service("svc", 22);
    assert_eq!(discarded, Some(22));
    let ids = sup.list_services();
    assert_eq!(ids, vec!["svc".to_string()]);
    assert_eq!(*sup.get_service_info("svc").unwrap(), 11);
}

#[test]
fn stop_then_info_is_not_found() {
    let mut sup: MCPManager<u32> = MCPManager::new();
    sup.start_service("svc", 7);
    let handle = sup.stop_service("svc").unwrap();
    assert_eq!(handle, 7);
    match sup.get_service_info("svc") {
        Err(PluginError::NotFound(id)) => assert_eq!(id, "svc"),
        _ => panic!("expected not-found"),
    }
    assert!(!sup.is_running("svc"));
}

#[test]
fn stop_of_an_unknown_service_is_not_found() {
    let mut sup: MCPManager<u32> = MCPManager::new();
    assert!(matches!(sup.stop_service("ghost"), Err(PluginError::NotFound(_))));
}

#[test]
fn call_tool_requires_a_running_service_and_object_arguments() {
    let mut sup: MCPManager<u32> = MCPManager::new();
    sup.start_service("svc", 3);
    let obj: serde_json::Value = serde_json::from_str("{\"a\":1}").unwrap();
    let arr: serde_json::Value = serde_json::from_str("[1]").unwrap();
    assert_eq!(*sup.call_tool("svc", &obj).unwrap(), 3);
    assert!(matches!(sup.call_tool("svc", &arr), Err(PluginError::Json(_))));
    assert!(matches!(sup.call_tool("ghost", &obj), Err(PluginError::NotFound(_))));
}

#[test]
fn stop_all_hands_every_handle_back() {
    let mut sup: MCPManager<u32> = MCPManager::new();
    sup.start_service("a", 1);
    sup.start_service("b", 2);
    let handles = sup.stop_all_services();
    assert_eq!(handles.len(), 2);
    assert!(sup.list_services().is_empty());
    assert!(!sup.is_running("a"));
}

#[test]
fn js_manager_keeps_one_plugin_per_name() {
    let mut m = JsPluginManager::new();
    m.load_plugin(JsPlugin {
        name: "p".to_string(),
        description: "d".to_string(),
        script_content: "s1".to_string(),
    });
    m.load_plugin(JsPlugin {
        name: "p".to_string(),
        description: "d".to_string(),
        script_content: "s2".to_string(),
    });
    assert_eq!(m.list_plugins().len(), 1);
    assert_eq!(m.get_plugin("p").unwrap().script_content, "s2");
    assert!(m.remove_plugin("p"));
    assert!(!m.remove_plugin("p"));
    assert!(m.get_plugin("p").is_none());
}

#[test]
fn js_manager_update_checks_names() {
    let mut m = JsPluginManager::new();
    m.load_plugin(JsPlugin {
        name: "a".to_string(),
        description: String::new(),
        script_content: String::new(),
    });
    m.load_plugin(JsPlugin {
        name: "b".to_string(),
        description: String::new(),
        script_content: String::new(),
    });
    let renamed = JsPlugin {
        name: "b".to_string(),
        description: String::new(),
        script_content: String::new(),
    };
    match m.update_plugin("a", renamed) {
        Err(JsPluginError::AlreadyExists(n)) => {
            assert_eq!(n, "b");
            assert_eq!(
                JsPluginError::AlreadyExists(n).message(),
                "plugin already exists: b"
            );
        },
        _ => panic!("expected already-exists"),
    }
    let fresh = JsPlugin {
        name: "c".to_string(),
        description: String::new(),
        script_content: "cc".to_string(),
    };
    m.update_plugin("a", fresh).unwrap();
    assert!(m.get_plugin("a").is_none());
    assert_eq!(m.get_plugin("c").unwrap().script_content, "cc");
    assert!(matches!(
        m.update_plugin("ghost", JsPlugin {
            name: "x".to_string(),
            description: String::new(),
            script_content: String::new(),
        }),
        Err(JsPluginError::NotFound(_))
    ));
}

#[test]
fn shell_escape_triples_quotes() {
    assert_eq!(shell_escape("it's"), "it'''s");
    assert_eq!(shell_escape("plain"), "plain");
}

#[test]
fn shell_command_quotes_every_argument() {
    let mut m = PluginManager::new();
    m.load_plugin(ShellPlugin {
        name: "tool".to_string(),
        description: String::new(),
        enabled: true,
        script_content: "function main { }".to_string(),
        args: Vec::new(),
    });
    let args = vec![
        CommandArg { name: "who".to_string(), value: "it's me".to_string() },
        CommandArg { name: "n".to_string(), value: "2".to_string() },
    ];
    let cmd = m.execute_plugin("tool", &args).unwrap();
    assert_eq!(cmd, "function main { }; $output = main -who 'it'''s me' -n '2'; $output");
    assert!(matches!(
        m.execute_plugin("ghost", &args),
        Err(PluginError::NotFound(_))
    ));
}

#[test]
fn shell_output_classification() {
    assert_eq!(interpret_shell_output(true, "  out \n", "").unwrap(), "out");
    assert_eq!(interpret_shell_output(true, "   ", "").unwrap(), "No output");
    match interpret_shell_output(false, "", "broken") {
        Err(PluginError::PluginRuntimeError(m)) => assert_eq!(m, "broken"),
        _ => panic!("expected the plugin's failure"),
    }
}

#[test]
fn chunking_keeps_the_built_text_as_overlap() {
    let chunks = split_text_into_chunks("ab. cd. ef.", 4);
    let got: Vec<&str> = chunks.iter().map(|s| s.as_str()).collect();
    assert_eq!(got, vec!["ab", "ab cd", "ab cd ef"]);
}

#[test]
fn chunking_of_short_text_yields_one_chunk() {
    let chunks = split_text_into_chunks("one sentence only", 300);
    let got: Vec<&str> = chunks.iter().map(|s| s.as_str()).collect();
    assert_eq!(got, vec!["one sentence only"]);
    assert!(split_text_into_chunks("", 300).is_empty());
    assert!(split_text_into_chunks(" . ! ? \n", 300).is_empty());
}

#[test]
fn generated_ids_are_sixteen_hex_chars() {
    let id = generate_id();
    assert_eq!(id.len(), 16);
    assert!(id.chars().all(|c| c.is_ascii_hexdigit() && !c.is_ascii_uppercase()));
    let a = id_from_seed(0xdead_beef);
    let b = id_from_seed(0xdead_beef);
    assert_eq!(a, b);
    assert_eq!(a.len(), 16);
}

#[test]
fn temp_paths_are_unique_per_call() {
    let p1 = fresh_temp_path("/plugins", "ts");
    let p2 = fresh_temp_path("/plugins", "ts");
    assert!(p1.starts_with("/plugins/temp_"));
    assert!(p1.ends_with(".ts"));
    assert_eq!(p1.len(), "/plugins/temp_".len() + 36 + ".ts".len());
    assert_ne!(p1, p2);
}

#[test]
fn error_messages_are_stable_and_distinct() {
    let msgs = vec![
        PluginError::Io("x".to_string()).message(),
        PluginError::Json("x".to_string()).message(),
        PluginError::Config("x".to_string()).message(),
        PluginError::RuntimeNotInstalled.message(),
        PluginError::Timeout.message(),
        PluginError::NotFound("x".to_string()).message(),
        PluginError::PluginRuntimeError("x".to_string()).message(),
    ];
    for i in 0..msgs.len() {
        for j in 0..msgs.len() {
            if i != j {
                assert_ne!(msgs[i], msgs[j]);
            }
        }
    }
    assert_eq!(msgs[3], "runtime not installed");
    assert_eq!(msgs[4], "execution timed out");
}

#[test]
fn chat_history_updates_replace_content() {
    let mut h = plugin_host::history::ChatHistory::new("h1".to_string(), 100);
    assert_eq!(h.id, "h1");
    assert_eq!(h.title, "");
    assert_eq!(h.timestamp, 100);
    assert!(h.messages.is_empty());
    let msgs = vec![plugin_host::history::ChatMessage {
        bot: "b".to_string(),
        content: "hi".to_string(),
    }];
    h.update("t".to_string(), "p".to_string(), msgs, 200);
    assert_eq!(h.id, "h1");
    assert_eq!(h.title, "t");
    assert_eq!(h.preview, "p");
    assert_eq!(h.timestamp, 200);
    assert_eq!(h.messages.len(), 1);
}

#[test]
fn chunking_splits_on_every_sentence_separator() {
    let chunks = split_text_into_chunks("one\u{3002}two!three?four\nfive.", 2);
    let got: Vec<&str> = chunks.iter().map(|s| s.as_str()).collect();
    // each sentence alone passes the limit check against the built-up chunk
    assert_eq!(got.len(), 5);
    assert_eq!(got[0], "one");
    assert_eq!(got[4], "one two three four five");
}
