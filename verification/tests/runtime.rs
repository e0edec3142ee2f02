use wdsm::cli::{config_file_in, deploy_paths, health_url, pad_right, service_row, table_header, table_row, table_rule};
use wdsm::componentizer::{
    componentize, componentize_py_args, esbuild_args, jco_args, jco_failure, needs_transpile, Backend,
};
use wdsm::config::{CapabilitiesConfig, Config, VolumeMount};
use wdsm::logger::{log_deployment, log_dir, log_error, log_line, log_request, LogLevel};
use wdsm::registry::FnService;
use wdsm::server::{
    candidate_names, check_arity, check_param, deployment_record, listen_addr, missing_param_message, param_keys, param_names,
    route_for, server_not_found, ContextBuilder, Route,
};

fn config() -> Config {
    Config {
        name: "net".to_string(),
        language: "typescript".to_string(),
        entrypoint: "net.ts".to_string(),
        entrypoint_function: "sendMessage".to_string(),
        port: 3005,
        endpoint: "/net".to_string(),
        method: "POST".to_string(),
        payload: vec![
            vec![("msg".to_string(), "string".to_string())],
            vec![("requestCatcher".to_string(), "string".to_string())],
        ],
        return_type: "string".to_string(),
        capabilities: CapabilitiesConfig::default(),
    }
}

#[test]
fn test_context_builder_sandboxed() {
    let cap = CapabilitiesConfig::default();
    let plan = ContextBuilder::build_plan(&cap);
    assert!(plan.inherit_stdio);
    assert!(!plan.inherit_env);
    assert!(plan.env_vars.is_empty());
    assert!(!plan.inherit_network);
    assert!(!plan.allow_tcp && !plan.allow_udp && !plan.allow_ip_name_lookup);
    assert!(plan.preopens.is_empty());
    assert!(!ContextBuilder::links_http(&cap));
}

#[test]
fn network_capabilities_open_the_network() {
    let mut cap = CapabilitiesConfig::default();
    cap.network.dns = true;
    cap.env.vars = vec!["API_KEY".to_string()];
    cap.filesystem = vec![VolumeMount { host: "./data".to_string(), guest: "/data".to_string(), read_only: true }];
    let plan = ContextBuilder::build_plan(&cap);
    assert!(plan.inherit_network);
    assert!(plan.allow_ip_name_lookup);
    assert!(!plan.allow_tcp);
    assert_eq!(plan.env_vars, vec!["API_KEY".to_string()]);
    assert_eq!(plan.preopens.len(), 1);
    assert_eq!(plan.preopens[0].guest, "/data");
    assert!(plan.preopens[0].read_only);
}

#[test]
fn exported_function_candidates() {
    assert_eq!(
        candidate_names("sendMessage", "net"),
        vec![
            "sendMessage".to_string(),
            "send-message".to_string(),
            "net/sendMessage".to_string(),
            "net/send-message".to_string(),
            "wdsm:net/sendMessage".to_string(),
            "wdsm:net/send-message".to_string(),
        ]
    );
    assert_eq!(param_keys("requestCatcher"), vec!["requestCatcher".to_string(), "request-catcher".to_string()]);
}

#[test]
fn request_parameters() {
    assert_eq!(param_names(&config()), vec!["msg".to_string(), "requestCatcher".to_string()]);
    assert!(check_arity(2, 2).is_ok());
    assert_eq!(check_arity(2, 3).unwrap_err(), "Config payload has 2 params but WASM function expects 3");
    assert_eq!(missing_param_message("msg"), "Missing required parameter: msg");
}

#[test]
fn serving_decisions() {
    assert_eq!(route_for("GET").unwrap(), Route::Get);
    assert_eq!(route_for("POST").unwrap(), Route::Post);
    assert_eq!(route_for("PUT").unwrap_err(), "Unsupported method: PUT");
    assert_eq!(listen_addr(3005), "127.0.0.1:3005");
    let rec = deployment_record(&config(), "abc", "/p/function.wasm");
    assert_eq!(rec.id, "abc");
    assert_eq!(rec.name, "net");
    assert_eq!(rec.port, 3005);
    assert_eq!(rec.method, "POST");
    assert_eq!(server_not_found("abc"), "Server not found: abc");
}

#[test]
fn log_records() {
    let d = log_deployment("abc", "started");
    assert_eq!(d.file, "deployments.log");
    assert_eq!(d.message, "FnService abc - started");
    assert_eq!(d.level, LogLevel::Info);
    let r = log_request("add", "a, b", "3");
    assert_eq!(r.file, "requests.log");
    assert_eq!(r.message, "add: a, b -> 3");
    assert_eq!(r.level, LogLevel::Debug);
    let e = log_error("boom");
    assert_eq!(e.file, "errors.log");
    assert_eq!(e.message, "boom");
    assert_eq!(log_line("2024-01-01 10:00:00", "hi"), "[2024-01-01 10:00:00] hi\n");
    assert_eq!(log_dir(&Some("/root".to_string())), "/root/.wdsm/logs");
}

#[test]
fn componentize_dispatch() {
    assert_eq!(componentize("typescript").unwrap(), Backend::Jco);
    assert_eq!(componentize("python").unwrap(), Backend::ComponentizePy);
    assert_eq!(componentize("go").unwrap_err(), "unsupported language for componentization: go");
    assert!(needs_transpile("src/net.ts"));
    assert!(!needs_transpile("src/net.js"));
    assert!(!needs_transpile("Makefile"));
    assert_eq!(
        jco_args("i.wit", "o.wasm", "f.js"),
        vec!["componentize", "--wit", "i.wit", "--out", "o.wasm", "f.js"].into_iter().map(String::from).collect::<Vec<_>>()
    );
    assert_eq!(
        esbuild_args("f.ts", "/tmp/x.js"),
        vec!["-y", "esbuild", "f.ts", "--format=esm", "--outfile=/tmp/x.js"].into_iter().map(String::from).collect::<Vec<_>>()
    );
    assert_eq!(
        componentize_py_args("wit", "hello-py", "hello", "o.wasm"),
        vec!["-d", "wit", "-w", "hello-py", "componentize", "hello", "-o", "o.wasm"]
            .into_iter()
            .map(String::from)
            .collect::<Vec<_>>()
    );
    assert_eq!(jco_failure("bad"), "jco compilation failed:\nbad");
}

#[test]
fn command_line_paths_and_tables() {
    assert_eq!(config_file_in("examples/hello"), "examples/hello/config.yml");
    let p = deploy_paths("examples/hello", "hello.ts");
    assert_eq!(p.wdsm_dir, "examples/hello/.wdsm");
    assert_eq!(p.source_file, "examples/hello/hello.ts");
    assert_eq!(p.wit_file, "examples/hello/.wdsm/interface.wit");
    assert_eq!(p.wasm_file, "examples/hello/.wdsm/function.wasm");
    assert_eq!(health_url(3001), "http://127.0.0.1:3001/__health");
    assert_eq!(pad_right("ab", 4), "ab  ");
    assert_eq!(pad_right("abcdef", 4), "abcdef");
    assert_eq!(table_row("a", "b", "c", "d"), format!("{:<20} {:<10} {:<15} {:<30}", "a", "b", "c", "d"));
    assert_eq!(table_header(), format!("{:<20} {:<10} {:<15} {:<30}", "NAME", "METHOD", "PORT", "ENDPOINT"));
    assert_eq!(table_rule(), "-".repeat(75));
    let s = FnService {
        id: "1".to_string(),
        name: "hello".to_string(),
        endpoint: "/hello".to_string(),
        port: 3001,
        method: "GET".to_string(),
        wasm_path: "x".to_string(),
    };
    assert_eq!(service_row(&s), format!("{:<20} {:<10} {:<15} {:<30}", "hello", "GET", 3001, "/hello"));
}

#[test]
fn missing_parameter_only_when_null_and_not_optional() {
    assert_eq!(check_param("msg", true, false), Err("Missing required parameter: msg".to_string()));
    assert_eq!(check_param("msg", true, true), Ok(()));
    assert_eq!(check_param("msg", false, false), Ok(()));
}
