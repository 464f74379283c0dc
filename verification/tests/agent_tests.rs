use korra::agent::{lookup, Agent, AgentError, AgentType};
use korra::agent::ExecutionContext;
use korra::sandbox::{WasmHost, WasmHostError};
use korra::state::StateStore;
use korra::text::{joined, same_text};

#[test]
fn agent_type_is_read_in_any_case() {
    assert_eq!(AgentType::from_str("analyzer"), Some(AgentType::Analyzer));
    assert_eq!(AgentType::from_str("ANALYZER"), Some(AgentType::Analyzer));
    assert_eq!(AgentType::from_str("Transformer"), Some(AgentType::Transformer));
    assert_eq!(AgentType::from_str("vAlIdAtOr"), Some(AgentType::Validator));
    assert_eq!(AgentType::from_str("coordinator"), Some(AgentType::Coordinator));
    assert_eq!(AgentType::from_str("Custom"), Some(AgentType::Custom));
    assert_eq!(AgentType::from_str("unknown"), None);
    assert_eq!(AgentType::from_str(""), None);
}

#[test]
fn lowercase_names_are_exact() {
    assert_eq!(AgentType::from_lowercase("custom"), Some(AgentType::Custom));
    assert_eq!(AgentType::from_lowercase("Custom"), None);
    assert_eq!(AgentType::from_lowercase("custom "), None);
}

#[test]
fn unsupported_type_fails() {
    match Agent::new("robot", "{\"wasm_path\":\"m.wasm\"}", true) {
        Err(AgentError::InitError(message)) => {
            assert_eq!(message, "Unsupported agent type: robot")
        }
        _ => panic!("expected an initialization error"),
    }
}

#[test]
fn malformed_config_fails() {
    match Agent::new("analyzer", "{\"wasm_path\":", true) {
        Err(AgentError::InitError(message)) => {
            assert!(message.starts_with("Invalid config JSON: "))
        }
        _ => panic!("expected an initialization error"),
    }
    match Agent::new("analyzer", "{\"wasm_path\":1}", true) {
        Err(AgentError::InitError(message)) => {
            assert!(message.starts_with("Invalid config JSON: "))
        }
        _ => panic!("expected an initialization error"),
    }
}

#[test]
fn missing_module_location_fails() {
    match Agent::new("analyzer", "{\"id\":\"a\"}", true) {
        Err(AgentError::InitError(message)) => assert_eq!(message, "Missing wasm_path in config"),
        _ => panic!("expected an initialization error"),
    }
}

#[test]
fn absent_module_fails() {
    match Agent::new("analyzer", "{\"wasm_path\":\"m.wasm\"}", false) {
        Err(AgentError::SandboxError(message)) => assert_eq!(
            message,
            "Failed to create WASM host: Module load error: Module file not found: m.wasm"
        ),
        _ => panic!("expected a sandbox error"),
    }
}

#[test]
fn agent_takes_its_id_from_the_config() {
    let agent =
        Agent::new("Coordinator", "{\"wasm_path\":\"m.wasm\",\"id\":\"agent-7\",\"x\":\"y\"}", true)
            .unwrap();
    assert_eq!(agent.id(), "agent-7");
    assert_eq!(agent.agent_type(), AgentType::Coordinator);
    assert!(agent.get_last_proof().is_none());
    assert_eq!(lookup(agent.config(), "x"), Some("y".to_string()));
    assert_eq!(lookup(agent.config(), "wasm_path"), Some("m.wasm".to_string()));
    assert_eq!(lookup(agent.config(), "none"), None);
    assert_eq!(agent.config().len(), 3);
    assert_eq!(agent.state().size(), 0);
}

#[test]
fn agent_without_id_gets_a_fresh_one() {
    let one = Agent::new("custom", "{\"wasm_path\":\"m.wasm\"}", true).unwrap();
    let two = Agent::new("custom", "{\"wasm_path\":\"m.wasm\"}", true).unwrap();
    assert_eq!(one.id().len(), 36);
    assert_ne!(one.id(), two.id());
}

#[test]
fn requested_module_reads_the_config() {
    assert_eq!(
        Agent::requested_module("{\"wasm_path\":\"m.wasm\"}"),
        Some("m.wasm".to_string())
    );
    assert_eq!(Agent::requested_module("{\"id\":\"a\"}"), None);
    assert_eq!(Agent::requested_module("nonsense"), None);
}

#[test]
fn execute_returns_the_output_and_keeps_its_proof() {
    let mut agent = Agent::new("analyzer", "{\"wasm_path\":\"m.wasm\",\"id\":\"a1\"}", true).unwrap();
    let output = agent.execute(b"data").unwrap();
    assert_eq!(output, b"WASM output: data".to_vec());
    let proof = agent.get_last_proof().unwrap();
    assert_eq!(proof.agent_id(), "a1");
    assert!(proof.verify("a1", b"data", &output));
    assert!(!proof.verify("a1", b"data", b"data"));
    let second = agent.execute(b"").unwrap();
    assert_eq!(second, b"WASM output: ".to_vec());
    assert!(agent.get_last_proof().unwrap().verify("a1", b"", &second));
}

#[test]
fn failed_execution_keeps_the_last_proof() {
    let mut agent = Agent::new("analyzer", "{\"wasm_path\":\"m.wasm\",\"id\":\"a1\"}", true).unwrap();
    let first = agent.complete(b"in", Ok(b"out".to_vec()), 42).unwrap();
    assert_eq!(first, b"out".to_vec());
    assert_eq!(agent.get_last_proof().unwrap().timestamp(), 42);
    let failed = agent.complete(b"in2", Err(WasmHostError::ExecutionError("boom".to_string())), 43);
    match failed {
        Err(AgentError::ExecutionError(message)) => {
            assert_eq!(message, "Sandbox execution failed: Execution error: boom")
        }
        _ => panic!("expected an execution error"),
    }
    let proof = agent.get_last_proof().unwrap();
    assert_eq!(proof.timestamp(), 42);
    assert!(proof.verify("a1", b"in", b"out"));
}

#[test]
fn agent_errors_describe_themselves() {
    let m = || "m".to_string();
    assert_eq!(AgentError::InitError(m()).describe(), "Agent initialization error: m");
    assert_eq!(AgentError::ExecutionError(m()).describe(), "Agent execution error: m");
    assert_eq!(AgentError::StateError(m()).describe(), "Agent state error: m");
    assert_eq!(AgentError::SandboxError(m()).describe(), "Agent sandbox error: m");
    assert_eq!(AgentError::InvalidInput(m()).describe(), "Invalid input: m");
}

#[test]
fn host_errors_describe_themselves() {
    let m = || "m".to_string();
    assert_eq!(WasmHostError::ModuleLoadError(m()).describe(), "Module load error: m");
    assert_eq!(WasmHostError::InstantiationError(m()).describe(), "Instantiation error: m");
    assert_eq!(WasmHostError::ExecutionError(m()).describe(), "Execution error: m");
    assert_eq!(WasmHostError::MemoryError(m()).describe(), "Memory error: m");
}

#[test]
fn host_has_its_limits() {
    let mut host = WasmHost::new("m.wasm", true).unwrap();
    assert_eq!(host.memory_limit(), 6_553_600);
    assert_eq!(host.execution_timeout_ms(), 5000);
    host.set_execution_timeout_ms(250);
    assert_eq!(host.execution_timeout_ms(), 250);
    assert_eq!(host.memory_limit(), 6_553_600);
}

#[test]
fn host_needs_its_module() {
    match WasmHost::new("gone.wasm", false) {
        Err(WasmHostError::ModuleLoadError(message)) => {
            assert_eq!(message, "Module file not found: gone.wasm")
        }
        _ => panic!("expected a module load error"),
    }
}

#[test]
fn host_prefixes_the_input() {
    let host = WasmHost::new("m.wasm", true).unwrap();
    let state = StateStore::new();
    let mut context = ExecutionContext {
        agent_id: "a",
        agent_type: AgentType::Custom,
        input: b"xyz",
        state: &state,
    };
    assert_eq!(host.execute(&mut context).unwrap(), b"WASM output: xyz".to_vec());
}

#[test]
fn texts_compare_and_join() {
    assert!(same_text("abc", "abc"));
    assert!(same_text("", ""));
    assert!(!same_text("abc", "abd"));
    assert!(!same_text("abc", "ab"));
    assert!(!same_text("é", "e"));
    assert_eq!(joined("ab", "cd"), "abcd");
    assert_eq!(joined("", ""), "");
}
