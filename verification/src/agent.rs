//! Agents: one execution at a time, each with its proof.

use crate::clock::unix_seconds;
use crate::execution_proof::{sealed, ExecutionProof, ProofData};
use crate::json::{json_text_map, read_text_map};
use crate::sandbox::{
    fresh_host, host_fault_text, module_missing, sandbox_output, HostData, HostFault, WasmHost,
    WasmHostError,
};
use crate::state::{StateData, StateStore, SNAPSHOT_LIMIT};
use crate::text::{joined, same_text};
use vstd::prelude::*;
use vstd::string::*;

verus! {

/// The lower-case form of a text.
pub uninterp spec fn lowercase(text: Seq<char>) -> Seq<char>;

/// Calls `str::to_lowercase`. The contract only names the result: it is a
/// function of the text and of nothing else.
#[verifier::external_body]
fn to_lowercase(text: &str) -> (lower: String)
    ensures
        lower@ == lowercase(text@),
{
    text.to_lowercase()
}

/// A fresh random identifier: `uuid::Uuid::new_v4`, written out with its
/// `to_string`. Nothing is promised about the text.
#[verifier::external_body]
fn fresh_identifier() -> (id: String) {
    uuid::Uuid::new_v4().to_string()
}

/// Why an agent failed.
#[derive(Debug)]
pub enum AgentError {
    InitError(String),
    ExecutionError(String),
    StateError(String),
    SandboxError(String),
    InvalidInput(String),
}

/// An agent's failure as mathematical values.
pub enum AgentFault {
    Init(Seq<char>),
    Execution(Seq<char>),
    State(Seq<char>),
    Sandbox(Seq<char>),
    InvalidInput(Seq<char>),
}

impl View for AgentError {
    type V = AgentFault;

    open spec fn view(&self) -> AgentFault {
        match self {
            AgentError::InitError(message) => AgentFault::Init(message@),
            AgentError::ExecutionError(message) => AgentFault::Execution(message@),
            AgentError::StateError(message) => AgentFault::State(message@),
            AgentError::SandboxError(message) => AgentFault::Sandbox(message@),
            AgentError::InvalidInput(message) => AgentFault::InvalidInput(message@),
        }
    }
}

/// The text that describes an agent's failure.
pub open spec fn agent_fault_text(fault: AgentFault) -> Seq<char> {
    match fault {
        AgentFault::Init(message) => "Agent initialization error: "@ + message,
        AgentFault::Execution(message) => "Agent execution error: "@ + message,
        AgentFault::State(message) => "Agent state error: "@ + message,
        AgentFault::Sandbox(message) => "Agent sandbox error: "@ + message,
        AgentFault::InvalidInput(message) => "Invalid input: "@ + message,
    }
}

impl AgentError {
    /// Describes the failure.
    pub fn describe(&self) -> (text: String)
        ensures
            text@ == agent_fault_text(self@),
    {
        match self {
            AgentError::InitError(message) => joined(
                "Agent initialization error: ",
                message.as_str(),
            ),
            AgentError::ExecutionError(message) => joined(
                "Agent execution error: ",
                message.as_str(),
            ),
            AgentError::StateError(message) => joined("Agent state error: ", message.as_str()),
            AgentError::SandboxError(message) => joined("Agent sandbox error: ", message.as_str()),
            AgentError::InvalidInput(message) => joined("Invalid input: ", message.as_str()),
        }
    }
}

/// The kinds of agent.
#[derive(Debug, Clone, Copy, PartialEq, Eq, Structural)]
pub enum AgentType {
    Analyzer,
    Transformer,
    Validator,
    Coordinator,
    Custom,
}

/// The kind of agent that a lower-case name stands for.
pub open spec fn agent_type_named(name: Seq<char>) -> Option<AgentType> {
    if name == "analyzer"@ {
        Some(AgentType::Analyzer)
    } else if name == "transformer"@ {
        Some(AgentType::Transformer)
    } else if name == "validator"@ {
        Some(AgentType::Validator)
    } else if name == "coordinator"@ {
        Some(AgentType::Coordinator)
    } else if name == "custom"@ {
        Some(AgentType::Custom)
    } else {
        None
    }
}

impl AgentType {
    /// The kind of agent that `s` names, in whatever case it is written.
    pub fn from_str(s: &str) -> (kind: Option<AgentType>)
        ensures
            kind == agent_type_named(lowercase(s@)),
    {
        let lower = to_lowercase(s);
        AgentType::from_lowercase(lower.as_str())
    }

    /// The kind of agent that the lower-case `name` stands for.
    pub fn from_lowercase(name: &str) -> (kind: Option<AgentType>)
        ensures
            kind == agent_type_named(name@),
    {
        if same_text(name, "analyzer") {
            Some(AgentType::Analyzer)
        } else if same_text(name, "transformer") {
            Some(AgentType::Transformer)
        } else if same_text(name, "validator") {
            Some(AgentType::Validator)
        } else if same_text(name, "coordinator") {
            Some(AgentType::Coordinator)
        } else if same_text(name, "custom") {
            Some(AgentType::Custom)
        } else {
            None
        }
    }
}

/// The value of the first member of `config` under `key`.
pub open spec fn config_value(config: Seq<(Seq<char>, Seq<char>)>, key: Seq<char>) -> Option<
    Seq<char>,
>
    decreases config.len(),
{
    if config.len() == 0 {
        None
    } else if config[0].0 == key {
        Some(config[0].1)
    } else {
        config_value(config.drop_first(), key)
    }
}

/// Looks `key` up in `config`.
pub fn lookup(config: &Vec<(String, String)>, key: &str) -> (value: Option<String>)
    ensures
        value.deep_view() == config_value(config.deep_view(), key@),
{
    let mut i: usize = 0;
    assert(config.deep_view().skip(0) =~= config.deep_view());
    while i < config.len()
        invariant
            0 <= i <= config@.len(),
            config_value(config.deep_view(), key@) == config_value(
                config.deep_view().skip(i as int),
                key@,
            ),
        decreases config@.len() - i,
    {
        let ghost rest = config.deep_view().skip(i as int);
        assert(rest[0] == config.deep_view()[i as int]);
        assert(rest.drop_first() =~= config.deep_view().skip(i + 1));
        if same_text(config[i].0.as_str(), key) {
            return Some(config[i].1.clone());
        }
        i += 1;
    }
    None
}

/// An agent as mathematical values.
pub struct AgentData {
    pub id: Seq<char>,
    pub agent_type: AgentType,
    pub config: Seq<(Seq<char>, Seq<char>)>,
    pub state: StateData,
    pub sandbox: HostData,
    pub last_execution: Option<ProofData>,
}

/// The agent that starts with the given identity, kind and configuration,
/// in a sandbox for the module at `module`: its state is empty and it has
/// run nothing yet.
pub open spec fn started(
    id: Seq<char>,
    agent_type: AgentType,
    config: Seq<(Seq<char>, Seq<char>)>,
    module: Seq<char>,
) -> AgentData {
    AgentData {
        id,
        agent_type,
        config,
        state: StateData {
            values: Map::empty(),
            snapshots: Seq::empty(),
            limit: SNAPSHOT_LIMIT as nat,
        },
        sandbox: fresh_host(module),
        last_execution: None,
    }
}

/// What comes of assembling an agent from a configuration: the agent, or
/// the failure where the configuration names no module or the module is
/// not there.
pub open spec fn assembled(
    id: Seq<char>,
    agent_type: AgentType,
    config: Seq<(Seq<char>, Seq<char>)>,
    module_exists: bool,
) -> Result<AgentData, AgentFault> {
    match config_value(config, "wasm_path"@) {
        None => Err(AgentFault::Init("Missing wasm_path in config"@)),
        Some(module) => if module_exists {
            Ok(started(id, agent_type, config, module))
        } else {
            Err(
                AgentFault::Sandbox(
                    "Failed to create WASM host: "@ + host_fault_text(module_missing(module)),
                ),
            )
        },
    }
}

/// What comes of creating an agent of the kind named `kind` from the JSON
/// configuration `config`, where a configuration without an identifier
/// gets `fallback`.
pub open spec fn created(
    kind: Seq<char>,
    config: Seq<char>,
    module_exists: bool,
    fallback: Seq<char>,
) -> Result<AgentData, AgentFault> {
    match agent_type_named(lowercase(kind)) {
        None => Err(AgentFault::Init("Unsupported agent type: "@ + kind)),
        Some(agent_type) => match json_text_map(config) {
            Err(message) => Err(AgentFault::Init("Invalid config JSON: "@ + message)),
            Ok(members) => assembled(
                match config_value(members, "id"@) {
                    Some(id) => id,
                    None => fallback,
                },
                agent_type,
                members,
                module_exists,
            ),
        },
    }
}

/// What an agent holds after an execution on `input` that the sandbox
/// answered with `outcome` at the time `timestamp`, and what it returns.
pub open spec fn completed(
    agent: AgentData,
    input: Seq<u8>,
    outcome: Result<Seq<u8>, HostFault>,
    timestamp: u64,
) -> (AgentData, Result<Seq<u8>, AgentFault>) {
    match outcome {
        Ok(output) => (
            AgentData {
                last_execution: Some(sealed(agent.id, timestamp, input, output)),
                ..agent
            },
            Ok(output),
        ),
        Err(fault) => (
            agent,
            Err(AgentFault::Execution("Sandbox execution failed: "@ + host_fault_text(fault))),
        ),
    }
}

/// What one execution is given: who runs, on what input, and the state it
/// may read for as long as it runs.
pub struct ExecutionContext<'a> {
    pub agent_id: &'a str,
    pub agent_type: AgentType,
    pub input: &'a [u8],
    pub state: &'a StateStore,
}

/// An agent: an identity, a kind, a configuration, a state of its own, a
/// sandbox, and the proof of its last execution.
pub struct Agent {
    id: String,
    agent_type: AgentType,
    config: Vec<(String, String)>,
    state: StateStore,
    sandbox: WasmHost,
    last_execution: Option<ExecutionProof>,
}

impl View for Agent {
    type V = AgentData;

    closed spec fn view(&self) -> AgentData {
        AgentData {
            id: self.id@,
            agent_type: self.agent_type,
            config: self.config.deep_view(),
            state: self.state@,
            sandbox: self.sandbox@,
            last_execution: match self.last_execution {
                Some(proof) => Some(proof@),
                None => None,
            },
        }
    }
}

/// The outcome of a construction as mathematical values.
pub open spec fn outcome_of(agent: Result<Agent, AgentError>) -> Result<AgentData, AgentFault> {
    match agent {
        Ok(a) => Ok(a@),
        Err(e) => Err(e@),
    }
}

/// What a sandbox answered, as mathematical values.
pub open spec fn answer_of(outcome: Result<Vec<u8>, WasmHostError>) -> Result<Seq<u8>, HostFault> {
    match outcome {
        Ok(bytes) => Ok(bytes@),
        Err(e) => Err(e@),
    }
}

/// What an execution returned, as mathematical values.
pub open spec fn result_of(result: Result<Vec<u8>, AgentError>) -> Result<Seq<u8>, AgentFault> {
    match result {
        Ok(bytes) => Ok(bytes@),
        Err(e) => Err(e@),
    }
}

impl Agent {
    /// What holds of every agent.
    pub closed spec fn wf(&self) -> bool {
        self.state.wf()
    }

    /// The module that the JSON configuration `config_json` names, if it
    /// parses and names one.
    pub fn requested_module(config_json: &str) -> (module: Option<String>)
        ensures
            module.deep_view() == match json_text_map(config_json@) {
                Ok(members) => config_value(members, "wasm_path"@),
                Err(_) => None,
            },
    {
        match read_text_map(config_json) {
            Ok(members) => lookup(&members, "wasm_path"),
            Err(_) => None,
        }
    }

    /// Creates an agent of the kind named `agent_type_str` from the JSON
    /// configuration `config_json`. The caller has looked for the module
    /// that the configuration names and says in `module_exists` whether it
    /// is there. The agent takes its identifier from the configuration,
    /// and a fresh random one where the configuration gives none.
    pub fn new(agent_type_str: &str, config_json: &str, module_exists: bool) -> (agent: Result<
        Agent,
        AgentError,
    >)
        ensures
            agent matches Ok(a) ==> a.wf(),
            exists|fallback: Seq<char>|
                outcome_of(agent) == created(
                    agent_type_str@,
                    config_json@,
                    module_exists,
                    fallback,
                ),
    {
        let agent_type = match AgentType::from_str(agent_type_str) {
            Some(agent_type) => agent_type,
            None => {
                let error = AgentError::InitError(
                    joined("Unsupported agent type: ", agent_type_str),
                );
                assert(outcome_of(Err(error)) == created(
                    agent_type_str@,
                    config_json@,
                    module_exists,
                    Seq::empty(),
                ));
                return Err(error);
            },
        };
        let config = match read_text_map(config_json) {
            Ok(config) => config,
            Err(message) => {
                let error = AgentError::InitError(
                    joined("Invalid config JSON: ", message.as_str()),
                );
                assert(outcome_of(Err(error)) == created(
                    agent_type_str@,
                    config_json@,
                    module_exists,
                    Seq::empty(),
                ));
                return Err(error);
            },
        };
        let id = match lookup(&config, "id") {
            Some(id) => id,
            None => fresh_identifier(),
        };
        let ghost fallback = id@;
        let agent = Agent::assemble(agent_type, config, id, module_exists);
        assert(outcome_of(agent) == created(
            agent_type_str@,
            config_json@,
            module_exists,
            fallback,
        ));
        agent
    }

    /// Assembles an agent from its identity, kind and configuration. The
    /// configuration has to name a module, and the module has to be there.
    pub fn assemble(
        agent_type: AgentType,
        config: Vec<(String, String)>,
        id: String,
        module_exists: bool,
    ) -> (agent: Result<Agent, AgentError>)
        ensures
            agent matches Ok(a) ==> a.wf(),
            outcome_of(agent) == assembled(id@, agent_type, config.deep_view(), module_exists),
    {
        let module = match lookup(&config, "wasm_path") {
            Some(module) => module,
            None => {
                return Err(AgentError::InitError("Missing wasm_path in config".to_owned()));
            },
        };
        let sandbox = match WasmHost::new(module.as_str(), module_exists) {
            Ok(sandbox) => sandbox,
            Err(e) => {
                let text = e.describe();
                return Err(
                    AgentError::SandboxError(joined("Failed to create WASM host: ", text.as_str())),
                );
            },
        };
        Ok(
            Agent {
                id,
                agent_type,
                config,
                state: StateStore::new(),
                sandbox,
                last_execution: None,
            },
        )
    }

    /// Runs the agent on `input` in its sandbox. A run that succeeds leaves
    /// its proof as the last one; a run that fails leaves the last proof
    /// as it was.
    pub fn execute(&mut self, input: &[u8]) -> (result: Result<Vec<u8>, AgentError>)
        requires
            old(self).wf(),
        ensures
            final(self).wf(),
            exists|timestamp: u64|
                (final(self)@, result_of(result)) == completed(
                    old(self)@,
                    input@,
                    Ok(sandbox_output(input@)),
                    timestamp,
                ),
    {
        let mut context = ExecutionContext {
            agent_id: self.id.as_str(),
            agent_type: self.agent_type,
            input,
            state: &self.state,
        };
        let outcome = self.sandbox.execute(&mut context);
        let timestamp = unix_seconds();
        let result = self.complete(input, outcome, timestamp);
        assert((final(self)@, result_of(result)) == completed(
            old(self)@,
            input@,
            Ok(sandbox_output(input@)),
            timestamp,
        ));
        result
    }

    /// Takes what the sandbox answered to `input` at the time `timestamp`:
    /// an output is sealed in a proof that becomes the last one, a failure
    /// is handed on and changes nothing.
    pub fn complete(
        &mut self,
        input: &[u8],
        outcome: Result<Vec<u8>, WasmHostError>,
        timestamp: u64,
    ) -> (result: Result<Vec<u8>, AgentError>)
        requires
            old(self).wf(),
        ensures
            final(self).wf(),
            (final(self)@, result_of(result)) == completed(
                old(self)@,
                input@,
                answer_of(outcome),
                timestamp,
            ),
    {
        match outcome {
            Ok(output) => {
                let proof = ExecutionProof::at_time(
                    self.id.as_str(),
                    timestamp,
                    input,
                    output.as_slice(),
                );
                self.last_execution = Some(proof);
                Ok(output)
            },
            Err(e) => {
                let text = e.describe();
                Err(
                    AgentError::ExecutionError(
                        joined("Sandbox execution failed: ", text.as_str()),
                    ),
                )
            },
        }
    }

    /// The proof of the last execution that succeeded.
    pub fn get_last_proof(&self) -> (proof: Option<&ExecutionProof>)
        ensures
            proof.is_some() == self@.last_execution.is_some(),
            proof matches Some(p) ==> self@.last_execution == Some(p@),
    {
        self.last_execution.as_ref()
    }

    /// The agent's identifier.
    pub fn id(&self) -> (id: &str)
        ensures
            id@ == self@.id,
    {
        self.id.as_str()
    }

    /// The agent's kind.
    pub fn agent_type(&self) -> (kind: AgentType)
        ensures
            kind == self@.agent_type,
    {
        self.agent_type
    }

    /// The agent's configuration: its members in the order of their keys.
    pub fn config(&self) -> (config: &Vec<(String, String)>)
        ensures
            config.deep_view() == self@.config,
    {
        &self.config
    }

    /// The agent's state.
    pub fn state(&self) -> (state: &StateStore)
        requires
            self.wf(),
        ensures
            state.wf(),
            state@ == self@.state,
    {
        &self.state
    }
}

} // verus!
