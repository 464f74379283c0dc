//! The sandbox that runs an agent's module.

use crate::agent::ExecutionContext;
use crate::text::joined;
use vstd::prelude::*;
use vstd::string::*;
use vstd::utf8::encode_utf8;

verus! {

/// The size of one page of module memory, in bytes.
pub const WASM_PAGE_SIZE: usize = 65536;

/// The number of pages that a module may use.
pub const WASM_MAX_MEMORY_PAGES: usize = 100;

/// The time that one execution may take, in milliseconds.
pub const DEFAULT_TIMEOUT_MS: u64 = 5000;

/// Why the sandbox failed.
#[derive(Debug)]
pub enum WasmHostError {
    ModuleLoadError(String),
    InstantiationError(String),
    ExecutionError(String),
    MemoryError(String),
}

/// A sandbox failure as mathematical values.
pub enum HostFault {
    ModuleLoad(Seq<char>),
    Instantiation(Seq<char>),
    Execution(Seq<char>),
    Memory(Seq<char>),
}

impl View for WasmHostError {
    type V = HostFault;

    open spec fn view(&self) -> HostFault {
        match self {
            WasmHostError::ModuleLoadError(message) => HostFault::ModuleLoad(message@),
            WasmHostError::InstantiationError(message) => HostFault::Instantiation(message@),
            WasmHostError::ExecutionError(message) => HostFault::Execution(message@),
            WasmHostError::MemoryError(message) => HostFault::Memory(message@),
        }
    }
}

/// The text that describes a sandbox failure.
pub open spec fn host_fault_text(fault: HostFault) -> Seq<char> {
    match fault {
        HostFault::ModuleLoad(message) => "Module load error: "@ + message,
        HostFault::Instantiation(message) => "Instantiation error: "@ + message,
        HostFault::Execution(message) => "Execution error: "@ + message,
        HostFault::Memory(message) => "Memory error: "@ + message,
    }
}

impl WasmHostError {
    /// Describes the failure.
    pub fn describe(&self) -> (text: String)
        ensures
            text@ == host_fault_text(self@),
    {
        match self {
            WasmHostError::ModuleLoadError(message) => joined(
                "Module load error: ",
                message.as_str(),
            ),
            WasmHostError::InstantiationError(message) => joined(
                "Instantiation error: ",
                message.as_str(),
            ),
            WasmHostError::ExecutionError(message) => joined("Execution error: ", message.as_str()),
            WasmHostError::MemoryError(message) => joined("Memory error: ", message.as_str()),
        }
    }
}

/// A sandbox as mathematical values.
pub struct HostData {
    pub module_location: Seq<char>,
    pub memory_limit: nat,
    pub execution_timeout_ms: u64,
}

/// The sandbox that a freshly loaded module runs in.
pub open spec fn fresh_host(module_location: Seq<char>) -> HostData {
    HostData {
        module_location,
        memory_limit: (WASM_MAX_MEMORY_PAGES * WASM_PAGE_SIZE) as nat,
        execution_timeout_ms: DEFAULT_TIMEOUT_MS,
    }
}

/// The failure to load a module that is not there.
pub open spec fn module_missing(module_location: Seq<char>) -> HostFault {
    HostFault::ModuleLoad("Module file not found: "@ + module_location)
}

/// What the sandbox returns for `input`: the input behind a fixed prefix.
pub open spec fn sandbox_output(input: Seq<u8>) -> Seq<u8> {
    encode_utf8("WASM output: "@) + input
}

/// A sandbox for one module.
pub struct WasmHost {
    module_location: String,
    memory_limit: usize,
    execution_timeout_ms: u64,
}

impl View for WasmHost {
    type V = HostData;

    closed spec fn view(&self) -> HostData {
        HostData {
            module_location: self.module_location@,
            memory_limit: self.memory_limit as nat,
            execution_timeout_ms: self.execution_timeout_ms,
        }
    }
}

impl WasmHost {
    /// A sandbox for the module at `module_location`. The caller has looked for
    /// the module and says in `module_exists` whether it is there: a module
    /// that is not there cannot be loaded.
    pub fn new(module_location: &str, module_exists: bool) -> (host: Result<WasmHost, WasmHostError>)
        ensures
            module_exists ==> (host matches Ok(h) && h@ == fresh_host(module_location@)),
            !module_exists ==> (host matches Err(e) && e@ == module_missing(module_location@)),
    {
        if !module_exists {
            return Err(
                WasmHostError::ModuleLoadError(joined("Module file not found: ", module_location)),
            );
        }
        Ok(
            WasmHost {
                module_location: module_location.to_owned(),
                memory_limit: WASM_MAX_MEMORY_PAGES * WASM_PAGE_SIZE,
                execution_timeout_ms: DEFAULT_TIMEOUT_MS,
            },
        )
    }

    /// Runs the module on the input of `context`.
    pub fn execute(&self, context: &mut ExecutionContext) -> (output: Result<
        Vec<u8>,
        WasmHostError,
    >)
        ensures
            *final(context) == *old(context),
            (output matches Ok(bytes) && bytes@ == sandbox_output(old(context).input@)),
    {
        let mut result: Vec<u8> = Vec::new();
        result.extend_from_slice("WASM output: ".as_bytes());
        result.extend_from_slice(context.input);
        assert(result@ =~= sandbox_output(old(context).input@));
        Ok(result)
    }

    /// The memory that the module may use, in bytes.
    pub fn memory_limit(&self) -> (limit: usize)
        ensures
            limit == self@.memory_limit,
    {
        self.memory_limit
    }

    /// The time that one execution may take, in milliseconds.
    pub fn execution_timeout_ms(&self) -> (timeout_ms: u64)
        ensures
            timeout_ms == self@.execution_timeout_ms,
    {
        self.execution_timeout_ms
    }

    /// Sets the time that one execution may take, in milliseconds.
    pub fn set_execution_timeout_ms(&mut self, timeout_ms: u64)
        ensures
            final(self)@ == (HostData { execution_timeout_ms: timeout_ms, ..old(self)@ }),
    {
        self.execution_timeout_ms = timeout_ms;
    }
}

} // verus!
