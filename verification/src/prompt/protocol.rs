//! The messages between the daemon and the agent.
use crate::path::text_of_bytes;
use crate::policy::rule::Access;
use crate::process::identify::ProcessInfo;
use crate::prompt::types::UserChoice;
use crate::text::opt_text;
use vstd::prelude::*;

verus! {

/// Version of the message format.
pub const PROTOCOL_VERSION: u32 = 1;

/// What the agent is told about the calling process.
#[derive(Debug)]
pub struct ProcessDesc {
    pub pid: u32,
    pub name: String,
    pub binary: String,
    pub script: Option<String>,
}

/// A request to the agent.
#[derive(Debug)]
pub struct AgentRequest {
    pub v: u32,
    pub id: u64,
    pub access: Access,
    pub file: String,
    pub process: ProcessDesc,
    pub timeout_ms: u64,
}

/// How a prompt ended.
#[derive(Debug, Clone, Copy, PartialEq, Eq, Structural)]
pub enum PromptOutcome {
    /// The user chose.
    Decided(UserChoice),
    /// Nobody answered in time.
    NoResponse,
}

/// The agent's reply.
#[derive(Debug, Clone, Copy, PartialEq, Eq, Structural)]
pub struct AgentResponse {
    pub v: u32,
    pub id: u64,
    pub outcome: PromptOutcome,
}

impl ProcessDesc {
    /// Whether the description is that of `process`.
    pub open spec fn describes(&self, process: &ProcessInfo) -> bool {
        &&& self.pid == process.pid
        &&& self.name@ == process.binary_name@
        &&& self.binary@ == text_of_bytes(process.binary_path@)
        &&& opt_text(self.script) == match process.script {
            Some(s) => Some(text_of_bytes(s@)),
            None => None,
        }
    }

    /// Describes `process` to the agent.
    pub fn of(process: &ProcessInfo) -> (r: ProcessDesc)
        ensures
            r.describes(process),
    {
        ProcessDesc {
            pid: process.pid,
            name: process.binary_name.clone(),
            binary: process.binary_path.to_text(),
            script: match &process.script {
                Some(s) => Some(s.to_text()),
                None => None,
            },
        }
    }
}

/// A description names the process's pid and binary, and its script if and only
/// if it runs one.
pub proof fn law_descriptions_identify_the_process(desc: ProcessDesc, process: ProcessInfo)
    requires
        desc.describes(&process),
    ensures
        desc.pid == process.pid,
        desc.name@ == process.binary_name@,
        desc.binary@ == text_of_bytes(process.binary_path@),
        desc.script is Some == process.script is Some,
        process.script is Some ==> desc.script->0@ == text_of_bytes(process.script->0@),
{
}

} // verus!
