//! The process supervisor's verified core: its error type, the launch plan
//! computed for a spawn (ports, environment, program), and the model of a
//! supervised process handle. The operating-system side of a spawn — process
//! creation, pipes, threads — is the caller's, driven by the plan.

use vstd::prelude::*;
use vstd::string::StringExecFns;

use crate::ports::{allocate_port_pair, PortPair};
use crate::text::{bytes_chars, clone_string_pairs, dec_rep, dec_string, int_dec, int_string};

verus! {

/// What can go wrong while starting or supervising the inspector process.
#[derive(Debug, Clone, PartialEq, Eq)]
pub enum InspectorError {
    /// The runtime needed to run the tool is not on the search path.
    NodeNotFound,
    /// No unused port could be found in the given range.
    NoAvailablePort(u16, u16),
    /// Creating the child process, or capturing its streams, failed; the
    /// payload describes the underlying cause.
    SpawnError(String),
    /// The child exited before becoming ready, with the given status code.
    PrematureExit(Option<i32>),
}

/// The human-readable description of each error.
pub open spec fn message_of(e: InspectorError) -> Seq<char> {
    match e {
        InspectorError::NodeNotFound => "Node.js runtime not found in PATH"@,
        InspectorError::NoAvailablePort(lo, hi) => "No available port in range "@ + bytes_chars(
            dec_rep(lo as nat),
        ) + "-"@ + bytes_chars(dec_rep(hi as nat)),
        InspectorError::SpawnError(cause) => "Process spawn failed: "@ + cause@,
        InspectorError::PrematureExit(code) => "Inspector exited prematurely with code "@ + (
        match code {
            Some(v) => "Some("@ + bytes_chars(int_dec(v as int)) + ")"@,
            None => "None"@,
        }),
    }
}

impl InspectorError {
    /// Renders the error for display.
    pub fn message(&self) -> (r: String)
        ensures
            r@ == message_of(*self),
    {
        match self {
            InspectorError::NodeNotFound => "Node.js runtime not found in PATH".to_owned(),
            InspectorError::NoAvailablePort(lo, hi) => {
                let mut s = "No available port in range ".to_owned();
                s.append(dec_string(*lo as u32).as_str());
                s.append("-");
                s.append(dec_string(*hi as u32).as_str());
                s
            },
            InspectorError::SpawnError(cause) => {
                let mut s = "Process spawn failed: ".to_owned();
                s.append(cause.as_str());
                s
            },
            InspectorError::PrematureExit(code) => {
                let mut s = "Inspector exited prematurely with code ".to_owned();
                match code {
                    Some(v) => {
                        s.append("Some(");
                        s.append(int_string(*v).as_str());
                        s.append(")");
                    },
                    None => {
                        s.append("None");
                    },
                }
                s
            },
        }
    }
}

/// What a caller asks to launch: the tool's command, the working directory,
/// and environment overrides applied over the computed environment.
pub struct LaunchSpec {
    pub command: String,
    pub working_directory: String,
    pub env_overrides: Vec<(String, String)>,
}

/// Everything the operating-system side needs to spawn the child: program,
/// working directory, the full environment in application order (later
/// entries override earlier ones), and the allocated ports.
pub struct LaunchPlan {
    pub program: String,
    pub working_directory: String,
    pub env: Vec<(String, String)>,
    pub ports: PortPair,
}

/// The value a key takes in an environment list where later entries win.
pub open spec fn env_value(env: Seq<(String, String)>, key: Seq<char>) -> Option<Seq<char>>
    decreases env.len(),
{
    if env.len() == 0 {
        None
    } else if env.last().0@ == key {
        Some(env.last().1@)
    } else {
        env_value(env.drop_last(), key)
    }
}

/// Splitting an environment list: the tail decides a key's value when it
/// defines the key; the base decides otherwise.
pub proof fn lemma_env_value_append(
    base: Seq<(String, String)>,
    tail: Seq<(String, String)>,
    key: Seq<char>,
)
    ensures
        env_value(base + tail, key) == match env_value(tail, key) {
            Some(v) => Some(v),
            None => env_value(base, key),
        },
    decreases tail.len(),
{
    if tail.len() == 0 {
        assert(base + tail =~= base);
    } else {
        let all = base + tail;
        assert(all.last() == tail.last());
        if tail.last().0@ != key {
            assert(all.drop_last() =~= base + tail.drop_last());
            lemma_env_value_append(base, tail.drop_last(), key);
        }
    }
}

/// The plan a launch request yields, given an allocated port pair.
pub open spec fn plan_matches(launch: LaunchSpec, ports: PortPair, plan: LaunchPlan) -> bool {
    &&& plan.program == launch.command
    &&& plan.working_directory == launch.working_directory
    &&& plan.ports == ports
    &&& plan.env@.len() == 3 + launch.env_overrides@.len()
    &&& plan.env@[0].0@ == "CLIENT_PORT"@
    &&& plan.env@[0].1@ == bytes_chars(dec_rep(ports.client_port as nat))
    &&& plan.env@[1].0@ == "SERVER_PORT"@
    &&& plan.env@[1].1@ == bytes_chars(dec_rep(ports.server_port as nat))
    &&& plan.env@[2].0@ == "MCP_AUTO_OPEN_ENABLED"@
    &&& plan.env@[2].1@ == "false"@
    &&& (forall|i: int|
        0 <= i < launch.env_overrides@.len() ==> plan.env@[3 + i] == launch.env_overrides@[i])
}

/// A caller's override decides its key: in a plan's environment, where the
/// overrides define a key, the plan gives it the override's value.
pub proof fn lemma_override_wins(
    env: Seq<(String, String)>,
    overrides: Seq<(String, String)>,
    key: Seq<char>,
)
    requires
        env.len() == 3 + overrides.len(),
        forall|i: int| 0 <= i < overrides.len() ==> env[3 + i] == overrides[i],
    ensures
        env_value(overrides, key) is Some ==> env_value(env, key) == env_value(overrides, key),
{
    assert(env =~= env.subrange(0, 3) + overrides);
    lemma_env_value_append(env.subrange(0, 3), overrides, key);
}

/// Computes the launch plan: the caller's command and working directory, and
/// the environment directing the tool at the allocated ports, keeping its
/// browser auto-open off, with the caller's overrides applied last.
pub fn plan_launch(launch: &LaunchSpec, ports: PortPair) -> (plan: LaunchPlan)
    ensures
        plan_matches(*launch, ports, plan),
{
    let mut env: Vec<(String, String)> = Vec::new();
    env.push(("CLIENT_PORT".to_owned(), dec_string(ports.client_port as u32)));
    env.push(("SERVER_PORT".to_owned(), dec_string(ports.server_port as u32)));
    env.push(("MCP_AUTO_OPEN_ENABLED".to_owned(), "false".to_owned()));
    let mut overrides = clone_string_pairs(&launch.env_overrides);
    env.append(&mut overrides);
    LaunchPlan {
        program: launch.command.clone(),
        working_directory: launch.working_directory.clone(),
        env,
        ports,
    }
}

/// What a nonblocking poll of the child reported.
#[derive(Clone, Copy, Debug, PartialEq, Eq, Structural)]
pub enum PollStatus {
    /// The child has exited.
    Exited,
    /// The child has neither exited nor failed the poll.
    Running,
    /// The poll itself failed.
    PollFailed,
}

/// The access URL of the tool's user-facing listener.
pub open spec fn client_url_chars(port: u16) -> Seq<char> {
    "http://localhost:"@ + bytes_chars(dec_rep(port as nat))
}

/// The supervised process as the verified core sees it: the allocated ports
/// and the opaque session identifier. The owning side holds the operating
/// system's child handle and reports poll outcomes.
pub struct InspectorHandle {
    pub client_port: u16,
    pub server_port: u16,
    pub session_id: String,
}

impl InspectorHandle {
    /// Plans a spawn: allocates the two ports and generates a fresh session
    /// identifier. The caller spawns the child from the returned plan.
    pub fn prepare(launch: &LaunchSpec) -> (r: Result<(LaunchPlan, InspectorHandle), InspectorError>)
        ensures
            match r {
                Ok((plan, h)) => {
                    &&& plan_matches(*launch, plan.ports, plan)
                    &&& plan.ports.client_port != plan.ports.server_port
                    &&& h.client_port == plan.ports.client_port
                    &&& h.server_port == plan.ports.server_port
                    &&& h.session_id@.len() == 36
                },
                Err(e) => (e matches InspectorError::NoAvailablePort(lo, hi) && ((lo == 5174 && hi
                    == 5274) || (lo == 6277 && hi == 6377))),
            },
    {
        let ports = match allocate_port_pair() {
            Err(e) => {
                return Err(e);
            },
            Ok(p) => p,
        };
        let plan = plan_launch(launch, ports);
        let session_id = crate::ids::new_uuid_string();
        let handle = InspectorHandle {
            client_port: ports.client_port,
            server_port: ports.server_port,
            session_id,
        };
        Ok((plan, handle))
    }

    /// The URL of the user-facing listener.
    pub fn client_url(&self) -> (r: String)
        ensures
            r@ == client_url_chars(self.client_port),
    {
        let mut s = "http://localhost:".to_owned();
        s.append(dec_string(self.client_port as u32).as_str());
        s
    }

    /// The user-facing port.
    pub fn client_port(&self) -> (r: u16)
        ensures
            r == self.client_port,
    {
        self.client_port
    }

    /// Whether the child is running, judged from a poll outcome: only a poll
    /// that saw neither an exit nor an error counts as running.
    pub fn is_running(&self, poll: PollStatus) -> (r: bool)
        ensures
            r == (poll == PollStatus::Running),
    {
        matches!(poll, PollStatus::Running)
    }
}

} // verus!
