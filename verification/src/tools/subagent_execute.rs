//! Synchronous sub-agent execution.
//!
//! The `subagent_execute` tool runs a delegate agent and waits for its answer, up
//! to a limit. The tool itself reaches no service: each of its functions takes what
//! came back from the last one and says which is next, so that a caller drives a
//! request from `execute` through the steps to its result.

use crate::json;
use crate::providers::ChatMessage;
use crate::providers;
use crate::text;
use crate::tools::schema;
use crate::tools::traits::{ToolError, ToolResult};
use crate::tools::traits;
use vstd::prelude::*;

verus! {

/// How long to wait for a sub-agent if the request does not say, in seconds.
pub const EXECUTE_TIMEOUT_SECS: u64 = 300;

/// The shortest time that a request can ask to wait, in seconds.
pub const MIN_TIMEOUT_SECS: u64 = 10;

/// The longest time that a request can ask to wait, in seconds.
pub const MAX_TIMEOUT_SECS: u64 = 600;

/// The settings under which sub-agents run.
#[derive(Debug)]
pub struct SubAgentsConfig {
    pub enabled: bool,
    pub auto_activate: bool,
    /// The name of the strategy that balances load between agents.
    pub strategy: String,
    pub load_window_secs: usize,
    pub inflight_penalty: usize,
    pub recent_selection_penalty: usize,
    pub recent_failure_penalty: usize,
}

/// A `SubAgentsConfig`, with its text as a sequence of characters.
pub struct SubAgentsConfigView {
    pub enabled: bool,
    pub auto_activate: bool,
    pub strategy: Seq<char>,
    pub load_window_secs: usize,
    pub inflight_penalty: usize,
    pub recent_selection_penalty: usize,
    pub recent_failure_penalty: usize,
}

impl DeepView for SubAgentsConfig {
    type V = SubAgentsConfigView;

    open spec fn deep_view(&self) -> SubAgentsConfigView {
        SubAgentsConfigView {
            enabled: self.enabled,
            auto_activate: self.auto_activate,
            strategy: self.strategy@,
            load_window_secs: self.load_window_secs,
            inflight_penalty: self.inflight_penalty,
            recent_selection_penalty: self.recent_selection_penalty,
            recent_failure_penalty: self.recent_failure_penalty,
        }
    }
}

/// What is configured for a delegate agent, as far as running it depends on it.
#[derive(Debug)]
pub struct DelegateAgentConfig {
    pub provider: String,
    pub model: String,
    pub system_prompt: Option<String>,
    pub api_key: Option<String>,
    /// Whether the agent runs a loop of tool calls rather than a single exchange.
    pub agentic: bool,
    pub allowed_tools: Vec<String>,
    pub max_iterations: usize,
    pub allow_nested_delegate: bool,
}

/// A `DelegateAgentConfig`, with its texts as sequences of characters.
pub struct DelegateAgentConfigView {
    pub provider: Seq<char>,
    pub model: Seq<char>,
    pub system_prompt: Option<Seq<char>>,
    pub api_key: Option<Seq<char>>,
    pub agentic: bool,
    pub allowed_tools: Seq<Seq<char>>,
    pub max_iterations: usize,
    pub allow_nested_delegate: bool,
}

impl DeepView for DelegateAgentConfig {
    type V = DelegateAgentConfigView;

    open spec fn deep_view(&self) -> DelegateAgentConfigView {
        DelegateAgentConfigView {
            provider: self.provider@,
            model: self.model@,
            system_prompt: self.system_prompt.deep_view(),
            api_key: self.api_key.deep_view(),
            agentic: self.agentic,
            allowed_tools: self.allowed_tools.deep_view(),
            max_iterations: self.max_iterations,
            allow_nested_delegate: self.allow_nested_delegate,
        }
    }
}

impl Clone for DelegateAgentConfig {
    fn clone(&self) -> (copy: Self)
        ensures
            copy.deep_view() == self.deep_view(),
    {
        DelegateAgentConfig {
            provider: self.provider.clone(),
            model: self.model.clone(),
            system_prompt: text::copy_option(&self.system_prompt),
            api_key: text::copy_option(&self.api_key),
            agentic: self.agentic,
            allowed_tools: text::copy_texts(&self.allowed_tools),
            max_iterations: self.max_iterations,
            allow_nested_delegate: self.allow_nested_delegate,
        }
    }
}

/// A delegate agent under its name.
#[derive(Debug)]
pub struct DelegateAgent {
    pub name: String,
    pub config: DelegateAgentConfig,
}

/// A `DelegateAgent`, with its texts as sequences of characters.
pub struct DelegateAgentView {
    pub name: Seq<char>,
    pub config: DelegateAgentConfigView,
}

impl DeepView for DelegateAgent {
    type V = DelegateAgentView;

    open spec fn deep_view(&self) -> DelegateAgentView {
        DelegateAgentView { name: self.name@, config: self.config.deep_view() }
    }
}

/// Whether no two agents share a name.
pub open spec fn distinct_names(agents: Seq<DelegateAgentView>) -> bool {
    forall|i: int, j: int|
        0 <= i < j < agents.len() ==> (#[trigger] agents[i]).name != (#[trigger] agents[j]).name
}

/// The configuration of the agent called `name`, if there is one.
pub open spec fn config_of(agents: Seq<DelegateAgentView>, name: Seq<char>) -> Option<
    DelegateAgentConfigView,
>
    decreases agents.len(),
{
    if agents.len() == 0 {
        None
    } else if agents[0].name == name {
        Some(agents[0].config)
    } else {
        config_of(agents.skip(1), name)
    }
}

/// The arguments of a request as they came, each `None` where it is missing or of the
/// wrong kind.
#[derive(Debug)]
pub struct SubAgentArgs {
    pub agent: Option<String>,
    pub task: Option<String>,
    pub context: Option<String>,
    pub timeout_secs: Option<u64>,
}

/// A `SubAgentArgs`, with its texts as sequences of characters.
pub struct SubAgentArgsView {
    pub agent: Option<Seq<char>>,
    pub task: Option<Seq<char>>,
    pub context: Option<Seq<char>>,
    pub timeout_secs: Option<u64>,
}

impl DeepView for SubAgentArgs {
    type V = SubAgentArgsView;

    open spec fn deep_view(&self) -> SubAgentArgsView {
        SubAgentArgsView {
            agent: self.agent.deep_view(),
            task: self.task.deep_view(),
            context: self.context.deep_view(),
            timeout_secs: self.timeout_secs,
        }
    }
}

/// A request that can be acted on.
#[derive(Debug)]
pub struct SubAgentRequest {
    /// The agent that was asked for, if one was.
    pub agent: Option<String>,
    pub task: String,
    /// What the agent is told before its task; empty if there is nothing.
    pub context: String,
    pub timeout_secs: u64,
}

/// A `SubAgentRequest`, with its texts as sequences of characters.
pub struct SubAgentRequestView {
    pub agent: Option<Seq<char>>,
    pub task: Seq<char>,
    pub context: Seq<char>,
    pub timeout_secs: u64,
}

impl DeepView for SubAgentRequest {
    type V = SubAgentRequestView;

    open spec fn deep_view(&self) -> SubAgentRequestView {
        SubAgentRequestView {
            agent: self.agent.deep_view(),
            task: self.task@,
            context: self.context@,
            timeout_secs: self.timeout_secs,
        }
    }
}

/// By which rule an agent is chosen among several.
#[derive(Debug)]
pub struct AgentSelectionPolicy {
    pub strategy: String,
    pub inflight_penalty: usize,
    pub recent_selection_penalty: usize,
    pub recent_failure_penalty: usize,
}

/// An `AgentSelectionPolicy`, with its text as a sequence of characters.
pub struct AgentSelectionPolicyView {
    pub strategy: Seq<char>,
    pub inflight_penalty: usize,
    pub recent_selection_penalty: usize,
    pub recent_failure_penalty: usize,
}

impl DeepView for AgentSelectionPolicy {
    type V = AgentSelectionPolicyView;

    open spec fn deep_view(&self) -> AgentSelectionPolicyView {
        AgentSelectionPolicyView {
            strategy: self.strategy@,
            inflight_penalty: self.inflight_penalty,
            recent_selection_penalty: self.recent_selection_penalty,
            recent_failure_penalty: self.recent_failure_penalty,
        }
    }
}

/// A request that waits for an agent to be chosen.
#[derive(Debug)]
pub struct PendingSelection {
    pub request: SubAgentRequest,
    pub auto_activate: bool,
    /// Over how many past seconds the load of the agents counts.
    pub load_window_secs: u64,
    pub policy: AgentSelectionPolicy,
}

/// A `PendingSelection`, with its texts as sequences of characters.
pub struct PendingSelectionView {
    pub request: SubAgentRequestView,
    pub auto_activate: bool,
    pub load_window_secs: u64,
    pub policy: AgentSelectionPolicyView,
}

impl DeepView for PendingSelection {
    type V = PendingSelectionView;

    open spec fn deep_view(&self) -> PendingSelectionView {
        PendingSelectionView {
            request: self.request.deep_view(),
            auto_activate: self.auto_activate,
            load_window_secs: self.load_window_secs,
            policy: self.policy.deep_view(),
        }
    }
}

/// A run of an agent that waits for its provider or for the agent's answer.
#[derive(Debug)]
pub struct AgentRun {
    pub agent_name: String,
    pub config: DelegateAgentConfig,
    /// What the provider is given to authenticate with, if there is anything.
    pub credential: Option<String>,
    pub prompt: String,
    pub timeout_secs: u64,
}

/// An `AgentRun`, with its texts as sequences of characters.
pub struct AgentRunView {
    pub agent_name: Seq<char>,
    pub config: DelegateAgentConfigView,
    pub credential: Option<Seq<char>>,
    pub prompt: Seq<char>,
    pub timeout_secs: u64,
}

impl DeepView for AgentRun {
    type V = AgentRunView;

    open spec fn deep_view(&self) -> AgentRunView {
        AgentRunView {
            agent_name: self.agent_name@,
            config: self.config.deep_view(),
            credential: self.credential.deep_view(),
            prompt: self.prompt@,
            timeout_secs: self.timeout_secs,
        }
    }
}

/// The conversation and the tools with which an agent that calls tools starts.
#[derive(Debug)]
pub struct ToolLoop {
    pub history: Vec<ChatMessage>,
    /// The positions, among the tools of the caller, of those that the agent may use.
    pub tools: Vec<usize>,
    /// Whether nothing is shown while the agent runs.
    pub silent: bool,
    /// The name under which the agent is reached.
    pub channel: &'static str,
}

/// A `ToolLoop`, with its texts as sequences of characters.
pub struct ToolLoopView {
    pub history: Seq<providers::ChatMessageView>,
    pub tools: Seq<usize>,
    pub silent: bool,
    pub channel: Seq<char>,
}

impl DeepView for ToolLoop {
    type V = ToolLoopView;

    open spec fn deep_view(&self) -> ToolLoopView {
        ToolLoopView {
            history: self.history.deep_view(),
            tools: self.tools@,
            silent: self.silent,
            channel: self.channel@,
        }
    }
}

/// What a request needs next.
#[derive(Debug)]
pub enum SubAgentStep {
    /// The request cannot be taken.
    Rejected(ToolError),
    /// The request is answered.
    Finished(ToolResult),
    /// Read the settings anew, if they are in a file; go on with `settings_loaded`.
    LoadSettings(SubAgentRequest),
    /// Ask the security policy whether the tool may act; go on with `authorized`.
    Authorize(PendingSelection),
    /// Choose an agent; go on with `agent_selected`.
    SelectAgent(PendingSelection),
    /// Set up the agent's provider; go on with `provider_created`.
    CreateProvider(AgentRun),
    /// Count a failure of the agent of this name; the request is answered.
    RecordFailure(String, ToolResult),
    /// Count the agent as busy and at once as failed; the request is answered.
    FailRun(String, ToolResult),
    /// Count the agent as busy and send it the prompt; go on with `run_finished`.
    Chat(AgentRun),
    /// Count the agent as busy and let it call tools; go on with `run_finished`.
    CallTools(AgentRun, ToolLoop),
}

/// A `SubAgentStep`, with its texts as sequences of characters.
pub enum SubAgentStepView {
    Rejected(Seq<char>),
    Finished(traits::ToolResultView),
    LoadSettings(SubAgentRequestView),
    Authorize(PendingSelectionView),
    SelectAgent(PendingSelectionView),
    CreateProvider(AgentRunView),
    RecordFailure(Seq<char>, traits::ToolResultView),
    FailRun(Seq<char>, traits::ToolResultView),
    Chat(AgentRunView),
    CallTools(AgentRunView, ToolLoopView),
}

impl DeepView for SubAgentStep {
    type V = SubAgentStepView;

    open spec fn deep_view(&self) -> SubAgentStepView {
        match self {
            SubAgentStep::Rejected(error) => SubAgentStepView::Rejected(error.deep_view()),
            SubAgentStep::Finished(result) => SubAgentStepView::Finished(result.deep_view()),
            SubAgentStep::LoadSettings(request) => SubAgentStepView::LoadSettings(
                request.deep_view(),
            ),
            SubAgentStep::Authorize(pending) => SubAgentStepView::Authorize(pending.deep_view()),
            SubAgentStep::SelectAgent(pending) => SubAgentStepView::SelectAgent(
                pending.deep_view(),
            ),
            SubAgentStep::CreateProvider(run) => SubAgentStepView::CreateProvider(run.deep_view()),
            SubAgentStep::RecordFailure(name, result) => SubAgentStepView::RecordFailure(
                name@,
                result.deep_view(),
            ),
            SubAgentStep::FailRun(name, result) => SubAgentStepView::FailRun(
                name@,
                result.deep_view(),
            ),
            SubAgentStep::Chat(run) => SubAgentStepView::Chat(run.deep_view()),
            SubAgentStep::CallTools(run, tools) => SubAgentStepView::CallTools(
                run.deep_view(),
                tools.deep_view(),
            ),
        }
    }
}

/// What came of running an agent.
#[derive(Debug)]
pub enum AgentOutcome {
    Replied(String),
    Failed(String),
    TimedOut,
}

/// An `AgentOutcome`, with its text as a sequence of characters.
pub enum AgentOutcomeView {
    Replied(Seq<char>),
    Failed(Seq<char>),
    TimedOut,
}

impl DeepView for AgentOutcome {
    type V = AgentOutcomeView;

    open spec fn deep_view(&self) -> AgentOutcomeView {
        match self {
            AgentOutcome::Replied(response) => AgentOutcomeView::Replied(response@),
            AgentOutcome::Failed(error) => AgentOutcomeView::Failed(error@),
            AgentOutcome::TimedOut => AgentOutcomeView::TimedOut,
        }
    }
}

/// How long a request waits: what it asks for, kept within the limits, or the default.
pub open spec fn timeout_of(asked: Option<u64>) -> u64 {
    let secs = match asked {
        Some(secs) => secs,
        None => EXECUTE_TIMEOUT_SECS,
    };
    if secs < MIN_TIMEOUT_SECS {
        MIN_TIMEOUT_SECS
    } else if secs > MAX_TIMEOUT_SECS {
        MAX_TIMEOUT_SECS
    } else {
        secs
    }
}

/// `value` without the white space around it, or the empty text if there is no value.
pub open spec fn trimmed_or_empty(value: Option<Seq<char>>) -> Seq<char> {
    match value {
        Some(chars) => text::trimmed(chars),
        None => Seq::empty(),
    }
}

/// `value` without the white space around it, if there is a value.
pub open spec fn trimmed_option(value: Option<Seq<char>>) -> Option<Seq<char>> {
    match value {
        Some(chars) => Some(text::trimmed(chars)),
        None => None,
    }
}

/// The request that `args` make, if they name a task.
pub open spec fn request_of(args: SubAgentArgsView) -> SubAgentRequestView {
    SubAgentRequestView {
        agent: trimmed_option(args.agent),
        task: trimmed_or_empty(args.task),
        context: trimmed_or_empty(args.context),
        timeout_secs: timeout_of(args.timeout_secs),
    }
}

/// The first step for these arguments.
pub open spec fn first_step(args: SubAgentArgsView) -> SubAgentStepView {
    if args.task is None {
        SubAgentStepView::Rejected("Missing 'task' parameter"@)
    } else if request_of(args).task.len() == 0 {
        SubAgentStepView::Finished(traits::failed("'task' parameter must not be empty"@))
    } else {
        SubAgentStepView::LoadSettings(request_of(args))
    }
}

/// The settings, with a load window of at least one second.
pub open spec fn with_load_window(settings: SubAgentsConfigView) -> SubAgentsConfigView {
    SubAgentsConfigView {
        load_window_secs: if settings.load_window_secs < 1 {
            1
        } else {
            settings.load_window_secs
        },
        ..settings
    }
}

/// The settings in force: those that were read anew, if there is a file to read them from and
/// it could be read, else the tool's own.
pub open spec fn settings_in_force(
    own: SubAgentsConfigView,
    has_file: bool,
    reloaded: Option<SubAgentsConfigView>,
) -> SubAgentsConfigView {
    with_load_window(
        if has_file && reloaded is Some {
            reloaded->0
        } else {
            own
        },
    )
}

/// What is selected from under these settings.
pub open spec fn pending_selection(
    request: SubAgentRequestView,
    settings: SubAgentsConfigView,
) -> PendingSelectionView {
    PendingSelectionView {
        request,
        auto_activate: settings.auto_activate,
        load_window_secs: settings.load_window_secs as u64,
        policy: AgentSelectionPolicyView {
            strategy: settings.strategy,
            inflight_penalty: settings.inflight_penalty,
            recent_selection_penalty: settings.recent_selection_penalty,
            recent_failure_penalty: settings.recent_failure_penalty,
        },
    }
}

/// The step that follows once the settings in force are known.
pub open spec fn step_with_settings(
    request: SubAgentRequestView,
    settings: SubAgentsConfigView,
) -> SubAgentStepView {
    if settings.enabled {
        SubAgentStepView::Authorize(pending_selection(request, settings))
    } else {
        SubAgentStepView::Finished(
            traits::failed(
                "Subagents are currently disabled. Re-enable with model_routing_config action set_orchestration."@,
            ),
        )
    }
}

/// The step that follows once the security policy was asked.
pub open spec fn step_with_verdict(
    pending: PendingSelectionView,
    verdict: Result<(), Seq<char>>,
) -> SubAgentStepView {
    match verdict {
        Ok(()) => SubAgentStepView::SelectAgent(pending),
        Err(error) => SubAgentStepView::Finished(traits::failed(error)),
    }
}

/// The prompt of an agent: its task, after the context if there is one.
pub open spec fn prompt_of(request: SubAgentRequestView) -> Seq<char> {
    if request.context.len() == 0 {
        request.task
    } else {
        "[Context]\n"@ + request.context + "\n\n[Task]\n"@ + request.task
    }
}

/// The step that follows once an agent is chosen, or that none could be.
pub open spec fn step_with_agent(
    agents: Seq<DelegateAgentView>,
    fallback_credential: Option<Seq<char>>,
    request: SubAgentRequestView,
    selection: Result<Seq<char>, Seq<char>>,
) -> SubAgentStepView {
    match selection {
        Err(error) => SubAgentStepView::Finished(traits::failed(error)),
        Ok(agent_name) => match config_of(agents, agent_name) {
            None => SubAgentStepView::Finished(
                traits::failed("Resolved agent '"@ + agent_name + "' is unavailable"@),
            ),
            Some(config) => SubAgentStepView::CreateProvider(
                AgentRunView {
                    agent_name,
                    config,
                    credential: if config.api_key is Some {
                        config.api_key
                    } else {
                        fallback_credential
                    },
                    prompt: prompt_of(request),
                    timeout_secs: request.timeout_secs,
                },
            ),
        },
    }
}

/// Whether `name` is among the allowed names, without the white space around those.
pub open spec fn is_allowed(allowed: Seq<Seq<char>>, name: Seq<char>) -> bool {
    name.len() > 0 && exists|i: int| 0 <= i < allowed.len() && text::trimmed(#[trigger] allowed[i]) == name
}

/// Whether an agent with this configuration may use the tool called `name`: it is
/// allowed to, and the tool is none that runs sub-agents. Delegating is such a tool
/// unless the configuration permits it.
pub open spec fn may_use(config: DelegateAgentConfigView, name: Seq<char>) -> bool {
    &&& is_allowed(config.allowed_tools, name)
    &&& if name == "delegate"@ {
        config.allow_nested_delegate
    } else {
        name != "subagent_spawn"@ && name != "subagent_manage"@ && name != "subagent_execute"@
    }
}

/// The positions of the tools that an agent with this configuration may use, in order.
pub open spec fn usable_tools(config: DelegateAgentConfigView, names: Seq<Seq<char>>) -> Seq<
    usize,
>
    decreases names.len(),
{
    if names.len() == 0 {
        Seq::empty()
    } else if may_use(config, names.last()) {
        usable_tools(config, names.drop_last()).push((names.len() - 1) as usize)
    } else {
        usable_tools(config, names.drop_last())
    }
}

/// The conversation with which an agent that calls tools starts.
pub open spec fn first_history(run: AgentRunView) -> Seq<providers::ChatMessageView> {
    let user = providers::ChatMessageView { role: "user"@, content: run.prompt };
    match run.config.system_prompt {
        Some(content) => seq![providers::ChatMessageView { role: "system"@, content }, user],
        None => seq![user],
    }
}

/// The step that follows for an agent that calls tools.
pub open spec fn agentic_step(run: AgentRunView, names: Seq<Seq<char>>) -> SubAgentStepView {
    if run.config.allowed_tools.len() == 0 {
        SubAgentStepView::FailRun(
            run.agent_name,
            traits::failed(
                "Agent '"@ + run.agent_name + "' has agentic=true but allowed_tools is empty"@,
            ),
        )
    } else if usable_tools(run.config, names).len() == 0 {
        SubAgentStepView::FailRun(
            run.agent_name,
            traits::failed(
                "Agent '"@ + run.agent_name
                    + "' has no executable tools after filtering allowlist ("@ + text::joined(
                    run.config.allowed_tools,
                    ", "@,
                ) + ")"@,
            ),
        )
    } else {
        SubAgentStepView::CallTools(
            run,
            ToolLoopView {
                history: first_history(run),
                tools: usable_tools(run.config, names),
                silent: true,
                channel: "subagent_execute"@,
            },
        )
    }
}

/// The step that follows once the provider is set up, or that it could not be.
pub open spec fn step_with_provider(
    run: AgentRunView,
    names: Seq<Seq<char>>,
    provider: Result<(), Seq<char>>,
) -> SubAgentStepView {
    match provider {
        Err(error) => SubAgentStepView::RecordFailure(
            run.agent_name,
            traits::failed(
                "Failed to create provider '"@ + run.config.provider + "' for agent '"@
                    + run.agent_name + "': "@ + error,
            ),
        ),
        Ok(()) => if run.config.agentic {
            agentic_step(run, names)
        } else {
            SubAgentStepView::Chat(run)
        },
    }
}

/// What a request is answered with, whatever came of running the agent; `agentic` tells
/// whether the agent called tools.
pub open spec fn result_of(
    run: AgentRunView,
    agentic: bool,
    outcome: AgentOutcomeView,
) -> traits::ToolResultView {
    match outcome {
        AgentOutcomeView::Replied(response) => traits::succeeded(
            "[Agent '"@ + run.agent_name + "' ("@ + run.config.provider + "/"@ + run.config.model
                + (if agentic {
                ", agentic)]\n"@
            } else {
                ")]\n"@
            }) + (if text::trimmed(response).len() == 0 {
                "[Empty response]"@
            } else {
                response
            }),
        ),
        AgentOutcomeView::Failed(error) => traits::failed(
            "Agent '"@ + run.agent_name + "' failed: "@ + error,
        ),
        AgentOutcomeView::TimedOut => traits::failed(
            "Agent '"@ + run.agent_name + "' timed out after "@ + text::decimal(
                run.timeout_secs as nat,
            ) + "s"@,
        ),
    }
}

/// What a request is answered with once the agent has run, and how the run counts.
#[derive(Debug)]
pub struct FinishedRun {
    pub result: ToolResult,
    /// Whether the run counts as a success of the agent rather than a failure.
    pub counts_as_success: bool,
}

/// The names of the agents, as they are offered to the caller.
pub open spec fn listed_names(agents: Seq<DelegateAgentView>) -> Seq<char> {
    if agents.len() == 0 {
        "(none configured)"@
    } else {
        text::joined(agents.map_values(|a: DelegateAgentView| a.name), ", "@)
    }
}

/// The schema of the time limit.
pub open spec fn timeout_schema() -> Seq<char> {
    json::object_text(
        seq![
            json::text_field("description"@, "Maximum seconds to wait for the sub-agent (default: 300)"@),
            json::number_field("maximum"@, MAX_TIMEOUT_SECS as nat),
            json::number_field("minimum"@, MIN_TIMEOUT_SECS as nat),
            json::text_field("type"@, "integer"@),
        ],
    )
}

/// The schema of the tool's parameters.
pub open spec fn schema_of(agents: Seq<DelegateAgentView>) -> Seq<char> {
    json::object_text(
        seq![
            json::MemberView { name: "additionalProperties"@, value: json::bool_text(false) },
            json::MemberView {
                name: "properties"@,
                value: json::object_text(
                    seq![
                        json::MemberView {
                            name: "agent"@,
                            value: schema::filled_text_schema(
                                "Name of the agent to execute. Available: "@ + listed_names(agents),
                            ),
                        },
                        json::MemberView {
                            name: "context"@,
                            value: schema::text_schema(
                                "Optional context to prepend (e.g. relevant code, prior findings)"@,
                            ),
                        },
                        json::MemberView {
                            name: "task"@,
                            value: schema::filled_text_schema("The task/prompt to send to the sub-agent"@),
                        },
                        json::MemberView { name: "timeout_secs"@, value: timeout_schema() },
                    ],
                ),
            },
            json::MemberView {
                name: "required"@,
                value: json::list_text(seq![json::quoted("task"@)]),
            },
            json::text_field("type"@, "object"@),
        ],
    )
}

fn write_timeout_schema() -> (schema: String)
    ensures
        schema@ == timeout_schema(),
{
    let members: Vec<json::Member> = vec![
        json::text_member("description", "Maximum seconds to wait for the sub-agent (default: 300)"),
        json::number_member("maximum", MAX_TIMEOUT_SECS),
        json::number_member("minimum", MIN_TIMEOUT_SECS),
        json::text_member("type", "integer"),
    ];
    assert(members.deep_view() =~= seq![
        json::text_field("description"@, "Maximum seconds to wait for the sub-agent (default: 300)"@),
        json::number_field("maximum"@, MAX_TIMEOUT_SECS as nat),
        json::number_field("minimum"@, MIN_TIMEOUT_SECS as nat),
        json::text_field("type"@, "integer"@),
    ]);
    json::write_object(&members)
}

fn trim_option(value: &Option<String>) -> (result: Option<String>)
    ensures
        result.deep_view() == trimmed_option(value.deep_view()),
{
    match value {
        Some(value) => Some(text::trim(value.as_str())),
        None => None,
    }
}

impl SubAgentArgs {
    /// Reads the arguments out of a JSON value, which should be an object.
    pub fn from_json(args: &serde_json::Value) -> (result: SubAgentArgs)
        ensures
            result.deep_view() == (SubAgentArgsView {
                agent: json::json_str_field(json::json_text(*args), "agent"@),
                task: json::json_str_field(json::json_text(*args), "task"@),
                context: json::json_str_field(json::json_text(*args), "context"@),
                timeout_secs: json::json_u64_field(json::json_text(*args), "timeout_secs"@),
            }),
    {
        SubAgentArgs {
            agent: json::str_field(args, "agent"),
            task: json::str_field(args, "task"),
            context: json::str_field(args, "context"),
            timeout_secs: json::u64_field(args, "timeout_secs"),
        }
    }
}

/// Tool that runs a delegate agent and waits until its result is there.
///
/// `T` is what keeps track of how busy the agents are; the tool only hands it on.
pub struct SubAgentExecuteTool<T> {
    pub agents: Vec<DelegateAgent>,
    pub fallback_credential: Option<String>,
    /// The names of the tools that the caller has.
    pub parent_tools: Vec<String>,
    pub subagent_settings: SubAgentsConfig,
    pub load_tracker: T,
    /// The file that the settings are read from anew for each request, if there is one.
    pub runtime_config_path: Option<String>,
}

impl<T> SubAgentExecuteTool<T> {
    /// Whether the agents have names of their own.
    pub open spec fn wf(&self) -> bool {
        distinct_names(self.agents.deep_view())
    }

    /// A tool for these agents. Its settings are `defaults` but for the two that are
    /// given.
    pub fn new(
        agents: Vec<DelegateAgent>,
        fallback_credential: Option<String>,
        parent_tools: Vec<String>,
        defaults: SubAgentsConfig,
        subagents_enabled: bool,
        auto_activate: bool,
        load_tracker: T,
        runtime_config_path: Option<String>,
    ) -> (tool: Self)
        requires
            distinct_names(agents.deep_view()),
        ensures
            tool.wf(),
            tool.agents == agents,
            tool.fallback_credential == fallback_credential,
            tool.parent_tools == parent_tools,
            tool.subagent_settings == (SubAgentsConfig {
                enabled: subagents_enabled,
                auto_activate,
                ..defaults
            }),
            tool.load_tracker == load_tracker,
            tool.runtime_config_path == runtime_config_path,
    {
        let mut subagent_settings = defaults;
        subagent_settings.enabled = subagents_enabled;
        subagent_settings.auto_activate = auto_activate;
        SubAgentExecuteTool {
            agents,
            fallback_credential,
            parent_tools,
            subagent_settings,
            load_tracker,
            runtime_config_path,
        }
    }

    /// Reuse a shared runtime load tracker.
    pub fn with_load_tracker(self, load_tracker: T) -> (tool: Self)
        ensures
            tool == (SubAgentExecuteTool { load_tracker, ..self }),
    {
        SubAgentExecuteTool { load_tracker, ..self }
    }

    /// The name under which the tool is called.
    pub fn name(&self) -> (name: &'static str)
        ensures
            name@ == "subagent_execute"@,
    {
        "subagent_execute"
    }

    /// What the tool does, for the model that may call it.
    pub fn description(&self) -> (description: &'static str)
        ensures
            description@
                == "Execute a sub-agent synchronously, blocking until the result is available. Use for tasks that require the result before continuing (e.g. code generation, research queries). For long-running background tasks, prefer subagent_spawn instead. `agent` can be omitted or set to `auto` when subagent auto-activation is enabled."@,
    {
        "Execute a sub-agent synchronously, blocking until the result is available. Use for tasks that require the result before continuing (e.g. code generation, research queries). For long-running background tasks, prefer subagent_spawn instead. `agent` can be omitted or set to `auto` when subagent auto-activation is enabled."
    }

    fn agent_names(&self) -> (names: String)
        ensures
            names@ == listed_names(self.agents.deep_view()),
    {
        if self.agents.len() == 0 {
            return String::from_str("(none configured)");
        }
        let mut names: Vec<String> = Vec::new();
        let mut i: usize = 0;
        while i < self.agents.len()
            invariant
                i <= self.agents.len(),
                names.len() == i,
                forall|j: int| 0 <= j < i ==> names@[j]@ == self.agents@[j].name@,
            decreases self.agents.len() - i,
        {
            names.push(self.agents[i].name.clone());
            i += 1;
        }
        assert(names.deep_view() =~= self.agents.deep_view().map_values(
            |a: DelegateAgentView| a.name,
        ));
        text::join(&names, ", ")
    }

    /// The JSON schema of the tool's parameters.
    pub fn parameters_schema(&self) -> (schema: String)
        ensures
            schema@ == schema_of(self.agents.deep_view()),
    {
        let names = self.agent_names();
        let agent = String::from_str("Name of the agent to execute. Available: ").concat(
            names.as_str(),
        );
        let properties: Vec<json::Member> = vec![
            json::member("agent", schema::write_filled_text_schema(agent.as_str())),
            json::member(
                "context",
                schema::write_text_schema("Optional context to prepend (e.g. relevant code, prior findings)"),
            ),
            json::member("task", schema::write_filled_text_schema("The task/prompt to send to the sub-agent")),
            json::member("timeout_secs", write_timeout_schema()),
        ];
        let required: Vec<String> = vec![json::json_string("task")];
        let members: Vec<json::Member> = vec![
            json::member("additionalProperties", String::from_str("false")),
            json::member("properties", json::write_object(&properties)),
            json::member("required", json::write_list(&required)),
            json::text_member("type", "object"),
        ];
        proof {
            let agents = self.agents.deep_view();
            let property_views = seq![
                json::MemberView {
                    name: "agent"@,
                    value: schema::filled_text_schema(
                        "Name of the agent to execute. Available: "@ + listed_names(agents),
                    ),
                },
                json::MemberView {
                    name: "context"@,
                    value: schema::text_schema(
                        "Optional context to prepend (e.g. relevant code, prior findings)"@,
                    ),
                },
                json::MemberView {
                    name: "task"@,
                    value: schema::filled_text_schema("The task/prompt to send to the sub-agent"@),
                },
                json::MemberView { name: "timeout_secs"@, value: timeout_schema() },
            ];
            assert(properties.deep_view() =~= property_views);
            assert(required.deep_view() =~= seq![json::quoted("task"@)]);
            assert(members.deep_view() =~= seq![
                json::MemberView { name: "additionalProperties"@, value: json::bool_text(false) },
                json::MemberView {
                    name: "properties"@,
                    value: json::object_text(property_views),
                },
                json::MemberView {
                    name: "required"@,
                    value: json::list_text(seq![json::quoted("task"@)]),
                },
                json::text_field("type"@, "object"@),
            ]);
        }
        json::write_object(&members)
    }

    /// The settings in force: those that were read anew from the file, if there is a
    /// file and it could be read, else those of the tool.
    pub fn runtime_subagent_settings(&self, reloaded: Option<SubAgentsConfig>) -> (settings:
        SubAgentsConfig)
        ensures
            settings.deep_view() == settings_in_force(
                self.subagent_settings.deep_view(),
                self.runtime_config_path is Some,
                reloaded.deep_view(),
            ),
    {
        let own = SubAgentsConfig {
            enabled: self.subagent_settings.enabled,
            auto_activate: self.subagent_settings.auto_activate,
            strategy: self.subagent_settings.strategy.clone(),
            load_window_secs: self.subagent_settings.load_window_secs,
            inflight_penalty: self.subagent_settings.inflight_penalty,
            recent_selection_penalty: self.subagent_settings.recent_selection_penalty,
            recent_failure_penalty: self.subagent_settings.recent_failure_penalty,
        };
        let mut settings = match reloaded {
            Some(reloaded) if self.runtime_config_path.is_some() => reloaded,
            _ => own,
        };
        if settings.load_window_secs < 1 {
            settings.load_window_secs = 1;
        }
        settings
    }

    /// Takes a request whose arguments are a JSON object.
    pub fn execute(&self, args: &serde_json::Value) -> (step: SubAgentStep)
        ensures
            step.deep_view() == first_step(
                SubAgentArgsView {
                    agent: json::json_str_field(json::json_text(*args), "agent"@),
                    task: json::json_str_field(json::json_text(*args), "task"@),
                    context: json::json_str_field(json::json_text(*args), "context"@),
                    timeout_secs: json::json_u64_field(json::json_text(*args), "timeout_secs"@),
                },
            ),
    {
        self.execute_args(&SubAgentArgs::from_json(args))
    }

    /// Takes a request with these arguments.
    pub fn execute_args(&self, args: &SubAgentArgs) -> (step: SubAgentStep)
        ensures
            step.deep_view() == first_step(args.deep_view()),
    {
        let task = match &args.task {
            Some(task) => text::trim(task.as_str()),
            None => {
                return SubAgentStep::Rejected(
                    ToolError { message: String::from_str("Missing 'task' parameter") },
                );
            },
        };
        if task.as_str().is_empty() {
            return SubAgentStep::Finished(
                ToolResult::failure(String::from_str("'task' parameter must not be empty")),
            );
        }
        let context = match &args.context {
            Some(context) => text::trim(context.as_str()),
            None => String::new(),
        };
        let asked: u64 = match args.timeout_secs {
            Some(secs) => secs,
            None => EXECUTE_TIMEOUT_SECS,
        };
        let timeout_secs: u64 = if asked < MIN_TIMEOUT_SECS {
            MIN_TIMEOUT_SECS
        } else if asked > MAX_TIMEOUT_SECS {
            MAX_TIMEOUT_SECS
        } else {
            asked
        };
        SubAgentStep::LoadSettings(
            SubAgentRequest { agent: trim_option(&args.agent), task, context, timeout_secs },
        )
    }

    /// Goes on once the settings were read anew, or that was not possible.
    pub fn settings_loaded(
        &self,
        request: SubAgentRequest,
        reloaded: Option<SubAgentsConfig>,
    ) -> (step: SubAgentStep)
        ensures
            step.deep_view() == step_with_settings(
                request.deep_view(),
                settings_in_force(
                    self.subagent_settings.deep_view(),
                    self.runtime_config_path is Some,
                    reloaded.deep_view(),
                ),
            ),
    {
        let settings = self.runtime_subagent_settings(reloaded);
        if !settings.enabled {
            return SubAgentStep::Finished(
                ToolResult::failure(
                    String::from_str(
                        "Subagents are currently disabled. Re-enable with model_routing_config action set_orchestration.",
                    ),
                ),
            );
        }
        SubAgentStep::Authorize(
            PendingSelection {
                request,
                auto_activate: settings.auto_activate,
                load_window_secs: settings.load_window_secs as u64,
                policy: AgentSelectionPolicy {
                    strategy: settings.strategy,
                    inflight_penalty: settings.inflight_penalty,
                    recent_selection_penalty: settings.recent_selection_penalty,
                    recent_failure_penalty: settings.recent_failure_penalty,
                },
            },
        )
    }

    /// Goes on once the security policy has allowed the tool to act, or has not.
    pub fn authorized(&self, pending: PendingSelection, verdict: Result<(), String>) -> (step:
        SubAgentStep)
        ensures
            step.deep_view() == step_with_verdict(
                pending.deep_view(),
                text::outcome_view(verdict),
            ),
    {
        match verdict {
            Ok(()) => SubAgentStep::SelectAgent(pending),
            Err(error) => SubAgentStep::Finished(ToolResult::failure(error)),
        }
    }

    fn find_config(&self, name: &str) -> (config: Option<DelegateAgentConfig>)
        ensures
            config.deep_view() == config_of(self.agents.deep_view(), name@),
    {
        let ghost agents = self.agents.deep_view();
        let mut i: usize = 0;
        assert(agents.skip(0) =~= agents);
        while i < self.agents.len()
            invariant
                i <= self.agents.len(),
                agents == self.agents.deep_view(),
                config_of(agents.skip(i as int), name@) == config_of(agents, name@),
            decreases self.agents.len() - i,
        {
            assert(agents.skip(i as int)[0] == self.agents@[i as int].deep_view());
            if text::same_text(self.agents[i].name.as_str(), name) {
                return Some(self.agents[i].config.clone());
            }
            assert(agents.skip(i as int).skip(1) =~= agents.skip(i + 1));
            i += 1;
        }
        None
    }

    /// Goes on once an agent was chosen, or none could be.
    pub fn agent_selected(
        &self,
        pending: PendingSelection,
        selection: Result<String, String>,
    ) -> (step: SubAgentStep)
        ensures
            step.deep_view() == step_with_agent(
                self.agents.deep_view(),
                self.fallback_credential.deep_view(),
                pending.request.deep_view(),
                text::result_view(selection),
            ),
    {
        let agent_name = match selection {
            Ok(agent_name) => agent_name,
            Err(error) => {
                return SubAgentStep::Finished(ToolResult::failure(error));
            },
        };
        let config = match self.find_config(agent_name.as_str()) {
            Some(config) => config,
            None => {
                let reason = String::from_str("Resolved agent '").concat(
                    agent_name.as_str(),
                ).concat("' is unavailable");
                return SubAgentStep::Finished(ToolResult::failure(reason));
            },
        };
        let credential = match &config.api_key {
            Some(key) => Some(key.clone()),
            None => text::copy_option(&self.fallback_credential),
        };
        let request = pending.request;
        let prompt = if request.context.as_str().is_empty() {
            request.task
        } else {
            String::from_str("[Context]\n").concat(request.context.as_str()).concat(
                "\n\n[Task]\n",
            ).concat(request.task.as_str())
        };
        SubAgentStep::CreateProvider(
            AgentRun { agent_name, config, credential, prompt, timeout_secs: request.timeout_secs },
        )
    }

    /// Goes on once the agent's provider was set up, or could not be.
    pub fn provider_created(&self, run: AgentRun, provider: Result<(), String>) -> (step:
        SubAgentStep)
        ensures
            step.deep_view() == step_with_provider(
                run.deep_view(),
                self.parent_tools.deep_view(),
                text::outcome_view(provider),
            ),
    {
        if let Err(error) = provider {
            let reason = String::from_str("Failed to create provider '").concat(
                run.config.provider.as_str(),
            ).concat("' for agent '").concat(run.agent_name.as_str()).concat("': ").concat(
                error.as_str(),
            );
            return SubAgentStep::RecordFailure(run.agent_name, ToolResult::failure(reason));
        }
        if run.config.agentic {
            self.start_agentic(run)
        } else {
            SubAgentStep::Chat(run)
        }
    }

    fn select_tools(&self, config: &DelegateAgentConfig) -> (tools: Vec<usize>)
        ensures
            tools@ == usable_tools(config.deep_view(), self.parent_tools.deep_view()),
    {
        let ghost names = self.parent_tools.deep_view();
        let mut tools: Vec<usize> = Vec::new();
        let mut i: usize = 0;
        while i < self.parent_tools.len()
            invariant
                i <= self.parent_tools.len(),
                names == self.parent_tools.deep_view(),
                tools@ == usable_tools(config.deep_view(), names.take(i as int)),
            decreases self.parent_tools.len() - i,
        {
            assert(names.take(i + 1).drop_last() =~= names.take(i as int));
            assert(names.take(i + 1).last() == self.parent_tools@[i as int]@);
            if can_use(config, self.parent_tools[i].as_str()) {
                tools.push(i);
            }
            i += 1;
        }
        assert(names.take(i as int) =~= names);
        tools
    }

    fn start_agentic(&self, run: AgentRun) -> (step: SubAgentStep)
        ensures
            step.deep_view() == agentic_step(run.deep_view(), self.parent_tools.deep_view()),
    {
        if run.config.allowed_tools.len() == 0 {
            let reason = String::from_str("Agent '").concat(run.agent_name.as_str()).concat(
                "' has agentic=true but allowed_tools is empty",
            );
            return SubAgentStep::FailRun(run.agent_name, ToolResult::failure(reason));
        }
        let tools = self.select_tools(&run.config);
        if tools.len() == 0 {
            let allowed = text::join(&run.config.allowed_tools, ", ");
            let reason = String::from_str("Agent '").concat(run.agent_name.as_str()).concat(
                "' has no executable tools after filtering allowlist (",
            ).concat(allowed.as_str()).concat(")");
            return SubAgentStep::FailRun(run.agent_name, ToolResult::failure(reason));
        }
        let mut history: Vec<ChatMessage> = Vec::new();
        if let Some(prompt) = &run.config.system_prompt {
            history.push(ChatMessage::system(prompt.clone()));
        }
        history.push(ChatMessage::user(run.prompt.clone()));
        assert(history.deep_view() =~= first_history(run.deep_view()));
        SubAgentStep::CallTools(
            run,
            ToolLoop { history, tools, silent: true, channel: "subagent_execute" },
        )
    }

    /// Answers a request once the agent has run.
    pub fn run_finished(&self, run: &AgentRun, outcome: AgentOutcome) -> (finished: FinishedRun)
        ensures
            finished.result.deep_view() == result_of(
                run.deep_view(),
                run.config.agentic,
                outcome.deep_view(),
            ),
            finished.counts_as_success == finished.result.success,
    {
        let result = if run.config.agentic {
            self.execute_agentic_sync(run, outcome)
        } else {
            self.execute_simple_sync(run, outcome)
        };
        FinishedRun { counts_as_success: result.success, result }
    }

    /// The result of an agent that was sent its prompt and nothing more.
    pub fn execute_simple_sync(&self, run: &AgentRun, outcome: AgentOutcome) -> (result: ToolResult)
        ensures
            result.deep_view() == result_of(run.deep_view(), false, outcome.deep_view()),
    {
        render_outcome(run, ")]\n", outcome)
    }

    /// The result of an agent that called tools.
    pub fn execute_agentic_sync(&self, run: &AgentRun, outcome: AgentOutcome) -> (result:
        ToolResult)
        ensures
            result.deep_view() == result_of(run.deep_view(), true, outcome.deep_view()),
    {
        render_outcome(run, ", agentic)]\n", outcome)
    }
}

fn can_use(config: &DelegateAgentConfig, name: &str) -> (yes: bool)
    ensures
        yes == may_use(config.deep_view(), name@),
{
    if name.is_empty() {
        return false;
    }
    let ghost allowed = config.allowed_tools.deep_view();
    let mut found = false;
    let mut i: usize = 0;
    while i < config.allowed_tools.len()
        invariant
            i <= config.allowed_tools.len(),
            allowed == config.allowed_tools.deep_view(),
            found == exists|j: int| 0 <= j < i && text::trimmed(#[trigger] allowed[j]) == name@,
        decreases config.allowed_tools.len() - i,
    {
        let trimmed = text::trim(config.allowed_tools[i].as_str());
        assert(allowed[i as int] == config.allowed_tools@[i as int]@);
        if text::same_text(trimmed.as_str(), name) {
            found = true;
        }
        i += 1;
    }
    if !found {
        false
    } else if text::same_text(name, "delegate") {
        config.allow_nested_delegate
    } else {
        !text::same_text(name, "subagent_spawn") && !text::same_text(name, "subagent_manage")
            && !text::same_text(name, "subagent_execute")
    }
}

fn render_outcome(run: &AgentRun, tail: &str, outcome: AgentOutcome) -> (result: ToolResult)
    requires
        tail@ == ", agentic)]\n"@ || tail@ == ")]\n"@,
    ensures
        result.deep_view() == result_of(
            run.deep_view(),
            tail@ == ", agentic)]\n"@,
            outcome.deep_view(),
        ),
{
    match outcome {
        AgentOutcome::Replied(response) => {
            let rendered = if text::is_blank(response.as_str()) {
                String::from_str("[Empty response]")
            } else {
                response
            };
            let output = String::from_str("[Agent '").concat(run.agent_name.as_str()).concat(
                "' (",
            ).concat(run.config.provider.as_str()).concat("/").concat(
                run.config.model.as_str(),
            ).concat(tail).concat(rendered.as_str());
            ToolResult::success(output)
        },
        AgentOutcome::Failed(error) => {
            let reason = String::from_str("Agent '").concat(run.agent_name.as_str()).concat(
                "' failed: ",
            ).concat(error.as_str());
            ToolResult::failure(reason)
        },
        AgentOutcome::TimedOut => {
            let secs = text::decimal_text(run.timeout_secs);
            let reason = String::from_str("Agent '").concat(run.agent_name.as_str()).concat(
                "' timed out after ",
            ).concat(secs.as_str()).concat("s");
            ToolResult::failure(reason)
        },
    }
}

/// A request waits for as long as it asks, but never for less than the shortest nor for
/// more than the longest time; one that does not ask waits for the default time.
pub proof fn wait_is_limited(asked: Option<u64>)
    ensures
        MIN_TIMEOUT_SECS <= timeout_of(asked) <= MAX_TIMEOUT_SECS,
        asked is Some && MIN_TIMEOUT_SECS <= asked->0 <= MAX_TIMEOUT_SECS ==> timeout_of(asked)
            == asked->0,
        asked is None ==> timeout_of(asked) == EXECUTE_TIMEOUT_SECS,
{
}

/// The answer with which a step ends a request, if it does.
pub open spec fn answer_of(step: SubAgentStepView) -> Option<traits::ToolResultView> {
    match step {
        SubAgentStepView::Finished(result) => Some(result),
        SubAgentStepView::RecordFailure(_, result) => Some(result),
        SubAgentStepView::FailRun(_, result) => Some(result),
        _ => None,
    }
}

/// Whether a step, if it ends a request, ends it in a failure.
pub open spec fn ends_in_failure(step: SubAgentStepView) -> bool {
    answer_of(step) is Some ==> traits::is_failure(answer_of(step)->0)
}

/// A request that ends before an agent has run ends in a failure, with a reason and
/// without output.
pub proof fn no_success_without_agent(
    args: SubAgentArgsView,
    pending: PendingSelectionView,
    settings: SubAgentsConfigView,
    verdict: Result<(), Seq<char>>,
    agents: Seq<DelegateAgentView>,
    fallback_credential: Option<Seq<char>>,
    selection: Result<Seq<char>, Seq<char>>,
    run: AgentRunView,
    names: Seq<Seq<char>>,
    provider: Result<(), Seq<char>>,
)
    ensures
        ends_in_failure(first_step(args)),
        ends_in_failure(step_with_settings(pending.request, settings)),
        ends_in_failure(step_with_verdict(pending, verdict)),
        ends_in_failure(step_with_agent(agents, fallback_credential, pending.request, selection)),
        ends_in_failure(step_with_provider(run, names, provider)),
{
}

/// While sub-agents are disabled, every request is refused; else the security policy is
/// asked before anything else is done.
pub proof fn disabled_tool_does_nothing(
    request: SubAgentRequestView,
    settings: SubAgentsConfigView,
)
    ensures
        !settings.enabled ==> step_with_settings(request, settings) is Finished,
        settings.enabled ==> step_with_settings(request, settings) is Authorize,
{
}

/// A request that the security policy forbids is answered with the policy's reason.
pub proof fn forbidden_request_is_refused(pending: PendingSelectionView, reason: Seq<char>)
    ensures
        step_with_verdict(pending, Err(reason)) == SubAgentStepView::Finished(
            traits::failed(reason),
        ),
{
}

/// A run succeeds if and only if the agent replied.
pub proof fn run_succeeds_with_reply(run: AgentRunView, agentic: bool, outcome: AgentOutcomeView)
    ensures
        result_of(run, agentic, outcome).success <==> outcome is Replied,
        !(outcome is Replied) ==> traits::is_failure(result_of(run, agentic, outcome)),
{
}

/// The load of the agents counts over at least one second, and setting that anew changes
/// nothing.
pub proof fn load_window_is_positive(settings: SubAgentsConfigView)
    ensures
        with_load_window(settings).load_window_secs >= 1,
        with_load_window(with_load_window(settings)) == with_load_window(settings),
        settings.load_window_secs >= 1 ==> with_load_window(settings) == settings,
{
}

/// An agent is found under its name, and only agents are.
pub proof fn agents_are_found_by_name(agents: Seq<DelegateAgentView>, name: Seq<char>)
    requires
        distinct_names(agents),
    ensures
        forall|i: int|
            0 <= i < agents.len() && (#[trigger] agents[i]).name == name ==> config_of(
                agents,
                name,
            ) == Some(agents[i].config),
        (forall|i: int| 0 <= i < agents.len() ==> (#[trigger] agents[i]).name != name)
            ==> config_of(agents, name) is None,
    decreases agents.len(),
{
    if agents.len() > 0 {
        let rest = agents.skip(1);
        agents_are_found_by_name(rest, name);
        assert forall|i: int|
            0 <= i < agents.len() && (#[trigger] agents[i]).name == name implies config_of(
            agents,
            name,
        ) == Some(agents[i].config) by {
            if i > 0 {
                assert(rest[i - 1] == agents[i]);
                assert(agents[0].name != agents[i].name);
            }
        }
        if forall|i: int| 0 <= i < agents.len() ==> (#[trigger] agents[i]).name != name {
            assert(forall|i: int| 0 <= i < rest.len() ==> rest[i] == agents[i + 1]);
        }
    }
}

/// The tools of an agent are those of the caller that it may use, each once and in their
/// order.
pub proof fn usable_tools_are_exact(config: DelegateAgentConfigView, names: Seq<Seq<char>>)
    requires
        names.len() <= usize::MAX,
    ensures
        forall|i: int|
            0 <= i < usable_tools(config, names).len() ==> {
                &&& (#[trigger] usable_tools(config, names)[i]) < names.len()
                &&& may_use(config, names[usable_tools(config, names)[i] as int])
            },
        forall|k: int|
            0 <= k < names.len() && may_use(config, #[trigger] names[k]) ==> usable_tools(
                config,
                names,
            ).contains(k as usize),
        forall|i: int, j: int|
            0 <= i < j < usable_tools(config, names).len() ==> (#[trigger] usable_tools(
                config,
                names,
            )[i]) < (#[trigger] usable_tools(config, names)[j]),
    decreases names.len(),
{
    if names.len() > 0 {
        let front = names.drop_last();
        let before = usable_tools(config, front);
        let after = usable_tools(config, names);
        usable_tools_are_exact(config, front);
        assert forall|i: int| 0 <= i < after.len() implies (#[trigger] after[i]) < names.len()
            && may_use(config, names[after[i] as int]) by {
            if i < before.len() {
                assert(after[i] == before[i]);
                assert(front[before[i] as int] == names[before[i] as int]);
            }
        }
        assert forall|k: int| 0 <= k < names.len() && may_use(config, #[trigger] names[k]) implies
            after.contains(k as usize) by {
            if k < front.len() {
                assert(front[k] == names[k]);
                assert(after[before.index_of(k as usize)] == k as usize);
            } else {
                assert(after[after.len() - 1] == k as usize);
            }
        }
        assert forall|i: int, j: int| 0 <= i < j < after.len() implies (#[trigger] after[i]) < (
        #[trigger] after[j]) by {
            assert(after[i] == before[i]);
            if j < before.len() {
                assert(after[j] == before[j]);
            }
        }
    }
}

/// An agent can start no further sub-agents, and it can delegate only where its
/// configuration permits that.
pub proof fn agents_start_no_agents(config: DelegateAgentConfigView, name: Seq<char>)
    requires
        may_use(config, name),
    ensures
        name != "subagent_spawn"@,
        name != "subagent_manage"@,
        name != "subagent_execute"@,
        name == "delegate"@ ==> config.allow_nested_delegate,
{
    reveal_strlit("delegate");
    reveal_strlit("subagent_spawn");
    reveal_strlit("subagent_manage");
    reveal_strlit("subagent_execute");
    assert("delegate"@.len() == 8);
}

/// A prompt ends with the task, and is the task alone where there is no context.
pub proof fn prompt_ends_with_task(request: SubAgentRequestView)
    ensures
        request.task.is_suffix_of(prompt_of(request)),
        request.context.len() == 0 ==> prompt_of(request) == request.task,
        request.context.len() > 0 ==> text::contains_part(prompt_of(request), request.context),
{
    let prompt = prompt_of(request);
    assert(prompt.subrange(prompt.len() - request.task.len(), prompt.len() as int)
        =~= request.task);
    if request.context.len() > 0 {
        let at = "[Context]\n"@.len() as int;
        assert(prompt.subrange(at, at + request.context.len()) =~= request.context);
        assert(text::stands_at(prompt, request.context, at));
    }
}

/// An agent's own key comes before the one that the tool falls back on.
pub proof fn own_key_comes_first(
    agents: Seq<DelegateAgentView>,
    fallback_credential: Option<Seq<char>>,
    request: SubAgentRequestView,
    name: Seq<char>,
)
    requires
        config_of(agents, name) is Some,
    ensures
        step_with_agent(agents, fallback_credential, request, Ok(name)) matches
            SubAgentStepView::CreateProvider(run) && run.agent_name == name && run.credential == (
        if config_of(agents, name)->0.api_key is Some {
            config_of(agents, name)->0.api_key
        } else {
            fallback_credential
        }),
{
}

/// A request is taken if and only if it has a task that is more than white space; without a
/// task it is rejected, and with a blank one it fails.
pub proof fn request_needs_a_task(args: SubAgentArgsView)
    ensures
        args.task is None <==> first_step(args) is Rejected,
        args.task is Some && text::all_white(args.task->0) <==> first_step(args) is Finished,
        args.task is Some && !text::all_white(args.task->0) <==> first_step(args) is LoadSettings,
{
    if args.task is Some {
        text::blank_is_all_white(args.task->0);
    }
}

/// A request holds what its arguments say: the task, the context and the agent without the
/// white space around them, and the time that it asks to wait.
pub proof fn request_is_read_from_its_arguments(
    args: SubAgentArgsView,
    left: Seq<char>,
    core: Seq<char>,
    right: Seq<char>,
)
    requires
        text::all_white(left),
        text::has_black_ends(core),
        text::all_white(right),
    ensures
        args.task == Some(left + core + right) ==> request_of(args).task == core,
        args.context == Some(left + core + right) ==> request_of(args).context == core,
        args.agent == Some(left + core + right) ==> request_of(args).agent == Some(core),
        args.context is None ==> request_of(args).context.len() == 0,
        args.agent is None ==> request_of(args).agent is None,
        args.timeout_secs is Some && 10 <= args.timeout_secs->0 <= 600 ==> request_of(
            args,
        ).timeout_secs == args.timeout_secs->0,
        args.timeout_secs is Some && args.timeout_secs->0 < 10 ==> request_of(args).timeout_secs
            == 10,
        args.timeout_secs is Some && args.timeout_secs->0 > 600 ==> request_of(args).timeout_secs
            == 600,
        args.timeout_secs is None ==> request_of(args).timeout_secs == 300,
        first_step(args) matches SubAgentStepView::LoadSettings(request) ==> request == request_of(
            args,
        ),
{
    text::white_space_is_trimmed(left, core, right);
}

/// Settings that were read anew from a file are in force, and else the tool's own; only a load
/// window below one second is changed.
pub proof fn reloaded_settings_are_in_force(
    own: SubAgentsConfigView,
    has_file: bool,
    reloaded: Option<SubAgentsConfigView>,
)
    ensures
        ({
            let source = if has_file && reloaded is Some {
                reloaded->0
            } else {
                own
            };
            let settings = settings_in_force(own, has_file, reloaded);
            &&& settings.enabled == source.enabled
            &&& settings.auto_activate == source.auto_activate
            &&& settings.strategy == source.strategy
            &&& settings.inflight_penalty == source.inflight_penalty
            &&& settings.recent_selection_penalty == source.recent_selection_penalty
            &&& settings.recent_failure_penalty == source.recent_failure_penalty
            &&& source.load_window_secs > 0 ==> settings.load_window_secs == source.load_window_secs
            &&& source.load_window_secs == 0 ==> settings.load_window_secs == 1
        }),
{
}

/// An agent is chosen for the request as it came, by the settings in force, and only once the
/// security policy has allowed it.
pub proof fn selection_follows_request_and_settings(
    request: SubAgentRequestView,
    settings: SubAgentsConfigView,
)
    requires
        settings.enabled,
    ensures
        step_with_settings(request, settings) matches SubAgentStepView::Authorize(pending) && {
            &&& pending.request == request
            &&& pending.auto_activate == settings.auto_activate
            &&& pending.load_window_secs == settings.load_window_secs
            &&& pending.policy.strategy == settings.strategy
            &&& pending.policy.inflight_penalty == settings.inflight_penalty
            &&& pending.policy.recent_selection_penalty == settings.recent_selection_penalty
            &&& pending.policy.recent_failure_penalty == settings.recent_failure_penalty
            &&& step_with_verdict(pending, Ok(())) == SubAgentStepView::SelectAgent(pending)
        },
{
}

/// The chosen agent runs the request: under its own name and configuration, with the prompt
/// that the request makes and for as long as the request asks.
pub proof fn chosen_agent_runs_the_request(
    agents: Seq<DelegateAgentView>,
    fallback_credential: Option<Seq<char>>,
    request: SubAgentRequestView,
    i: int,
)
    requires
        distinct_names(agents),
        0 <= i < agents.len(),
    ensures
        step_with_agent(agents, fallback_credential, request, Ok(agents[i].name)) matches
            SubAgentStepView::CreateProvider(run) && {
            &&& run.agent_name == agents[i].name
            &&& run.config == agents[i].config
            &&& run.timeout_secs == request.timeout_secs
            &&& run.prompt == prompt_of(request)
            &&& request.task.is_suffix_of(run.prompt)
            &&& text::contains_part(run.prompt, request.context)
            &&& agents[i].config.api_key is Some ==> run.credential == agents[i].config.api_key
            &&& agents[i].config.api_key is None ==> run.credential == fallback_credential
        },
{
    agents_are_found_by_name(agents, agents[i].name);
    assert(agents[i].name == agents[i].name);
    prompt_ends_with_task(request);
    if request.context.len() == 0 {
        let none = Seq::<char>::empty();
        assert(request.context =~= none);
        text::part_occurs(none, none, prompt_of(request));
        assert(none + none + prompt_of(request) =~= prompt_of(request));
    }
}

/// The time limit that a request asks for is the one that its agent runs under, and the one
/// that is named when it passes.
pub proof fn asked_time_is_waited(
    args: SubAgentArgsView,
    agents: Seq<DelegateAgentView>,
    fallback_credential: Option<Seq<char>>,
    name: Seq<char>,
    agentic: bool,
)
    requires
        config_of(agents, name) is Some,
        args.task is Some,
        !text::all_white(args.task->0),
    ensures
        first_step(args) matches SubAgentStepView::LoadSettings(request) && (step_with_agent(
            agents,
            fallback_credential,
            request,
            Ok(name),
        ) matches SubAgentStepView::CreateProvider(run) && {
            &&& args.timeout_secs is None ==> run.timeout_secs == 300
            &&& args.timeout_secs is Some && 10 <= args.timeout_secs->0 <= 600 ==> run.timeout_secs
                == args.timeout_secs->0
            &&& 10 <= run.timeout_secs <= 600
            &&& result_of(run, agentic, AgentOutcomeView::TimedOut).error is Some
            &&& (" timed out after "@ + text::decimal(run.timeout_secs as nat) + "s"@).is_suffix_of(
                result_of(run, agentic, AgentOutcomeView::TimedOut).error->0,
            )
        }),
{
    request_needs_a_task(args);
    let request = request_of(args);
    let step = step_with_agent(agents, fallback_credential, request, Ok(name));
    let run = step->CreateProvider_0;
    late_agent_is_reported(run, agentic);
}

/// Where no agent could be chosen the reason is the answer; where the chosen one is not
/// configured, its name is in the answer.
pub proof fn missing_agent_is_reported(
    agents: Seq<DelegateAgentView>,
    fallback_credential: Option<Seq<char>>,
    request: SubAgentRequestView,
    name: Seq<char>,
    reason: Seq<char>,
)
    ensures
        step_with_agent(agents, fallback_credential, request, Err(reason))
            == SubAgentStepView::Finished(traits::failed(reason)),
        (forall|i: int| 0 <= i < agents.len() ==> (#[trigger] agents[i]).name != name) && distinct_names(
            agents,
        ) ==> (step_with_agent(agents, fallback_credential, request, Ok(name)) matches
            SubAgentStepView::Finished(result) && traits::is_failure(result)
            && text::contains_part(result.error->0, name) && result.error->0 == "Resolved agent '"@
            + name + "' is unavailable"@),
{
    if distinct_names(agents) {
        agents_are_found_by_name(agents, name);
    }
    text::part_occurs("Resolved agent '"@, name, "' is unavailable"@);
}

/// An agent may use a tool if and only if one of its allowed names, without the white space
/// around it, is the tool's, and the tool starts no sub-agent; delegating counts as that unless
/// it is permitted.
pub proof fn allowed_tools_may_be_used(config: DelegateAgentConfigView, name: Seq<char>)
    requires
        name.len() > 0,
    ensures
        may_use(config, name) <==> {
            &&& exists|i: int|
                0 <= i < config.allowed_tools.len() && text::trimmed(
                    #[trigger] config.allowed_tools[i],
                ) == name
            &&& name != "subagent_spawn"@
            &&& name != "subagent_manage"@
            &&& name != "subagent_execute"@
            &&& name == "delegate"@ ==> config.allow_nested_delegate
        },
{
    reveal_strlit("delegate");
    reveal_strlit("subagent_spawn");
    reveal_strlit("subagent_manage");
    reveal_strlit("subagent_execute");
    assert("delegate"@.len() == 8);
    assert("subagent_spawn"@.len() == 14);
    assert("subagent_manage"@.len() == 15);
    assert("subagent_execute"@.len() == 16);
}

/// A conversation begins with the system prompt, if there is one, and with the prompt as the
/// user's message, and holds nothing else.
pub proof fn conversation_begins_with_the_prompt(run: AgentRunView)
    ensures
        first_history(run).last().role == "user"@,
        first_history(run).last().content == run.prompt,
        run.config.system_prompt is None ==> first_history(run).len() == 1,
        run.config.system_prompt is Some ==> {
            &&& first_history(run).len() == 2
            &&& first_history(run)[0].role == "system"@
            &&& first_history(run)[0].content == run.config.system_prompt->0
        },
{
}

/// Once its provider is set up, the run goes on unchanged: as a single exchange, or for an agent
/// that calls tools with all that it may use, unless that is none.
pub proof fn run_goes_on_unchanged(run: AgentRunView, names: Seq<Seq<char>>)
    requires
        names.len() <= usize::MAX,
    ensures
        !run.config.agentic ==> step_with_provider(run, names, Ok(())) == SubAgentStepView::Chat(run),
        run.config.agentic ==> match step_with_provider(run, names, Ok(())) {
            SubAgentStepView::CallTools(same, start) => {
                &&& same == run
                &&& start.silent
                &&& start.channel == "subagent_execute"@
                &&& start.history == first_history(run)
                &&& start.history.last().content == run.prompt
                &&& start.tools == usable_tools(run.config, names)
                &&& start.tools.len() > 0
                &&& forall|k: int|
                    0 <= k < names.len() ==> (may_use(run.config, #[trigger] names[k])
                        <==> start.tools.contains(k as usize))
            },
            SubAgentStepView::FailRun(agent, result) => {
                &&& agent == run.agent_name
                &&& traits::is_failure(result)
                &&& forall|k: int| 0 <= k < names.len() ==> !may_use(run.config, #[trigger] names[k])
            },
            _ => false,
        },
{
    usable_tools_are_exact(run.config, names);
    let tools = usable_tools(run.config, names);
    assert forall|k: int| 0 <= k < names.len() && tools.contains(k as usize) implies may_use(
        run.config,
        #[trigger] names[k],
    ) by {
        let i = tools.index_of(k as usize);
        assert(tools[i] == k as usize);
    }
    conversation_begins_with_the_prompt(run);
}

/// Where the provider cannot be set up, the failure is counted for the agent, and the answer
/// names the provider, the agent and the reason.
pub proof fn failing_provider_is_reported(run: AgentRunView, names: Seq<Seq<char>>, reason: Seq<char>)
    ensures
        step_with_provider(run, names, Err(reason)) matches SubAgentStepView::RecordFailure(
            agent,
            result,
        ) && {
            &&& agent == run.agent_name
            &&& traits::is_failure(result)
            &&& reason.is_suffix_of(result.error->0)
            &&& text::contains_part(
                result.error->0,
                "'"@ + run.config.provider + "' for agent '"@ + run.agent_name + "'"@,
            )
            &&& result.error->0 == "Failed to create provider '"@ + run.config.provider
                + "' for agent '"@ + run.agent_name + "': "@ + reason
        },
{
    reveal_strlit("Failed to create provider '");
    reveal_strlit("Failed to create provider ");
    reveal_strlit("'");
    reveal_strlit("': ");
    reveal_strlit(": ");
    let message = "Failed to create provider '"@ + run.config.provider + "' for agent '"@
        + run.agent_name + "': "@ + reason;
    let middle = "'"@ + run.config.provider + "' for agent '"@ + run.agent_name + "'"@;
    assert("Failed to create provider '"@ =~= "Failed to create provider "@ + "'"@);
    assert("': "@ =~= "'"@ + ": "@);
    assert(message =~= "Failed to create provider "@ + middle + (": "@ + reason));
    text::part_occurs("Failed to create provider "@, middle, ": "@ + reason);
    assert(message.subrange(message.len() - reason.len(), message.len() as int) =~= reason);
}

/// A reply is handed on whole, behind a line that names the agent, its provider and its model;
/// a reply of nothing but white space is marked as empty.
pub proof fn reply_is_handed_on_whole(run: AgentRunView, agentic: bool, response: Seq<char>)
    ensures
        ({
            let result = result_of(run, agentic, AgentOutcomeView::Replied(response));
            &&& result.success && result.error is None
            &&& !text::all_white(response) ==> response.is_suffix_of(result.output)
            &&& text::all_white(response) ==> "[Empty response]"@.is_suffix_of(result.output)
            &&& ("[Agent '"@ + run.agent_name + "' ("@ + run.config.provider + "/"@
                + run.config.model).is_prefix_of(result.output)
            &&& result.output.len() == ("[Agent '"@ + run.agent_name + "' ("@ + run.config.provider
                + "/"@ + run.config.model).len() + (if agentic {
                ", agentic)]\n"@.len()
            } else {
                ")]\n"@.len()
            }) + (if text::all_white(response) {
                "[Empty response]"@.len()
            } else {
                response.len()
            })
            &&& agentic ==> text::contains_part(result.output, run.config.model + ", agentic)]\n"@)
            &&& !agentic ==> text::contains_part(result.output, run.config.model + ")]\n"@)
        }),
{
    text::blank_is_all_white(response);
    let output = result_of(run, agentic, AgentOutcomeView::Replied(response)).output;
    let start = "[Agent '"@ + run.agent_name + "' ("@ + run.config.provider + "/"@
        + run.config.model;
    let end = if text::all_white(response) {
        "[Empty response]"@
    } else {
        response
    };
    assert(output.take(start.len() as int) =~= start);
    assert(output.subrange(output.len() - end.len(), output.len() as int) =~= end);
    let head = "[Agent '"@ + run.agent_name + "' ("@ + run.config.provider + "/"@;
    let middle = run.config.model + (if agentic {
        ", agentic)]\n"@
    } else {
        ")]\n"@
    });
    assert(output =~= head + middle + end);
    text::part_occurs(head, middle, end);
}

/// A run that fails is answered with the agent's name and the whole reason.
pub proof fn failed_run_is_reported(run: AgentRunView, agentic: bool, reason: Seq<char>)
    ensures
        ({
            let result = result_of(run, agentic, AgentOutcomeView::Failed(reason));
            &&& traits::is_failure(result)
            &&& reason.is_suffix_of(result.error->0)
            &&& ("Agent '"@ + run.agent_name + "' failed: "@).is_prefix_of(result.error->0)
            &&& result.error->0.len() == ("Agent '"@ + run.agent_name + "' failed: "@).len()
                + reason.len()
        }),
{
    let error = result_of(run, agentic, AgentOutcomeView::Failed(reason)).error->0;
    let start = "Agent '"@ + run.agent_name + "' failed: "@;
    assert(error.take(start.len() as int) =~= start);
    assert(error.subrange(error.len() - reason.len(), error.len() as int) =~= reason);
}

/// A run that takes too long is answered with the agent's name and the time that it had.
pub proof fn late_agent_is_reported(run: AgentRunView, agentic: bool)
    ensures
        ({
            let result = result_of(run, agentic, AgentOutcomeView::TimedOut);
            &&& traits::is_failure(result)
            &&& ("Agent '"@ + run.agent_name + "'"@).is_prefix_of(result.error->0)
            &&& (" timed out after "@ + text::decimal(run.timeout_secs as nat) + "s"@).is_suffix_of(
                result.error->0,
            )
            &&& result.error->0.len() == ("Agent '"@ + run.agent_name + "'"@).len()
                + (" timed out after "@ + text::decimal(run.timeout_secs as nat) + "s"@).len()
        }),
{
    reveal_strlit("' timed out after ");
    reveal_strlit(" timed out after ");
    reveal_strlit("'");
    assert("' timed out after "@ =~= "'"@ + " timed out after "@);
    let error = result_of(run, agentic, AgentOutcomeView::TimedOut).error->0;
    let start = "Agent '"@ + run.agent_name + "'"@;
    let end = " timed out after "@ + text::decimal(run.timeout_secs as nat) + "s"@;
    assert(error =~= start + end);
    assert(error.take(start.len() as int) =~= start);
    assert(error.subrange(error.len() - end.len(), error.len() as int) =~= end);
}

/// A prompt with a context has the context first and the task behind it, each under its mark.
pub proof fn context_comes_before_the_task(request: SubAgentRequestView)
    requires
        request.context.len() > 0,
    ensures
        ("[Context]\n"@ + request.context).is_prefix_of(prompt_of(request)),
        ("\n\n[Task]\n"@ + request.task).is_suffix_of(prompt_of(request)),
        prompt_of(request).len() == ("[Context]\n"@ + request.context).len() + ("\n\n[Task]\n"@
            + request.task).len(),
{
    let prompt = prompt_of(request);
    let start = "[Context]\n"@ + request.context;
    let end = "\n\n[Task]\n"@ + request.task;
    assert(prompt =~= start + end);
    assert(prompt.take(start.len() as int) =~= start);
    assert(prompt.subrange(prompt.len() - end.len(), prompt.len() as int) =~= end);
}

/// The names of all agents are offered.
pub proof fn every_agent_is_offered(agents: Seq<DelegateAgentView>, i: int)
    requires
        0 <= i < agents.len(),
    ensures
        text::contains_part(listed_names(agents), agents[i].name),
{
    let names = agents.map_values(|a: DelegateAgentView| a.name);
    text::joined_parts_stand_whole(names, ", "@, i);
    let (before, after) = choose|before: Seq<char>, after: Seq<char>|
        {
            &&& text::joined(names, ", "@) == #[trigger] (before + names[i] + after)
            &&& if i == 0 {
                before.len() == 0
            } else {
                ", "@.is_suffix_of(before)
            }
            &&& if i == names.len() - 1 {
                after.len() == 0
            } else {
                ", "@.is_prefix_of(after)
            }
        };
    text::part_occurs(before, names[i], after);
}

/// Without agents the caller is told so.
pub proof fn no_agents_are_offered(agents: Seq<DelegateAgentView>)
    requires
        agents.len() == 0,
    ensures
        listed_names(agents) == "(none configured)"@,
{
}

/// The schema names the parameters with what each is for, the agents that there are, the limits
/// of the time to wait, and the one parameter that must be given; no other is accepted.
pub proof fn schema_tells_of_the_parameters(agents: Seq<DelegateAgentView>)
    ensures
        json::has_member(schema_of(agents), "type"@, json::quoted("object"@)),
        json::has_member(schema_of(agents), "additionalProperties"@, "false"@),
        json::has_member(
            schema_of(agents),
            "required"@,
            json::list_text(seq![json::quoted("task"@)]),
        ),
        exists|properties: Seq<char>|
            {
                &&& #[trigger] json::has_member(schema_of(agents), "properties"@, properties)
                &&& json::has_member(
                    properties,
                    "agent"@,
                    schema::filled_text_schema(
                        "Name of the agent to execute. Available: "@ + listed_names(agents),
                    ),
                )
                &&& json::has_member(
                    properties,
                    "context"@,
                    schema::text_schema(
                        "Optional context to prepend (e.g. relevant code, prior findings)"@,
                    ),
                )
                &&& json::has_member(
                    properties,
                    "task"@,
                    schema::filled_text_schema("The task/prompt to send to the sub-agent"@),
                )
                &&& exists|wait: Seq<char>|
                    {
                        &&& #[trigger] json::has_member(properties, "timeout_secs"@, wait)
                        &&& json::has_member(wait, "type"@, json::quoted("integer"@))
                        &&& json::has_member(wait, "minimum"@, text::decimal(10))
                        &&& json::has_member(wait, "maximum"@, text::decimal(600))
                        &&& json::has_member(
                            wait,
                            "description"@,
                            json::quoted("Maximum seconds to wait for the sub-agent (default: 300)"@),
                        )
                    }
            },
{
    let wait = seq![
        json::text_field("description"@, "Maximum seconds to wait for the sub-agent (default: 300)"@),
        json::number_field("maximum"@, MAX_TIMEOUT_SECS as nat),
        json::number_field("minimum"@, MIN_TIMEOUT_SECS as nat),
        json::text_field("type"@, "integer"@),
    ];
    json::object_has_its_members(wait, 0);
    json::object_has_its_members(wait, 1);
    json::object_has_its_members(wait, 2);
    json::object_has_its_members(wait, 3);
    let properties = seq![
        json::MemberView {
            name: "agent"@,
            value: schema::filled_text_schema(
                "Name of the agent to execute. Available: "@ + listed_names(agents),
            ),
        },
        json::MemberView {
            name: "context"@,
            value: schema::text_schema(
                "Optional context to prepend (e.g. relevant code, prior findings)"@,
            ),
        },
        json::MemberView {
            name: "task"@,
            value: schema::filled_text_schema("The task/prompt to send to the sub-agent"@),
        },
        json::MemberView { name: "timeout_secs"@, value: timeout_schema() },
    ];
    json::object_has_its_members(properties, 0);
    json::object_has_its_members(properties, 1);
    json::object_has_its_members(properties, 2);
    json::object_has_its_members(properties, 3);
    let members = seq![
        json::MemberView { name: "additionalProperties"@, value: json::bool_text(false) },
        json::MemberView { name: "properties"@, value: json::object_text(properties) },
        json::MemberView {
            name: "required"@,
            value: json::list_text(seq![json::quoted("task"@)]),
        },
        json::text_field("type"@, "object"@),
    ];
    json::object_has_its_members(members, 0);
    json::object_has_its_members(members, 1);
    json::object_has_its_members(members, 2);
    json::object_has_its_members(members, 3);
    assert(json::has_member(json::object_text(properties), "timeout_secs"@, timeout_schema()));
}

/// The agents are offered in their order, each name but the first behind a comma and a space.
pub proof fn agents_are_offered_in_order(agents: Seq<DelegateAgentView>, agent: DelegateAgentView)
    ensures
        listed_names(agents.push(agent)) == if agents.len() == 0 {
            agent.name
        } else {
            listed_names(agents) + ", "@ + agent.name
        },
{
    let f = |a: DelegateAgentView| a.name;
    let names = agents.map_values(f);
    assert(agents.push(agent).map_values(f) =~= names.push(agent.name));
    text::joining_adds_the_separator(names, agent.name, ", "@);
    if agents.len() == 0 {
        assert(names.push(agent.name) =~= seq![agent.name]);
    }
}

/// A request that is not taken is told why.
pub proof fn refused_request_is_told_why(
    args: SubAgentArgsView,
    request: SubAgentRequestView,
    settings: SubAgentsConfigView,
    reason: Seq<char>,
)
    ensures
        args.task is None ==> first_step(args) == SubAgentStepView::Rejected(
            "Missing 'task' parameter"@,
        ),
        args.task is Some && text::all_white(args.task->0) ==> (first_step(args) matches
            SubAgentStepView::Finished(result) && traits::is_failure(result) && result.error
            == Some("'task' parameter must not be empty"@)),
        !settings.enabled ==> (step_with_settings(request, settings) matches
            SubAgentStepView::Finished(result) && traits::is_failure(result) && result.error
            == Some(
            "Subagents are currently disabled. Re-enable with model_routing_config action set_orchestration."@,
        )),
        step_with_verdict(pending_selection(request, settings), Err(reason)) matches
            SubAgentStepView::Finished(result) && traits::is_failure(result) && result.error
            == Some(reason),
{
    request_needs_a_task(args);
}

/// A tool without a name can be used by nobody, and without allowed names nothing can be used.
pub proof fn nothing_is_used_by_default(config: DelegateAgentConfigView, name: Seq<char>)
    ensures
        name.len() == 0 || config.allowed_tools.len() == 0 ==> !may_use(config, name),
{
}

/// An agent that calls tools but has none is answered with its name and the reason: nothing is
/// allowed to it, or nothing of what is.
pub proof fn agent_without_tools_is_told_why(run: AgentRunView, names: Seq<Seq<char>>, i: int)
    requires
        run.config.agentic,
        names.len() <= usize::MAX,
        forall|k: int| 0 <= k < names.len() ==> !may_use(run.config, #[trigger] names[k]),
    ensures
        step_with_provider(run, names, Ok(())) matches SubAgentStepView::FailRun(agent, result) && {
            &&& agent == run.agent_name
            &&& traits::is_failure(result)
            &&& run.config.allowed_tools.len() == 0 ==> result.error == Some(
                "Agent '"@ + run.agent_name + "' has agentic=true but allowed_tools is empty"@,
            )
            &&& run.config.allowed_tools.len() > 0 ==> ("Agent '"@ + run.agent_name
                + "' has no executable tools after filtering allowlist ("@).is_prefix_of(
                result.error->0,
            ) && result.error->0 == "Agent '"@ + run.agent_name
                + "' has no executable tools after filtering allowlist ("@ + text::joined(
                run.config.allowed_tools,
                ", "@,
            ) + ")"@
            &&& 0 <= i < run.config.allowed_tools.len() ==> text::contains_part(
                result.error->0,
                run.config.allowed_tools[i],
            )
        },
{
    usable_tools_are_exact(run.config, names);
    let tools = usable_tools(run.config, names);
    if tools.len() > 0 {
        assert(may_use(run.config, names[tools[0] as int]));
    }
    let allowed = run.config.allowed_tools;
    let start = "Agent '"@ + run.agent_name
        + "' has no executable tools after filtering allowlist ("@;
    let inner = text::joined(allowed, ", "@);
    let error = start + inner + ")"@;
    assert(error.take(start.len() as int) =~= start);
    if 0 <= i < allowed.len() {
        text::joined_parts_stand_whole(allowed, ", "@, i);
        let (before, after) = choose|before: Seq<char>, after: Seq<char>|
            {
                &&& inner == #[trigger] (before + allowed[i] + after)
                &&& if i == 0 {
                    before.len() == 0
                } else {
                    ", "@.is_suffix_of(before)
                }
                &&& if i == allowed.len() - 1 {
                    after.len() == 0
                } else {
                    ", "@.is_prefix_of(after)
                }
            };
        text::part_occurs(before, allowed[i], after);
        text::part_occurs(start, inner, ")"@);
        text::occurring_is_transitive(error, inner, allowed[i]);
    }
}

/// Agents, runs and what comes of them are seen with their whole texts.
pub proof fn runs_are_seen_whole(run: AgentRun, agent: DelegateAgent, outcome: AgentOutcome)
    ensures
        run.deep_view().agent_name == run.agent_name@,
        run.deep_view().config == run.config.deep_view(),
        run.deep_view().prompt == run.prompt@,
        run.deep_view().timeout_secs == run.timeout_secs,
        run.credential is Some ==> run.deep_view().credential == Some(run.credential->0@),
        run.credential is None ==> run.deep_view().credential is None,
        agent.deep_view().name == agent.name@,
        agent.deep_view().config.provider == agent.config.provider@,
        agent.deep_view().config.model == agent.config.model@,
        agent.deep_view().config.agentic == agent.config.agentic,
        agent.deep_view().config.max_iterations == agent.config.max_iterations,
        agent.deep_view().config.allow_nested_delegate == agent.config.allow_nested_delegate,
        agent.deep_view().config.allowed_tools.len() == agent.config.allowed_tools.len(),
        forall|i: int|
            0 <= i < agent.config.allowed_tools.len()
                ==> #[trigger] agent.deep_view().config.allowed_tools[i]
                == agent.config.allowed_tools@[i]@,
        outcome matches AgentOutcome::Replied(response) ==> outcome.deep_view()
            == AgentOutcomeView::Replied(response@),
        outcome matches AgentOutcome::Failed(reason) ==> outcome.deep_view()
            == AgentOutcomeView::Failed(reason@),
        outcome is TimedOut ==> outcome.deep_view() is TimedOut,
{
}

} // verus!
