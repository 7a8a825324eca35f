use coraldesk::providers::ChatMessage;
use coraldesk::tools::subagent_execute::{
    AgentOutcome, AgentRun, DelegateAgent, DelegateAgentConfig, PendingSelection, SubAgentArgs,
    SubAgentExecuteTool, SubAgentRequest, SubAgentStep, SubAgentsConfig,
};
use coraldesk::tools::traits::ToolResult;
use serde_json::Value;

fn agent_config() -> DelegateAgentConfig {
    DelegateAgentConfig {
        provider: "ollama".to_string(),
        model: "llama3".to_string(),
        system_prompt: Some("You are a research assistant.".to_string()),
        api_key: None,
        agentic: false,
        allowed_tools: Vec::new(),
        max_iterations: 10,
        allow_nested_delegate: false,
    }
}

fn sample_agents() -> Vec<DelegateAgent> {
    vec![DelegateAgent {
        name: "researcher".to_string(),
        config: agent_config(),
    }]
}

fn default_settings() -> SubAgentsConfig {
    SubAgentsConfig {
        enabled: false,
        auto_activate: false,
        strategy: "adaptive".to_string(),
        load_window_secs: 180,
        inflight_penalty: 8,
        recent_selection_penalty: 2,
        recent_failure_penalty: 12,
    }
}

fn json(text: &str) -> Value {
    serde_json::from_str(text).unwrap()
}

fn tool_with(
    agents: Vec<DelegateAgent>,
    parent_tools: &[&str],
    config_path: Option<&str>,
) -> SubAgentExecuteTool<u8> {
    SubAgentExecuteTool::new(
        agents,
        None,
        parent_tools.iter().map(|name| name.to_string()).collect(),
        default_settings(),
        true,
        true,
        0,
        config_path.map(str::to_string),
    )
}

fn make_subagent_tool(agents: Vec<DelegateAgent>) -> SubAgentExecuteTool<u8> {
    tool_with(agents, &[], None)
}

/// Drives a request: what the settings file, the policy, the choice of an agent, the
/// provider and the agent bring is given.
fn drive(
    tool: &SubAgentExecuteTool<u8>,
    args: &str,
    reloaded: Option<SubAgentsConfig>,
    verdict: Result<(), String>,
    selection: Result<String, String>,
    provider: Result<(), String>,
    outcome: AgentOutcome,
) -> Result<ToolResult, String> {
    let mut step = tool.execute(&json(args));
    let mut reloaded = Some(reloaded);
    let mut verdict = Some(verdict);
    let mut selection = Some(selection);
    let mut provider = Some(provider);
    let mut outcome = Some(outcome);
    loop {
        step = match step {
            SubAgentStep::Rejected(error) => return Err(error.message),
            SubAgentStep::Finished(result) => return Ok(result),
            SubAgentStep::RecordFailure(_, result) => return Ok(result),
            SubAgentStep::FailRun(_, result) => return Ok(result),
            SubAgentStep::LoadSettings(request) => {
                tool.settings_loaded(request, reloaded.take().unwrap())
            }
            SubAgentStep::Authorize(pending) => tool.authorized(pending, verdict.take().unwrap()),
            SubAgentStep::SelectAgent(pending) => {
                tool.agent_selected(pending, selection.take().unwrap())
            }
            SubAgentStep::CreateProvider(run) => {
                tool.provider_created(run, provider.take().unwrap())
            }
            SubAgentStep::Chat(run) | SubAgentStep::CallTools(run, _) => {
                let finished = tool.run_finished(&run, outcome.take().unwrap());
                assert_eq!(finished.counts_as_success, finished.result.success);
                return Ok(finished.result);
            }
        };
    }
}

fn drive_simply(
    tool: &SubAgentExecuteTool<u8>,
    args: &str,
    outcome: AgentOutcome,
) -> Result<ToolResult, String> {
    drive(
        tool,
        args,
        None,
        Ok(()),
        Ok("researcher".to_string()),
        Ok(()),
        outcome,
    )
}

fn replied() -> AgentOutcome {
    AgentOutcome::Replied("done".to_string())
}

fn request(task: &str, context: &str) -> SubAgentRequest {
    SubAgentRequest {
        agent: None,
        task: task.to_string(),
        context: context.to_string(),
        timeout_secs: 300,
    }
}

fn pending_from(tool: &SubAgentExecuteTool<u8>, request: SubAgentRequest) -> PendingSelection {
    match tool.settings_loaded(request, None) {
        SubAgentStep::Authorize(pending) => pending,
        other => panic!("unexpected step {other:?}"),
    }
}

fn run_of(tool: &SubAgentExecuteTool<u8>, name: &str) -> AgentRun {
    let pending = pending_from(tool, request("dig", ""));
    match tool.agent_selected(pending, Ok(name.to_string())) {
        SubAgentStep::CreateProvider(run) => run,
        other => panic!("unexpected step {other:?}"),
    }
}

fn failure_of(result: Result<ToolResult, String>) -> String {
    let result = result.unwrap();
    assert!(!result.success);
    assert_eq!(result.output, "");
    result.error.unwrap()
}

#[test]
fn subagent_execute_name_and_schema() {
    let tool = make_subagent_tool(sample_agents());
    assert_eq!(tool.name(), "subagent_execute");
    let schema: Value = serde_json::from_str(&tool.parameters_schema()).unwrap();
    assert!(schema["properties"]["agent"].is_object());
    assert!(schema["properties"]["task"].is_object());
    assert!(schema["properties"]["context"].is_object());
    assert!(schema["properties"]["timeout_secs"].is_object());
    let required = schema["required"].as_array().unwrap();
    assert!(required.contains(&Value::String("task".to_string())));
    assert_eq!(schema["additionalProperties"], Value::Bool(false));
    assert_eq!(schema.to_string(), tool.parameters_schema());
}

#[test]
fn schema_of_a_tool_without_agents() {
    let tool = make_subagent_tool(Vec::new());
    assert_eq!(
        tool.parameters_schema(),
        "{\"additionalProperties\":false,\"properties\":{\
         \"agent\":{\"description\":\"Name of the agent to execute. Available: (none configured)\",\"minLength\":1,\"type\":\"string\"},\
         \"context\":{\"description\":\"Optional context to prepend (e.g. relevant code, prior findings)\",\"type\":\"string\"},\
         \"task\":{\"description\":\"The task/prompt to send to the sub-agent\",\"minLength\":1,\"type\":\"string\"},\
         \"timeout_secs\":{\"description\":\"Maximum seconds to wait for the sub-agent (default: 300)\",\"maximum\":600,\"minimum\":10,\"type\":\"integer\"}},\
         \"required\":[\"task\"],\"type\":\"object\"}"
    );
}

#[test]
fn description_not_empty() {
    let tool = make_subagent_tool(sample_agents());
    assert!(!tool.description().is_empty());
}

#[test]
fn missing_task_param() {
    let tool = make_subagent_tool(sample_agents());
    let result = drive_simply(&tool, r#"{"agent": "researcher"}"#, replied());
    assert_eq!(result.unwrap_err(), "Missing 'task' parameter");
    assert!(drive_simply(&tool, r#"{"task": 5}"#, replied()).is_err());
    assert!(drive_simply(&tool, "[\"task\"]", replied()).is_err());
}

#[test]
fn blank_task_rejected() {
    let tool = make_subagent_tool(sample_agents());
    let error = failure_of(drive_simply(
        &tool,
        r#"{"agent": "researcher", "task": "  "}"#,
        replied(),
    ));
    assert!(error.contains("must not be empty"));
}

#[test]
fn unknown_agent_returns_error() {
    let tool = make_subagent_tool(sample_agents());
    let error = failure_of(drive(
        &tool,
        r#"{"agent": "nonexistent", "task": "test"}"#,
        None,
        Ok(()),
        Err("Unknown agent 'nonexistent'".to_string()),
        Ok(()),
        replied(),
    ));
    assert!(error.contains("Unknown agent"));
}

#[test]
fn execute_blocked_in_readonly_mode() {
    let tool = make_subagent_tool(sample_agents());
    let error = failure_of(drive(
        &tool,
        r#"{"agent": "researcher", "task": "test"}"#,
        None,
        Err("Security policy: read-only mode".to_string()),
        Ok("researcher".to_string()),
        Ok(()),
        replied(),
    ));
    assert!(error.contains("read-only mode"));
}

#[test]
fn execute_blocked_when_disabled() {
    let tool = tool_with(sample_agents(), &[], Some("config.toml"));
    let disabled = SubAgentsConfig {
        enabled: false,
        auto_activate: true,
        ..default_settings()
    };
    let error = failure_of(drive(
        &tool,
        r#"{"agent": "researcher", "task": "test"}"#,
        Some(disabled),
        Ok(()),
        Ok("researcher".to_string()),
        Ok(()),
        replied(),
    ));
    assert!(error.contains("Subagents are currently disabled"));
}

#[test]
fn execute_no_agents_configured() {
    let tool = make_subagent_tool(Vec::new());
    let error = failure_of(drive(
        &tool,
        r#"{"agent": "any", "task": "test"}"#,
        None,
        Ok(()),
        Err("No delegate agents are configured".to_string()),
        Ok(()),
        replied(),
    ));
    assert!(error.contains("No delegate agents are configured"));
}

#[test]
fn schema_lists_agent_names() {
    let tool = make_subagent_tool(sample_agents());
    let schema: Value = serde_json::from_str(&tool.parameters_schema()).unwrap();
    let desc = schema["properties"]["agent"]["description"]
        .as_str()
        .unwrap();
    assert!(desc.contains("researcher"));
    assert_eq!(desc, "Name of the agent to execute. Available: researcher");
}

#[test]
fn request_is_read_from_its_arguments() {
    let tool = make_subagent_tool(sample_agents());
    let args = r#"{"agent": " researcher ", "task": " dig\n", "context": "\tsoil ", "timeout_secs": 42}"#;
    match tool.execute(&json(args)) {
        SubAgentStep::LoadSettings(request) => {
            assert_eq!(request.agent.as_deref(), Some("researcher"));
            assert_eq!(request.task, "dig");
            assert_eq!(request.context, "soil");
            assert_eq!(request.timeout_secs, 42);
        }
        other => panic!("unexpected step {other:?}"),
    }
}

#[test]
fn waiting_time_is_kept_within_limits() {
    let tool = make_subagent_tool(sample_agents());
    for (asked, waits) in [
        (None, 300),
        (Some(0), 10),
        (Some(9), 10),
        (Some(10), 10),
        (Some(11), 11),
        (Some(600), 600),
        (Some(601), 600),
        (Some(u64::MAX), 600),
    ] {
        let args = SubAgentArgs {
            agent: None,
            task: Some("t".to_string()),
            context: None,
            timeout_secs: asked,
        };
        match tool.execute_args(&args) {
            SubAgentStep::LoadSettings(request) => assert_eq!(request.timeout_secs, waits),
            other => panic!("unexpected step {other:?}"),
        }
    }
    match tool.execute(&json(r#"{"task": "t", "timeout_secs": -3}"#)) {
        SubAgentStep::LoadSettings(request) => assert_eq!(request.timeout_secs, 300),
        other => panic!("unexpected step {other:?}"),
    }
}

#[test]
fn settings_are_read_anew_only_from_a_file() {
    let other = || SubAgentsConfig {
        enabled: false,
        load_window_secs: 0,
        strategy: "semantic".to_string(),
        ..default_settings()
    };
    let without_file = make_subagent_tool(sample_agents());
    assert!(without_file.runtime_subagent_settings(Some(other())).enabled);
    let with_file = tool_with(sample_agents(), &[], Some("config.toml"));
    let settings = with_file.runtime_subagent_settings(Some(other()));
    assert!(!settings.enabled);
    assert_eq!(settings.strategy, "semantic");
    assert_eq!(settings.load_window_secs, 1);
    let kept = with_file.runtime_subagent_settings(None);
    assert!(kept.enabled && kept.auto_activate);
    assert_eq!(kept.load_window_secs, 180);
}

#[test]
fn selection_follows_the_settings() {
    let tool = make_subagent_tool(sample_agents());
    let pending = pending_from(&tool, request("dig", ""));
    assert!(pending.auto_activate);
    assert_eq!(pending.load_window_secs, 180);
    assert_eq!(pending.policy.strategy, "adaptive");
    assert_eq!(pending.policy.inflight_penalty, 8);
    assert_eq!(pending.policy.recent_selection_penalty, 2);
    assert_eq!(pending.policy.recent_failure_penalty, 12);
}

#[test]
fn chosen_agent_must_be_configured() {
    let tool = make_subagent_tool(sample_agents());
    let pending = pending_from(&tool, request("dig", ""));
    match tool.agent_selected(pending, Ok("ghost".to_string())) {
        SubAgentStep::Finished(result) => assert_eq!(
            result.error.as_deref(),
            Some("Resolved agent 'ghost' is unavailable")
        ),
        other => panic!("unexpected step {other:?}"),
    }
}

#[test]
fn agents_own_key_comes_first() {
    let mut tool = make_subagent_tool(sample_agents());
    assert_eq!(run_of(&tool, "researcher").credential, None);
    tool.fallback_credential = Some("fallback-key".to_string());
    assert_eq!(
        run_of(&tool, "researcher").credential.as_deref(),
        Some("fallback-key")
    );
    tool.agents[0].config.api_key = Some("own-key".to_string());
    assert_eq!(
        run_of(&tool, "researcher").credential.as_deref(),
        Some("own-key")
    );
}

#[test]
fn context_is_put_before_the_task() {
    let tool = make_subagent_tool(sample_agents());
    let pending = pending_from(&tool, request("dig", "soil"));
    match tool.agent_selected(pending, Ok("researcher".to_string())) {
        SubAgentStep::CreateProvider(run) => {
            assert_eq!(run.prompt, "[Context]\nsoil\n\n[Task]\ndig")
        }
        other => panic!("unexpected step {other:?}"),
    }
    assert_eq!(run_of(&tool, "researcher").prompt, "dig");
}

#[test]
fn failing_provider_is_counted() {
    let tool = make_subagent_tool(sample_agents());
    let run = run_of(&tool, "researcher");
    match tool.provider_created(run, Err("no such provider".to_string())) {
        SubAgentStep::RecordFailure(name, result) => {
            assert_eq!(name, "researcher");
            assert_eq!(
                result.error.as_deref(),
                Some(
                    "Failed to create provider 'ollama' for agent 'researcher': no such provider"
                )
            );
        }
        other => panic!("unexpected step {other:?}"),
    }
}

#[test]
fn outcomes_of_a_simple_agent() {
    let tool = make_subagent_tool(sample_agents());
    let run = run_of(&tool, "researcher");
    let reply = tool.run_finished(&run, replied());
    assert!(reply.counts_as_success && reply.result.success);
    assert_eq!(
        reply.result.output,
        "[Agent 'researcher' (ollama/llama3)]\ndone"
    );
    let blank = tool.run_finished(&run, AgentOutcome::Replied(" \n".to_string()));
    assert_eq!(
        blank.result.output,
        "[Agent 'researcher' (ollama/llama3)]\n[Empty response]"
    );
    let failed = tool.run_finished(&run, AgentOutcome::Failed("boom".to_string()));
    assert!(!failed.counts_as_success);
    assert_eq!(
        failed.result.error.as_deref(),
        Some("Agent 'researcher' failed: boom")
    );
    let late = tool.run_finished(&run, AgentOutcome::TimedOut);
    assert_eq!(
        late.result.error.as_deref(),
        Some("Agent 'researcher' timed out after 300s")
    );
}

fn agentic_tool(allowed: &[&str], nested: bool, parents: &[&str]) -> SubAgentExecuteTool<u8> {
    let mut agents = sample_agents();
    agents[0].config.agentic = true;
    agents[0].config.allow_nested_delegate = nested;
    agents[0].config.allowed_tools = allowed.iter().map(|name| name.to_string()).collect();
    tool_with(agents, parents, None)
}

fn tools_of(tool: &SubAgentExecuteTool<u8>) -> Result<Vec<usize>, String> {
    match tool.provider_created(run_of(tool, "researcher"), Ok(())) {
        SubAgentStep::CallTools(_, tools) => Ok(tools.tools),
        SubAgentStep::FailRun(name, result) => {
            assert_eq!(name, "researcher");
            Err(result.error.unwrap())
        }
        other => panic!("unexpected step {other:?}"),
    }
}

#[test]
fn agent_gets_the_tools_that_it_may_use() {
    let parents = [
        "shell",
        "subagent_spawn",
        "file_read",
        "delegate",
        "subagent_manage",
        "subagent_execute",
        "shell",
    ];
    let allowed = [
        " file_read ",
        "shell",
        "delegate",
        "subagent_spawn",
        "subagent_manage",
        "subagent_execute",
        "",
    ];
    assert_eq!(
        tools_of(&agentic_tool(&allowed, false, &parents)),
        Ok(vec![0, 2, 6])
    );
    assert_eq!(
        tools_of(&agentic_tool(&allowed, true, &parents)),
        Ok(vec![0, 2, 3, 6])
    );
    assert_eq!(tools_of(&agentic_tool(&["file_read"], true, &parents)), Ok(vec![2]));
}

#[test]
fn agent_without_tools_cannot_run() {
    assert_eq!(
        tools_of(&agentic_tool(&[], false, &["shell"])),
        Err("Agent 'researcher' has agentic=true but allowed_tools is empty".to_string())
    );
    assert_eq!(
        tools_of(&agentic_tool(&["shell ", "subagent_spawn"], false, &["subagent_spawn", ""])),
        Err(
            "Agent 'researcher' has no executable tools after filtering allowlist (shell , subagent_spawn)"
                .to_string()
        )
    );
}

#[test]
fn agentic_conversation_begins_with_the_prompt() {
    let tool = agentic_tool(&["shell"], false, &["shell"]);
    match tool.provider_created(run_of(&tool, "researcher"), Ok(())) {
        SubAgentStep::CallTools(run, tools) => {
            assert!(tools.silent);
            assert_eq!(tools.channel, "subagent_execute");
            assert_eq!(tools.history.len(), 2);
            assert_eq!(tools.history[0].role, "system");
            assert_eq!(tools.history[0].content, "You are a research assistant.");
            assert_eq!(tools.history[1].role, "user");
            assert_eq!(tools.history[1].content, "dig");
            let reply = tool.run_finished(&run, replied());
            assert_eq!(
                reply.result.output,
                "[Agent 'researcher' (ollama/llama3, agentic)]\ndone"
            );
        }
        other => panic!("unexpected step {other:?}"),
    }
}

#[test]
fn load_tracker_is_handed_on() {
    let tool = make_subagent_tool(sample_agents()).with_load_tracker(9);
    assert_eq!(tool.load_tracker, 9);
    assert_eq!(tool.agents[0].name, "researcher");
}

#[test]
fn chat_messages_have_their_roles() {
    assert_eq!(ChatMessage::system("a".to_string()).role, "system");
    assert_eq!(ChatMessage::user("b".to_string()).role, "user");
    assert_eq!(ChatMessage::user("b".to_string()).content, "b");
}
