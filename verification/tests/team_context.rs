use coraldesk::tools::team_context::{
    CheckedWrite, ContextValue, KeyedEntry, PatchEnvelope, PendingRead, PendingWrite,
    SharedContextEntry, TeamContextStep, TeamContextTool, MAX_CONTEXT_VALUE_CHARS,
};
use coraldesk::tools::traits::ToolResult;
use serde_json::Value;
use std::cell::RefCell;

/// A bus that takes every patch whose expected version is the present one.
struct Bus {
    entries: RefCell<Vec<(String, String, u64, String)>>,
}

impl Bus {
    fn find(&self, key: &str) -> Option<SharedContextEntry> {
        self.entries
            .borrow()
            .iter()
            .find(|entry| entry.0 == key)
            .map(|entry| SharedContextEntry {
                value: ContextValue::Text(entry.1.clone()),
                version: entry.2,
                updated_by: entry.3.clone(),
            })
    }

    fn publish(&self, patch: &PatchEnvelope) -> Result<(), String> {
        let version = self.find(&patch.key).map_or(0, |entry| entry.version);
        if version != patch.expected_version {
            return Err(format!("version is {version}"));
        }
        let mut entries = self.entries.borrow_mut();
        entries.retain(|entry| entry.0 != patch.key);
        entries.insert(
            0,
            (
                patch.key.clone(),
                patch.value.clone(),
                version + 1,
                patch.from.clone(),
            ),
        );
        Ok(())
    }
}

type Tool = TeamContextTool<Bus, Result<(), String>>;

fn make_team_tool() -> Tool {
    TeamContextTool::new(
        Bus {
            entries: RefCell::new(Vec::new()),
        },
        Ok(()),
        "lead".to_string(),
    )
}

fn run(tool: &Tool, args: &str) -> Result<ToolResult, String> {
    let args: Value = serde_json::from_str(args).unwrap();
    let mut step = tool.execute(&args);
    loop {
        step = match step {
            TeamContextStep::Rejected(error) => return Err(error.message),
            TeamContextStep::Finished(result) => return Ok(result),
            TeamContextStep::Authorize => {
                let parsed = coraldesk::tools::team_context::TeamContextArgs::from_json(&args);
                tool.execute_write(&parsed, tool.security.clone())
            }
            TeamContextStep::FindVersion(checked) => {
                let version = tool.bus.find(&checked.context_key).map(|entry| entry.version);
                tool.version_found(checked, version)
            }
            TeamContextStep::Publish(write) => {
                let outcome = tool.bus.publish(&write.envelope);
                return Ok(tool.published(&write, outcome));
            }
            TeamContextStep::FindEntry(read) => {
                let found = tool.bus.find(&read.context_key);
                tool.entry_found(read, found)
            }
            TeamContextStep::FindRawEntry(read) => {
                let found = tool.bus.find(&read.key);
                return Ok(tool.raw_entry_found(&read, found));
            }
            TeamContextStep::FetchEntries(prefix) => {
                let keys: Vec<String> = tool
                    .bus
                    .entries
                    .borrow()
                    .iter()
                    .map(|entry| entry.0.clone())
                    .collect();
                let entries: Vec<KeyedEntry> = keys
                    .into_iter()
                    .map(|key| KeyedEntry {
                        entry: tool.bus.find(&key).unwrap(),
                        key,
                    })
                    .collect();
                assert!(tool.can_list(&prefix, &entries));
                return Ok(tool.entries_found(&prefix, &entries));
            }
        };
    }
}

fn args(members: &[(&str, &str)]) -> String {
    let mut object = serde_json::Map::new();
    for (name, value) in members {
        object.insert(name.to_string(), Value::String(value.to_string()));
    }
    Value::Object(object).to_string()
}

fn write(tool: &Tool, key: &str, value: &str) -> Result<ToolResult, String> {
    run(
        tool,
        &args(&[("action", "write"), ("key", key), ("value", value)]),
    )
}

fn output_of(result: &ToolResult) -> Value {
    let value: Value = serde_json::from_str(&result.output).unwrap();
    assert_eq!(value.to_string(), result.output);
    value
}

#[test]
fn team_context_name_and_schema() {
    let tool = make_team_tool();
    assert_eq!(tool.name(), "team_context");
    assert!(tool.description().starts_with("Read, write, or list shared team context."));
    let schema: Value = serde_json::from_str(&tool.parameters_schema()).unwrap();
    assert!(schema["properties"]["action"].is_object());
    assert!(schema["properties"]["key"].is_object());
    assert!(schema["properties"]["value"].is_object());
    let required = schema["required"].as_array().unwrap();
    assert!(required.contains(&Value::String("action".to_string())));
    assert_eq!(schema.to_string(), tool.parameters_schema());
    assert_eq!(
        schema["properties"]["action"]["enum"].to_string(),
        r#"["write","read","list"]"#
    );
    assert_eq!(schema["additionalProperties"], Value::Bool(false));
}

#[test]
fn write_and_read_context() {
    let tool = make_team_tool();

    let result = write(
        &tool,
        "architecture/decisions",
        "Use microservices architecture with gRPC",
    )
    .unwrap();
    assert!(result.success, "write failed: {:?}", result.error);

    let output = output_of(&result);
    assert_eq!(output["action"], "write");
    assert_eq!(output["key"], "architecture/decisions");
    assert_eq!(output["version"], 1);
    assert_eq!(
        output["message"],
        "Context entry 'architecture/decisions' written successfully (version 1)"
    );

    let result = run(
        &tool,
        &args(&[("action", "read"), ("key", "architecture/decisions")]),
    )
    .unwrap();
    assert!(result.success, "read failed: {:?}", result.error);

    let output = output_of(&result);
    assert_eq!(output["action"], "read");
    assert_eq!(output["value"], "Use microservices architecture with gRPC");
    assert_eq!(output["version"], 1);
    assert_eq!(output["updated_by"], "lead");
}

#[test]
fn read_nonexistent_key() {
    let tool = make_team_tool();
    let result = run(
        &tool,
        &args(&[("action", "read"), ("key", "nonexistent/key")]),
    )
    .unwrap();
    assert!(result.success);
    let output = output_of(&result);
    assert_eq!(output["found"], false);
    assert_eq!(
        output["message"],
        "No context entry found for key 'nonexistent/key'"
    );
}

#[test]
fn list_context_entries() {
    let tool = make_team_tool();
    write(&tool, "arch/decisions", "Decision 1").unwrap();
    write(&tool, "arch/trade-offs", "Trade-off 1").unwrap();
    write(&tool, "code/module_a", "Module A implementation").unwrap();

    let result = run(&tool, &args(&[("action", "list")])).unwrap();
    assert!(result.success);
    let output = output_of(&result);
    assert_eq!(output["count"], 3);
    let keys: Vec<&str> = output["entries"]
        .as_array()
        .unwrap()
        .iter()
        .map(|entry| entry["key"].as_str().unwrap())
        .collect();
    assert_eq!(keys, vec!["arch/decisions", "arch/trade-offs", "code/module_a"]);

    let result = run(&tool, &args(&[("action", "list"), ("prefix", "arch/")])).unwrap();
    assert!(result.success);
    let output = output_of(&result);
    assert_eq!(output["count"], 2);
    assert_eq!(output["prefix"], "arch/");
}

#[test]
fn write_version_increments() {
    let tool = make_team_tool();
    let result = write(&tool, "test/versioned", "v1").unwrap();
    assert_eq!(output_of(&result)["version"], 1);
    let result = write(&tool, "test/versioned", "v2").unwrap();
    assert!(result.success, "write v2 failed: {:?}", result.error);
    assert_eq!(output_of(&result)["version"], 2);
}

#[test]
fn invalid_action_rejected() {
    let tool = make_team_tool();
    let result = run(&tool, &args(&[("action", "delete")])).unwrap();
    assert!(!result.success);
    let error = result.error.unwrap();
    assert!(error.contains("Unknown action"));
    assert_eq!(
        error,
        "Unknown action 'delete'. Must be one of: write, read, list"
    );
}

#[test]
fn missing_action_rejected() {
    let tool = make_team_tool();
    assert_eq!(run(&tool, "{}").unwrap_err(), "Missing 'action' parameter");
    assert_eq!(
        run(&tool, r#"{"action": 3}"#).unwrap_err(),
        "Missing 'action' parameter"
    );
    assert_eq!(
        run(&tool, r#"{"action": " read "}"#).unwrap_err(),
        "Missing 'key' parameter for read action"
    );
}

#[test]
fn write_without_key_rejected() {
    let tool = make_team_tool();
    let result = run(&tool, &args(&[("action", "write"), ("value", "test")]));
    assert_eq!(
        result.unwrap_err(),
        "Missing 'key' parameter for write action"
    );
    assert!(write(&tool, "  ", "test").is_err());
}

#[test]
fn write_without_value_rejected() {
    let tool = make_team_tool();
    let result = run(&tool, &args(&[("action", "write"), ("key", "test")]));
    assert_eq!(
        result.unwrap_err(),
        "Missing 'value' parameter for write action"
    );
    assert!(write(&tool, "test", "\n").is_err());
}

#[test]
fn value_size_limit_enforced() {
    let tool = make_team_tool();
    let large_value = "x".repeat(MAX_CONTEXT_VALUE_CHARS + 1);
    let result = write(&tool, "test/large", &large_value).unwrap();
    assert!(!result.success);
    let error = result.error.unwrap();
    assert!(error.contains("too large"));
    assert_eq!(error, "Context value too large (8001 chars, max 8000)");
}

#[test]
fn value_size_is_counted_in_characters() {
    let tool = make_team_tool();
    assert!(write(&tool, "k", &"é".repeat(MAX_CONTEXT_VALUE_CHARS)).unwrap().success);
    assert!(!write(&tool, "k", &"é".repeat(MAX_CONTEXT_VALUE_CHARS + 1)).unwrap().success);
}

#[test]
fn readonly_blocks_write() {
    let tool = TeamContextTool::new(
        Bus {
            entries: RefCell::new(Vec::new()),
        },
        Err("Security policy: read-only mode".to_string()),
        "lead".to_string(),
    );
    let result = write(&tool, "test", "blocked").unwrap();
    assert!(!result.success);
    assert!(result
        .error
        .as_deref()
        .unwrap_or("")
        .contains("read-only mode"));
    assert!(tool.bus.entries.borrow().is_empty());
}

#[test]
fn patch_is_addressed_to_the_team() {
    let tool = make_team_tool();
    let checked = CheckedWrite {
        key: "k".to_string(),
        context_key: "team/k".to_string(),
        value: "v".to_string(),
    };
    let write = match tool.version_found(checked, Some(4)) {
        TeamContextStep::Publish(write) => write,
        other => panic!("unexpected step {other:?}"),
    };
    let patch = &write.envelope;
    assert_eq!(patch.from, "lead");
    assert_eq!(patch.conversation, "team-context");
    assert_eq!(patch.topic, "team.context");
    assert_eq!(patch.key, "team/k");
    assert_eq!(patch.expected_version, 4);
    assert_eq!(patch.value, "v");
    let id = patch.correlation_id.strip_prefix("team-ctx-").unwrap();
    assert_eq!(id.len(), 36);
    assert_eq!(&id[14..15], "4");
    let refused = tool.published(&write, Err("stale".to_string()));
    assert_eq!(
        refused.error.as_deref(),
        Some("Failed to write context entry 'k': stale")
    );
}

#[test]
fn two_patches_have_two_identifiers() {
    let tool = make_team_tool();
    let id = || {
        let checked = CheckedWrite {
            key: "k".to_string(),
            context_key: "team/k".to_string(),
            value: "v".to_string(),
        };
        match tool.version_found(checked, None) {
            TeamContextStep::Publish(write) => write.envelope.correlation_id,
            other => panic!("unexpected step {other:?}"),
        }
    };
    assert_ne!(id(), id());
}

#[test]
fn read_falls_back_on_the_callers_key() {
    let tool = make_team_tool();
    write(&tool, "a", "1").unwrap();
    let result = run(&tool, &args(&[("action", "read"), ("key", "team/a")])).unwrap();
    assert_eq!(output_of(&result)["value"], "1");
    assert_eq!(output_of(&result)["key"], "team/a");
}

#[test]
fn write_leaves_other_keys_alone() {
    let tool = make_team_tool();
    write(&tool, "a", "1").unwrap();
    let before = run(&tool, &args(&[("action", "read"), ("key", "a")])).unwrap();
    write(&tool, "b", "2").unwrap();
    let after = run(&tool, &args(&[("action", "read"), ("key", "a")])).unwrap();
    assert_eq!(before.output, after.output);
}

#[test]
fn other_values_are_laid_out() {
    let tool = make_team_tool();
    let read = PendingRead {
        key: "k".to_string(),
        context_key: "team/k".to_string(),
    };
    let entry = SharedContextEntry {
        value: ContextValue::Json(serde_json::from_str(r#"{"a":[1,2]}"#).unwrap()),
        version: 3,
        updated_by: "coder".to_string(),
    };
    let result = tool.raw_entry_found(&read, Some(entry));
    assert_eq!(
        output_of(&result)["value"],
        "{\n  \"a\": [\n    1,\n    2\n  ]\n}"
    );
}

fn keyed(key: &str, value: &str) -> KeyedEntry {
    KeyedEntry {
        key: key.to_string(),
        entry: SharedContextEntry {
            value: ContextValue::Text(value.to_string()),
            version: 1,
            updated_by: "coder".to_string(),
        },
    }
}

fn listed(prefix: &str, entries: &Vec<KeyedEntry>) -> Vec<String> {
    let output = output_of(&make_team_tool().entries_found(prefix, entries));
    let entries = output["entries"].as_array().unwrap();
    assert_eq!(output["count"].as_u64(), Some(entries.len() as u64));
    entries
        .iter()
        .map(|entry| entry["key"].as_str().unwrap().to_string())
        .collect()
}

#[test]
fn list_shows_what_is_meant_for_the_team() {
    let entries = vec![
        keyed("team/z", "1"),
        keyed("delegate/7/output", "2"),
        keyed("delegate/7/state", "3"),
        keyed("delegate/8/result", "4"),
        keyed("other", "5"),
        keyed("team/b", "6"),
    ];
    assert_eq!(
        listed("", &entries),
        vec!["b", "delegate/7/output", "delegate/8/result", "z"]
    );
    assert_eq!(
        listed("delegate/7", &entries),
        vec!["delegate/7/output", "delegate/7/state"]
    );
    assert!(listed("e/7", &entries).is_empty());
    assert_eq!(listed("z", &entries), vec!["z"]);
    assert_eq!(listed("team", &entries), vec!["b", "z"]);
    assert!(listed("nothing", &entries).is_empty());
}

#[test]
fn prefix_counts_from_the_beginning_of_a_key() {
    let tool = make_team_tool();
    write(&tool, "code/arch/x", "v").unwrap();
    let list = || run(&tool, &args(&[("action", "list"), ("prefix", "arch/")])).unwrap();
    let output = output_of(&list());
    assert_eq!(output["prefix"], "arch/");
    assert_eq!(output["count"], 0);
    assert_eq!(output["entries"], Value::Array(Vec::new()));
    write(&tool, "arch/y", "w").unwrap();
    assert_eq!(output_of(&list())["count"], 1);
    assert_eq!(output_of(&list())["entries"][0]["key"], "arch/y");
}

#[test]
fn deep_and_fractional_values_come_through() {
    let tool = make_team_tool();
    let mut value: Value = serde_json::from_str("0.1").unwrap();
    for _ in 0..200 {
        value = Value::Array(vec![value]);
    }
    let entry = || KeyedEntry {
        key: "team/deep".to_string(),
        entry: SharedContextEntry {
            value: ContextValue::Json(value.clone()),
            version: 1,
            updated_by: "coder".to_string(),
        },
    };
    let output = output_of(&tool.entries_found("", &vec![entry()]));
    assert_eq!(
        output["entries"][0]["preview"],
        format!("{}...", "[".repeat(200))
    );
    let read = PendingRead {
        key: "deep".to_string(),
        context_key: "team/deep".to_string(),
    };
    let shown = output_of(&tool.raw_entry_found(&read, Some(entry().entry)));
    assert!(shown["value"].as_str().unwrap().contains("0.1"));
}

#[test]
fn list_is_limited() {
    let entries: Vec<KeyedEntry> = (0..60).map(|i| keyed(&format!("team/{i:03}"), "v")).collect();
    let keys = listed("", &entries);
    assert_eq!(keys.len(), 50);
    assert_eq!(keys[0], "000");
    assert_eq!(keys[49], "049");
}

#[test]
fn long_values_are_previewed() {
    let tool = make_team_tool();
    let entries = vec![
        keyed("team/a", &"x".repeat(200)),
        keyed("team/b", &"x".repeat(201)),
    ];
    assert!(tool.can_list("", &entries));
    let output = output_of(&tool.entries_found("", &entries));
    assert_eq!(output["entries"][0]["preview"], "x".repeat(200));
    assert_eq!(
        output["entries"][1]["preview"],
        format!("{}...", "x".repeat(200))
    );
    assert_eq!(output["entries"][1]["updated_by"], "coder");
    let split = vec![keyed("team/c", &format!("{}é", "x".repeat(199)))];
    assert!(!tool.can_list("", &split));
    assert!(tool.can_list("zzz", &split));
}

#[test]
fn awkward_texts_come_through_json() {
    let tool = make_team_tool();
    let value = "quote \" slash \\ tab \t bell \u{7} nul \u{0} é 💡";
    write(&tool, "k\"", value).unwrap();
    let result = run(&tool, &args(&[("action", "read"), ("key", "k\"")])).unwrap();
    let output = output_of(&result);
    assert_eq!(output["value"], value);
    assert_eq!(output["key"], "k\"");
}

#[test]
fn published_write_reports_the_next_version() {
    let tool = make_team_tool();
    let write = PendingWrite {
        key: "k".to_string(),
        envelope: PatchEnvelope {
            from: "lead".to_string(),
            conversation: "team-context".to_string(),
            topic: "team.context".to_string(),
            correlation_id: "team-ctx-1".to_string(),
            key: "team/k".to_string(),
            expected_version: u64::MAX - 1,
            value: "v".to_string(),
        },
    };
    let result = tool.published(&write, Ok(()));
    assert_eq!(
        result.output,
        "{\"action\":\"write\",\"key\":\"k\",\"message\":\"Context entry 'k' written successfully (version 18446744073709551615)\",\"version\":18446744073709551615}"
    );
}

#[test]
fn entries_with_one_display_key_keep_their_order() {
    let tool = make_team_tool();
    let entries = vec![
        keyed("x/b", "raw"),
        keyed("team/x/b", "team"),
        keyed("x/a", "first"),
    ];
    let output = output_of(&tool.entries_found("x/", &entries));
    let shown: Vec<(&str, &str)> = output["entries"]
        .as_array()
        .unwrap()
        .iter()
        .map(|entry| {
            (
                entry["key"].as_str().unwrap(),
                entry["preview"].as_str().unwrap(),
            )
        })
        .collect();
    assert_eq!(
        shown,
        vec![("x/a", "first"), ("x/b", "raw"), ("x/b", "team")]
    );
}
