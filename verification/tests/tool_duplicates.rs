use ai_dx_mcp::api::{DetailValue, ViolationTier};
use ai_dx_mcp::config::ProjectTool;
use ai_dx_mcp::tool_duplicates::{detect_tool_duplicates, signature_for, str_compare};

fn tool(id: &str, command: &str, args: &[&str], description: &str) -> ProjectTool {
    ProjectTool {
        id: id.to_string(),
        description: description.to_string(),
        command: command.to_string(),
        args: args.iter().map(|a| a.to_string()).collect(),
        cwd: None,
        timeout_ms: None,
        max_stdout_bytes: None,
        max_stderr_bytes: None,
        receipt_contract: None,
        env: vec![],
    }
}

fn detail<'a>(v: &'a ai_dx_mcp::api::Violation, key: &str) -> &'a DetailValue {
    &v.details.as_ref().unwrap().fields.iter().find(|f| f.0 == key).unwrap().1
}

fn str_list(d: &DetailValue) -> Vec<String> {
    match d {
        DetailValue::StrList(l) => l.clone(),
        other => panic!("not a list: {:?}", other),
    }
}

#[test]
fn same_signature_is_a_blocking_duplicate() {
    let tools = vec![
        tool("a", " Cargo ", &["test"], "one"),
        tool("b", "cargo", &["test"], "two"),
        tool("c", "cargo", &["build"], "three"),
    ];
    let out = detect_tool_duplicates(&tools);
    assert_eq!(out.len(), 1);
    let v = &out[0];
    assert_eq!(v.code, "tools.duplicate_exact");
    assert_eq!(v.tier, ViolationTier::Blocking);
    assert_eq!(v.message, "exact duplicate tool signature detected for 2 tools");
    assert_eq!(str_list(detail(v, "tools")), vec!["a".to_string(), "b".to_string()]);
    assert!(matches!(detail(v, "command"), DetailValue::Str(s) if s == "cargo"));
    assert!(matches!(detail(v, "cwd"), DetailValue::Null));
    assert!(matches!(detail(v, "timeout_ms"), DetailValue::Null));
}

#[test]
fn different_limits_are_not_exact_duplicates() {
    let mut b = tool("b", "cargo", &["test"], "two");
    b.timeout_ms = Some(5);
    let tools = vec![tool("a", "cargo", &["test"], "one"), b];
    assert!(detect_tool_duplicates(&tools).is_empty());
}

#[test]
fn same_command_and_description_is_an_observation() {
    let tools = vec![
        tool("a", "cargo", &["test"], "Run tests"),
        tool("b", "CARGO", &["test", "--all"], "  run TESTS "),
        tool("c", "make", &[], "Run tests"),
    ];
    let out = detect_tool_duplicates(&tools);
    assert_eq!(out.len(), 1);
    let v = &out[0];
    assert_eq!(v.code, "tools.duplicate_semantic");
    assert_eq!(v.tier, ViolationTier::Observation);
    assert_eq!(v.message, "semantically similar tools detected (same command+description): 2");
    assert_eq!(str_list(detail(v, "tools")), vec!["a".to_string(), "b".to_string()]);
    assert!(matches!(detail(v, "description"), DetailValue::Str(s) if s == "run tests"));
}

#[test]
fn exact_duplicates_are_not_reported_again_as_similar() {
    let tools = vec![
        tool("a", "cargo", &["test"], "Run tests"),
        tool("b", "cargo", &["test"], "Run tests"),
        tool("c", "cargo", &["nextest"], "Run tests"),
    ];
    let out = detect_tool_duplicates(&tools);
    assert_eq!(out.len(), 1);
    assert_eq!(out[0].code, "tools.duplicate_exact");
}

#[test]
fn exact_groups_come_in_signature_order() {
    let tools = vec![
        tool("a", "zeta", &[], "x"),
        tool("b", "alpha", &[], "y"),
        tool("c", "zeta", &[], "z"),
        tool("d", "alpha", &[], "w"),
    ];
    let out = detect_tool_duplicates(&tools);
    assert_eq!(out.len(), 2);
    assert!(matches!(detail(&out[0], "command"), DetailValue::Str(s) if s == "alpha"));
    assert_eq!(str_list(detail(&out[0], "tools")), vec!["b".to_string(), "d".to_string()]);
    assert!(matches!(detail(&out[1], "command"), DetailValue::Str(s) if s == "zeta"));
}

#[test]
fn signature_normalizes_the_command() {
    let s = signature_for(&tool("a", "  MyTool\t", &["x"], "d"));
    assert_eq!(s.command, "mytool");
    assert_eq!(s.args, vec!["x".to_string()]);
    assert_eq!(str_compare("a", "b"), -1);
    assert_eq!(str_compare("b", "a"), 1);
    assert_eq!(str_compare("ab", "ab"), 0);
    assert_eq!(str_compare("a", "ab"), -1);
}
