use herdr_recent_navigator::ipc::{
    args_to_method, fetch_all_nodes, fetch_cwd_map, fetch_focused_pane_info, fetch_pane_content,
    fetch_pane_process, fetch_tab_name, fetch_workspace_name, focus_pane, focus_tab,
    focus_workspace, refresh_contents, refresh_others, AgentStatusWire, ForegroundProcess,
    IpcError, PaneInfo, PaneListResult, ProcessInfo, ProcessInfoResult, TabInfo,
    TabListResult, WorkspaceInfo, WorkspaceListResult, WorktreeInfo, CONTENT_CAP,
};
use herdr_recent_navigator::ipc::{rpc_answer, rpc_answer_of, rpc_request_line, RpcEnvelope};
use herdr_recent_navigator::models::{AgentStatus, NavigationNode};
use herdr_recent_navigator::StringHashMap;
use std::cell::RefCell;

fn ws(id: &str, label: &str) -> WorkspaceInfo {
    WorkspaceInfo { workspace_id: id.to_string(), label: label.to_string(), worktree: None }
}

fn tab(id: &str, ws: &str, label: Option<&str>) -> TabInfo {
    TabInfo {
        tab_id: id.to_string(),
        workspace_id: ws.to_string(),
        label: label.map(|s| s.to_string()),
    }
}

fn pane(id: &str, ws: &str, tab: &str, focused: bool) -> PaneInfo {
    PaneInfo {
        pane_id: id.to_string(),
        workspace_id: ws.to_string(),
        tab_id: tab.to_string(),
        focused,
        label: None,
        agent: None,
        agent_status: None,
        title: None,
        cwd: None,
        foreground_cwd: None,
    }
}

fn node(pane_id: &str, agent: Option<&str>) -> NavigationNode {
    NavigationNode {
        workspace_id: "ws-1".into(),
        workspace_name: "w".into(),
        tab_id: "t-1".into(),
        tab_name: "t".into(),
        pane_id: pane_id.into(),
        pane_name: Some(pane_id.into()),
        agent_id: agent.map(|a| a.to_string()),
        agent_status: if agent.is_some() { AgentStatus::Working } else { AgentStatus::NoAgent },
        last_accessed_at: 0,
    }
}

fn failed() -> IpcError {
    IpcError::Request("herdr failed".to_string())
}

fn process(cmdline: Option<&str>, argv: Option<Vec<&str>>, name: Option<&str>) -> ProcessInfoResult {
    ProcessInfoResult {
        process_info: Some(ProcessInfo {
            foreground_processes: vec![ForegroundProcess {
                argv: argv.map(|a| a.into_iter().map(|s| s.to_string()).collect()),
                cmdline: cmdline.map(|s| s.to_string()),
                name: name.map(|s| s.to_string()),
            }],
        }),
    }
}

// ── fetch_all_nodes ──

#[test]
fn test_fetch_all_nodes_parses_valid_response() {
    let workspaces = WorkspaceListResult { workspaces: vec![ws("ws-1", "MyWS")] };
    let tabs = TabListResult { tabs: vec![tab("tab-1", "ws-1", Some("MyTab"))] };
    let mut p = pane("pane-1", "ws-1", "tab-1", false);
    p.label = Some("MyPane".into());
    let panes = PaneListResult { panes: vec![p] };

    let (nodes, focused) = fetch_all_nodes(Ok(workspaces), Ok(tabs), Ok(panes)).unwrap();
    assert_eq!(nodes.len(), 1);
    assert_eq!(nodes[0].workspace_name, "MyWS");
    assert_eq!(nodes[0].tab_name, "MyTab");
    assert_eq!(nodes[0].pane_name.as_deref(), Some("MyPane"));
    assert!(focused.is_none(), "No focused pane in this test");
}

#[test]
fn test_fetch_all_nodes_empty_lists() {
    let (nodes, focused) = fetch_all_nodes(
        Ok(WorkspaceListResult { workspaces: vec![] }),
        Ok(TabListResult { tabs: vec![] }),
        Ok(PaneListResult { panes: vec![] }),
    )
    .unwrap();
    assert!(nodes.is_empty(), "Empty lists should produce empty nodes");
    assert!(focused.is_none());
}

#[test]
fn test_fetch_all_nodes_missing_fields_use_defaults() {
    let (nodes, _) = fetch_all_nodes(
        Ok(WorkspaceListResult { workspaces: vec![ws("ws-1", "WS")] }),
        Ok(TabListResult { tabs: vec![tab("tab-1", "ws-1", None)] }),
        Ok(PaneListResult { panes: vec![pane("pane-1", "ws-1", "tab-1", false)] }),
    )
    .unwrap();
    assert_eq!(nodes[0].pane_name.as_deref(), Some("untitled"));
    assert_eq!(nodes[0].tab_name, "tab-tab-1");
    assert_eq!(nodes[0].agent_status, AgentStatus::NoAgent);
    assert_eq!(nodes[0].last_accessed_at, 0);
}

#[test]
fn test_fetch_all_nodes_detects_focused_pane() {
    let mut p = pane("pane-1", "ws-1", "tab-1", true);
    p.label = Some("ActivePane".into());
    let (_, focused) = fetch_all_nodes(
        Ok(WorkspaceListResult { workspaces: vec![ws("ws-1", "WS")] }),
        Ok(TabListResult { tabs: vec![tab("tab-1", "ws-1", Some("ActiveTab"))] }),
        Ok(PaneListResult { panes: vec![p] }),
    )
    .unwrap();
    assert!(focused.is_some());
    let f = focused.unwrap();
    assert_eq!(f.pane_id, "pane-1");
    assert_eq!(f.label, "ActivePane");
}

#[test]
fn test_fetch_all_nodes_workspace_failure_fails() {
    let res = fetch_all_nodes(
        Err(failed()),
        Ok(TabListResult { tabs: vec![] }),
        Ok(PaneListResult { panes: vec![pane("p", "w", "t", false)] }),
    );
    assert_eq!(res.err(), Some(failed()));
}

#[test]
fn test_fetch_all_nodes_failed_tab_and_pane_lists_count_as_empty() {
    let (nodes, focused) =
        fetch_all_nodes(Ok(WorkspaceListResult { workspaces: vec![ws("w", "W")] }), Err(failed()), Err(failed()))
            .unwrap();
    assert!(nodes.is_empty());
    assert!(focused.is_none());
    let (nodes, _) = fetch_all_nodes(
        Ok(WorkspaceListResult { workspaces: vec![ws("w", "W")] }),
        Err(failed()),
        Ok(PaneListResult { panes: vec![pane("p", "w", "x:y:t-7", false)] }),
    )
    .unwrap();
    assert_eq!(nodes[0].tab_name, "tab-t-7");
}

#[test]
fn test_fetch_all_nodes_worktree_labels_and_names() {
    let main = WorkspaceInfo {
        workspace_id: "ws-main".into(),
        label: "navigator".into(),
        worktree: Some(WorktreeInfo {
            is_linked_worktree: false,
            repo_key: "repo-1".into(),
            repo_name: "herdr-nav".into(),
        }),
    };
    let linked = WorkspaceInfo {
        workspace_id: "ws-feat".into(),
        label: "feature".into(),
        worktree: Some(WorktreeInfo {
            is_linked_worktree: true,
            repo_key: "repo-1".into(),
            repo_name: "herdr-nav".into(),
        }),
    };
    let orphan = WorkspaceInfo {
        workspace_id: "ws-orphan".into(),
        label: "hotfix".into(),
        worktree: Some(WorktreeInfo {
            is_linked_worktree: true,
            repo_key: "repo-2".into(),
            repo_name: "other-repo".into(),
        }),
    };
    let mut p1 = pane("p1", "ws-feat", "t1", false);
    p1.label = Some(String::new());
    p1.title = Some("ignored".into());
    let mut p2 = pane("p2", "ws-orphan", "t2", true);
    p2.title = Some("vim".into());
    p2.agent = Some("aider".into());
    p2.agent_status = Some(AgentStatusWire::Blocked);
    let mut p3 = pane("p3", "ws-main", "t1", true);
    p3.agent_status = Some(AgentStatusWire::Unknown);
    let (nodes, focused) = fetch_all_nodes(
        Ok(WorkspaceListResult { workspaces: vec![main, linked, orphan] }),
        Ok(TabListResult {
            tabs: vec![tab("t1", "ws-feat", Some("first")), tab("t1", "ws-feat", Some("second"))],
        }),
        Ok(PaneListResult { panes: vec![p1, p2, p3] }),
    )
    .unwrap();
    assert_eq!(nodes.len(), 3);
    assert_eq!(nodes[0].workspace_name, "navigator ⎇ feature");
    assert_eq!(nodes[0].tab_name, "second");
    assert_eq!(nodes[0].pane_name.as_deref(), Some("untitled"));
    assert_eq!(nodes[1].workspace_name, "other-repo ⎇ hotfix");
    assert_eq!(nodes[1].pane_name.as_deref(), Some("vim"));
    assert_eq!(nodes[1].agent_id.as_deref(), Some("aider"));
    assert_eq!(nodes[1].agent_status, AgentStatus::Blocked);
    assert_eq!(nodes[2].workspace_name, "navigator");
    assert_eq!(nodes[2].tab_name, "tab-t1");
    assert_eq!(nodes[2].agent_status, AgentStatus::NoAgent);
    // The last focused pane wins.
    let f = focused.unwrap();
    assert_eq!(f.pane_id, "p3");
    assert_eq!(f.label, "");
}

// ── fetch_focused_pane_info / names ──

#[test]
fn test_fetch_focused_pane_info_no_focused_returns_error() {
    let result = fetch_focused_pane_info(Ok(PaneListResult { panes: vec![pane("p-1", "w", "t", false)] }));
    assert!(result.is_err(), "No focused pane should return error");
    assert_eq!(result.err(), Some(IpcError::NoFocusedPane));
}

#[test]
fn test_fetch_focused_pane_info_first_focused_and_title_fallback() {
    let mut a = pane("p-a", "w-a", "t-a", true);
    a.title = Some("zsh".into());
    let b = pane("p-b", "w-b", "t-b", true);
    let info = fetch_focused_pane_info(Ok(PaneListResult { panes: vec![pane("p-0", "w", "t", false), a, b] })).unwrap();
    assert_eq!(info, ("p-a".to_string(), "t-a".to_string(), "w-a".to_string(), "zsh".to_string()));
    assert_eq!(fetch_focused_pane_info(Err(failed())).err(), Some(failed()));
}

#[test]
fn test_fetch_tab_and_workspace_names() {
    let tabs = TabListResult { tabs: vec![tab("t1", "w", None), tab("t2", "w", Some("logs")), tab("t2", "w", Some("later"))] };
    assert_eq!(fetch_tab_name("t2", Ok(tabs.clone())), Some("logs".to_string()));
    assert_eq!(fetch_tab_name("t1", Ok(tabs.clone())), None);
    assert_eq!(fetch_tab_name("t9", Ok(tabs)), None);
    assert_eq!(fetch_tab_name("t2", Err(failed())), None);
    let list = WorkspaceListResult { workspaces: vec![ws("w1", "one"), ws("w2", "two")] };
    assert_eq!(fetch_workspace_name("w2", Ok(list.clone())), Some("two".to_string()));
    assert_eq!(fetch_workspace_name("w3", Ok(list)), None);
    assert_eq!(fetch_workspace_name("w1", Err(failed())), None);
}

// ── process-info / others ──

#[test]
fn test_fetch_pane_process_parses_cmdline() {
    let proc = fetch_pane_process(Ok(process(
        Some("psql -U poste -h 127.0.0.1"),
        Some(vec!["psql", "-U", "poste"]),
        Some("psql"),
    )))
    .unwrap()
    .unwrap();
    assert_eq!(proc.command, "psql -U poste -h 127.0.0.1");
}

#[test]
fn test_fetch_pane_process_empty_returns_none() {
    let r = ProcessInfoResult { process_info: Some(ProcessInfo { foreground_processes: vec![] }) };
    assert!(fetch_pane_process(Ok(r)).unwrap().is_none());
    assert!(fetch_pane_process(Ok(ProcessInfoResult { process_info: None })).unwrap().is_none());
}

#[test]
fn test_fetch_pane_process_fallbacks() {
    let p = fetch_pane_process(Ok(process(Some("   "), Some(vec!["vim", "notes.md"]), Some("vim")))).unwrap().unwrap();
    assert_eq!(p.command, "vim notes.md");
    let p = fetch_pane_process(Ok(process(None, Some(vec![]), Some("htop")))).unwrap().unwrap();
    assert_eq!(p.command, "htop");
    assert!(fetch_pane_process(Ok(process(None, None, Some(" \t")))).unwrap().is_none());
    assert!(fetch_pane_process(Ok(process(None, Some(vec![" "]), None))).unwrap().is_none());
    assert_eq!(fetch_pane_process(Err(failed())).err(), Some(failed()));
}

#[test]
fn test_fetch_cwd_map_prefers_shell_cwd() {
    let mut p1 = pane("p-1", "ws-1", "t-1", false);
    p1.cwd = Some("/a".into());
    p1.foreground_cwd = Some("/a".into());
    let mut p2 = pane("p-2", "ws-1", "t-1", false);
    p2.cwd = Some("/b".into());
    p2.foreground_cwd = Some("/b".into());
    let mut p3 = pane("p-3", "ws-1", "t-1", false);
    p3.foreground_cwd = Some("/only-fg".into());
    let map = fetch_cwd_map(Ok(PaneListResult { panes: vec![p1, p2, p3, pane("p-4", "w", "t", false)] })).unwrap();
    assert_eq!(map.get("p-1").map(String::as_str), Some("/a"));
    assert_eq!(map.get("p-2").map(String::as_str), Some("/b"));
    assert_eq!(map.get("p-3").map(String::as_str), Some("/only-fg"));
    assert!(!map.contains_key("p-4"));
}

#[test]
fn test_refresh_others_fills_command_ssh_cwd() {
    let mut shell = pane("p-shell", "ws-1", "t-1", false);
    shell.cwd = Some("/home/lex".into());
    shell.foreground_cwd = Some("/home/lex".into());
    let mut ssh = pane("p-ssh", "ws-1", "t-1", false);
    ssh.cwd = Some("/work".into());
    ssh.foreground_cwd = Some("/work".into());
    let mut agent = pane("p-agent", "ws-1", "t-1", false);
    agent.agent = Some("aider".into());
    agent.cwd = Some("/agentws".into());
    let panes = PaneListResult { panes: vec![shell, ssh, agent] };
    let asked = RefCell::new(Vec::new());
    let fetch = |id: &str| -> Result<ProcessInfoResult, IpcError> {
        asked.borrow_mut().push(id.to_string());
        match id {
            "p-shell" => Ok(process(Some("-zsh"), None, Some("zsh"))),
            "p-ssh" => Ok(process(Some("ssh -p 2200 lex@10.0.0.9"), None, Some("ssh"))),
            _ => panic!("unexpected process-info request for {id}"),
        }
    };
    let nodes = vec![node("p-shell", None), node("p-ssh", None), node("p-agent", Some("aider"))];

    let mut map = StringHashMap::new();
    let updated = refresh_others(&nodes, &mut map, Ok(panes), fetch).unwrap();
    assert_eq!(updated, 2);
    assert_eq!(*asked.borrow(), vec!["p-shell".to_string(), "p-ssh".to_string()]);
    let shell_entry = map.get("p-shell").unwrap();
    assert_eq!(shell_entry.cwd.as_deref(), Some("/home/lex"));
    assert_eq!(shell_entry.command.as_deref(), Some("-zsh"));
    assert_eq!(shell_entry.ssh_target, None);
    let ssh_entry = map.get("p-ssh").unwrap();
    assert_eq!(ssh_entry.cwd.as_deref(), Some("/work"));
    assert_eq!(ssh_entry.command.as_deref(), Some("ssh -p 2200 lex@10.0.0.9"));
    assert_eq!(ssh_entry.ssh_target.as_deref(), Some("lex@10.0.0.9:2200"));
    assert!(!map.contains_key("p-agent"));
}

#[test]
fn test_refresh_others_keeps_cached_commands_and_counts_new_ones() {
    let mut map = StringHashMap::new();
    let mut cached = herdr_recent_navigator::models::PaneOthers::default();
    cached.command = Some("htop".into());
    cached.cwd = Some("/old".into());
    map.insert("p-a".to_string(), cached);
    let nodes = vec![node("p-a", None), node("p-b", None), node("p-c", None), node("p-b", None)];
    let calls = RefCell::new(0);
    let fetch = |id: &str| -> Result<ProcessInfoResult, IpcError> {
        *calls.borrow_mut() += 1;
        match id {
            "p-b" => Ok(process(Some("cargo test"), None, Some("cargo"))),
            _ => Ok(ProcessInfoResult { process_info: None }),
        }
    };
    let updated = refresh_others(&nodes, &mut map, Ok(PaneListResult { panes: vec![] }), fetch).unwrap();
    assert_eq!(updated, 1);
    assert_eq!(*calls.borrow(), 2, "p-a is cached, p-b is asked once, p-c once");
    assert_eq!(map.get("p-a").unwrap().command.as_deref(), Some("htop"));
    assert_eq!(map.get("p-a").unwrap().cwd.as_deref(), Some("/old"));
    assert_eq!(map.get("p-b").unwrap().command.as_deref(), Some("cargo test"));
    assert_eq!(map.get("p-c").unwrap().command, None);
    assert_eq!(map.len(), 3);

    let res = refresh_others(&nodes, &mut map, Err(failed()), |_: &str| -> Result<ProcessInfoResult, IpcError> {
        panic!("no request after a failed pane list")
    });
    assert_eq!(res.err(), Some(failed()));
}

// ── pane content (content search) ──

#[test]
fn test_fetch_pane_content_strips_ansi_and_trims() {
    let content = fetch_pane_content(Ok("\x1b[38;5;1mline one\x1b[0m\nline two\n".to_string())).unwrap().unwrap();
    assert_eq!(content, "line one\nline two\n");
}

#[test]
fn test_fetch_pane_content_empty_returns_none() {
    assert!(fetch_pane_content(Ok("   \n \x1b[0m  \n".to_string())).unwrap().is_none());
    assert_eq!(fetch_pane_content(Err(failed())).err(), Some(failed()));
}

#[test]
fn test_refresh_contents_skips_cached_agent_and_self() {
    let nodes = vec![
        node("p-shell", None),
        node("p-agent", Some("aider")),
        node("self", None),
        node("p-cached", None),
    ];
    let calls = RefCell::new(Vec::new());
    let fetch = |id: &str| -> Result<String, IpcError> {
        calls.borrow_mut().push(id.to_string());
        Ok("buffered text\n".to_string())
    };

    let mut map = StringHashMap::new();
    map.insert("p-cached".to_string(), "old cached content".to_string());
    let updated = refresh_contents(&nodes, &mut map, Some("self"), &fetch).unwrap();
    assert_eq!(updated, 1);
    assert_eq!(*calls.borrow(), vec!["p-shell".to_string()]);
    assert_eq!(map.get("p-shell").map(String::as_str), Some("buffered text\n"));
    assert_eq!(map.get("p-cached").map(String::as_str), Some("old cached content"));
    assert!(!map.contains_key("p-agent"));
    assert!(!map.contains_key("self"));

    // A second pass performs zero fetches (all cached now).
    let updated = refresh_contents(&nodes, &mut map, Some("self"), &fetch).unwrap();
    assert_eq!(updated, 0);
    assert_eq!(calls.borrow().len(), 1);
}

#[test]
fn test_refresh_contents_caps_on_char_boundary() {
    let nodes = vec![node("p-big", None), node("p-none", None)];
    let big: String = "界".repeat(CONTENT_CAP + 10);
    let fetch = |id: &str| -> Result<String, IpcError> {
        if id == "p-big" { Ok(big.clone()) } else { Err(failed()) }
    };
    let mut map = StringHashMap::new();
    let updated = refresh_contents(&nodes, &mut map, None, fetch).unwrap();
    assert_eq!(updated, 1);
    assert_eq!(map.get("p-big").unwrap().chars().count(), CONTENT_CAP);
    assert!(!map.contains_key("p-none"));
}

// ── focus requests ──

#[test]
fn test_focus_workspace_success() {
    let seen = RefCell::new(Vec::new());
    let run = |args: Vec<String>| -> Result<(), IpcError> {
        seen.borrow_mut().push(args);
        Ok(())
    };
    let result = focus_workspace("ws-1", run);
    assert!(result.is_ok());
    assert_eq!(*seen.borrow(), vec![vec!["workspace".to_string(), "focus".to_string(), "ws-1".to_string()]]);
}

#[test]
fn test_focus_workspace_failure() {
    let result = focus_workspace("ws-1", |_: Vec<String>| -> Result<(), IpcError> { Err(failed()) });
    assert!(result.is_err());
}

#[test]
fn test_focus_tab_and_pane_requests() {
    let seen = RefCell::new(Vec::new());
    let run = |args: Vec<String>| -> Result<(), IpcError> {
        seen.borrow_mut().push(args.join(" "));
        Ok(())
    };
    focus_tab("w1:t2", &run).unwrap();
    focus_pane("w1:p3", &run).unwrap();
    assert_eq!(*seen.borrow(), vec!["tab focus w1:t2".to_string(), "pane zoom w1:p3 --off".to_string()]);
}

// ── RPC method mapping ──

#[test]
fn test_args_to_method_process_info() {
    let mapped = args_to_method(&["pane", "process-info", "--pane", "w1:p2"]);
    assert!(mapped.is_some());
    let (method, params) = mapped.unwrap();
    assert_eq!(method, "pane.process_info");
    assert_eq!(params, vec![("pane_id".to_string(), "w1:p2".to_string())]);
}

#[test]
fn test_args_to_method_all_commands() {
    let s = |a: &str, b: &str| (a.to_string(), b.to_string());
    assert_eq!(args_to_method(&["workspace", "list"]), Some(("workspace.list", vec![])));
    assert_eq!(args_to_method(&["tab", "list"]), Some(("tab.list", vec![])));
    assert_eq!(args_to_method(&["pane", "list"]), Some(("pane.list", vec![])));
    assert_eq!(args_to_method(&["workspace", "focus", "w1"]), Some(("workspace.focus", vec![s("workspace_id", "w1")])));
    assert_eq!(args_to_method(&["tab", "focus", "t1"]), Some(("tab.focus", vec![s("tab_id", "t1")])));
    assert_eq!(
        args_to_method(&["pane", "zoom", "p1", "--off"]),
        Some(("pane.zoom", vec![s("mode", "off"), s("pane_id", "p1")]))
    );
    assert_eq!(
        args_to_method(&["tab", "list", "--workspace", "w1"]),
        Some(("tab.list", vec![s("workspace_id", "w1")]))
    );
    assert_eq!(args_to_method(&["pane", "read", "p1", "--source", "recent-unwrapped"]), None);
    assert_eq!(args_to_method(&["pane", "zoom", "p1"]), None);
    assert_eq!(args_to_method(&[]), None);
}

#[test]
fn test_rpc_request_line_without_params() {
    assert_eq!(
        rpc_request_line("pane.list", &vec![]),
        "{\"id\":\"req_1\",\"jsonrpc\":\"2.0\",\"method\":\"pane.list\",\"params\":{}}\n"
    );
}

#[test]
fn test_rpc_request_line_for_zoom_matches_serde_json() {
    let (method, params) = args_to_method(&["pane", "zoom", "w1:p3", "--off"]).unwrap();
    let line = rpc_request_line(method, &params);
    assert_eq!(
        line,
        "{\"id\":\"req_1\",\"jsonrpc\":\"2.0\",\"method\":\"pane.zoom\",\"params\":{\"mode\":\"off\",\"pane_id\":\"w1:p3\"}}\n"
    );
    let mut ps = serde_json::Map::new();
    ps.insert("pane_id".to_string(), serde_json::Value::String("w1:p3".to_string()));
    ps.insert("mode".to_string(), serde_json::Value::String("off".to_string()));
    let mut req = serde_json::Map::new();
    req.insert("jsonrpc".to_string(), serde_json::Value::String("2.0".to_string()));
    req.insert("id".to_string(), serde_json::Value::String("req_1".to_string()));
    req.insert("method".to_string(), serde_json::Value::String("pane.zoom".to_string()));
    req.insert("params".to_string(), serde_json::Value::Object(ps));
    let expected = serde_json::to_string(&serde_json::Value::Object(req)).unwrap() + "\n";
    assert_eq!(line, expected);
}

#[test]
fn test_rpc_request_line_escapes_strings() {
    let params = vec![("pane_id".to_string(), "a\"b\\c\n\u{1}".to_string())];
    assert_eq!(
        rpc_request_line("tab.focus", &params),
        "{\"id\":\"req_1\",\"jsonrpc\":\"2.0\",\"method\":\"tab.focus\",\"params\":{\"pane_id\":\"a\\\"b\\\\c\\n\\u0001\"}}\n"
    );
}

fn envelope(error: Option<&str>, result: Option<&str>) -> RpcEnvelope {
    RpcEnvelope { error: error.map(|e| e.to_string()), result: result.map(|r| r.to_string()) }
}

#[test]
fn test_rpc_answer_of_result() {
    let res = rpc_answer_of("tab.list", "{\"result\":{}}\n", Ok(envelope(None, Some("{\"tabs\":[]}"))));
    assert_eq!(res, Ok("{\"tabs\":[]}".to_string()));
}

#[test]
fn test_rpc_answer_of_empty_line() {
    let res = rpc_answer_of("pane.list", "", Err("EOF while parsing a value".to_string()));
    assert_eq!(res, Err(IpcError::Request("UDS: empty response from pane.list".to_string())));
}

#[test]
fn test_rpc_answer_of_invalid_json() {
    let res = rpc_answer_of("pane.list", "nope\n", Err("expected value".to_string()));
    assert_eq!(
        res,
        Err(IpcError::Request("UDS: invalid JSON from pane.list: expected value".to_string()))
    );
}

#[test]
fn test_rpc_answer_of_error_member() {
    let res = rpc_answer_of("pane.zoom", "{}\n", Ok(envelope(Some("String(\"boom\")"), Some("1"))));
    assert_eq!(
        res,
        Err(IpcError::Request("UDS RPC error on pane.zoom: String(\"boom\")".to_string()))
    );
}

#[test]
fn test_rpc_answer_of_missing_result() {
    let res = rpc_answer_of("tab.focus", "{}\n", Ok(envelope(None, None)));
    assert_eq!(
        res,
        Err(IpcError::Request("UDS: response missing result for tab.focus".to_string()))
    );
}

#[test]
fn test_refresh_contents_skips_blank_buffers_and_strips_ansi() {
    let nodes = vec![node("p-blank", None), node("p-text", None)];
    let read = |id: &str| -> Result<String, IpcError> {
        if id == "p-blank" {
            Ok("\x1b[0m  \n\t".to_string())
        } else {
            Ok("\x1b[1mbold\x1b[0m text\n".to_string())
        }
    };
    let mut map = StringHashMap::new();
    let updated = refresh_contents(&nodes, &mut map, None, read).unwrap();
    assert_eq!(updated, 1);
    assert!(!map.contains_key("p-blank"));
    assert_eq!(map.get("p-text").map(String::as_str), Some("bold text\n"));
}

#[test]
fn test_rpc_answer_reads_result_line() {
    let res = rpc_answer("tab.list", "{\"id\":\"req_1\",\"jsonrpc\":\"2.0\",\"result\":{\"tabs\":[]}}\n");
    assert_eq!(res, Ok("{\"tabs\":[]}".to_string()));
}

#[test]
fn test_rpc_answer_reads_error_member() {
    let res = rpc_answer("pane.zoom", "{\"error\":\"boom\",\"result\":1}\n");
    assert_eq!(res, Err(IpcError::Request("UDS RPC error on pane.zoom: String(\"boom\")".to_string())));
}

#[test]
fn test_rpc_answer_missing_result_and_empty_line() {
    assert_eq!(
        rpc_answer("tab.focus", "{\"id\":\"req_1\"}\n"),
        Err(IpcError::Request("UDS: response missing result for tab.focus".to_string()))
    );
    assert_eq!(
        rpc_answer("pane.list", ""),
        Err(IpcError::Request("UDS: empty response from pane.list".to_string()))
    );
}

#[test]
fn test_rpc_answer_invalid_json_line() {
    match rpc_answer("pane.list", "not json\n") {
        Err(IpcError::Request(m)) => assert!(m.starts_with("UDS: invalid JSON from pane.list: "), "{m}"),
        other => panic!("unexpected {other:?}"),
    }
}

