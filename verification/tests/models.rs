use herdr_recent_navigator::models::{
    parse_tabs, AgentStatus, CategoryTab, OtherSource, OthersFilter,
};

// ── CategoryTab::from_str ──

#[test]
fn test_category_tab_from_str_workspaces() {
    assert_eq!(
        "workspaces".parse::<CategoryTab>().unwrap(),
        CategoryTab::Workspaces
    );
}

#[test]
fn test_category_tab_from_str_tabs() {
    assert_eq!("tabs".parse::<CategoryTab>().unwrap(), CategoryTab::Tabs);
}

#[test]
fn test_category_tab_from_str_agents() {
    assert_eq!(
        "agents".parse::<CategoryTab>().unwrap(),
        CategoryTab::Agents
    );
}

#[test]
fn test_category_tab_from_str_panes() {
    assert_eq!("panes".parse::<CategoryTab>().unwrap(), CategoryTab::Panes);
}

#[test]
fn test_category_tab_from_str_all() {
    assert_eq!("all".parse::<CategoryTab>().unwrap(), CategoryTab::All);
    // Legacy name still maps to the All tab.
    assert_eq!("others".parse::<CategoryTab>().unwrap(), CategoryTab::All);
}

#[test]
fn test_category_tab_from_str_invalid() {
    assert!("invalid".parse::<CategoryTab>().is_err());
}

#[test]
fn test_category_tab_from_str_case_sensitive() {
    assert!("Workspaces".parse::<CategoryTab>().is_err());
}

// ── parse_tabs ──

#[test]
fn test_parse_tabs_full_list_is_passthrough() {
    let all: Vec<String> = CategoryTab::all()
        .iter()
        .map(|t| t.label().to_lowercase())
        .collect();
    assert_eq!(parse_tabs(&all), CategoryTab::all().to_vec());
}

#[test]
fn test_parse_tabs_reorders_and_hides() {
    let spec = vec!["all".to_string(), "workspaces".to_string()];
    assert_eq!(
        parse_tabs(&spec),
        vec![CategoryTab::All, CategoryTab::Workspaces]
    );
}

#[test]
fn test_parse_tabs_dedupes_and_drops_unknown() {
    let spec = vec![
        "agents".to_string(),
        "nope".to_string(),
        " agents ".to_string(),
        "all".to_string(),
    ];
    assert_eq!(
        parse_tabs(&spec),
        vec![CategoryTab::Agents, CategoryTab::All]
    );
}

#[test]
fn test_parse_tabs_accepts_legacy_others_alias() {
    let spec = vec!["others".to_string(), "workspaces".to_string()];
    assert_eq!(
        parse_tabs(&spec),
        vec![CategoryTab::All, CategoryTab::Workspaces],
        "legacy `others` token maps to the All tab"
    );
}

#[test]
fn test_parse_tabs_empty_or_all_invalid_keeps_all() {
    assert_eq!(parse_tabs(&[]), vec![CategoryTab::All]);
    assert_eq!(parse_tabs(&["nope".to_string()]), vec![CategoryTab::All]);
}

// ── OthersFilter::parse ──

#[test]
fn test_others_filter_label_plus_space_activates() {
    assert_eq!(
        OthersFilter::parse("cmd deploy"),
        (Some(OthersFilter::Source(OtherSource::Cmd)), "deploy")
    );
    assert_eq!(
        OthersFilter::parse("ssh "),
        (Some(OthersFilter::Source(OtherSource::Ssh)), "")
    );
    assert_eq!(
        OthersFilter::parse("cwd /var/log"),
        (Some(OthersFilter::Source(OtherSource::Cwd)), "/var/log")
    );
    assert_eq!(
        OthersFilter::parse("ws auth"),
        (Some(OthersFilter::Workspace), "auth")
    );
    assert_eq!(OthersFilter::parse("tab "), (Some(OthersFilter::Tab), ""));
    assert_eq!(
        OthersFilter::parse("tab main"),
        (Some(OthersFilter::Tab), "main")
    );
    assert_eq!(
        OthersFilter::parse("pane nvim"),
        (Some(OthersFilter::Pane), "nvim")
    );
}

#[test]
fn test_others_filter_bare_label_stays_search_text() {
    assert_eq!(OthersFilter::parse("cmd"), (None, "cmd"));
    assert_eq!(OthersFilter::parse("ws"), (None, "ws"));
    assert_eq!(OthersFilter::parse("tab"), (None, "tab"));
    assert_eq!(OthersFilter::parse("pane"), (None, "pane"));
    assert_eq!(OthersFilter::parse("cmdx rest"), (None, "cmdx rest"));
    assert_eq!(OthersFilter::parse("tabx rest"), (None, "tabx rest"));
    assert_eq!(OthersFilter::parse("deploy cmd"), (None, "deploy cmd"));
    assert_eq!(OthersFilter::parse("deploy ws"), (None, "deploy ws"));
}

#[test]
fn test_others_filter_ws_tab_not_source_aliases() {
    assert_eq!(
        OthersFilter::parse("term "),
        (Some(OthersFilter::Source(OtherSource::Terminal)), "")
    );
    assert_eq!(OthersFilter::parse("tab "), (Some(OthersFilter::Tab), ""));
    assert_eq!(
        OthersFilter::parse("cmd deploy"),
        (Some(OthersFilter::Source(OtherSource::Cmd)), "deploy")
    );
}

#[test]
fn test_others_filter_labels() {
    assert_eq!(OthersFilter::Content.label(), "content");
    assert_eq!(OthersFilter::Workspace.label(), "ws");
    assert_eq!(OthersFilter::Tab.label(), "tab");
    assert_eq!(OthersFilter::Pane.label(), "pane");
    assert_eq!(
        OthersFilter::Source(OtherSource::Ssh).label(),
        OtherSource::Ssh.label()
    );
}

#[test]
fn test_others_filter_dot_and_dot_label_combo() {
    assert_eq!(
        OthersFilter::parse(".deploy"),
        (Some(OthersFilter::Content), "deploy")
    );
    assert_eq!(
        OthersFilter::parse(".file todo"),
        (Some(OthersFilter::Source(OtherSource::File)), "todo")
    );
}

// ── OtherSource ──

#[test]
fn test_other_source_labels() {
    assert_eq!(OtherSource::Ssh.label(), "ssh");
    assert_eq!(OtherSource::Cmd.label(), "cmd");
    assert_eq!(OtherSource::Cwd.label(), "cwd");
    assert_eq!(OtherSource::File.label(), "file");
    assert_eq!(OtherSource::Terminal.label(), "term");
}

#[test]
fn test_other_source_priority_order() {
    assert!(OtherSource::Ssh.priority() < OtherSource::Cmd.priority());
    assert!(OtherSource::Cmd.priority() < OtherSource::File.priority());
    assert!(OtherSource::File.priority() < OtherSource::Cwd.priority());
}

// ── AgentStatus ──

#[test]
fn test_agent_status_is_active_working() {
    assert!(AgentStatus::Working.is_active());
}

#[test]
fn test_agent_status_is_active_done() {
    assert!(!AgentStatus::Done.is_active());
}

#[test]
fn test_agent_status_is_active_blocked() {
    assert!(!AgentStatus::Blocked.is_active());
}

#[test]
fn test_agent_status_is_active_idle() {
    assert!(!AgentStatus::Idle.is_active());
}

#[test]
fn test_agent_status_is_active_none() {
    assert!(!AgentStatus::NoAgent.is_active());
}

#[test]
fn test_parse_tabs_keeps_at_most_five() {
    let spec: Vec<String> = ["all", "agents", "panes", "tabs", "workspaces", "all", "tabs"]
        .iter()
        .map(|s| s.to_string())
        .collect();
    let tabs = parse_tabs(&spec);
    assert_eq!(tabs.len(), 5);
}
