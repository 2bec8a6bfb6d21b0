use herdr_recent_navigator::models::{
    AgentStatus, AppState, CategoryTab, DisplayItem, OtherSource, OthersFilter, WORKTREE_SEP,
};

#[test]
fn test_sort_keys() {
    let tab = DisplayItem::Tab {
        name: "main".into(),
        workspace: "api".into(),
        tab_id: "t1".into(),
        pane_ids: vec![],
        agent_statuses: vec![],
        last_accessed_at: 5,
    };
    assert_eq!(tab.sort_key(), "api:main");
    let other = DisplayItem::Other {
        pane_id: "p".into(),
        pane_name: "zsh".into(),
        tab: "t".into(),
        workspace: "w".into(),
        source: OtherSource::Cwd,
        detail: "/tmp".into(),
        context: "-".into(),
        last_accessed_at: 0,
    };
    assert_eq!(other.sort_key(), "4zsh");
    assert_eq!(other.search_text(), "cwd /tmp zsh t w");
}

#[test]
fn test_search_texts() {
    let pane = DisplayItem::Pane {
        pane_id: "p".into(),
        pane_name: "vim".into(),
        tab: "edit".into(),
        workspace: "api".into(),
        agent_id: None,
        status: AgentStatus::NoAgent,
        last_accessed_at: 0,
    };
    assert_eq!(pane.search_text(), "vim edit api ");
    assert_eq!(pane.sort_key(), "vim");
    let agent = DisplayItem::Agent {
        agent_id: "aider".into(),
        status: AgentStatus::Working,
        pane_id: "p".into(),
        tab: "edit".into(),
        workspace: "api".into(),
        last_accessed_at: 0,
    };
    assert_eq!(agent.search_text(), "aider edit api");
    assert_eq!(agent.sort_key(), "aider");
    let ws = DisplayItem::Workspace {
        name: format!("repo{}feat", WORKTREE_SEP),
        id: "w".into(),
        pane_ids: vec![],
        agent_statuses: vec![],
        last_accessed_at: 0,
    };
    assert_eq!(ws.search_text(), "repo ⎇ feat");
}

#[test]
fn test_category_labels_and_state_round_trip() {
    for t in CategoryTab::all() {
        let data = AppState::category_state(&t).unwrap();
        assert_eq!(data, format!("\"{}\"", t.label()));
        assert_eq!(AppState::category_from_state(&data), Some(t));
        assert_eq!(AppState::category_from_state(&format!("  {}\n", data)), Some(t));
    }
    assert_eq!(AppState::category_from_state("Tabs"), Some(CategoryTab::Tabs));
    assert_eq!(AppState::category_from_state("\"tabs\""), None);
    assert_eq!(AppState::category_from_state(""), None);
}

#[test]
fn test_others_filter_round_trip_examples() {
    for f in [
        OthersFilter::Source(OtherSource::Ssh),
        OthersFilter::Source(OtherSource::Cmd),
        OthersFilter::Source(OtherSource::Terminal),
        OthersFilter::Source(OtherSource::File),
        OthersFilter::Source(OtherSource::Cwd),
        OthersFilter::Workspace,
        OthersFilter::Tab,
        OthersFilter::Pane,
    ] {
        let q = format!("{} needle x", f.label());
        assert_eq!(OthersFilter::parse(&q), (Some(f), "needle x"));
        let q = format!(".{} needle", f.label());
        assert_eq!(OthersFilter::parse(&q), (Some(f), "needle"));
    }
    assert_eq!(OthersFilter::parse("."), (Some(OthersFilter::Content), ""));
    assert_eq!(OthersFilter::parse(""), (None, ""));
}

#[test]
fn test_priority_matches_all_order() {
    for (i, src) in OtherSource::ALL.iter().enumerate() {
        assert_eq!(src.priority() as usize, i);
    }
    assert_eq!(CategoryTab::COUNT, CategoryTab::all().len());
}
