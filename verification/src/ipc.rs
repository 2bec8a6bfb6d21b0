//! What the navigator makes of herdr's answers: navigation nodes from the
//! workspace, tab and pane lists, focused-pane info, pane commands, working
//! directories and buffers, and the requests that focus a target.
//!
//! The requests themselves (a JSON-RPC call over herdr's socket, or the
//! `herdr` command) are made by the caller, which hands the answers in; the
//! JSON-RPC request line and the reading of its answer line are made here.
use vstd::hash_map::StringHashMap;
use vstd::prelude::*;

use crate::models::{
    empty_others, json_encode_str, json_string_literal, AgentStatus, NavigationNode, PaneOthers,
    WORKTREE_SEP,
};
use crate::others::{parse_ssh_target, ssh_target, strip_ansi, strip_ansi_text};
use crate::text::{
    after_last, after_last_char, blank_str, is_blank, join, join_strings, owned_substring,
    str_eq, views,
};

verus! {

/// Why a request to herdr did not give the data asked for.
#[derive(Debug, Clone, PartialEq, Eq)]
pub enum IpcError {
    /// The request failed (no socket, the command failed, or its answer did
    /// not parse); the failure's message.
    Request(String),
    /// The pane list holds no focused pane.
    NoFocusedPane,
}

/// Information about the currently focused pane, captured during
/// `fetch_all_nodes()` to avoid a redundant request.
#[derive(Debug, Clone)]
pub struct FocusedPaneInfo {
    pub pane_id: String,
    pub tab_id: String,
    pub workspace_id: String,
    pub label: String,
}

/// The answer to `workspace list`.
#[derive(Debug, Clone)]
pub struct WorkspaceListResult {
    pub workspaces: Vec<WorkspaceInfo>,
}

/// One workspace of `workspace list`.
#[derive(Debug, Clone)]
pub struct WorkspaceInfo {
    pub workspace_id: String,
    pub label: String,
    pub worktree: Option<WorktreeInfo>,
}

/// The git worktree a workspace is checked out in.
#[derive(Debug, Clone)]
pub struct WorktreeInfo {
    pub is_linked_worktree: bool,
    pub repo_key: String,
    pub repo_name: String,
}

/// The answer to `pane list`.
#[derive(Debug, Clone)]
pub struct PaneListResult {
    pub panes: Vec<PaneInfo>,
}

/// One pane of `pane list`.
#[derive(Debug, Clone)]
pub struct PaneInfo {
    pub pane_id: String,
    pub workspace_id: String,
    pub tab_id: String,
    pub focused: bool,
    pub label: Option<String>,
    pub agent: Option<String>,
    pub agent_status: Option<AgentStatusWire>,
    pub title: Option<String>,
    pub cwd: Option<String>,
    pub foreground_cwd: Option<String>,
}

/// The answer to `pane process-info`.
#[derive(Debug, Clone)]
pub struct ProcessInfoResult {
    pub process_info: Option<ProcessInfo>,
}

/// One pane's process tree.
#[derive(Debug, Clone)]
pub struct ProcessInfo {
    pub foreground_processes: Vec<ForegroundProcess>,
}

/// A single foreground process of a pane.
#[derive(Debug, Clone)]
pub struct ForegroundProcess {
    pub argv: Option<Vec<String>>,
    pub cmdline: Option<String>,
    pub name: Option<String>,
}

/// The answer to `tab list`.
#[derive(Debug, Clone)]
pub struct TabListResult {
    pub tabs: Vec<TabInfo>,
}

/// One tab of `tab list`.
#[derive(Debug, Clone)]
pub struct TabInfo {
    pub tab_id: String,
    pub workspace_id: String,
    pub label: Option<String>,
}

/// Agent status as herdr reports it.
#[derive(Debug, Clone, Copy, PartialEq, Eq, Structural)]
pub enum AgentStatusWire {
    Idle,
    Working,
    Blocked,
    Done,
    Unknown,
}

/// The navigator's status for a reported one; an unknown status is no agent.
pub open spec fn status_of_wire(w: AgentStatusWire) -> AgentStatus {
    match w {
        AgentStatusWire::Working => AgentStatus::Working,
        AgentStatusWire::Blocked => AgentStatus::Blocked,
        AgentStatusWire::Done => AgentStatus::Done,
        AgentStatusWire::Idle => AgentStatus::Idle,
        AgentStatusWire::Unknown => AgentStatus::NoAgent,
    }
}

impl From<AgentStatusWire> for AgentStatus {
    fn from(w: AgentStatusWire) -> (res: Self) {
        match w {
            AgentStatusWire::Working => AgentStatus::Working,
            AgentStatusWire::Blocked => AgentStatus::Blocked,
            AgentStatusWire::Done => AgentStatus::Done,
            AgentStatusWire::Idle => AgentStatus::Idle,
            AgentStatusWire::Unknown => AgentStatus::NoAgent,
        }
    }
}

impl vstd::std_specs::convert::FromSpecImpl<AgentStatusWire> for AgentStatus {
    open spec fn obeys_from_spec() -> bool {
        true
    }

    open spec fn from_spec(w: AgentStatusWire) -> AgentStatus {
        status_of_wire(w)
    }
}

/// The text of an optional string.
pub open spec fn opt_view(o: Option<String>) -> Option<Seq<char>> {
    match o {
        Some(s) => Some(s@),
        None => None,
    }
}

/// The texts of a map's values.
pub open spec fn text_map(m: Map<Seq<char>, String>) -> Map<Seq<char>, Seq<char>> {
    m.map_values(|s: String| s@)
}

fn clone_opt(o: &Option<String>) -> (res: Option<String>)
    ensures
        res == *o,
{
    match o {
        Some(s) => Some(s.clone()),
        None => None,
    }
}

// ── Workspace labels ──

/// The label of the main-checkout workspace of each repository (the last
/// workspace listed for it wins).
pub open spec fn main_labels(ws: Seq<WorkspaceInfo>) -> Map<Seq<char>, Seq<char>>
    decreases ws.len(),
{
    if ws.len() == 0 {
        Map::empty()
    } else {
        let m = main_labels(ws.drop_last());
        let w = ws.last();
        match w.worktree {
            Some(t) => if !t.is_linked_worktree {
                m.insert(t.repo_key@, w.label@)
            } else {
                m
            },
            None => m,
        }
    }
}

/// A workspace's label as shown: a linked worktree is prefixed with its
/// main-checkout workspace label (or repo name when that workspace is absent).
pub open spec fn display_label(w: WorkspaceInfo, mains: Map<Seq<char>, Seq<char>>) -> Seq<char> {
    match w.worktree {
        Some(t) => if t.is_linked_worktree {
            (if mains.contains_key(t.repo_key@) {
                mains[t.repo_key@]
            } else {
                t.repo_name@
            }) + WORKTREE_SEP@ + w.label@
        } else {
            w.label@
        },
        None => w.label@,
    }
}

/// The shown label of each workspace id (the last workspace listed with an id wins).
pub open spec fn labels_over(ws: Seq<WorkspaceInfo>, mains: Map<Seq<char>, Seq<char>>) -> Map<
    Seq<char>,
    Seq<char>,
>
    decreases ws.len(),
{
    if ws.len() == 0 {
        Map::empty()
    } else {
        labels_over(ws.drop_last(), mains).insert(
            ws.last().workspace_id@,
            display_label(ws.last(), mains),
        )
    }
}

/// The shown label of each workspace id.
pub open spec fn workspace_label_map(ws: Seq<WorkspaceInfo>) -> Map<Seq<char>, Seq<char>> {
    labels_over(ws, main_labels(ws))
}

fn display_label_of(w: &WorkspaceInfo, mains: &StringHashMap<String>) -> (res: String)
    ensures
        res@ == display_label(*w, text_map(mains@)),
{
    match &w.worktree {
        Some(t) => {
            if t.is_linked_worktree {
                let mut label = match mains.get(t.repo_key.as_str()) {
                    Some(l) => l.clone(),
                    None => t.repo_name.clone(),
                };
                label.append(WORKTREE_SEP);
                label.append(w.label.as_str());
                label
            } else {
                w.label.clone()
            }
        },
        None => w.label.clone(),
    }
}

/// Workspace label as shown in the navigator: a linked git worktree is
/// prefixed with its main-checkout workspace label (or repo name when that
/// workspace is absent) so it groups under, and searches with, its repo.
fn workspace_labels(workspaces: &Vec<WorkspaceInfo>) -> (res: StringHashMap<String>)
    ensures
        text_map(res@) == workspace_label_map(workspaces@),
{
    let mut mains: StringHashMap<String> = StringHashMap::new();
    let mut i: usize = 0;
    while i < workspaces.len()
        invariant
            i <= workspaces@.len(),
            text_map(mains@) == main_labels(workspaces@.take(i as int)),
        decreases workspaces@.len() - i,
    {
        proof {
            assert(workspaces@.take(i + 1).drop_last() =~= workspaces@.take(i as int));
            assert(workspaces@.take(i + 1).last() == workspaces@[i as int]);
        }
        let w = &workspaces[i];
        match &w.worktree {
            Some(t) => {
                if !t.is_linked_worktree {
                    let ghost before = mains@;
                    mains.insert(t.repo_key.clone(), w.label.clone());
                    assert(text_map(mains@) =~= text_map(before).insert(t.repo_key@, w.label@));
                }
            },
            None => {},
        }
        i += 1;
    }
    assert(workspaces@.take(workspaces@.len() as int) =~= workspaces@);
    let mut labels: StringHashMap<String> = StringHashMap::new();
    let mut j: usize = 0;
    assert(text_map(labels@) =~= Map::empty());
    while j < workspaces.len()
        invariant
            j <= workspaces@.len(),
            text_map(mains@) == main_labels(workspaces@),
            text_map(labels@) == labels_over(workspaces@.take(j as int), main_labels(workspaces@)),
        decreases workspaces@.len() - j,
    {
        proof {
            assert(workspaces@.take(j + 1).drop_last() =~= workspaces@.take(j as int));
            assert(workspaces@.take(j + 1).last() == workspaces@[j as int]);
        }
        let w = &workspaces[j];
        let label = display_label_of(w, &mains);
        let ghost before = labels@;
        labels.insert(w.workspace_id.clone(), label);
        assert(text_map(labels@) =~= text_map(before).insert(w.workspace_id@, label@));
        j += 1;
    }
    labels
}

// ── Navigation nodes ──

/// The last tab listed with the given workspace and tab ids.
pub open spec fn last_tab_for(tabs: Seq<TabInfo>, ws: Seq<char>, tab: Seq<char>) -> Option<TabInfo>
    decreases tabs.len(),
{
    if tabs.len() == 0 {
        None
    } else if tabs.last().workspace_id@ == ws && tabs.last().tab_id@ == tab {
        Some(tabs.last())
    } else {
        last_tab_for(tabs.drop_last(), ws, tab)
    }
}

/// The name given to a tab without a label: `tab-` and what follows the
/// last `:` of its id.
pub open spec fn default_tab_name(tab_id: Seq<char>) -> Seq<char> {
    "tab-"@ + after_last(tab_id, ':')
}

/// The name shown for the tab of a pane.
pub open spec fn tab_display_name(tabs: Seq<TabInfo>, ws: Seq<char>, tab: Seq<char>) -> Seq<char> {
    match last_tab_for(tabs, ws, tab) {
        Some(t) => match t.label {
            Some(l) => l@,
            None => default_tab_name(t.tab_id@),
        },
        None => default_tab_name(tab),
    }
}

/// A pane's label, or else its title.
pub open spec fn label_or_title(p: PaneInfo) -> Option<Seq<char>> {
    match p.label {
        Some(l) => Some(l@),
        None => opt_view(p.title),
    }
}

/// The name shown for a pane: its label, or else its title, unless that is
/// empty; `untitled` otherwise.
pub open spec fn pane_display_name(p: PaneInfo) -> Seq<char> {
    match label_or_title(p) {
        Some(n) => if n.len() > 0 {
            n
        } else {
            "untitled"@
        },
        None => "untitled"@,
    }
}

/// The agent status of a pane.
pub open spec fn pane_status(s: Option<AgentStatusWire>) -> AgentStatus {
    match s {
        Some(w) => status_of_wire(w),
        None => AgentStatus::NoAgent,
    }
}

/// `n` is the navigation node of pane `p`, given the shown workspace labels
/// and the tab list.
pub open spec fn node_of_pane(
    n: NavigationNode,
    p: PaneInfo,
    labels: Map<Seq<char>, Seq<char>>,
    tabs: Seq<TabInfo>,
) -> bool {
    &&& n.workspace_id == p.workspace_id
    &&& n.workspace_name@ == (if labels.contains_key(p.workspace_id@) {
        labels[p.workspace_id@]
    } else {
        Seq::empty()
    })
    &&& n.tab_id == p.tab_id
    &&& n.tab_name@ == tab_display_name(tabs, p.workspace_id@, p.tab_id@)
    &&& n.pane_id == p.pane_id
    &&& opt_view(n.pane_name) == Some(pane_display_name(p))
    &&& n.agent_id == p.agent
    &&& n.agent_status == pane_status(p.agent_status)
    &&& n.last_accessed_at == 0
}

/// `f` describes the focused pane `p`.
pub open spec fn focus_of_pane(f: FocusedPaneInfo, p: PaneInfo) -> bool {
    &&& f.pane_id == p.pane_id
    &&& f.tab_id == p.tab_id
    &&& f.workspace_id == p.workspace_id
    &&& f.label@ == match label_or_title(p) {
        Some(l) => l,
        None => Seq::empty(),
    }
}

/// The last pane of the list that is focused.
pub open spec fn last_focused(panes: Seq<PaneInfo>) -> Option<PaneInfo>
    decreases panes.len(),
{
    if panes.len() == 0 {
        None
    } else if panes.last().focused {
        Some(panes.last())
    } else {
        last_focused(panes.drop_last())
    }
}

/// The first pane of the list that is focused.
pub open spec fn first_focused(panes: Seq<PaneInfo>) -> Option<PaneInfo>
    decreases panes.len(),
{
    if panes.len() == 0 {
        None
    } else if panes[0].focused {
        Some(panes[0])
    } else {
        first_focused(panes.drop_first())
    }
}

/// The panes of a pane-list answer; none when the request failed.
pub open spec fn panes_of(r: Result<PaneListResult, IpcError>) -> Seq<PaneInfo> {
    match r {
        Ok(l) => l.panes@,
        Err(_) => Seq::empty(),
    }
}

/// The tabs of a tab-list answer; none when the request failed.
pub open spec fn tabs_of(r: Result<TabListResult, IpcError>) -> Seq<TabInfo> {
    match r {
        Ok(l) => l.tabs@,
        Err(_) => Seq::empty(),
    }
}

proof fn lemma_last_tab_for_take(tabs: Seq<TabInfo>, ws: Seq<char>, tab: Seq<char>, j: int)
    requires
        0 <= j <= tabs.len(),
        forall|k: int|
            j <= k < tabs.len() ==> !(#[trigger] tabs[k].workspace_id@ == ws && tabs[k].tab_id@
                == tab),
    ensures
        last_tab_for(tabs, ws, tab) == last_tab_for(tabs.take(j), ws, tab),
    decreases tabs.len() - j,
{
    if j < tabs.len() {
        let t = tabs.drop_last();
        assert(!(tabs[tabs.len() - 1].workspace_id@ == ws && tabs[tabs.len() - 1].tab_id@ == tab));
        assert forall|k: int|
            j <= k < t.len() implies !(#[trigger] t[k].workspace_id@ == ws && t[k].tab_id@
                == tab) by {
            assert(t[k] == tabs[k]);
        }
        lemma_last_tab_for_take(t, ws, tab, j);
        assert(t.take(j) =~= tabs.take(j));
    } else {
        assert(tabs.take(j) =~= tabs);
    }
}

fn default_tab_name_of(tab_id: &String) -> (res: String)
    ensures
        res@ == default_tab_name(tab_id@),
{
    let mut name = String::from_str("tab-");
    name.append(after_last_char(tab_id.as_str(), ':'));
    name
}

fn tab_name_for(tabs: &Vec<TabInfo>, ws: &String, tab: &String) -> (res: String)
    ensures
        res@ == tab_display_name(tabs@, ws@, tab@),
{
    let mut j: usize = tabs.len();
    assert(tabs@.take(j as int) =~= tabs@);
    while j > 0
        invariant
            j <= tabs@.len(),
            last_tab_for(tabs@, ws@, tab@) == last_tab_for(tabs@.take(j as int), ws@, tab@),
        decreases j,
    {
        let t = &tabs[j - 1];
        proof {
            let p = tabs@.take(j as int);
            assert(p.last() == tabs@[j - 1]);
            assert(p.drop_last() =~= tabs@.take(j - 1));
        }
        if t.workspace_id == *ws && t.tab_id == *tab {
            return match &t.label {
                Some(l) => l.clone(),
                None => default_tab_name_of(&t.tab_id),
            };
        }
        j -= 1;
    }
    default_tab_name_of(tab)
}

fn label_or_title_of(p: &PaneInfo) -> (res: Option<String>)
    ensures
        opt_view(res) == label_or_title(*p),
{
    match &p.label {
        Some(l) => Some(l.clone()),
        None => clone_opt(&p.title),
    }
}

fn focus_info_of(p: &PaneInfo) -> (res: FocusedPaneInfo)
    ensures
        focus_of_pane(res, *p),
{
    let label = match label_or_title_of(p) {
        Some(l) => l,
        None => String::new(),
    };
    FocusedPaneInfo {
        pane_id: p.pane_id.clone(),
        tab_id: p.tab_id.clone(),
        workspace_id: p.workspace_id.clone(),
        label,
    }
}

fn node_for(p: &PaneInfo, labels: &StringHashMap<String>, tabs: &Vec<TabInfo>) -> (res:
    NavigationNode)
    ensures
        node_of_pane(res, *p, text_map(labels@), tabs@),
{
    let agent_status = match &p.agent_status {
        Some(s) => AgentStatus::from(*s),
        None => AgentStatus::NoAgent,
    };
    let pane_name = match label_or_title_of(p) {
        Some(n) => {
            if n.as_str().unicode_len() > 0 {
                n
            } else {
                String::from_str("untitled")
            }
        },
        None => String::from_str("untitled"),
    };
    let workspace_name = match labels.get(p.workspace_id.as_str()) {
        Some(l) => l.clone(),
        None => String::new(),
    };
    NavigationNode {
        workspace_id: p.workspace_id.clone(),
        workspace_name,
        tab_id: p.tab_id.clone(),
        tab_name: tab_name_for(tabs, &p.workspace_id, &p.tab_id),
        pane_id: p.pane_id.clone(),
        pane_name: Some(pane_name),
        agent_id: clone_opt(&p.agent),
        agent_status,
        last_accessed_at: 0,
    }
}

/// Build the navigation nodes from herdr's workspace, tab and pane lists
/// (one node per pane, in list order), with the focused pane's info. A
/// failed workspace list fails the whole; a failed tab or pane list counts
/// as empty.
pub fn fetch_all_nodes(
    workspaces: Result<WorkspaceListResult, IpcError>,
    tabs: Result<TabListResult, IpcError>,
    panes: Result<PaneListResult, IpcError>,
) -> (res: Result<(Vec<NavigationNode>, Option<FocusedPaneInfo>), IpcError>)
    ensures
        workspaces matches Err(e) ==> res == Err::<
            (Vec<NavigationNode>, Option<FocusedPaneInfo>),
            IpcError,
        >(e),
        workspaces matches Ok(w) ==> res matches Ok(r) && {
            let ps = panes_of(panes);
            &&& r.0@.len() == ps.len()
            &&& forall|i: int|
                0 <= i < ps.len() ==> node_of_pane(
                    #[trigger] r.0@[i],
                    ps[i],
                    workspace_label_map(w.workspaces@),
                    tabs_of(tabs),
                )
            &&& match last_focused(ps) {
                Some(p) => r.1 matches Some(f) && focus_of_pane(f, p),
                None => r.1 is None,
            }
        },
{
    let ws_list = match workspaces {
        Ok(w) => w,
        Err(e) => return Err(e),
    };
    let all_tabs: Vec<TabInfo> = match tabs {
        Ok(t) => t.tabs,
        Err(_) => Vec::new(),
    };
    let all_panes: Vec<PaneInfo> = match panes {
        Ok(p) => p.panes,
        Err(_) => Vec::new(),
    };
    let ws_labels = workspace_labels(&ws_list.workspaces);
    let mut nodes: Vec<NavigationNode> = Vec::new();
    let mut active: Option<FocusedPaneInfo> = None;
    let mut i: usize = 0;
    while i < all_panes.len()
        invariant
            i <= all_panes@.len(),
            all_panes@ == panes_of(panes),
            all_tabs@ == tabs_of(tabs),
            text_map(ws_labels@) == workspace_label_map(ws_list.workspaces@),
            nodes@.len() == i,
            forall|k: int|
                0 <= k < i ==> node_of_pane(
                    #[trigger] nodes@[k],
                    all_panes@[k],
                    text_map(ws_labels@),
                    all_tabs@,
                ),
            match last_focused(all_panes@.take(i as int)) {
                Some(p) => active matches Some(f) && focus_of_pane(f, p),
                None => active is None,
            },
        decreases all_panes@.len() - i,
    {
        let pane = &all_panes[i];
        proof {
            let p = all_panes@.take(i + 1);
            assert(p.last() == all_panes@[i as int]);
            assert(p.drop_last() =~= all_panes@.take(i as int));
        }
        if pane.focused {
            active = Some(focus_info_of(pane));
        }
        nodes.push(node_for(pane, &ws_labels, &all_tabs));
        i += 1;
    }
    assert(all_panes@.take(all_panes@.len() as int) =~= all_panes@);
    Ok((nodes, active))
}

/// Fetch the currently focused pane's info from a pane list: the first
/// focused pane's (pane_id, tab_id, workspace_id, label), the label being
/// the pane's label, or else its title, or else empty.
pub fn fetch_focused_pane_info(panes: Result<PaneListResult, IpcError>) -> (res: Result<
    (String, String, String, String),
    IpcError,
>)
    ensures
        panes matches Err(e) ==> res == Err::<(String, String, String, String), IpcError>(e),
        panes matches Ok(l) ==> match first_focused(l.panes@) {
            Some(p) => res matches Ok(r) && r.0 == p.pane_id && r.1 == p.tab_id && r.2
                == p.workspace_id && r.3@ == match label_or_title(p) {
                Some(t) => t,
                None => Seq::empty(),
            },
            None => res == Err::<(String, String, String, String), IpcError>(
                IpcError::NoFocusedPane,
            ),
        },
{
    let list = match panes {
        Ok(l) => l,
        Err(e) => return Err(e),
    };
    let mut i: usize = 0;
    assert(list.panes@.skip(0) =~= list.panes@);
    while i < list.panes.len()
        invariant
            i <= list.panes@.len(),
            panes == Ok::<PaneListResult, IpcError>(list),
            first_focused(list.panes@) == first_focused(list.panes@.skip(i as int)),
        decreases list.panes@.len() - i,
    {
        let p = &list.panes[i];
        proof {
            let s = list.panes@.skip(i as int);
            assert(s[0] == list.panes@[i as int]);
            assert(s.drop_first() =~= list.panes@.skip(i + 1));
        }
        if p.focused {
            let info = focus_info_of(p);
            return Ok((info.pane_id, info.tab_id, info.workspace_id, info.label));
        }
        i += 1;
    }
    Err(IpcError::NoFocusedPane)
}

/// The first tab of the list with the given id.
pub open spec fn first_tab_with_id(tabs: Seq<TabInfo>, id: Seq<char>) -> Option<TabInfo>
    decreases tabs.len(),
{
    if tabs.len() == 0 {
        None
    } else if tabs[0].tab_id@ == id {
        Some(tabs[0])
    } else {
        first_tab_with_id(tabs.drop_first(), id)
    }
}

/// Fetch the label for a given tab_id from the tab list of its workspace:
/// the label of the first tab listed with that id.
pub fn fetch_tab_name(tab_id: &str, tabs: Result<TabListResult, IpcError>) -> (res: Option<
    String,
>)
    ensures
        opt_view(res) == match tabs {
            Ok(l) => match first_tab_with_id(l.tabs@, tab_id@) {
                Some(t) => opt_view(t.label),
                None => None,
            },
            Err(_) => None,
        },
{
    let list = match tabs {
        Ok(l) => l,
        Err(_) => return None,
    };
    let mut i: usize = 0;
    assert(list.tabs@.skip(0) =~= list.tabs@);
    while i < list.tabs.len()
        invariant
            i <= list.tabs@.len(),
            tabs == Ok::<TabListResult, IpcError>(list),
            first_tab_with_id(list.tabs@, tab_id@) == first_tab_with_id(
                list.tabs@.skip(i as int),
                tab_id@,
            ),
        decreases list.tabs@.len() - i,
    {
        let t = &list.tabs[i];
        proof {
            let s = list.tabs@.skip(i as int);
            assert(s[0] == list.tabs@[i as int]);
            assert(s.drop_first() =~= list.tabs@.skip(i + 1));
        }
        if str_eq(t.tab_id.as_str(), tab_id) {
            return clone_opt(&t.label);
        }
        i += 1;
    }
    None
}

/// The first workspace of the list with the given id.
pub open spec fn first_workspace_with_id(ws: Seq<WorkspaceInfo>, id: Seq<char>) -> Option<
    WorkspaceInfo,
>
    decreases ws.len(),
{
    if ws.len() == 0 {
        None
    } else if ws[0].workspace_id@ == id {
        Some(ws[0])
    } else {
        first_workspace_with_id(ws.drop_first(), id)
    }
}

/// Fetch the label for a given workspace_id from the workspace list: the
/// label of the first workspace listed with that id.
pub fn fetch_workspace_name(
    workspace_id: &str,
    workspaces: Result<WorkspaceListResult, IpcError>,
) -> (res: Option<String>)
    ensures
        opt_view(res) == match workspaces {
            Ok(l) => match first_workspace_with_id(l.workspaces@, workspace_id@) {
                Some(w) => Some(w.label@),
                None => None,
            },
            Err(_) => None,
        },
{
    let list = match workspaces {
        Ok(l) => l,
        Err(_) => return None,
    };
    let mut i: usize = 0;
    assert(list.workspaces@.skip(0) =~= list.workspaces@);
    while i < list.workspaces.len()
        invariant
            i <= list.workspaces@.len(),
            workspaces == Ok::<WorkspaceListResult, IpcError>(list),
            first_workspace_with_id(list.workspaces@, workspace_id@) == first_workspace_with_id(
                list.workspaces@.skip(i as int),
                workspace_id@,
            ),
        decreases list.workspaces@.len() - i,
    {
        let w = &list.workspaces[i];
        proof {
            let s = list.workspaces@.skip(i as int);
            assert(s[0] == list.workspaces@[i as int]);
            assert(s.drop_first() =~= list.workspaces@.skip(i + 1));
        }
        if str_eq(w.workspace_id.as_str(), workspace_id) {
            return Some(w.label.clone());
        }
        i += 1;
    }
    None
}

// ── Pane runtime state ──

/// The recognized foreground command line of a pane.
#[derive(Debug, Clone)]
pub struct PaneProcess {
    pub command: String,
}

/// The command line of a foreground process: its `cmdline` unless that is
/// blank, else its `argv` joined by spaces unless that is empty, else its
/// name unless that is blank; empty otherwise.
pub open spec fn process_command(pr: ForegroundProcess) -> Seq<char> {
    match pr.cmdline {
        Some(c) if !is_blank(c@) => c@,
        _ => match pr.argv {
            Some(a) if a.len() > 0 => join(views(a@), " "@),
            _ => match pr.name {
                Some(n) if !is_blank(n@) => n@,
                _ => Seq::empty(),
            },
        },
    }
}

/// The command line of a pane's first foreground process; empty when it has none.
pub open spec fn foreground_command(r: ProcessInfoResult) -> Seq<char> {
    match r.process_info {
        Some(pi) => if pi.foreground_processes.len() > 0 {
            process_command(pi.foreground_processes@[0])
        } else {
            Seq::empty()
        },
        None => Seq::empty(),
    }
}

/// A process's command line is its `cmdline` when that is not blank; else
/// its `argv` joined with single spaces when that is not empty; else its
/// name when that is not blank; else empty.
pub proof fn law_process_command_order(pr: ForegroundProcess)
    ensures
        pr.cmdline matches Some(c) ==> (!is_blank(c@) ==> process_command(pr) == c@),
        !(pr.cmdline matches Some(c) && !is_blank(c@)) ==> (pr.argv matches Some(a) ==> (a@.len()
            > 0 ==> process_command(pr) == join(views(a@), seq![' ']))),
        !(pr.cmdline matches Some(c) && !is_blank(c@)) && !(pr.argv matches Some(a) && a@.len()
            > 0) ==> (pr.name matches Some(n) ==> (!is_blank(n@) ==> process_command(pr) == n@)),
        !(pr.cmdline matches Some(c) && !is_blank(c@)) && !(pr.argv matches Some(a) && a@.len()
            > 0) && !(pr.name matches Some(n) && !is_blank(n@)) ==> process_command(pr)
            == Seq::<char>::empty(),
{
    reveal_strlit(" ");
    assert(" "@ =~= seq![' ']);
}

/// The command comes from the first foreground process alone: when its
/// `cmdline` is not blank, the command is that `cmdline`, whatever the later
/// processes are; two answers with the same first process give the same
/// command; an answer with no process gives an empty command.
pub proof fn law_foreground_command_first_process(r: ProcessInfoResult, q: ProcessInfoResult)
    ensures
        r.process_info matches Some(pi) ==> (pi.foreground_processes@.len() > 0 ==> (
        pi.foreground_processes@[0].cmdline matches Some(c) ==> (!is_blank(c@)
            ==> foreground_command(r) == c@))),
        r.process_info matches Some(pi) ==> (q.process_info matches Some(qi) ==> (
        pi.foreground_processes@.len() > 0 && qi.foreground_processes@.len() > 0
            && pi.foreground_processes@[0] == qi.foreground_processes@[0] ==> foreground_command(
            r,
        ) == foreground_command(q))),
        r.process_info matches Some(pi) ==> (pi.foreground_processes@.len() == 0
            ==> foreground_command(r) == Seq::<char>::empty()),
        r.process_info is None ==> foreground_command(r) == Seq::<char>::empty(),
{
}

fn command_of(pr: &ForegroundProcess) -> (res: String)
    ensures
        res@ == process_command(*pr),
{
    match &pr.cmdline {
        Some(c) => {
            if !blank_str(c.as_str()) {
                return c.clone();
            }
        },
        None => {},
    }
    match &pr.argv {
        Some(a) => {
            if a.len() > 0 {
                return join_strings(a, " ");
            }
        },
        None => {},
    }
    match &pr.name {
        Some(n) => {
            if !blank_str(n.as_str()) {
                return n.clone();
            }
        },
        None => {},
    }
    String::new()
}

/// The foreground command line of a pane from its `pane process-info`
/// answer; `None` when the pane has no foreground process or the command
/// is blank.
pub fn fetch_pane_process(result: Result<ProcessInfoResult, IpcError>) -> (res: Result<
    Option<PaneProcess>,
    IpcError,
>)
    ensures
        result matches Err(e) ==> res == Err::<Option<PaneProcess>, IpcError>(e),
        result matches Ok(r) ==> (if is_blank(foreground_command(r)) {
            res matches Ok(None)
        } else {
            res matches Ok(Some(p)) && p.command@ == foreground_command(r)
        }),
{
    let info = match result {
        Ok(r) => r,
        Err(e) => return Err(e),
    };
    let command = match &info.process_info {
        Some(pi) => {
            if pi.foreground_processes.len() > 0 {
                command_of(&pi.foreground_processes[0])
            } else {
                String::new()
            }
        },
        None => String::new(),
    };
    if blank_str(command.as_str()) {
        Ok(None)
    } else {
        Ok(Some(PaneProcess { command }))
    }
}

/// A pane's working directory: its shell's `cwd`, else its foreground `cwd`.
pub open spec fn pane_cwd(p: PaneInfo) -> Option<Seq<char>> {
    match p.cwd {
        Some(c) => Some(c@),
        None => opt_view(p.foreground_cwd),
    }
}

/// The working directory of each pane id (the last pane listed with an id wins).
pub open spec fn cwd_map(panes: Seq<PaneInfo>) -> Map<Seq<char>, Seq<char>>
    decreases panes.len(),
{
    if panes.len() == 0 {
        Map::empty()
    } else {
        let m = cwd_map(panes.drop_last());
        match pane_cwd(panes.last()) {
            Some(c) => m.insert(panes.last().pane_id@, c),
            None => m,
        }
    }
}

/// A reported agent status other than `Unknown` becomes the navigator
/// status of the same name; `Unknown` becomes no agent. No two reported
/// statuses other than `Unknown` become the same status.
pub proof fn law_status_of_wire_keeps_names(w: AgentStatusWire, v: AgentStatusWire)
    ensures
        w == AgentStatusWire::Working <==> status_of_wire(w) == AgentStatus::Working,
        w == AgentStatusWire::Idle <==> status_of_wire(w) == AgentStatus::Idle,
        w == AgentStatusWire::Blocked <==> status_of_wire(w) == AgentStatus::Blocked,
        w == AgentStatusWire::Done <==> status_of_wire(w) == AgentStatus::Done,
        w == AgentStatusWire::Unknown <==> status_of_wire(w) == AgentStatus::NoAgent,
        w != v ==> status_of_wire(w) != status_of_wire(v),
{
}

/// A pane that reports a shell `cwd` has that directory, whatever its
/// foreground `cwd`; the foreground `cwd` counts only when the shell's is
/// absent.
pub proof fn law_pane_cwd_prefers_shell(p: PaneInfo)
    ensures
        p.cwd matches Some(c) ==> pane_cwd(p) == Some(c@),
        p.cwd is None ==> pane_cwd(p) == (match p.foreground_cwd {
            Some(f) => Some(f@),
            None => None::<Seq<char>>,
        }),
{
}

/// In the cwd map of a pane list, the entry of the pane listed last with an
/// id is that pane's shell `cwd` when it reports one, else its foreground
/// `cwd`; with neither, the id has no entry from that pane (nor from any
/// later one).
pub proof fn law_cwd_map_entry(panes: Seq<PaneInfo>, i: int)
    requires
        0 <= i < panes.len(),
        forall|j: int| i < j < panes.len() ==> (#[trigger] panes[j]).pane_id@ != panes[i].pane_id@,
    ensures
        panes[i].cwd matches Some(c) ==> cwd_map(panes).contains_key(panes[i].pane_id@) && cwd_map(
            panes,
        )[panes[i].pane_id@] == c@,
        panes[i].foreground_cwd matches Some(f) ==> (panes[i].cwd is None ==> cwd_map(
            panes,
        ).contains_key(panes[i].pane_id@) && cwd_map(panes)[panes[i].pane_id@] == f@),
        panes[i].cwd is None && panes[i].foreground_cwd is None ==> (cwd_map(panes).contains_key(
            panes[i].pane_id@,
        ) == cwd_map(panes.take(i)).contains_key(panes[i].pane_id@) && (cwd_map(panes).contains_key(
            panes[i].pane_id@,
        ) ==> cwd_map(panes)[panes[i].pane_id@] == cwd_map(panes.take(i))[panes[i].pane_id@])),
    decreases panes.len(),
{
    let k = panes[i].pane_id@;
    if i == panes.len() - 1 {
        assert(panes.drop_last() =~= panes.take(i));
        assert(panes.take(i + 1) =~= panes);
    } else {
        let rest = panes.drop_last();
        assert forall|j: int| i < j < rest.len() implies (#[trigger] rest[j]).pane_id@ != k by {
            assert(rest[j] == panes[j]);
        }
        law_cwd_map_entry(rest, i);
        assert(rest[i] == panes[i]);
        assert(rest.take(i + 1) =~= panes.take(i + 1));
        assert(rest.take(i) =~= panes.take(i));
        assert(panes.last().pane_id@ != k);
    }
}

/// The current working directory of every pane of a pane list that has
/// one; the shell's `cwd` is preferred to `foreground_cwd`.
pub fn fetch_cwd_map(panes: Result<PaneListResult, IpcError>) -> (res: Result<
    StringHashMap<String>,
    IpcError,
>)
    ensures
        panes matches Err(e) ==> res matches Err(e2) && e2 == e,
        panes matches Ok(l) ==> res matches Ok(m) && text_map(m@) == cwd_map(l.panes@),
{
    let list = match panes {
        Ok(l) => l,
        Err(e) => return Err(e),
    };
    let mut map: StringHashMap<String> = StringHashMap::new();
    let mut i: usize = 0;
    assert(text_map(map@) =~= Map::empty());
    while i < list.panes.len()
        invariant
            i <= list.panes@.len(),
            text_map(map@) == cwd_map(list.panes@.take(i as int)),
        decreases list.panes@.len() - i,
    {
        proof {
            assert(list.panes@.take(i + 1).drop_last() =~= list.panes@.take(i as int));
            assert(list.panes@.take(i + 1).last() == list.panes@[i as int]);
        }
        let p = &list.panes[i];
        let cwd = match &p.cwd {
            Some(c) => Some(c.clone()),
            None => clone_opt(&p.foreground_cwd),
        };
        match cwd {
            Some(c) => {
                let ghost before = map@;
                map.insert(p.pane_id.clone(), c);
                assert(text_map(map@) =~= text_map(before).insert(p.pane_id@, c@));
            },
            None => {},
        }
        i += 1;
    }
    assert(list.panes@.take(list.panes@.len() as int) =~= list.panes@);
    Ok(map)
}

/// The pane ids of the nodes that are not agent panes.
pub open spec fn plain_pane_ids(nodes: Seq<NavigationNode>) -> Set<Seq<char>> {
    Set::new(
        |k: Seq<char>|
            exists|i: int|
                0 <= i < nodes.len() && (#[trigger] nodes[i]).agent_id is None && nodes[i].pane_id@
                    == k,
    )
}

/// A pane's entry of the All-tab state, or the empty entry when it has none.
pub open spec fn entry_or_empty(m: Map<Seq<char>, PaneOthers>, k: Seq<char>) -> PaneOthers {
    if m.contains_key(k) {
        m[k]
    } else {
        empty_others()
    }
}

/// An entry with its working directory taken from `cwds` when that holds the pane.
pub open spec fn with_cwd(e: PaneOthers, cwds: Map<Seq<char>, String>, k: Seq<char>) -> PaneOthers {
    PaneOthers {
        cwd: if cwds.contains_key(k) {
            Some(cwds[k])
        } else {
            e.cwd
        },
        command: e.command,
        ssh_target: e.ssh_target,
    }
}

/// `process_info` answered the `pane process-info` request for pane `k`
/// with a foreground command line that is not blank and is `c`.
pub open spec fn answered_command<F: Fn(&str) -> Result<ProcessInfoResult, IpcError>>(
    process_info: F,
    k: Seq<char>,
    c: String,
) -> bool {
    exists|s: &str, r: ProcessInfoResult|
        s@ == k && #[trigger] call_ensures(process_info, (s,), Ok::<ProcessInfoResult, IpcError>(r))
            && !is_blank(foreground_command(r)) && foreground_command(r) == c@
}

/// A `pane process-info` answer that gives no command: a failed request, or
/// a blank foreground command line.
pub open spec fn gives_no_process(r: Result<ProcessInfoResult, IpcError>) -> bool {
    match r {
        Ok(i) => is_blank(foreground_command(i)),
        Err(_) => true,
    }
}

/// `process_info` answered the `pane process-info` request for pane `k`
/// with no command (or failed).
pub open spec fn answered_no_process<F: Fn(&str) -> Result<ProcessInfoResult, IpcError>>(
    process_info: F,
    k: Seq<char>,
) -> bool {
    exists|s: &str, r: Result<ProcessInfoResult, IpcError>|
        s@ == k && #[trigger] call_ensures(process_info, (s,), r) && gives_no_process(r)
}

/// The panes of `ids` that had no command before and have one after.
pub open spec fn newly_commanded(
    before: Map<Seq<char>, PaneOthers>,
    after: Map<Seq<char>, PaneOthers>,
    ids: Set<Seq<char>>,
) -> Set<Seq<char>> {
    ids.filter(
        |k: Seq<char>| entry_or_empty(before, k).command is None && after[k].command is Some,
    )
}

proof fn lemma_plain_ids_step(nodes: Seq<NavigationNode>, i: int)
    requires
        0 <= i < nodes.len(),
    ensures
        forall|k: Seq<char>|
            #[trigger] plain_pane_ids(nodes.take(i + 1)).contains(k) <==> (plain_pane_ids(
                nodes.take(i),
            ).contains(k) || (nodes[i].agent_id is None && nodes[i].pane_id@ == k)),
{
    let a = nodes.take(i);
    let b = nodes.take(i + 1);
    assert forall|k: Seq<char>|
        #[trigger] plain_pane_ids(b).contains(k) <==> (plain_pane_ids(a).contains(k) || (
        nodes[i].agent_id is None && nodes[i].pane_id@ == k)) by {
        if plain_pane_ids(b).contains(k) {
            let j = choose|j: int|
                0 <= j < b.len() && (#[trigger] b[j]).agent_id is None && b[j].pane_id@ == k;
            if j < i {
                assert(a[j] == b[j]);
            }
        }
        if plain_pane_ids(a).contains(k) {
            let j = choose|j: int|
                0 <= j < a.len() && (#[trigger] a[j]).agent_id is None && a[j].pane_id@ == k;
            assert(b[j] == a[j]);
        }
        if nodes[i].agent_id is None && nodes[i].pane_id@ == k {
            assert(b[i] == nodes[i]);
        }
    }
}

fn copy_others(e: &PaneOthers) -> (res: PaneOthers)
    ensures
        res == *e,
{
    PaneOthers {
        cwd: clone_opt(&e.cwd),
        command: clone_opt(&e.command),
        ssh_target: clone_opt(&e.ssh_target),
    }
}

/// Refresh the lazy "All" state (cwd / command / ssh target) for non-agent
/// panes. `map` is mutated in place and may be pre-seeded (e.g. from a prior
/// refresh): existing command/ssh values are preserved to avoid re-polling.
///
/// `panes` is herdr's pane list, which gives every pane's cwd in one
/// request; `process_info` makes the `pane process-info` request for one
/// pane, once per non-agent pane that has no command yet, and its answer
/// gives the command as `fetch_pane_process` reads it. Agent panes never get
/// an entry. Returns how many panes gained a command.
pub fn refresh_others<F>(
    nodes: &[NavigationNode],
    map: &mut StringHashMap<PaneOthers>,
    panes: Result<PaneListResult, IpcError>,
    process_info: F,
) -> (res: Result<usize, IpcError>) where F: Fn(&str) -> Result<ProcessInfoResult, IpcError>
    requires
        forall|s: &str|
            panes is Ok && plain_pane_ids(nodes@).contains(s@) && entry_or_empty(old(map)@, s@).command
                is None ==> #[trigger] call_requires(process_info, (s,)),
    ensures
        panes matches Err(e) ==> (res matches Err(e2) && e2 == e && final(map)@ == old(map)@),
        panes matches Ok(l) ==> (res matches Ok(n) && {
            let ids = plain_pane_ids(nodes@);
            let cw = cwd_map(l.panes@);
            let before = old(map)@;
            let after = final(map)@;
            &&& after.dom() == before.dom().union(ids)
            &&& forall|k: Seq<char>|
                before.contains_key(k) && !ids.contains(k) ==> after[k] == before[k]
            &&& forall|k: Seq<char>|
                ids.contains(k) ==> opt_view(after[k].cwd) == (if cw.contains_key(k) {
                    Some(cw[k])
                } else {
                    opt_view(entry_or_empty(before, k).cwd)
                })
            &&& forall|k: Seq<char>|
                ids.contains(k) && entry_or_empty(before, k).command is Some ==> after[k].command
                    == entry_or_empty(before, k).command && after[k].ssh_target == entry_or_empty(
                    before,
                    k,
                ).ssh_target
            &&& forall|k: Seq<char>|
                ids.contains(k) && entry_or_empty(before, k).command is None && after[k].command is None
                    ==> after[k].ssh_target == entry_or_empty(before, k).ssh_target
                    && answered_no_process(process_info, k)
            &&& forall|k: Seq<char>|
                ids.contains(k) && entry_or_empty(before, k).command is None
                    && after[k].command is Some ==> answered_command(
                    process_info,
                    k,
                    after[k].command.unwrap(),
                ) && opt_view(after[k].ssh_target) == ssh_target(after[k].command.unwrap()@)
            &&& newly_commanded(before, after, ids).finite()
            &&& n == newly_commanded(before, after, ids).len()
        }),
{
    let ghost answer = panes;
    let cwds = match fetch_cwd_map(panes) {
        Ok(m) => m,
        Err(e) => return Err(e),
    };
    let ghost before = map@;
    let ghost ids = plain_pane_ids(nodes@);
    // Refresh cwd for all panes from the one pane list.
    let mut i: usize = 0;
    assert(nodes@.take(0) =~= Seq::<NavigationNode>::empty());
    assert(before.dom().union(plain_pane_ids(nodes@.take(0))) =~= before.dom());
    while i < nodes.len()
        invariant
            i <= nodes@.len(),
            map@.dom() == before.dom().union(plain_pane_ids(nodes@.take(i as int))),
            forall|k: Seq<char>|
                #[trigger] map@.contains_key(k) ==> map@[k] == (if plain_pane_ids(
                    nodes@.take(i as int),
                ).contains(k) {
                    with_cwd(entry_or_empty(before, k), cwds@, k)
                } else {
                    before[k]
                }),
        decreases nodes@.len() - i,
    {
        let n = &nodes[i];
        proof {
            lemma_plain_ids_step(nodes@, i as int);
        }
        if n.agent_id.is_none() {
            let mut entry = match map.get(n.pane_id.as_str()) {
                Some(e) => copy_others(e),
                None => PaneOthers::default(),
            };
            match cwds.get(n.pane_id.as_str()) {
                Some(c) => {
                    entry.cwd = Some(c.clone());
                },
                None => {},
            }
            map.insert(n.pane_id.clone(), entry);
        }
        proof {
            assert(map@.dom() =~= before.dom().union(plain_pane_ids(nodes@.take(i + 1))));
        }
        i += 1;
    }
    assert(nodes@.take(nodes@.len() as int) =~= nodes@);
    let ghost mid = map@;
    assert forall|k: Seq<char>| ids.contains(k) implies #[trigger] mid[k].command
        == entry_or_empty(before, k).command by {
        assert(mid.contains_key(k));
    }
    // Lazily fill command/ssh target (once per pane) from the process info.
    let mut updated: usize = 0;
    let ghost mut done: Set<Seq<char>> = Set::empty();
    let mut j: usize = 0;
    assert(nodes@.take(0) =~= Seq::<NavigationNode>::empty());
    while j < nodes.len()
        invariant
            j <= nodes@.len(),
            updated <= j,
            ids == plain_pane_ids(nodes@),
            forall|s: &str|
                ids.contains(s@) && entry_or_empty(before, s@).command is None
                    ==> #[trigger] call_requires(process_info, (s,)),
            forall|k: Seq<char>|
                ids.contains(k) ==> #[trigger] mid[k].command == entry_or_empty(before, k).command,
            mid.dom() == before.dom().union(ids),
            map@.dom() == mid.dom(),
            forall|k: Seq<char>|
                #[trigger] mid.contains_key(k) && !ids.contains(k) ==> map@[k] == mid[k],
            forall|k: Seq<char>| #[trigger] ids.contains(k) ==> map@[k].cwd == mid[k].cwd,
            forall|k: Seq<char>|
                #[trigger] ids.contains(k) && (mid[k].command is Some || map@[k].command is None)
                    ==> map@[k] == mid[k],
            forall|k: Seq<char>|
                #[trigger] ids.contains(k) && mid[k].command is None && map@[k].command is Some
                    ==> answered_command(process_info, k, map@[k].command.unwrap()) && opt_view(
                    map@[k].ssh_target,
                ) == ssh_target(map@[k].command.unwrap()@),
            forall|k: Seq<char>|
                #[trigger] plain_pane_ids(nodes@.take(j as int)).contains(k) && mid[k].command is None
                    && map@[k].command is None ==> answered_no_process(process_info, k),
            forall|k: Seq<char>|
                #[trigger] done.contains(k) <==> (ids.contains(k) && mid[k].command is None
                    && map@[k].command is Some),
            done.finite(),
            updated == done.len(),
        decreases nodes@.len() - j,
    {
        let n = &nodes[j];
        let ghost k = n.pane_id@;
        proof {
            lemma_plain_ids_step(nodes@, j as int);
            if n.agent_id is None {
                assert(ids.contains(k));
            }
        }
        if n.agent_id.is_none() {
            let entry = match map.get(n.pane_id.as_str()) {
                Some(e) => copy_others(e),
                None => PaneOthers::default(),
            };
            if entry.command.is_none() {
                proof {
                    assert(map@[k] == mid[k]);
                    assert(mid[k].command == entry_or_empty(before, k).command);
                }
                let id = n.pane_id.as_str();
                let raw = process_info(id);
                let ghost got = raw;
                let answer = fetch_pane_process(raw);
                proof {
                    match got {
                        Ok(r) => {
                            assert(call_ensures(
                                process_info,
                                (id,),
                                Ok::<ProcessInfoResult, IpcError>(r),
                            ));
                        },
                        Err(_) => {},
                    }
                    if !(answer matches Ok(Some(_))) {
                        assert(gives_no_process(got));
                    }
                }
                match answer {
                    Ok(Some(process)) => {
                        let command = process.command.clone();
                        let ssh = parse_ssh_target(process.command.as_str());
                        let new_entry = PaneOthers {
                            cwd: entry.cwd,
                            command: Some(command),
                            ssh_target: ssh,
                        };
                        map.insert(n.pane_id.clone(), new_entry);
                        proof {
                            assert(!done.contains(k));
                            done = done.insert(k);
                        }
                        updated += 1;
                    },
                    _ => {},
                }
            }
        }
        j += 1;
    }
    proof {
        let after = map@;
        assert forall|k: Seq<char>| ids.contains(k) implies mid[k] == with_cwd(
            entry_or_empty(before, k),
            cwds@,
            k,
        ) by {
            assert(mid.contains_key(k));
        }
        assert forall|k: Seq<char>| #[trigger] done.contains(k) <==> newly_commanded(before, after, ids).contains(k) by {
            if ids.contains(k) {
                assert(mid[k].command == entry_or_empty(before, k).command);
            }
        }
        assert(newly_commanded(before, after, ids) =~= done);
        assert(after.dom() =~= before.dom().union(ids));
        if let Ok(l) = answer {
            let cw = cwd_map(l.panes@);
            assert(text_map(cwds@) == cw);
            assert forall|k: Seq<char>| ids.contains(k) implies opt_view(after[k].cwd) == (
            if cw.contains_key(k) {
                Some(cw[k])
            } else {
                opt_view(entry_or_empty(before, k).cwd)
            }) by {
                if cwds@.contains_key(k) {
                    assert(text_map(cwds@)[k] == cwds@[k]@);
                }
            }
            assert forall|k: Seq<char>|
                ids.contains(k) && entry_or_empty(before, k).command is None && after[k].command is None
                    implies after[k].ssh_target == entry_or_empty(before, k).ssh_target
                    && answered_no_process(process_info, k) by {
                assert(plain_pane_ids(nodes@.take(nodes@.len() as int)).contains(k));
            }
            assert forall|k: Seq<char>|
                before.contains_key(k) && !ids.contains(k) implies after[k] == before[k] by {
                assert(mid.contains_key(k));
            }
        }
    }
    Ok(updated)
}

// ── Pane buffers ──

/// Maximum buffered characters per pane kept for content search.
/// Bounds the per-keystroke scan cost; herdr buffers are typically much smaller.
pub const CONTENT_CAP: usize = 256 * 1024;

/// A pane buffer as kept for content search: its first `CONTENT_CAP` characters.
pub open spec fn capped(c: Seq<char>) -> Seq<char> {
    if c.len() > CONTENT_CAP {
        c.take(CONTENT_CAP as int)
    } else {
        c
    }
}

/// Fetch a pane's terminal buffer as ANSI-stripped text from what
/// `herdr pane read` printed. Returns `None` when the pane has no readable
/// scrollback (the stripped text is blank).
pub fn fetch_pane_content(raw: Result<String, IpcError>) -> (res: Result<Option<String>, IpcError>)
    ensures
        raw matches Err(e) ==> res == Err::<Option<String>, IpcError>(e),
        raw matches Ok(r) ==> (if is_blank(strip_ansi_text(r@)) {
            res matches Ok(None)
        } else {
            res matches Ok(Some(c)) && c@ == strip_ansi_text(r@)
        }),
{
    let text = match raw {
        Ok(r) => r,
        Err(e) => return Err(e),
    };
    let stripped = strip_ansi(text.as_str());
    if blank_str(stripped.as_str()) {
        Ok(None)
    } else {
        Ok(Some(stripped))
    }
}

/// The text of an optional string slice.
pub open spec fn opt_str_view(o: Option<&str>) -> Option<Seq<char>> {
    match o {
        Some(s) => Some(s@),
        None => None,
    }
}

/// The pane ids whose buffers content search keeps: those of non-agent
/// nodes other than the navigator's own pane.
pub open spec fn content_pane_ids(nodes: Seq<NavigationNode>, self_id: Option<Seq<char>>) -> Set<
    Seq<char>,
> {
    Set::new(
        |k: Seq<char>|
            exists|i: int|
                0 <= i < nodes.len() && (#[trigger] nodes[i]).agent_id is None && nodes[i].pane_id@
                    == k && self_id != Some(k),
    )
}

/// `read_pane` answered the `pane read` request for pane `k` with text that,
/// stripped of ANSI sequences, is not blank and, capped, is `v`.
pub open spec fn answered_content<F: Fn(&str) -> Result<String, IpcError>>(
    read_pane: F,
    k: Seq<char>,
    v: Seq<char>,
) -> bool {
    exists|s: &str, raw: String|
        s@ == k && #[trigger] call_ensures(read_pane, (s,), Ok::<String, IpcError>(raw))
            && !is_blank(strip_ansi_text(raw@)) && capped(strip_ansi_text(raw@)) == v
}

/// A `pane read` answer that gives no buffer: a failed request, or text that
/// is blank once stripped of ANSI sequences.
pub open spec fn gives_no_content(r: Result<String, IpcError>) -> bool {
    match r {
        Ok(t) => is_blank(strip_ansi_text(t@)),
        Err(_) => true,
    }
}

/// `read_pane` answered the `pane read` request for pane `k` with no buffer
/// (or failed).
pub open spec fn answered_no_content<F: Fn(&str) -> Result<String, IpcError>>(
    read_pane: F,
    k: Seq<char>,
) -> bool {
    exists|s: &str, r: Result<String, IpcError>|
        s@ == k && #[trigger] call_ensures(read_pane, (s,), r) && gives_no_content(r)
}

proof fn lemma_content_ids_step(nodes: Seq<NavigationNode>, self_id: Option<Seq<char>>, i: int)
    requires
        0 <= i < nodes.len(),
    ensures
        forall|k: Seq<char>|
            #[trigger] content_pane_ids(nodes.take(i + 1), self_id).contains(k) <==> (
            content_pane_ids(nodes.take(i), self_id).contains(k) || (nodes[i].agent_id is None
                && nodes[i].pane_id@ == k && self_id != Some(k))),
{
    let a = nodes.take(i);
    let b = nodes.take(i + 1);
    assert forall|k: Seq<char>|
        #[trigger] content_pane_ids(b, self_id).contains(k) <==> (content_pane_ids(
            a,
            self_id,
        ).contains(k) || (nodes[i].agent_id is None && nodes[i].pane_id@ == k && self_id != Some(
            k,
        ))) by {
        if content_pane_ids(b, self_id).contains(k) {
            let j = choose|j: int|
                0 <= j < b.len() && (#[trigger] b[j]).agent_id is None && b[j].pane_id@ == k
                    && self_id != Some(k);
            if j < i {
                assert(a[j] == b[j]);
            }
        }
        if content_pane_ids(a, self_id).contains(k) {
            let j = choose|j: int|
                0 <= j < a.len() && (#[trigger] a[j]).agent_id is None && a[j].pane_id@ == k
                    && self_id != Some(k);
            assert(b[j] == a[j]);
        }
        if nodes[i].agent_id is None && nodes[i].pane_id@ == k && self_id != Some(k) {
            assert(b[i] == nodes[i]);
        }
    }
}

/// Refresh cached pane content for content search. Fetches only panes
/// missing from `map` (existing buffers are preserved); agent panes and the
/// navigator's own pane are skipped. `read_pane` makes the `pane read`
/// request for one pane, and its answer gives the buffer as
/// `fetch_pane_content` reads it; a buffer is kept capped to `CONTENT_CAP`
/// characters.
/// Returns how many panes were added.
pub fn refresh_contents<F>(
    nodes: &[NavigationNode],
    map: &mut StringHashMap<String>,
    self_pane_id: Option<&str>,
    read_pane: F,
) -> (res: Result<usize, IpcError>) where F: Fn(&str) -> Result<String, IpcError>
    requires
        forall|s: &str|
            content_pane_ids(nodes@, opt_str_view(self_pane_id)).contains(s@) && !old(
                map,
            )@.contains_key(s@) ==> #[trigger] call_requires(read_pane, (s,)),
    ensures
        res matches Ok(n) && {
            let eligible = content_pane_ids(nodes@, opt_str_view(self_pane_id));
            let before = old(map)@;
            let after = final(map)@;
            let added = after.dom().difference(before.dom());
            &&& forall|k: Seq<char>|
                before.contains_key(k) ==> after.contains_key(k) && after[k] == before[k]
            &&& forall|k: Seq<char>|
                added.contains(k) ==> eligible.contains(k) && answered_content(
                    read_pane,
                    k,
                    after[k]@,
                )
            &&& forall|k: Seq<char>|
                eligible.contains(k) && !after.contains_key(k) ==> answered_no_content(
                    read_pane,
                    k,
                )
            &&& added.finite()
            &&& n == added.len()
            &&& eligible.subset_of(before.dom()) ==> n == 0 && after == before
        },
{
    let ghost before = map@;
    let ghost self_id = opt_str_view(self_pane_id);
    let ghost eligible = content_pane_ids(nodes@, self_id);
    let ghost mut added: Set<Seq<char>> = Set::empty();
    let mut updated: usize = 0;
    let mut i: usize = 0;
    assert(nodes@.take(0) =~= Seq::<NavigationNode>::empty());
    while i < nodes.len()
        invariant
            i <= nodes@.len(),
            updated <= i,
            self_id == opt_str_view(self_pane_id),
            eligible == content_pane_ids(nodes@, self_id),
            forall|s: &str|
                eligible.contains(s@) && !before.contains_key(s@) ==> #[trigger] call_requires(
                    read_pane,
                    (s,),
                ),
            forall|k: Seq<char>|
                #[trigger] before.contains_key(k) ==> map@.contains_key(k) && map@[k] == before[k],
            forall|k: Seq<char>|
                #[trigger] added.contains(k) <==> (map@.contains_key(k) && !before.contains_key(k)),
            forall|k: Seq<char>|
                #[trigger] added.contains(k) ==> eligible.contains(k) && answered_content(
                    read_pane,
                    k,
                    map@[k]@,
                ),
            forall|k: Seq<char>|
                #[trigger] content_pane_ids(nodes@.take(i as int), self_id).contains(k)
                    && !map@.contains_key(k) ==> answered_no_content(read_pane, k),
            added.finite(),
            updated == added.len(),
        decreases nodes@.len() - i,
    {
        let n = &nodes[i];
        let ghost k = n.pane_id@;
        proof {
            lemma_content_ids_step(nodes@, self_id, i as int);
            if n.agent_id is None && self_id != Some(k) {
                assert(eligible.contains(k));
            }
        }
        let is_self = match self_pane_id {
            Some(s) => str_eq(s, n.pane_id.as_str()),
            None => false,
        };
        if n.agent_id.is_none() && !is_self && !map.contains_key(n.pane_id.as_str()) {
            let id = n.pane_id.as_str();
            let raw = read_pane(id);
            let ghost got = raw;
            let answer = fetch_pane_content(raw);
            proof {
                match got {
                    Ok(t) => {
                        assert(call_ensures(
                            read_pane,
                            (id,),
                            Ok::<String, IpcError>(t),
                        ));
                    },
                    Err(_) => {},
                }
                if !(answer matches Ok(Some(_))) {
                    assert(gives_no_content(got));
                }
            }
            match answer {
                Ok(Some(content)) => {
                    // Cap on a character boundary.
                    let kept = if content.as_str().unicode_len() > CONTENT_CAP {
                        owned_substring(content.as_str(), 0, CONTENT_CAP)
                    } else {
                        content
                    };
                    assert(kept@ == capped(content@));
                    map.insert(n.pane_id.clone(), kept);
                    proof {
                        added = added.insert(k);
                    }
                    updated += 1;
                },
                _ => {},
            }
        }
        i += 1;
    }
    proof {
        assert(nodes@.take(nodes@.len() as int) =~= nodes@);
        let after = map@;
        assert(after.dom().difference(before.dom()) =~= added);
        if eligible.subset_of(before.dom()) {
            assert(added =~= Set::empty());
            assert forall|k: Seq<char>| #[trigger] after.contains_key(k) implies before.contains_key(k) by {
                if !before.contains_key(k) {
                    assert(added.contains(k));
                }
            }
            assert(after.dom() =~= before.dom());
            assert(after =~= before);
        }
    }
    Ok(updated)
}

// ── Requests ──

/// The `herdr` arguments of a request, as texts.
pub open spec fn arg_texts(args: Seq<&str>) -> Seq<Seq<char>> {
    args.map_values(|a: &str| a@)
}

/// The JSON-RPC method and string parameters that stand for a `herdr`
/// command line, for the commands that have one; the parameters are listed
/// in the order of their keys, the order a JSON object of them is written in.
pub open spec fn rpc_for(args: Seq<Seq<char>>) -> Option<(Seq<char>, Seq<(Seq<char>, Seq<char>)>)> {
    if args == seq!["workspace"@, "list"@] {
        Some(("workspace.list"@, seq![]))
    } else if args == seq!["tab"@, "list"@] {
        Some(("tab.list"@, seq![]))
    } else if args == seq!["pane"@, "list"@] {
        Some(("pane.list"@, seq![]))
    } else if args.len() == 3 && args[0] == "workspace"@ && args[1] == "focus"@ {
        Some(("workspace.focus"@, seq![("workspace_id"@, args[2])]))
    } else if args.len() == 3 && args[0] == "tab"@ && args[1] == "focus"@ {
        Some(("tab.focus"@, seq![("tab_id"@, args[2])]))
    } else if args.len() == 4 && args[0] == "pane"@ && args[1] == "zoom"@ && args[3] == "--off"@ {
        Some(("pane.zoom"@, seq![("mode"@, "off"@), ("pane_id"@, args[2])]))
    } else if args.len() == 4 && args[0] == "pane"@ && args[1] == "process-info"@ && args[2]
        == "--pane"@ {
        Some(("pane.process_info"@, seq![("pane_id"@, args[3])]))
    } else if args.len() == 4 && args[0] == "tab"@ && args[1] == "list"@ && args[2]
        == "--workspace"@ {
        Some(("tab.list"@, seq![("workspace_id"@, args[3])]))
    } else {
        None
    }
}

/// The texts of string parameters.
pub open spec fn param_texts(ps: Seq<(String, String)>) -> Seq<(Seq<char>, Seq<char>)> {
    ps.map_values(|p: (String, String)| (p.0@, p.1@))
}

fn params0() -> (res: Vec<(String, String)>)
    ensures
        param_texts(res@) == Seq::<(Seq<char>, Seq<char>)>::empty(),
{
    let v: Vec<(String, String)> = Vec::new();
    assert(param_texts(v@) =~= Seq::<(Seq<char>, Seq<char>)>::empty());
    v
}

fn params1(k: &str, v: &str) -> (res: Vec<(String, String)>)
    ensures
        param_texts(res@) == seq![(k@, v@)],
{
    let out = vec![(String::from_str(k), String::from_str(v))];
    assert(param_texts(out@) =~= seq![(k@, v@)]);
    out
}

/// Map CLI-style args to JSON-RPC method name and params.
pub fn args_to_method(args: &[&str]) -> (res: Option<(&'static str, Vec<(String, String)>)>)
    ensures
        match res {
            Some(r) => rpc_for(arg_texts(args@)) == Some((r.0@, param_texts(r.1@))),
            None => rpc_for(arg_texts(args@)) is None,
        },
{
    let ghost a = arg_texts(args@);
    let n = args.len();
    assert(a.len() == n);
    if n == 2 {
        assert(a[0] == args@[0]@ && a[1] == args@[1]@);
        if str_eq(args[1], "list") {
            if str_eq(args[0], "workspace") {
                assert(a =~= seq!["workspace"@, "list"@]);
                return Some(("workspace.list", params0()));
            }
            if str_eq(args[0], "tab") {
                assert(a =~= seq!["tab"@, "list"@]);
                return Some(("tab.list", params0()));
            }
            if str_eq(args[0], "pane") {
                assert(a =~= seq!["pane"@, "list"@]);
                return Some(("pane.list", params0()));
            }
        }
        return None;
    }
    if n == 3 {
        assert(a[0] == args@[0]@ && a[1] == args@[1]@ && a[2] == args@[2]@);
        if str_eq(args[1], "focus") {
            if str_eq(args[0], "workspace") {
                return Some(("workspace.focus", params1("workspace_id", args[2])));
            }
            if str_eq(args[0], "tab") {
                return Some(("tab.focus", params1("tab_id", args[2])));
            }
        }
        return None;
    }
    if n == 4 {
        assert(a[0] == args@[0]@ && a[1] == args@[1]@ && a[2] == args@[2]@ && a[3]
            == args@[3]@);
        if str_eq(args[0], "pane") && str_eq(args[1], "zoom") && str_eq(args[3], "--off") {
            let ps = vec![
                (String::from_str("mode"), String::from_str("off")),
                (String::from_str("pane_id"), String::from_str(args[2])),
            ];
            assert(param_texts(ps@) =~= seq![("mode"@, "off"@), ("pane_id"@, args@[2]@)]);
            return Some(("pane.zoom", ps));
        }
        if str_eq(args[0], "pane") && str_eq(args[1], "process-info") && str_eq(
            args[2],
            "--pane",
        ) {
            return Some(("pane.process_info", params1("pane_id", args[3])));
        }
        if str_eq(args[0], "tab") && str_eq(args[1], "list") && str_eq(args[2], "--workspace") {
            return Some(("tab.list", params1("workspace_id", args[3])));
        }
        return None;
    }
    None
}

/// One member `"key":"value"` of a JSON object of string parameters.
pub open spec fn json_member(p: (Seq<char>, Seq<char>)) -> Seq<char> {
    json_string_literal(p.0) + ":"@ + json_string_literal(p.1)
}

/// The members of a JSON object of string parameters, in their order,
/// separated by commas.
pub open spec fn json_members(ps: Seq<(Seq<char>, Seq<char>)>) -> Seq<char> {
    join(ps.map_values(|p: (Seq<char>, Seq<char>)| json_member(p)), ","@)
}

/// The line sent over herdr's socket for a JSON-RPC request: the object
/// with members `id`, `jsonrpc`, `method` and `params` (in that order, which
/// is also the order of their keys), then a line feed.
pub open spec fn rpc_request_text(method: Seq<char>, params: Seq<(Seq<char>, Seq<char>)>) -> Seq<
    char,
> {
    "{\"id\":\"req_1\",\"jsonrpc\":\"2.0\",\"method\":"@ + json_string_literal(method)
        + ",\"params\":{"@ + json_members(params) + "}}\n"@
}

fn json_text(s: &str) -> (res: String)
    ensures
        res@ == json_string_literal(s@),
{
    match json_encode_str(s) {
        Ok(t) => t,
        Err(_) => String::new(),
    }
}

/// The JSON-RPC request line for `method` with string parameters `params`,
/// written in the order given.
pub fn rpc_request_line(method: &str, params: &Vec<(String, String)>) -> (res: String)
    ensures
        res@ == rpc_request_text(method@, param_texts(params@)),
{
    let ghost ps = param_texts(params@);
    let ghost ms = ps.map_values(|p: (Seq<char>, Seq<char>)| json_member(p));
    let mut members: Vec<String> = Vec::new();
    let mut i: usize = 0;
    while i < params.len()
        invariant
            i <= params@.len(),
            ps == param_texts(params@),
            ms == ps.map_values(|p: (Seq<char>, Seq<char>)| json_member(p)),
            members@.len() == i,
            forall|j: int| 0 <= j < i ==> #[trigger] members@[j]@ == ms[j],
        decreases params@.len() - i,
    {
        let mut m = json_text(params[i].0.as_str());
        m.append(":");
        let v = json_text(params[i].1.as_str());
        m.append(v.as_str());
        proof {
            assert(ps[i as int] == (params@[i as int].0@, params@[i as int].1@));
            assert(m@ == ms[i as int]);
        }
        members.push(m);
        i += 1;
    }
    assert(views(members@) =~= ms);
    let joined = join_strings(&members, ",");
    let mut line = String::from_str("{\"id\":\"req_1\",\"jsonrpc\":\"2.0\",\"method\":");
    let m = json_text(method);
    line.append(m.as_str());
    line.append(",\"params\":{");
    line.append(joined.as_str());
    line.append("}}\n");
    line
}

/// The parts of herdr's answer line that decide a JSON-RPC request's
/// outcome: the text of its `error` member and of its `result` member, where
/// it has them.
#[derive(Debug, Clone)]
pub struct RpcEnvelope {
    pub error: Option<String>,
    pub result: Option<String>,
}

/// The texts of an envelope, or of the parser's message.
pub open spec fn envelope_view(parsed: Result<RpcEnvelope, String>) -> Result<
    (Option<Seq<char>>, Option<Seq<char>>),
    Seq<char>,
> {
    match parsed {
        Ok(e) => Ok((opt_view(e.error), opt_view(e.result))),
        Err(m) => Err(m@),
    }
}

/// What `serde_json` makes of an answer line read as a JSON value: the
/// texts of its `error` member (as `Debug` writes the value) and of its
/// `result` member (as JSON), where it has them; or the parser's message.
pub uninterp spec fn rpc_envelope_of(line: Seq<char>) -> Result<
    (Option<Seq<char>>, Option<Seq<char>>),
    Seq<char>,
>;

/// Parses an answer line with `serde_json::from_str` into a
/// `serde_json::Value`, then takes `Value::get("error")` written with
/// `Debug` and `Value::get("result")` written with `to_string`; a parse
/// error gives its `Display` text. Claimed of it: the outcome is a function
/// of the line alone, named `rpc_envelope_of`; nothing more is stated of it.
#[verifier::external_body]
fn parse_rpc_envelope(line: &str) -> (res: Result<RpcEnvelope, String>)
    ensures
        envelope_view(res) == rpc_envelope_of(line@),
{
    match serde_json::from_str::<serde_json::Value>(line) {
        Ok(v) => Ok(RpcEnvelope {
            error: v.get("error").map(|e| format!("{e:?}")),
            result: v.get("result").map(|r| r.to_string()),
        }),
        Err(e) => Err(e.to_string()),
    }
}

/// What an answer line to a JSON-RPC request for `method` comes to, given
/// what reading it as JSON gave (`parsed`: the texts of its `error` and
/// `result` members, or the parser's message): an empty line, a line that is
/// no JSON, an `error` member or a missing `result` member is an error with
/// its message; otherwise the text of the `result` member.
pub open spec fn rpc_outcome(
    method: Seq<char>,
    line: Seq<char>,
    parsed: Result<(Option<Seq<char>>, Option<Seq<char>>), Seq<char>>,
) -> Result<Seq<char>, Seq<char>> {
    if line.len() == 0 {
        Err("UDS: empty response from "@ + method)
    } else {
        match parsed {
            Err(p) => Err("UDS: invalid JSON from "@ + method + ": "@ + p),
            Ok((error, result)) => match error {
                Some(x) => Err("UDS RPC error on "@ + method + ": "@ + x),
                None => match result {
                    Some(r) => Ok(r),
                    None => Err("UDS: response missing result for "@ + method),
                },
            },
        }
    }
}

/// The outcome as a result of texts.
pub open spec fn answer_view(res: Result<String, IpcError>) -> Option<Result<Seq<char>, Seq<char>>> {
    match res {
        Ok(t) => Some(Ok(t@)),
        Err(IpcError::Request(m)) => Some(Err(m@)),
        Err(IpcError::NoFocusedPane) => None,
    }
}

/// The outcome of a JSON-RPC request for `method` whose answer line is
/// `line`: the line is read as JSON (`rpc_envelope_of`), and the outcome is
/// `rpc_outcome` of what that gave.
pub fn rpc_answer(method: &str, line: &str) -> (res: Result<String, IpcError>)
    ensures
        answer_view(res) == Some(rpc_outcome(method@, line@, rpc_envelope_of(line@))),
{
    let parsed = parse_rpc_envelope(line);
    rpc_answer_of(method, line, parsed)
}

/// The outcome of a JSON-RPC request for `method` whose answer line is
/// `line` and reads, as JSON, as `parsed` (see `rpc_outcome`).
pub fn rpc_answer_of(method: &str, line: &str, parsed: Result<RpcEnvelope, String>) -> (res:
    Result<String, IpcError>)
    ensures
        answer_view(res) == Some(rpc_outcome(method@, line@, envelope_view(parsed))),
{
    if line.unicode_len() == 0 {
        let mut m = String::from_str("UDS: empty response from ");
        m.append(method);
        return Err(IpcError::Request(m));
    }
    match parsed {
        Err(p) => {
            let mut m = String::from_str("UDS: invalid JSON from ");
            m.append(method);
            m.append(": ");
            m.append(p.as_str());
            Err(IpcError::Request(m))
        },
        Ok(env) => match env.error {
            Some(x) => {
                let mut m = String::from_str("UDS RPC error on ");
                m.append(method);
                m.append(": ");
                m.append(x.as_str());
                Err(IpcError::Request(m))
            },
            None => match env.result {
                Some(r) => Ok(r),
                None => {
                    let mut m = String::from_str("UDS: response missing result for ");
                    m.append(method);
                    Err(IpcError::Request(m))
                },
            },
        },
    }
}

/// The `herdr` arguments as texts.
pub open spec fn string_texts(args: Vec<String>) -> Seq<Seq<char>> {
    views(args@)
}

/// `run` answered the request `args` with `res`.
pub open spec fn ran<F: Fn(Vec<String>) -> Result<(), IpcError>>(
    run: F,
    args: Seq<Seq<char>>,
    res: Result<(), IpcError>,
) -> bool {
    exists|a: Vec<String>| string_texts(a) == args && #[trigger] call_ensures(run, (a,), res)
}

fn run_focus<F>(args: Vec<String>, run: F) -> (res: Result<(), IpcError>) where
    F: Fn(Vec<String>) -> Result<(), IpcError>,

    requires
        call_requires(run, (args,)),
    ensures
        ran(run, string_texts(args), res),
{
    run(args)
}

fn three(a: &str, b: &str, c: &str) -> (res: Vec<String>)
    ensures
        string_texts(res) == seq![a@, b@, c@],
{
    let v = vec![String::from_str(a), String::from_str(b), String::from_str(c)];
    assert(string_texts(v) =~= seq![a@, b@, c@]);
    v
}

/// Focus a specific workspace: `run` makes the request
/// `workspace focus <workspace_id>`, and its answer is returned.
pub fn focus_workspace<F>(workspace_id: &str, run: F) -> (res: Result<(), IpcError>) where
    F: Fn(Vec<String>) -> Result<(), IpcError>,

    requires
        forall|a: Vec<String>|
            string_texts(a) == seq!["workspace"@, "focus"@, workspace_id@] ==> #[trigger] call_requires(run, (a,)),
    ensures
        ran(run, seq!["workspace"@, "focus"@, workspace_id@], res),
{
    run_focus(three("workspace", "focus", workspace_id), run)
}

/// Focus a specific tab: `run` makes the request `tab focus <tab_id>`, and
/// its answer is returned.
pub fn focus_tab<F>(tab_id: &str, run: F) -> (res: Result<(), IpcError>) where
    F: Fn(Vec<String>) -> Result<(), IpcError>,

    requires
        forall|a: Vec<String>|
            string_texts(a) == seq!["tab"@, "focus"@, tab_id@] ==> #[trigger] call_requires(run, (a,)),
    ensures
        ran(run, seq!["tab"@, "focus"@, tab_id@], res),
{
    run_focus(three("tab", "focus", tab_id), run)
}

/// Focus a specific pane: `run` makes the request
/// `pane zoom <pane_id> --off` (focusing without the toggle-zoom behaviour:
/// the pane never enters the zoomed state), and its answer is returned.
pub fn focus_pane<F>(pane_id: &str, run: F) -> (res: Result<(), IpcError>) where
    F: Fn(Vec<String>) -> Result<(), IpcError>,

    requires
        forall|a: Vec<String>|
            string_texts(a) == seq!["pane"@, "zoom"@, pane_id@, "--off"@] ==> #[trigger] call_requires(run, (a,)),
    ensures
        ran(run, seq!["pane"@, "zoom"@, pane_id@, "--off"@], res),
{
    let args = vec![
        String::from_str("pane"),
        String::from_str("zoom"),
        String::from_str(pane_id),
        String::from_str("--off"),
    ];
    assert(string_texts(args) =~= seq!["pane"@, "zoom"@, pane_id@, "--off"@]);
    run_focus(args, run)
}

} // verus!
