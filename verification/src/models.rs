//! The navigator's data model: agent states, category tabs, search filters,
//! display rows and key bindings.
use std::rc::Rc;

use vstd::hash_map::StringHashMap;
use vstd::prelude::*;

use crate::text::{
    chars_eq, chars_of, is_ws, rest_eq, str_eq, trim, trim_end, trim_start, has_label_then_space, label_then_space, trim_str, trim_ws, views,
    TrimSet,
};

verus! {

/// The status of an AI agent within a pane.
#[derive(Debug, Clone, PartialEq, Eq, Structural)]
pub enum AgentStatus {
    Working,
    Blocked,
    Done,
    Idle,
    /// Normal pane, no running AI agent.
    NoAgent,
}

impl AgentStatus {
    /// Returns true if the agent is actively doing work (Working status).
    pub fn is_active(&self) -> (res: bool)
        ensures
            res == (*self == AgentStatus::Working),
    {
        match self {
            AgentStatus::Working => true,
            _ => false,
        }
    }
}

/// Separates a linked worktree's repo/main-workspace label from its own label.
pub const WORKTREE_SEP: &'static str = " ⎇ ";

/// A composite navigation node representing a pane with its workspace/tab/agent context.
#[derive(Debug, Clone)]
pub struct NavigationNode {
    pub workspace_id: String,
    pub workspace_name: String,
    pub tab_id: String,
    pub tab_name: String,
    pub pane_id: String,
    pub pane_name: Option<String>,
    pub agent_id: Option<String>,
    pub agent_status: AgentStatus,
    /// Millisecond timestamp for MRU sorting.
    pub last_accessed_at: u64,
}

/// The source kind of an "All" row: which runtime state dimension a pane
/// record represents.
#[derive(Debug, Clone, Copy, PartialEq, Eq, Structural)]
pub enum OtherSource {
    /// The running foreground command (detail = the command line).
    Cmd,
    /// Active ssh login target (detail = `user@host` or `host:port`).
    Ssh,
    /// Terminal/command-output buffer match (detail = a one-line excerpt
    /// around the hit). The pane is NOT editing a file.
    Terminal,
    /// Editor buffer match (detail = a one-line excerpt around the hit).
    File,
    /// The pane's current directory.
    Cwd,
}

/// The short label of a source.
pub open spec fn source_label(src: OtherSource) -> Seq<char> {
    match src {
        OtherSource::Cmd => "cmd"@,
        OtherSource::Ssh => "ssh"@,
        OtherSource::Terminal => "term"@,
        OtherSource::File => "file"@,
        OtherSource::Cwd => "cwd"@,
    }
}

/// The ordering priority of a source within a pane's records.
pub open spec fn source_priority(src: OtherSource) -> u8 {
    match src {
        OtherSource::Ssh => 0,
        OtherSource::Cmd => 1,
        OtherSource::Terminal => 2,
        OtherSource::File => 3,
        OtherSource::Cwd => 4,
    }
}

/// The sources in display-priority order.
pub open spec fn sources_in_order() -> Seq<OtherSource> {
    seq![
        OtherSource::Ssh,
        OtherSource::Cmd,
        OtherSource::Terminal,
        OtherSource::File,
        OtherSource::Cwd,
    ]
}

impl OtherSource {
    /// All variants, in display-priority order.
    pub const ALL: [OtherSource; 5] = [
        OtherSource::Ssh,
        OtherSource::Cmd,
        OtherSource::Terminal,
        OtherSource::File,
        OtherSource::Cwd,
    ];

    /// Short label shown in the Type column / searchable text.
    pub fn label(&self) -> (res: &'static str)
        ensures
            res@ == source_label(*self),
    {
        match self {
            OtherSource::Cmd => "cmd",
            OtherSource::Ssh => "ssh",
            OtherSource::Terminal => "term",
            OtherSource::File => "file",
            OtherSource::Cwd => "cwd",
        }
    }

    /// Ordering priority within a pane's records (lower sorts first).
    pub fn priority(&self) -> (res: u8)
        ensures
            res == source_priority(*self),
    {
        match self {
            OtherSource::Ssh => 0,
            OtherSource::Cmd => 1,
            OtherSource::Terminal => 2,
            OtherSource::File => 3,
            OtherSource::Cwd => 4,
        }
    }
}

/// A narrowed-search filter for the All tab, parsed off the query prefix
/// and shown as a badge next to the input (`cmd `, `ws `, `.`, ...).
#[derive(Debug, PartialEq, Eq, Clone, Copy, Structural)]
pub enum OthersFilter {
    /// Leading `.`: buffer content rows only (file + term).
    Content,
    /// `<label> ` prefix: rows of that source only.
    Source(OtherSource),
    /// Leading `ws `: the workspace list, filtered by the remaining text.
    Workspace,
    /// Leading `tab `: the tab list, filtered by the remaining text.
    Tab,
    /// Leading `pane `: the pane list, filtered by the remaining text.
    Pane,
}

/// The badge label of a filter.
pub open spec fn filter_label(f: OthersFilter) -> Seq<char> {
    match f {
        OthersFilter::Content => "content"@,
        OthersFilter::Source(src) => source_label(src),
        OthersFilter::Workspace => "ws"@,
        OthersFilter::Tab => "tab"@,
        OthersFilter::Pane => "pane"@,
    }
}

/// The first filter, in the order the parser tries them (the sources in
/// priority order, then `ws`, `tab`, `pane`), whose label followed by a
/// space starts `rest`.
pub open spec fn labelled_filter(rest: Seq<char>) -> Option<OthersFilter> {
    if label_then_space(rest, source_label(OtherSource::Ssh)) {
        Some(OthersFilter::Source(OtherSource::Ssh))
    } else if label_then_space(rest, source_label(OtherSource::Cmd)) {
        Some(OthersFilter::Source(OtherSource::Cmd))
    } else if label_then_space(rest, source_label(OtherSource::Terminal)) {
        Some(OthersFilter::Source(OtherSource::Terminal))
    } else if label_then_space(rest, source_label(OtherSource::File)) {
        Some(OthersFilter::Source(OtherSource::File))
    } else if label_then_space(rest, source_label(OtherSource::Cwd)) {
        Some(OthersFilter::Source(OtherSource::Cwd))
    } else if label_then_space(rest, "ws"@) {
        Some(OthersFilter::Workspace)
    } else if label_then_space(rest, "tab"@) {
        Some(OthersFilter::Tab)
    } else if label_then_space(rest, "pane"@) {
        Some(OthersFilter::Pane)
    } else {
        None
    }
}

/// The filter that a query selects, with the text that remains of the query.
pub open spec fn parse_filter(q: Seq<char>) -> (Option<OthersFilter>, Seq<char>) {
    let dot = q.len() > 0 && q[0] == '.';
    let rest = if dot {
        q.drop_first()
    } else {
        q
    };
    match labelled_filter(rest) {
        Some(f) => (Some(f), rest.skip(filter_label(f).len() as int + 1)),
        None => (
            if dot {
                Some(OthersFilter::Content)
            } else {
                None
            },
            rest,
        ),
    }
}

impl OthersFilter {
    /// Split a leading filter off `query`, returning it with the remaining
    /// text. A filter activates only when its exact label is followed by a
    /// space (`cmd `, `ssh `, `cwd `, `file `, `term `, `ws `, `tab `,
    /// `pane `); a bare label stays ordinary search text.
    pub fn parse(query: &str) -> (res: (Option<Self>, &str))
        ensures
            res.0 == parse_filter(query@).0,
            res.1@ == parse_filter(query@).1,
    {
        let v = chars_of(query);
        let n = v.len();
        let dot = n > 0 && v[0] == '.';
        let off: usize = if dot {
            1
        } else {
            0
        };
        let ghost rest = if dot {
            query@.drop_first()
        } else {
            query@
        };
        assert(v@.skip(off as int) =~= rest);
        let all = OtherSource::ALL;
        let mut k: usize = 0;
        while k < 5
            invariant
                k <= 5,
                all@ == sources_in_order(),
                v@ == query@,
                n == v@.len(),
                off <= n,
                dot ==> off == 1,
                !dot ==> off == 0,
                dot == (query@.len() > 0 && query@[0] == '.'),
                v@.skip(off as int) == rest,
                rest == (if dot {
                    query@.drop_first()
                } else {
                    query@
                }),
                forall|j: int|
                    0 <= j < k ==> !label_then_space(rest, source_label(#[trigger] all@[j])),
            decreases 5 - k,
        {
            let src = all[k];
            let label = src.label();
            if has_label_then_space(&v, off, label) {
                let len = label.unicode_len();
                proof {
                    assert(all@[k as int] == src);
                    if k >= 1 {
                        assert(!label_then_space(rest, source_label(all@[0])));
                    }
                    if k >= 2 {
                        assert(!label_then_space(rest, source_label(all@[1])));
                    }
                    if k >= 3 {
                        assert(!label_then_space(rest, source_label(all@[2])));
                    }
                    if k >= 4 {
                        assert(!label_then_space(rest, source_label(all@[3])));
                    }
                    assert(labelled_filter(rest) == Some(OthersFilter::Source(src)));
                    assert(query@.subrange(off + len + 1, n as int) =~= rest.skip(len + 1));
                }
                return (Some(OthersFilter::Source(src)), query.substring_char(off + len + 1, n));
            }
            k += 1;
        }
        proof {
            assert(!label_then_space(rest, source_label(all@[0])));
            assert(!label_then_space(rest, source_label(all@[1])));
            assert(!label_then_space(rest, source_label(all@[2])));
            assert(!label_then_space(rest, source_label(all@[3])));
            assert(!label_then_space(rest, source_label(all@[4])));
        }
        if has_label_then_space(&v, off, "ws") {
            proof {
                reveal_strlit("ws");
                assert(query@.subrange(off + 3, n as int) =~= rest.skip(3));
            }
            return (Some(OthersFilter::Workspace), query.substring_char(off + 3, n));
        }
        if has_label_then_space(&v, off, "tab") {
            proof {
                reveal_strlit("tab");
                assert(query@.subrange(off + 4, n as int) =~= rest.skip(4));
            }
            return (Some(OthersFilter::Tab), query.substring_char(off + 4, n));
        }
        if has_label_then_space(&v, off, "pane") {
            proof {
                reveal_strlit("pane");
                assert(query@.subrange(off + 5, n as int) =~= rest.skip(5));
            }
            return (Some(OthersFilter::Pane), query.substring_char(off + 5, n));
        }
        assert(query@.subrange(off as int, n as int) =~= rest);
        let base = if dot {
            Some(OthersFilter::Content)
        } else {
            None
        };
        (base, query.substring_char(off, n))
    }

    /// Short label shown in the badge next to the input.
    pub fn label(&self) -> (res: &'static str)
        ensures
            res@ == filter_label(*self),
    {
        match self {
            OthersFilter::Content => "content",
            OthersFilter::Source(src) => src.label(),
            OthersFilter::Workspace => "ws",
            OthersFilter::Tab => "tab",
            OthersFilter::Pane => "pane",
        }
    }
}

proof fn lemma_label_mismatch(q: Seq<char>, label: Seq<char>, i: int)
    requires
        0 <= i < label.len(),
        i < q.len(),
        q[i] != label[i],
    ensures
        !label_then_space(q, label),
{
    if q.len() > label.len() && q.take(label.len() as int) == label {
        assert(q.take(label.len() as int)[i] == q[i]);
    }
}

proof fn lemma_only_own_label(q: Seq<char>, own: Seq<char>, other: Seq<char>)
    requires
        own.len() >= 2,
        other.len() >= 2,
        q.len() > own.len(),
        q.take(own.len() as int) == own,
        own[0] != other[0] || own[1] != other[1],
    ensures
        !label_then_space(q, other),
{
    assert(q[0] == own[0] && q[1] == own[1]) by {
        assert(q.take(own.len() as int)[0] == q[0]);
        assert(q.take(own.len() as int)[1] == q[1]);
    }
    if q[0] != other[0] {
        lemma_label_mismatch(q, other, 0);
    } else {
        lemma_label_mismatch(q, other, 1);
    }
}

/// A query that starts with a filter's label and a space selects that
/// filter, with or without a leading `.`, and leaves the rest of the query
/// as the search text. (The content filter is the leading `.` itself.)
pub proof fn others_filter_label_round_trip(f: OthersFilter, x: Seq<char>)
    requires
        f != OthersFilter::Content,
    ensures
        parse_filter(filter_label(f) + " "@ + x) == (Some(f), x),
        parse_filter(seq!['.'] + filter_label(f) + " "@ + x) == (Some(f), x),
{
    reveal_strlit("ssh");
    reveal_strlit("cmd");
    reveal_strlit("term");
    reveal_strlit("file");
    reveal_strlit("cwd");
    reveal_strlit("ws");
    reveal_strlit("tab");
    reveal_strlit("pane");
    reveal_strlit(" ");
    let l = filter_label(f);
    let q = l + " "@ + x;
    assert(q.take(l.len() as int) =~= l);
    assert(q[l.len() as int] == ' ');
    assert(label_then_space(q, l));
    match f {
        OthersFilter::Source(OtherSource::Ssh) => {
        },
        OthersFilter::Source(OtherSource::Cmd) => {
            lemma_only_own_label(q, l, source_label(OtherSource::Ssh));
        },
        OthersFilter::Source(OtherSource::Terminal) => {
            lemma_only_own_label(q, l, source_label(OtherSource::Ssh));
            lemma_only_own_label(q, l, source_label(OtherSource::Cmd));
        },
        OthersFilter::Source(OtherSource::File) => {
            lemma_only_own_label(q, l, source_label(OtherSource::Ssh));
            lemma_only_own_label(q, l, source_label(OtherSource::Cmd));
            lemma_only_own_label(q, l, source_label(OtherSource::Terminal));
        },
        OthersFilter::Source(OtherSource::Cwd) => {
            lemma_only_own_label(q, l, source_label(OtherSource::Ssh));
            lemma_only_own_label(q, l, source_label(OtherSource::Cmd));
            lemma_only_own_label(q, l, source_label(OtherSource::Terminal));
            lemma_only_own_label(q, l, source_label(OtherSource::File));
        },
        OthersFilter::Workspace => {
            lemma_only_own_label(q, l, source_label(OtherSource::Ssh));
            lemma_only_own_label(q, l, source_label(OtherSource::Cmd));
            lemma_only_own_label(q, l, source_label(OtherSource::Terminal));
            lemma_only_own_label(q, l, source_label(OtherSource::File));
            lemma_only_own_label(q, l, source_label(OtherSource::Cwd));
        },
        OthersFilter::Tab => {
            lemma_only_own_label(q, l, source_label(OtherSource::Ssh));
            lemma_only_own_label(q, l, source_label(OtherSource::Cmd));
            lemma_only_own_label(q, l, source_label(OtherSource::Terminal));
            lemma_only_own_label(q, l, source_label(OtherSource::File));
            lemma_only_own_label(q, l, source_label(OtherSource::Cwd));
            lemma_only_own_label(q, l, "ws"@);
        },
        OthersFilter::Pane => {
            lemma_only_own_label(q, l, source_label(OtherSource::Ssh));
            lemma_only_own_label(q, l, source_label(OtherSource::Cmd));
            lemma_only_own_label(q, l, source_label(OtherSource::Terminal));
            lemma_only_own_label(q, l, source_label(OtherSource::File));
            lemma_only_own_label(q, l, source_label(OtherSource::Cwd));
            lemma_only_own_label(q, l, "ws"@);
            lemma_only_own_label(q, l, "tab"@);
        },
        OthersFilter::Content => {},
    }
    assert(labelled_filter(q) == Some(f));
    assert(q.skip(l.len() as int + 1) =~= x);
    assert(q[0] != '.');
    let d = seq!['.'] + q;
    assert(seq!['.'] + l + " "@ + x =~= d);
    assert(d[0] == '.');
    assert(d.drop_first() =~= q);
}

/// Every source appears once in the display-priority order, and the
/// priorities increase along it.
pub proof fn sources_ordered_by_priority()
    ensures
        forall|src: OtherSource| #[trigger] sources_in_order().contains(src),
        forall|i: int|
            0 <= i < 5 ==> source_priority(#[trigger] sources_in_order()[i]) == i,
        forall|i: int, j: int|
            0 <= i < j < 5 ==> source_priority(sources_in_order()[i]) < source_priority(
                sources_in_order()[j],
            ),
{
    assert forall|src: OtherSource| #[trigger] sources_in_order().contains(src) by {
        match src {
            OtherSource::Ssh => assert(sources_in_order()[0] == src),
            OtherSource::Cmd => assert(sources_in_order()[1] == src),
            OtherSource::Terminal => assert(sources_in_order()[2] == src),
            OtherSource::File => assert(sources_in_order()[3] == src),
            OtherSource::Cwd => assert(sources_in_order()[4] == src),
        }
    }
}

/// Lazily-fetched runtime state for a pane, used by the All tab.
#[derive(Debug, Clone, PartialEq, Eq)]
pub struct PaneOthers {
    pub cwd: Option<String>,
    pub command: Option<String>,
    pub ssh_target: Option<String>,
}

/// The state of a pane nothing has been learned about yet.
pub open spec fn empty_others() -> PaneOthers {
    PaneOthers { cwd: None, command: None, ssh_target: None }
}

impl Default for PaneOthers {
    fn default() -> (res: Self)
        ensures
            res == empty_others(),
    {
        PaneOthers { cwd: None, command: None, ssh_target: None }
    }
}

/// The category tabs at the top of the navigator UI.
#[derive(Debug, PartialEq, Eq, Clone, Copy, Structural)]
pub enum CategoryTab {
    Workspaces,
    Tabs,
    Agents,
    Panes,
    /// Unified search across everything: pane state (cmd / ssh / cwd) and
    /// pane-buffer content in one list. Excludes agent panes.
    All,
}

/// The tabs in their default order.
pub open spec fn default_tab_order() -> Seq<CategoryTab> {
    seq![
        CategoryTab::Workspaces,
        CategoryTab::Tabs,
        CategoryTab::Panes,
        CategoryTab::Agents,
        CategoryTab::All,
    ]
}

/// The display label of a tab.
pub open spec fn tab_label(t: CategoryTab) -> Seq<char> {
    match t {
        CategoryTab::Workspaces => "Workspaces"@,
        CategoryTab::Tabs => "Tabs"@,
        CategoryTab::Agents => "Agents"@,
        CategoryTab::Panes => "Panes"@,
        CategoryTab::All => "All"@,
    }
}

/// The tab that a configuration or command-line name selects; `others` is
/// kept as a legacy name of the All tab. Names are case-sensitive.
pub open spec fn tab_named(s: Seq<char>) -> Option<CategoryTab> {
    if s == "workspaces"@ {
        Some(CategoryTab::Workspaces)
    } else if s == "tabs"@ {
        Some(CategoryTab::Tabs)
    } else if s == "agents"@ {
        Some(CategoryTab::Agents)
    } else if s == "panes"@ {
        Some(CategoryTab::Panes)
    } else if s == "all"@ {
        Some(CategoryTab::All)
    } else if s == "others"@ {
        Some(CategoryTab::All)
    } else {
        None
    }
}

/// The configuration name of a tab: its label in lower case.
pub open spec fn tab_name(t: CategoryTab) -> Seq<char> {
    match t {
        CategoryTab::Workspaces => "workspaces"@,
        CategoryTab::Tabs => "tabs"@,
        CategoryTab::Agents => "agents"@,
        CategoryTab::Panes => "panes"@,
        CategoryTab::All => "all"@,
    }
}

impl CategoryTab {
    /// Number of variants, for cycling.
    pub const COUNT: usize = 5;

    /// Return all variants in the default order.
    pub fn all() -> (res: [CategoryTab; Self::COUNT])
        ensures
            res@ == default_tab_order(),
    {
        [
            CategoryTab::Workspaces,
            CategoryTab::Tabs,
            CategoryTab::Panes,
            CategoryTab::Agents,
            CategoryTab::All,
        ]
    }

    /// Display label for the tab.
    pub fn label(&self) -> (res: &'static str)
        ensures
            res@ == tab_label(*self),
    {
        match self {
            CategoryTab::Workspaces => "Workspaces",
            CategoryTab::Tabs => "Tabs",
            CategoryTab::Agents => "Agents",
            CategoryTab::Panes => "Panes",
            CategoryTab::All => "All",
        }
    }

    /// The tab a lower-case name selects, or the message naming the unknown name.
    pub fn parse_name(s: &str) -> (res: Result<CategoryTab, String>)
        ensures
            tab_named(s@) matches Some(t) ==> res == Ok::<CategoryTab, String>(t),
            tab_named(s@) is None ==> (res matches Err(e) && e@ == "Unknown category tab: "@ + s@),
    {
        let v = chars_of(s);
        if chars_eq(&v, &chars_of("workspaces")) {
            Ok(CategoryTab::Workspaces)
        } else if chars_eq(&v, &chars_of("tabs")) {
            Ok(CategoryTab::Tabs)
        } else if chars_eq(&v, &chars_of("agents")) {
            Ok(CategoryTab::Agents)
        } else if chars_eq(&v, &chars_of("panes")) {
            Ok(CategoryTab::Panes)
        } else if chars_eq(&v, &chars_of("all")) {
            Ok(CategoryTab::All)
        } else if chars_eq(&v, &chars_of("others")) {
            Ok(CategoryTab::All)
        } else {
            let mut msg = String::from_str("Unknown category tab: ");
            msg.append(s);
            Err(msg)
        }
    }
}

impl std::str::FromStr for CategoryTab {
    type Err = String;

    fn from_str(s: &str) -> (res: Result<Self, Self::Err>)
        ensures
            tab_named(s@) matches Some(t) ==> res == Ok::<CategoryTab, String>(t),
            tab_named(s@) is None ==> (res matches Err(e) && e@ == "Unknown category tab: "@ + s@),
    {
        CategoryTab::parse_name(s)
    }
}

/// Each tab's configuration name (its label in lower case) selects that
/// tab, and every tab appears once in the default order.
pub proof fn tab_names_round_trip(t: CategoryTab)
    ensures
        tab_named(tab_name(t)) == Some(t),
        default_tab_order().contains(t),
        forall|i: int, j: int|
            0 <= i < j < 5 ==> default_tab_order()[i] != default_tab_order()[j],
{
    reveal_strlit("workspaces");
    reveal_strlit("tabs");
    reveal_strlit("agents");
    reveal_strlit("panes");
    reveal_strlit("all");
    reveal_strlit("others");
    assert("tabs"@ != "workspaces"@) by {
        assert("tabs"@.len() != "workspaces"@.len());
    }
    assert("agents"@ != "workspaces"@) by {
        assert("agents"@.len() != "workspaces"@.len());
    }
    assert("agents"@ != "tabs"@) by {
        assert("agents"@.len() != "tabs"@.len());
    }
    assert("panes"@ != "workspaces"@) by {
        assert("panes"@.len() != "workspaces"@.len());
    }
    assert("panes"@ != "tabs"@) by {
        assert("panes"@.len() != "tabs"@.len());
    }
    assert("panes"@ != "agents"@) by {
        assert("panes"@.len() != "agents"@.len());
    }
    assert("all"@ != "workspaces"@) by {
        assert("all"@.len() != "workspaces"@.len());
    }
    assert("all"@ != "tabs"@) by {
        assert("all"@.len() != "tabs"@.len());
    }
    assert("all"@ != "agents"@) by {
        assert("all"@.len() != "agents"@.len());
    }
    assert("all"@ != "panes"@) by {
        assert("all"@.len() != "panes"@.len());
    }
    match t {
        CategoryTab::Workspaces => assert(default_tab_order()[0] == t),
        CategoryTab::Tabs => assert(default_tab_order()[1] == t),
        CategoryTab::Panes => assert(default_tab_order()[2] == t),
        CategoryTab::Agents => assert(default_tab_order()[3] == t),
        CategoryTab::All => assert(default_tab_order()[4] == t),
    }
}

/// The tabs a configured list names, in order of first mention, each once.
pub open spec fn named_tabs(spec: Seq<Seq<char>>) -> Seq<CategoryTab>
    decreases spec.len(),
{
    if spec.len() == 0 {
        Seq::empty()
    } else {
        let acc = named_tabs(spec.drop_last());
        match tab_named(trim_ws(spec.last())) {
            Some(t) => if acc.contains(t) {
                acc
            } else {
                acc.push(t)
            },
            None => acc,
        }
    }
}

/// The tab list a configured list yields: the named tabs, or the All tab
/// alone when the list names none.
pub open spec fn configured_tabs(spec: Seq<Seq<char>>) -> Seq<CategoryTab> {
    let tabs = named_tabs(spec);
    if tabs.len() == 0 {
        seq![CategoryTab::All]
    } else {
        tabs
    }
}

proof fn lemma_named_tabs_props(spec: Seq<Seq<char>>)
    ensures
        forall|i: int, j: int|
            0 <= i < j < named_tabs(spec).len() ==> named_tabs(spec)[i] != named_tabs(spec)[j],
        forall|i: int|
            #![trigger named_tabs(spec)[i]]
            0 <= i < named_tabs(spec).len() ==> exists|k: int|
                0 <= k < spec.len() && tab_named(trim_ws(#[trigger] spec[k])) == Some(
                    named_tabs(spec)[i],
                ),
        forall|k: int|
            0 <= k < spec.len() && (#[trigger] tab_named(trim_ws(spec[k]))) is Some
                ==> named_tabs(spec).contains(tab_named(trim_ws(spec[k])).unwrap()),
    decreases spec.len(),
{
    if spec.len() > 0 {
        let prev = spec.drop_last();
        lemma_named_tabs_props(prev);
        let acc = named_tabs(prev);
        let res = named_tabs(spec);
        assert forall|i: int|
            #![trigger res[i]]
            0 <= i < res.len() implies exists|k: int|
                0 <= k < spec.len() && tab_named(trim_ws(#[trigger] spec[k])) == Some(
                    res[i],
                ) by {
            if i < acc.len() {
                assert(res[i] == acc[i]);
                let k = choose|k: int|
                    0 <= k < prev.len() && tab_named(trim_ws(#[trigger] prev[k])) == Some(acc[i]);
                assert(spec[k] == prev[k]);
            } else {
                assert(spec[spec.len() - 1] == spec.last());
            }
        }
        assert forall|k: int|
            0 <= k < spec.len() && (#[trigger] tab_named(trim_ws(spec[k]))) is Some
                implies res.contains(tab_named(trim_ws(spec[k])).unwrap()) by {
            let t = tab_named(trim_ws(spec[k])).unwrap();
            if k < spec.len() - 1 {
                assert(spec[k] == prev[k]);
                assert(acc.contains(t));
                let j = choose|j: int| 0 <= j < acc.len() && acc[j] == t;
                assert(res[j] == t);
            } else {
                assert(spec[k] == spec.last());
                if !acc.contains(t) {
                    assert(res[acc.len() as int] == t);
                }
            }
        }
    }
}

/// A list of tabs in which no tab occurs twice holds at most the five tabs.
pub proof fn lemma_distinct_tabs_at_most_five(s: Seq<CategoryTab>)
    requires
        forall|i: int, j: int| 0 <= i < j < s.len() ==> s[i] != s[j],
    ensures
        s.len() <= 5,
{
    assert(s.no_duplicates()) by {
        assert forall|i: int, j: int|
            0 <= i < s.len() && 0 <= j < s.len() && i != j implies s[i] != s[j] by {
            if j < i {
                assert(s[j] != s[i]);
            }
        }
    }
    s.unique_seq_to_set();
    let every = Set::empty().insert(CategoryTab::Workspaces).insert(CategoryTab::Tabs).insert(
        CategoryTab::Agents,
    ).insert(CategoryTab::Panes).insert(CategoryTab::All);
    assert(s.to_set().subset_of(every)) by {
        assert forall|x: CategoryTab| s.to_set().contains(x) implies every.contains(x) by {
            match x {
                CategoryTab::Workspaces => {},
                CategoryTab::Tabs => {},
                CategoryTab::Agents => {},
                CategoryTab::Panes => {},
                CategoryTab::All => {},
            }
        }
    }
    assert(every.len() == 5);
    vstd::set_lib::lemma_len_subset(s.to_set(), every);
}

/// Parse the configured tab list. The array carries both order and
/// visibility: position is display order, membership is shown-at-all.
/// Unknown labels are ignored and duplicates deduped (first wins); an empty
/// or all-invalid list degrades to `["all"]`: the navigator must always
/// show at least one tab.
pub fn parse_tabs(spec: &[String]) -> (res: Vec<CategoryTab>)
    ensures
        res@ == configured_tabs(views(spec@)),
        res@.len() > 0,
        res@.len() <= 5,
        forall|i: int, j: int| 0 <= i < j < res@.len() ==> res@[i] != res@[j],
        forall|k: int|
            0 <= k < spec@.len() && (#[trigger] tab_named(trim_ws(spec@[k]@))) is Some
                ==> res@.contains(tab_named(trim_ws(spec@[k]@)).unwrap()),
        named_tabs(views(spec@)).len() > 0 ==> forall|i: int|
            #![trigger res@[i]]
            0 <= i < res@.len() ==> exists|k: int|
                0 <= k < spec@.len() && tab_named(trim_ws(#[trigger] spec@[k]@)) == Some(res@[i]),
{
    let mut tabs: Vec<CategoryTab> = Vec::new();
    let ghost specs = views(spec@);
    let mut i: usize = 0;
    while i < spec.len()
        invariant
            i <= spec@.len(),
            specs == views(spec@),
            tabs@ == named_tabs(specs.take(i as int)),
        decreases spec@.len() - i,
    {
        proof {
            assert(specs.take(i + 1).drop_last() =~= specs.take(i as int));
            assert(specs.take(i + 1).last() == spec@[i as int]@);
        }
        let name = trim_str(spec[i].as_str(), TrimSet::Whitespace);
        if let Ok(t) = CategoryTab::parse_name(name) {
            let mut seen = false;
            let mut j: usize = 0;
            while j < tabs.len()
                invariant
                    j <= tabs@.len(),
                    seen == tabs@.take(j as int).contains(t),
                decreases tabs@.len() - j,
            {
                proof {
                    assert(tabs@.take(j + 1) =~= tabs@.take(j as int).push(tabs@[j as int]));
                }
                proof {
                    let p = tabs@.take(j as int);
                    let q = tabs@.take(j + 1);
                    if tabs@[j as int] == t {
                        assert(q[j as int] == t);
                    }
                    if q.contains(t) && tabs@[j as int] != t {
                        let k = choose|k: int| 0 <= k < q.len() && q[k] == t;
                        assert(p[k] == t);
                    }
                    if p.contains(t) {
                        let k = choose|k: int| 0 <= k < p.len() && p[k] == t;
                        assert(q[k] == t);
                    }
                }
                if tabs[j] == t {
                    seen = true;
                }
                j += 1;
            }
            assert(tabs@.take(tabs@.len() as int) =~= tabs@);
            if !seen {
                tabs.push(t);
            }
        }
        i += 1;
    }
    assert(specs.take(spec@.len() as int) =~= specs);
    proof {
        lemma_named_tabs_props(specs);
        assert forall|k: int|
            0 <= k < spec@.len() && (#[trigger] tab_named(trim_ws(spec@[k]@))) is Some
                implies tabs@.contains(tab_named(trim_ws(spec@[k]@)).unwrap()) by {
            assert(specs[k] == spec@[k]@);
        }
        assert forall|i: int|
            #![trigger tabs@[i]]
            0 <= i < tabs@.len() implies exists|k: int|
                0 <= k < spec@.len() && tab_named(trim_ws(#[trigger] spec@[k]@)) == Some(tabs@[i]) by {
            let k = choose|k: int|
                0 <= k < specs.len() && tab_named(trim_ws(#[trigger] specs[k])) == Some(tabs@[i]);
            assert(specs[k] == spec@[k]@);
        }
        lemma_distinct_tabs_at_most_five(tabs@);
    }
    if tabs.len() == 0 {
        vec![CategoryTab::All]
    } else {
        tabs
    }
}

/// A display item representing one row in the category-specific list.
/// Each variant carries only the fields relevant to its tab's rendering.
#[derive(Debug, Clone)]
pub enum DisplayItem {
    Workspace {
        name: String,
        id: String,
        pane_ids: Vec<String>,
        agent_statuses: Vec<AgentStatus>,
        last_accessed_at: u64,
    },
    Tab {
        name: String,
        workspace: String,
        tab_id: String,
        pane_ids: Vec<String>,
        agent_statuses: Vec<AgentStatus>,
        last_accessed_at: u64,
    },
    Agent {
        agent_id: String,
        status: AgentStatus,
        pane_id: String,
        tab: String,
        workspace: String,
        last_accessed_at: u64,
    },
    Pane {
        pane_id: String,
        pane_name: String,
        tab: String,
        workspace: String,
        agent_id: Option<String>,
        status: AgentStatus,
        last_accessed_at: u64,
    },
    Other {
        pane_id: String,
        pane_name: String,
        tab: String,
        workspace: String,
        source: OtherSource,
        /// The matched/runtime value: command line, ssh target, cwd path,
        /// or a content-search excerpt.
        detail: String,
        /// Where the record lives, shown in the Context column.
        context: String,
        last_accessed_at: u64,
    },
}

/// The decimal rendering of a source priority (a single digit).
pub open spec fn priority_text(src: OtherSource) -> Seq<char> {
    match src {
        OtherSource::Ssh => "0"@,
        OtherSource::Cmd => "1"@,
        OtherSource::Terminal => "2"@,
        OtherSource::File => "3"@,
        OtherSource::Cwd => "4"@,
    }
}

/// The secondary sort key of a row.
pub open spec fn sort_key_of(item: DisplayItem) -> Seq<char> {
    match item {
        DisplayItem::Workspace { name, .. } => name@,
        DisplayItem::Tab { name, workspace, .. } => workspace@ + ":"@ + name@,
        DisplayItem::Agent { agent_id, .. } => agent_id@,
        DisplayItem::Pane { pane_name, .. } => pane_name@,
        DisplayItem::Other { pane_name, source, .. } => priority_text(source) + pane_name@,
    }
}

/// The text that fuzzy search matches a row against.
pub open spec fn search_text_of(item: DisplayItem) -> Seq<char> {
    match item {
        DisplayItem::Workspace { name, .. } => name@,
        DisplayItem::Tab { name, workspace, .. } => name@ + " "@ + workspace@,
        DisplayItem::Agent { agent_id, tab, workspace, .. } => agent_id@ + " "@ + tab@ + " "@
            + workspace@,
        DisplayItem::Pane { pane_name, tab, workspace, agent_id, .. } => pane_name@ + " "@ + tab@
            + " "@ + workspace@ + " "@ + match agent_id {
            Some(a) => a@,
            None => ""@,
        },
        DisplayItem::Other { pane_name, tab, workspace, source, detail, .. } => source_label(
            source,
        ) + " "@ + detail@ + " "@ + pane_name@ + " "@ + tab@ + " "@ + workspace@,
    }
}

/// The search text of a Tab row is its name, a space, then its workspace
/// name: it starts with the tab name and ends with the workspace name, so a
/// search for the workspace finds the tab.
pub proof fn law_tab_search_text(item: DisplayItem)
    requires
        item is Tab,
    ensures
        item matches DisplayItem::Tab { name, workspace, .. } ==> {
            let t = search_text_of(item);
            &&& t.len() == name@.len() + 1 + workspace@.len()
            &&& t.take(name@.len() as int) == name@
            &&& t[name@.len() as int] == ' '
            &&& t.skip(name@.len() as int + 1) == workspace@
        },
{
    reveal_strlit(" ");
    if let DisplayItem::Tab { name, workspace, .. } = item {
        let t = search_text_of(item);
        assert(t.take(name@.len() as int) =~= name@);
        assert(t.skip(name@.len() as int + 1) =~= workspace@);
    }
}

/// The search text of every row joins its names with single spaces: a
/// workspace row its name; an agent row its agent, tab and workspace; a pane
/// row its pane name, tab, workspace and agent (empty without one); a
/// record row its source label, detail, pane name, tab and workspace.
pub proof fn law_search_text_parts(item: DisplayItem)
    ensures
        item matches DisplayItem::Workspace { name, .. } ==> search_text_of(item) == name@,
        item matches DisplayItem::Tab { name, workspace, .. } ==> search_text_of(item) == name@
            + seq![' '] + workspace@,
        item matches DisplayItem::Agent { agent_id, tab, workspace, .. } ==> search_text_of(item)
            == agent_id@ + seq![' '] + tab@ + seq![' '] + workspace@,
        item matches DisplayItem::Pane { pane_name, tab, workspace, agent_id, .. } ==> search_text_of(
            item,
        ) == pane_name@ + seq![' '] + tab@ + seq![' '] + workspace@ + seq![' '] + (match agent_id {
            Some(a) => a@,
            None => Seq::<char>::empty(),
        }),
        item matches DisplayItem::Other { pane_name, tab, workspace, source, detail, .. }
            ==> search_text_of(item) == source_label(source) + seq![' '] + detail@ + seq![' ']
            + pane_name@ + seq![' '] + tab@ + seq![' '] + workspace@,
{
    reveal_strlit(" ");
    reveal_strlit("");
    assert(" "@ =~= seq![' ']);
    assert(""@ =~= Seq::<char>::empty());
}

/// The sort key of a record row is the decimal digit of its source's
/// priority (Ssh 0, Cmd 1, Terminal 2, File 3, Cwd 4) followed by its pane
/// name.
pub proof fn law_other_sort_key(item: DisplayItem)
    requires
        item is Other,
    ensures
        item matches DisplayItem::Other { pane_name, source, .. } ==> {
            let k = sort_key_of(item);
            &&& k.len() == pane_name@.len() + 1
            &&& k.skip(1) == pane_name@
            &&& k[0] as int == '0' as int + source_priority(source)
            &&& (source == OtherSource::Ssh ==> k[0] == '0')
            &&& (source == OtherSource::Cmd ==> k[0] == '1')
            &&& (source == OtherSource::Terminal ==> k[0] == '2')
            &&& (source == OtherSource::File ==> k[0] == '3')
            &&& (source == OtherSource::Cwd ==> k[0] == '4')
        },
{
    reveal_strlit("0");
    reveal_strlit("1");
    reveal_strlit("2");
    reveal_strlit("3");
    reveal_strlit("4");
    if let DisplayItem::Other { pane_name, source, .. } = item {
        let k = sort_key_of(item);
        assert(k.skip(1) =~= pane_name@);
    }
}

/// Of two record rows of the same pane name, the one whose source comes
/// first in priority order has the smaller sort key: its first character is
/// smaller, the rest being equal.
pub proof fn law_other_sort_key_follows_priority(a: DisplayItem, b: DisplayItem)
    requires
        a is Other,
        b is Other,
    ensures
        (a matches DisplayItem::Other { pane_name: na, source: sa, .. } && b matches DisplayItem::Other {
            pane_name: nb,
            source: sb,
            ..
        } && na@ == nb@ && source_priority(sa) < source_priority(sb)) ==> (
        (sort_key_of(a)[0] as int) < (sort_key_of(b)[0] as int) && sort_key_of(a).skip(1)
            == sort_key_of(b).skip(1)),
{
    law_other_sort_key(a);
    law_other_sort_key(b);
}

/// The sort key of a tab row is its workspace name, a colon, then its name;
/// of a workspace row its name; of an agent row its agent; of a pane row
/// its pane name.
pub proof fn law_sort_key_parts(item: DisplayItem)
    ensures
        item matches DisplayItem::Workspace { name, .. } ==> sort_key_of(item) == name@,
        item matches DisplayItem::Tab { name, workspace, .. } ==> sort_key_of(item) == workspace@
            + seq![':'] + name@,
        item matches DisplayItem::Agent { agent_id, .. } ==> sort_key_of(item) == agent_id@,
        item matches DisplayItem::Pane { pane_name, .. } ==> sort_key_of(item) == pane_name@,
{
    reveal_strlit(":");
    assert(":"@ =~= seq![':']);
}

impl DisplayItem {
    /// Deterministic secondary sort key for stable ordering when timestamps tie.
    pub fn sort_key(&self) -> (res: String)
        ensures
            res@ == sort_key_of(*self),
    {
        match self {
            DisplayItem::Workspace { name, .. } => name.clone(),
            DisplayItem::Tab { name, workspace, .. } => {
                let mut key = workspace.clone();
                key.append(":");
                key.append(name.as_str());
                key
            },
            DisplayItem::Agent { agent_id, .. } => agent_id.clone(),
            DisplayItem::Pane { pane_name, .. } => pane_name.clone(),
            DisplayItem::Other { pane_name, source, .. } => {
                let digit = match source.priority() {
                    0 => "0",
                    1 => "1",
                    2 => "2",
                    3 => "3",
                    _ => "4",
                };
                let mut key = String::from_str(digit);
                key.append(pane_name.as_str());
                key
            },
        }
    }

    /// Build the searchable text for this item, used for fuzzy matching.
    pub fn search_text(&self) -> (res: String)
        ensures
            res@ == search_text_of(*self),
    {
        match self {
            DisplayItem::Workspace { name, .. } => name.clone(),
            DisplayItem::Tab { name, workspace, .. } => {
                let mut text = name.clone();
                text.append(" ");
                text.append(workspace.as_str());
                text
            },
            DisplayItem::Agent { agent_id, tab, workspace, .. } => {
                let mut text = agent_id.clone();
                text.append(" ");
                text.append(tab.as_str());
                text.append(" ");
                text.append(workspace.as_str());
                text
            },
            DisplayItem::Pane { pane_name, tab, workspace, agent_id, .. } => {
                let mut text = pane_name.clone();
                text.append(" ");
                text.append(tab.as_str());
                text.append(" ");
                text.append(workspace.as_str());
                text.append(" ");
                match agent_id {
                    Some(a) => text.append(a.as_str()),
                    None => text.append(""),
                }
                text
            },
            DisplayItem::Other { pane_name, tab, workspace, source, detail, .. } => {
                let mut text = String::from_str(source.label());
                text.append(" ");
                text.append(detail.as_str());
                text.append(" ");
                text.append(pane_name.as_str());
                text.append(" ");
                text.append(tab.as_str());
                text.append(" ");
                text.append(workspace.as_str());
                text
            },
        }
    }
}

/// What entity to focus when the user selects an item and exits.
#[derive(Debug, Clone)]
pub enum FocusTarget {
    Workspace(String),
    Tab(String),
    Pane(String),
}

/// Result of a key event handling.
#[derive(Debug, PartialEq, Eq, Structural)]
pub enum KeyAction {
    /// Continue the event loop.
    Continue,
    /// Exit without focusing any workspace (Esc dismiss).
    ExitDismiss,
    /// Exit and focus the selected workspace (Enter / number keys).
    ExitSelect,
}

/// A key of the keyboard, as the terminal reports it.
#[derive(Debug, Clone, Copy, PartialEq, Eq, Structural)]
pub enum KeyCode {
    Backspace,
    Enter,
    Left,
    Right,
    Up,
    Down,
    Home,
    End,
    PageUp,
    PageDown,
    Tab,
    BackTab,
    Delete,
    Insert,
    F(u8),
    Char(char),
    Null,
    Esc,
    /// Any other key (lock, media and lone modifier keys); no binding names one.
    Other,
}

/// The modifier keys held with a key, one bit each.
#[derive(Debug, Clone, Copy, PartialEq, Eq, Structural)]
pub struct KeyModifiers {
    pub bits: u8,
}

impl KeyModifiers {
    pub const SHIFT: u8 = 0b0000_0001;
    pub const CONTROL: u8 = 0b0000_0010;
    pub const ALT: u8 = 0b0000_0100;
    pub const SUPER: u8 = 0b0000_1000;
    pub const HYPER: u8 = 0b0001_0000;
    pub const META: u8 = 0b0010_0000;

    /// No modifier held.
    pub fn empty() -> (res: KeyModifiers)
        ensures
            res.bits == 0,
    {
        KeyModifiers { bits: 0 }
    }

    /// Whether every modifier of `flags` is held.
    pub fn contains(&self, flags: u8) -> (res: bool)
        ensures
            res == (self.bits & flags == flags),
    {
        self.bits & flags == flags
    }
}

/// A key press: the key and the modifiers held with it.
#[derive(Debug, Clone, Copy, PartialEq, Eq, Structural)]
pub struct KeyEvent {
    pub code: KeyCode,
    pub modifiers: KeyModifiers,
}

/// A parsed key combination like `C-S-n` (Ctrl+Shift+n) or `Tab`.
#[derive(Debug, Clone, Copy, PartialEq, Eq, Structural)]
pub struct KeyBinding {
    pub code: KeyCode,
    pub modifiers: KeyModifiers,
}

/// `s` starts with a modifier prefix: `C-`, `S-`, `M-` or `A-`.
pub open spec fn has_modifier_prefix(s: Seq<char>) -> bool {
    &&& s.len() >= 2
    &&& s[1] == '-'
    &&& (s[0] == 'C' || s[0] == 'S' || s[0] == 'M' || s[0] == 'A')
}

/// The modifier that a prefix letter names: `C` Control, `S` Shift, `M` and `A` Alt.
pub open spec fn modifier_of(c: char) -> u8 {
    if c == 'C' {
        KeyModifiers::CONTROL
    } else if c == 'S' {
        KeyModifiers::SHIFT
    } else {
        KeyModifiers::ALT
    }
}

/// The modifiers that the leading prefixes of `s` name, added to `bits`,
/// with the text after the prefixes.
pub open spec fn split_modifiers(s: Seq<char>, bits: u8) -> (u8, Seq<char>)
    decreases s.len(),
{
    if has_modifier_prefix(s) {
        split_modifiers(s.skip(2), bits | modifier_of(s[0]))
    } else {
        (bits, s)
    }
}

/// The key that a key name (what follows the modifier prefixes) names.
/// `Tab` with Shift held is the back-tab key; any single ASCII character
/// names its own key.
pub open spec fn named_key(rest: Seq<char>, bits: u8) -> Option<KeyCode> {
    if rest == "Tab"@ {
        if bits & KeyModifiers::SHIFT == KeyModifiers::SHIFT {
            Some(KeyCode::BackTab)
        } else {
            Some(KeyCode::Tab)
        }
    } else if rest == "BackTab"@ {
        Some(KeyCode::BackTab)
    } else if rest == "Up"@ {
        Some(KeyCode::Up)
    } else if rest == "Down"@ {
        Some(KeyCode::Down)
    } else if rest == "Enter"@ {
        Some(KeyCode::Enter)
    } else if rest == "Esc"@ {
        Some(KeyCode::Esc)
    } else if rest == "Backspace"@ {
        Some(KeyCode::Backspace)
    } else if rest == "Space"@ {
        Some(KeyCode::Char(' '))
    } else if rest.len() == 1 && (rest[0] as u32) < 0x80 {
        Some(KeyCode::Char(rest[0]))
    } else {
        None
    }
}

/// The binding that a key string names, if it names one.
pub open spec fn parse_binding(s: Seq<char>) -> Option<KeyBinding> {
    let (bits, rest) = split_modifiers(s, 0);
    match named_key(rest, bits) {
        Some(code) => Some(KeyBinding { code, modifiers: KeyModifiers { bits } }),
        None => None,
    }
}

fn modifier_bit(c: char) -> (res: u8)
    ensures
        res == modifier_of(c),
{
    if c == 'C' {
        KeyModifiers::CONTROL
    } else if c == 'S' {
        KeyModifiers::SHIFT
    } else {
        KeyModifiers::ALT
    }
}

impl KeyBinding {
    /// The binding a key string names, or the message naming the unknown key.
    #[verifier::spinoff_prover]
    pub fn parse(s: &str) -> (res: Result<KeyBinding, String>)
        ensures
            parse_binding(s@) matches Some(b) ==> res == Ok::<KeyBinding, String>(b),
            parse_binding(s@) is None ==> (res matches Err(e) && e@ == "Unknown key: "@ + s@),
    {
        let v = chars_of(s);
        let n = v.len();
        let mut off: usize = 0;
        let mut bits: u8 = 0;
        assert(s@.skip(0) =~= s@);
        while n - off >= 2 && v[off + 1] == '-' && (v[off] == 'C' || v[off] == 'S' || v[off]
            == 'M' || v[off] == 'A')
            invariant
                off <= n,
                n == v@.len(),
                v@ == s@,
                split_modifiers(s@, 0) == split_modifiers(s@.skip(off as int), bits),
            decreases n - off,
        {
            proof {
                let t = s@.skip(off as int);
                assert(has_modifier_prefix(t));
                assert(t.skip(2) =~= s@.skip(off + 2));
            }
            bits = bits | modifier_bit(v[off]);
            off += 2;
        }
        let ghost rest = s@.skip(off as int);
        assert(!has_modifier_prefix(rest));
        assert(split_modifiers(s@, 0) == (bits, rest));
        let modifiers = KeyModifiers { bits };
        let code = if rest_eq(&v, off, "Tab") {
            if modifiers.contains(KeyModifiers::SHIFT) {
                KeyCode::BackTab
            } else {
                KeyCode::Tab
            }
        } else if rest_eq(&v, off, "BackTab") {
            KeyCode::BackTab
        } else if rest_eq(&v, off, "Up") {
            KeyCode::Up
        } else if rest_eq(&v, off, "Down") {
            KeyCode::Down
        } else if rest_eq(&v, off, "Enter") {
            KeyCode::Enter
        } else if rest_eq(&v, off, "Esc") {
            KeyCode::Esc
        } else if rest_eq(&v, off, "Backspace") {
            KeyCode::Backspace
        } else if rest_eq(&v, off, "Space") {
            KeyCode::Char(' ')
        } else if n - off == 1 && (v[off] as u32) < 0x80 {
            KeyCode::Char(v[off])
        } else {
            let mut msg = String::from_str("Unknown key: ");
            msg.append(s);
            return Err(msg);
        };
        Ok(KeyBinding { code, modifiers })
    }
}

impl std::str::FromStr for KeyBinding {
    type Err = String;

    fn from_str(s: &str) -> (res: Result<Self, Self::Err>)
        ensures
            parse_binding(s@) matches Some(b) ==> res == Ok::<KeyBinding, String>(b),
            parse_binding(s@) is None ==> (res matches Err(e) && e@ == "Unknown key: "@ + s@),
    {
        KeyBinding::parse(s)
    }
}

/// Logical actions that can be bound to keys.
#[derive(Debug, Clone, Copy, PartialEq, Eq, Structural)]
pub enum Action {
    NextCategory,
    PreviousCategory,
    MoveUp,
    MoveDown,
    Select,
    Dismiss,
    ForceQuit,
    Backspace,
}

/// Configurable keybinding map. Each action accepts multiple key strings.
#[derive(Debug, Clone)]
pub struct Keybindings {
    pub next_category: Vec<String>,
    pub previous_category: Vec<String>,
    pub move_up: Vec<String>,
    pub move_down: Vec<String>,
    pub select: Vec<String>,
    pub dismiss: Vec<String>,
    pub force_quit: Vec<String>,
    pub backspace: Vec<String>,
}

/// Some key string of `list` names the binding `key`.
pub open spec fn list_binds(list: Seq<String>, key: KeyBinding) -> bool {
    exists|i: int| 0 <= i < list.len() && parse_binding(#[trigger] list[i]@) == Some(key)
}

/// The action that a key press triggers: the first action, in the order
/// next-category, previous-category, move-up, move-down, select, dismiss,
/// force-quit, backspace, one of whose key strings names the key.
pub open spec fn action_for_key(kb: Keybindings, key: KeyBinding) -> Option<Action> {
    if list_binds(kb.next_category@, key) {
        Some(Action::NextCategory)
    } else if list_binds(kb.previous_category@, key) {
        Some(Action::PreviousCategory)
    } else if list_binds(kb.move_up@, key) {
        Some(Action::MoveUp)
    } else if list_binds(kb.move_down@, key) {
        Some(Action::MoveDown)
    } else if list_binds(kb.select@, key) {
        Some(Action::Select)
    } else if list_binds(kb.dismiss@, key) {
        Some(Action::Dismiss)
    } else if list_binds(kb.force_quit@, key) {
        Some(Action::ForceQuit)
    } else if list_binds(kb.backspace@, key) {
        Some(Action::Backspace)
    } else {
        None
    }
}

fn strings(a: &str) -> (res: Vec<String>)
    ensures
        views(res@) == seq![a@],
{
    let v = vec![String::from_str(a)];
    assert(views(v@) =~= seq![a@]);
    v
}

fn strings2(a: &str, b: &str) -> (res: Vec<String>)
    ensures
        views(res@) == seq![a@, b@],
{
    let v = vec![String::from_str(a), String::from_str(b)];
    assert(views(v@) =~= seq![a@, b@]);
    v
}

fn default_next_category() -> (res: Vec<String>)
    ensures
        views(res@) == seq!["Tab"@],
{
    strings("Tab")
}

fn default_previous_category() -> (res: Vec<String>)
    ensures
        views(res@) == seq!["S-Tab"@],
{
    strings("S-Tab")
}

fn default_move_up() -> (res: Vec<String>)
    ensures
        views(res@) == seq!["Up"@, "C-p"@],
{
    strings2("Up", "C-p")
}

fn default_move_down() -> (res: Vec<String>)
    ensures
        views(res@) == seq!["Down"@, "C-n"@],
{
    strings2("Down", "C-n")
}

fn default_select() -> (res: Vec<String>)
    ensures
        views(res@) == seq!["Enter"@],
{
    strings("Enter")
}

fn default_dismiss() -> (res: Vec<String>)
    ensures
        views(res@) == seq!["Esc"@],
{
    strings("Esc")
}

fn default_force_quit() -> (res: Vec<String>)
    ensures
        views(res@) == seq!["C-c"@],
{
    strings("C-c")
}

fn default_backspace() -> (res: Vec<String>)
    ensures
        views(res@) == seq!["Backspace"@],
{
    strings("Backspace")
}

/// The default key strings of each action.
pub open spec fn is_default_keybindings(kb: Keybindings) -> bool {
    &&& views(kb.next_category@) == seq!["Tab"@]
    &&& views(kb.previous_category@) == seq!["S-Tab"@]
    &&& views(kb.move_up@) == seq!["Up"@, "C-p"@]
    &&& views(kb.move_down@) == seq!["Down"@, "C-n"@]
    &&& views(kb.select@) == seq!["Enter"@]
    &&& views(kb.dismiss@) == seq!["Esc"@]
    &&& views(kb.force_quit@) == seq!["C-c"@]
    &&& views(kb.backspace@) == seq!["Backspace"@]
}

impl Default for Keybindings {
    fn default() -> (res: Self)
        ensures
            is_default_keybindings(res),
    {
        Keybindings {
            next_category: default_next_category(),
            previous_category: default_previous_category(),
            move_up: default_move_up(),
            move_down: default_move_down(),
            select: default_select(),
            dismiss: default_dismiss(),
            force_quit: default_force_quit(),
            backspace: default_backspace(),
        }
    }
}

/// Whether some key string of `list` names the binding `key`.
fn binds(list: &Vec<String>, key: &KeyBinding) -> (res: bool)
    ensures
        res == list_binds(list@, *key),
{
    let mut i: usize = 0;
    while i < list.len()
        invariant
            i <= list@.len(),
            forall|j: int| 0 <= j < i ==> parse_binding(#[trigger] list@[j]@) != Some(*key),
        decreases list@.len() - i,
    {
        match KeyBinding::parse(list[i].as_str()) {
            Ok(b) => {
                if b == *key {
                    return true;
                }
            },
            Err(_) => {},
        }
        i += 1;
    }
    false
}

impl Keybindings {
    /// Return the action triggered by a given key event, or `None` if no binding matches.
    pub fn action_for(&self, key: &KeyEvent) -> (res: Option<Action>)
        ensures
            res == action_for_key(*self, KeyBinding { code: key.code, modifiers: key.modifiers }),
    {
        let binding = KeyBinding { code: key.code, modifiers: key.modifiers };
        if binds(&self.next_category, &binding) {
            return Some(Action::NextCategory);
        }
        if binds(&self.previous_category, &binding) {
            return Some(Action::PreviousCategory);
        }
        if binds(&self.move_up, &binding) {
            return Some(Action::MoveUp);
        }
        if binds(&self.move_down, &binding) {
            return Some(Action::MoveDown);
        }
        if binds(&self.select, &binding) {
            return Some(Action::Select);
        }
        if binds(&self.dismiss, &binding) {
            return Some(Action::Dismiss);
        }
        if binds(&self.force_quit, &binding) {
            return Some(Action::ForceQuit);
        }
        if binds(&self.backspace, &binding) {
            return Some(Action::Backspace);
        }
        None
    }
}

/// The lower-case hexadecimal digits, by value.
pub open spec fn hex_digits() -> Seq<char> {
    seq!['0', '1', '2', '3', '4', '5', '6', '7', '8', '9', 'a', 'b', 'c', 'd', 'e', 'f']
}

/// How JSON writes one character inside a string literal: a quote and a
/// backslash behind a backslash; backspace, tab, line feed, form feed and
/// carriage return as `\b \t \n \f \r`; the other characters below
/// U+0020 as `\u00` and two lower-case hex digits; every other character as
/// itself.
pub open spec fn json_char_escape(c: char) -> Seq<char> {
    if c == '"' {
        seq!['\\', '"']
    } else if c == '\\' {
        seq!['\\', '\\']
    } else if c == '\x08' {
        seq!['\\', 'b']
    } else if c == '\t' {
        seq!['\\', 't']
    } else if c == '\n' {
        seq!['\\', 'n']
    } else if c == '\x0c' {
        seq!['\\', 'f']
    } else if c == '\r' {
        seq!['\\', 'r']
    } else if (c as u32) < 0x20 {
        seq![
            '\\',
            'u',
            '0',
            '0',
            hex_digits()[(c as int) / 16],
            hex_digits()[(c as int) % 16],
        ]
    } else {
        seq![c]
    }
}

/// The characters of `s`, each written as JSON writes it inside a string.
pub open spec fn json_escaped(s: Seq<char>) -> Seq<char>
    decreases s.len(),
{
    if s.len() == 0 {
        seq![]
    } else {
        json_escaped(s.drop_last()) + json_char_escape(s.last())
    }
}

/// The text of `s` as a JSON string literal: its escaped characters between
/// double quotes.
pub open spec fn json_string_literal(s: Seq<char>) -> Seq<char> {
    quoted(json_escaped(s))
}

/// `s` holds no character that JSON writes escaped: no quote, no backslash,
/// no control character below U+0020.
pub open spec fn json_plain(s: Seq<char>) -> bool {
    forall|i: int|
        0 <= i < s.len() ==> #[trigger] s[i] != '"' && s[i] != '\\' && (s[i] as u32) >= 0x20
}

/// A character sequence between double quotes.
pub open spec fn quoted(s: Seq<char>) -> Seq<char> {
    seq!['"'] + s + seq!['"']
}

#[verifier::external_type_specification]
#[verifier::external_body]
pub struct ExJsonError(serde_json::Error);

/// Serialises a string slice with `serde_json::to_string`. Claimed of it: it
/// succeeds (a `str` serialises through `serialize_str`, whose only errors
/// are those of the writer, and `to_string` writes into a `Vec<u8>`, which
/// never fails), and the result is `s` between double quotes with each
/// character escaped as its `ESCAPE` table and `write_char_escape` in
/// `ser.rs` do it (`json_string_literal`).
#[verifier::external_body]
pub(crate) fn json_encode_str(s: &str) -> (res: Result<String, serde_json::Error>)
    ensures
        res is Ok,
        res matches Ok(r) ==> r@ == json_string_literal(s@),
{
    serde_json::to_string(s)
}

/// Text that holds no character JSON escapes is written as itself.
pub proof fn lemma_json_plain_unescaped(s: Seq<char>)
    requires
        json_plain(s),
    ensures
        json_escaped(s) == s,
        json_string_literal(s) == quoted(s),
    decreases s.len(),
{
    if s.len() > 0 {
        let c = s.last();
        assert(c == s[s.len() - 1]);
        assert(json_plain(s.drop_last()));
        lemma_json_plain_unescaped(s.drop_last());
        assert(json_char_escape(c) == seq![c]);
        assert(s.drop_last() + seq![c] =~= s);
    } else {
        assert(json_escaped(s) =~= s);
    }
}

/// The tab whose display label is `label`.
pub open spec fn tab_labelled(label: Seq<char>) -> Option<CategoryTab> {
    if label == tab_label(CategoryTab::Workspaces) {
        Some(CategoryTab::Workspaces)
    } else if label == tab_label(CategoryTab::Tabs) {
        Some(CategoryTab::Tabs)
    } else if label == tab_label(CategoryTab::Panes) {
        Some(CategoryTab::Panes)
    } else if label == tab_label(CategoryTab::Agents) {
        Some(CategoryTab::Agents)
    } else if label == tab_label(CategoryTab::All) {
        Some(CategoryTab::All)
    } else {
        None
    }
}

/// The tab that saved state text names: the text trimmed of whitespace and
/// then of double quotes, taken as a tab label.
pub open spec fn saved_tab(data: Seq<char>) -> Option<CategoryTab> {
    tab_labelled(trim(trim_ws(data), TrimSet::Quote))
}

/// The navigator's state file content for a tab: its label as a JSON string.
pub open spec fn state_text(cat: CategoryTab) -> Seq<char> {
    json_string_literal(tab_label(cat))
}

proof fn lemma_tab_label_plain(cat: CategoryTab)
    ensures
        json_plain(tab_label(cat)),
        tab_label(cat).len() > 0,
        !is_ws(tab_label(cat)[0]),
        !is_ws(tab_label(cat).last()),
        tab_label(cat)[0] != '"',
        tab_label(cat).last() != '"',
{
    reveal_strlit("Workspaces");
    reveal_strlit("Tabs");
    reveal_strlit("Agents");
    reveal_strlit("Panes");
    reveal_strlit("All");
}

proof fn lemma_labels_distinct()
    ensures
        tab_labelled(tab_label(CategoryTab::Workspaces)) == Some(CategoryTab::Workspaces),
        tab_labelled(tab_label(CategoryTab::Tabs)) == Some(CategoryTab::Tabs),
        tab_labelled(tab_label(CategoryTab::Panes)) == Some(CategoryTab::Panes),
        tab_labelled(tab_label(CategoryTab::Agents)) == Some(CategoryTab::Agents),
        tab_labelled(tab_label(CategoryTab::All)) == Some(CategoryTab::All),
{
    reveal_strlit("Workspaces");
    reveal_strlit("Tabs");
    reveal_strlit("Agents");
    reveal_strlit("Panes");
    reveal_strlit("All");
    assert("Tabs"@ != "Workspaces"@) by {
        assert("Tabs"@.len() != "Workspaces"@.len());
    }
    assert("Panes"@ != "Workspaces"@) by {
        assert("Panes"@.len() != "Workspaces"@.len());
    }
    assert("Panes"@ != "Tabs"@) by {
        assert("Panes"@.len() != "Tabs"@.len());
    }
    assert("Agents"@ != "Workspaces"@) by {
        assert("Agents"@.len() != "Workspaces"@.len());
    }
    assert("Agents"@ != "Tabs"@) by {
        assert("Agents"@.len() != "Tabs"@.len());
    }
    assert("Agents"@ != "Panes"@) by {
        assert("Agents"@.len() != "Panes"@.len());
    }
    assert("All"@ != "Workspaces"@) by {
        assert("All"@.len() != "Workspaces"@.len());
    }
    assert("All"@ != "Tabs"@) by {
        assert("All"@[1] != "Tabs"@[1]);
    }
    assert("All"@ != "Panes"@) by {
        assert("All"@.len() != "Panes"@.len());
    }
    assert("All"@ != "Agents"@) by {
        assert("All"@.len() != "Agents"@.len());
    }
}

/// The tab named by saved state text that holds a tab label between double
/// quotes is that tab: what the navigator saves for a tab, it loads back as
/// the same tab.
pub proof fn saved_tab_round_trip(cat: CategoryTab)
    ensures
        saved_tab(quoted(tab_label(cat))) == Some(cat),
{
    let l = tab_label(cat);
    let q = quoted(l);
    lemma_tab_label_plain(cat);
    lemma_labels_distinct();
    assert(q[0] == '"');
    assert(q.last() == '"');
    assert(trim_start(q, TrimSet::Whitespace) == q);
    assert(trim_end(q, TrimSet::Whitespace) == q);
    let d = q.drop_first();
    assert(d[0] == l[0]);
    assert(trim_start(d, TrimSet::Quote) == d);
    assert(trim_start(q, TrimSet::Quote) == d);
    let e = d.drop_last();
    assert(e =~= l);
    assert(d.last() == '"');
    assert(trim_end(e, TrimSet::Quote) == e);
    assert(trim_end(d, TrimSet::Quote) == e);
}

/// Global TUI application state.
pub struct AppState {
    /// Configurable keybindings.
    pub keybindings: Keybindings,
    /// Full list of navigation nodes.
    pub nodes: Vec<NavigationNode>,
    /// Currently selected category tab.
    pub current_category: CategoryTab,
    /// Configured category tabs: display order and visibility combined.
    /// Always non-empty.
    pub tabs: Vec<CategoryTab>,
    /// Search input text.
    pub search_query: String,
    /// Currently highlighted list index.
    pub selected_index: usize,
    /// Animation tick for spinner (incremented each render frame).
    pub spinner_tick: u32,
    /// Herdr theme name (e.g. "tokyonight", "tokyonight-storm") from context.
    pub theme_name: Option<String>,
    /// Cache key: hash of the last display-list build inputs.
    pub cache_key: Option<u64>,
    /// Cached display list (already searched/filtered).
    pub cached_displayed: Rc<Vec<DisplayItem>>,
    /// Total items before search filtering; shown in the status bar count.
    pub cached_total: usize,
    /// Lazily-fetched pane runtime state for the All tab (cmd/ssh/cwd).
    pub others: StringHashMap<PaneOthers>,
    /// Cached ANSI-stripped pane buffers backing the All tab's content rows.
    pub contents: StringHashMap<String>,
}

impl AppState {
    /// The state file content that records `cat` as the last-used tab: its
    /// label as a JSON string.
    pub fn category_state(cat: &CategoryTab) -> (res: Option<String>)
        ensures
            res is Some,
            res matches Some(d) ==> d@ == state_text(*cat) && d@ == quoted(tab_label(*cat)),
    {
        proof {
            lemma_tab_label_plain(*cat);
            lemma_json_plain_unescaped(tab_label(*cat));
        }
        match json_encode_str(cat.label()) {
            Ok(data) => Some(data),
            Err(_) => None,
        }
    }

    /// The state file content that records the current category.
    pub fn last_category_state(&self) -> (res: Option<String>)
        ensures
            res is Some,
            res matches Some(d) ==> d@ == state_text(self.current_category) && d@ == quoted(
                tab_label(self.current_category),
            ),
    {
        AppState::category_state(&self.current_category)
    }

    /// The tab that state file content names, if any.
    pub fn category_from_state(data: &str) -> (res: Option<CategoryTab>)
        ensures
            res == saved_tab(data@),
    {
        let trimmed = trim_str(data, TrimSet::Whitespace);
        let label = trim_str(trimmed, TrimSet::Quote);
        let all = CategoryTab::all();
        let mut i: usize = 0;
        while i < 5
            invariant
                i <= 5,
                all@ == default_tab_order(),
                label@ == trim(trim_ws(data@), TrimSet::Quote),
                forall|j: int| 0 <= j < i ==> tab_label(#[trigger] all@[j]) != label@,
            decreases 5 - i,
        {
            let t = all[i];
            if str_eq(t.label(), label) {
                proof {
                    lemma_labels_distinct();
                    assert(all@[i as int] == t);
                    if i > 0 {
                        assert(tab_label(all@[0]) != label@);
                    }
                    if i > 1 {
                        assert(tab_label(all@[1]) != label@);
                    }
                    if i > 2 {
                        assert(tab_label(all@[2]) != label@);
                    }
                    if i > 3 {
                        assert(tab_label(all@[3]) != label@);
                    }
                }
                return Some(t);
            }
            i += 1;
        }
        proof {
            assert(tab_label(all@[0]) != label@);
            assert(tab_label(all@[1]) != label@);
            assert(tab_label(all@[2]) != label@);
            assert(tab_label(all@[3]) != label@);
            assert(tab_label(all@[4]) != label@);
        }
        None
    }
}

} // verus!
