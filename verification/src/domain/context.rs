//! A bounded, compacted window of recent activity.
//!
//! Instead of a transcript, the next agent gets the latest actions and one line
//! about each action that fell out of the window.

use crate::domain::action::{
    action_kind_text, importance_of, Action, ActionKind, ActionView,
};
use crate::domain::ids::{AgentId, TaskId};
use crate::time::{clock_time, Timestamp};
use vstd::prelude::*;
use vstd::string::*;

verus! {

/// How many actions a window holds unless told otherwise.
pub const DEFAULT_MAX_ACTIONS: usize = 50;

/// How many names of failing tests are kept.
pub const DEFAULT_MAX_FAILURE_NAMES: usize = 20;

/// Errors and checkpoints: the evidence that resuming a task depends on.
pub open spec fn is_evidence(kind: ActionKind) -> bool {
    importance_of(kind) >= importance_of(ActionKind::Checkpoint)
}

/// An action that compaction may drop.
pub open spec fn is_routine(a: ActionView) -> bool {
    !is_evidence(a.kind)
}

/// How many routine actions there are.
pub open spec fn routine_count(s: Seq<ActionView>) -> nat
    decreases s.len(),
{
    if s.len() == 0 {
        0
    } else {
        (if is_routine(s[0]) {
            1nat
        } else {
            0nat
        }) + routine_count(s.drop_first())
    }
}

/// `s` without its first `n` routine actions.
pub open spec fn kept(s: Seq<ActionView>, n: nat) -> Seq<ActionView>
    decreases s.len(),
{
    if s.len() == 0 || n == 0 {
        s
    } else if is_routine(s[0]) {
        kept(s.drop_first(), (n - 1) as nat)
    } else {
        seq![s[0]] + kept(s.drop_first(), n)
    }
}

/// The first `n` routine actions of `s`.
pub open spec fn dropped(s: Seq<ActionView>, n: nat) -> Seq<ActionView>
    decreases s.len(),
{
    if s.len() == 0 || n == 0 {
        Seq::empty()
    } else if is_routine(s[0]) {
        seq![s[0]] + dropped(s.drop_first(), (n - 1) as nat)
    } else {
        dropped(s.drop_first(), n)
    }
}

/// How many actions make room for a new one in a window of `max`: as many as
/// stand above the bound, but routine ones only.
pub open spec fn evictions(s: Seq<ActionView>, max: nat) -> nat {
    let over: nat = if s.len() >= max {
        (s.len() - max + 1) as nat
    } else {
        0
    };
    if over <= routine_count(s) {
        over
    } else {
        routine_count(s)
    }
}

/// The line that a dropped action leaves behind.
pub open spec fn line_about(a: ActionView) -> Seq<char> {
    "["@ + action_kind_text(a.kind) + "] "@ + a.summary
}

/// A summary with one more line.
pub open spec fn with_line(summary: Option<Seq<char>>, line: Seq<char>) -> Option<Seq<char>> {
    match summary {
        Some(existing) => Some(existing + "\n"@ + line),
        None => Some(line),
    }
}

/// A summary with a line about each of `gone`, in order.
pub open spec fn folded(summary: Option<Seq<char>>, gone: Seq<ActionView>) -> Option<Seq<char>>
    decreases gone.len(),
{
    if gone.len() == 0 {
        summary
    } else {
        with_line(folded(summary, gone.drop_last()), line_about(gone.last()))
    }
}

/// A bounded view of what has been happening.
#[derive(Debug, PartialEq, Eq)]
pub struct RecentContext {
    /// The task that it describes, if any.
    pub task_id: Option<TaskId>,
    /// The actions in the window, oldest first.
    pub actions: Vec<Action>,
    /// One line about each action that fell out of the window.
    pub compacted_summary: Option<String>,
    /// How many actions were ever recorded.
    pub total_recorded: u64,
    /// The bound on the window.
    pub max_actions: usize,
    /// When the first action was recorded.
    pub window_start: Option<Timestamp>,
    /// When the last one was.
    pub window_end: Option<Timestamp>,
    /// The agents that were seen, each once.
    pub participants: Vec<AgentId>,
}

/// What a [`RecentContext`] holds.
#[verifier::ext_equal]
pub struct RecentContextView {
    pub task_id: Option<Seq<char>>,
    pub actions: Seq<ActionView>,
    pub compacted_summary: Option<Seq<char>>,
    pub total_recorded: u64,
    pub max_actions: usize,
    pub window_start: Option<Timestamp>,
    pub window_end: Option<Timestamp>,
    pub participants: Seq<Seq<char>>,
}

impl View for RecentContext {
    type V = RecentContextView;

    open spec fn view(&self) -> RecentContextView {
        RecentContextView {
            task_id: self.task_id.deep_view(),
            actions: self.actions.deep_view(),
            compacted_summary: self.compacted_summary.deep_view(),
            total_recorded: self.total_recorded,
            max_actions: self.max_actions,
            window_start: self.window_start,
            window_end: self.window_end,
            participants: self.participants.deep_view(),
        }
    }
}

impl DeepView for RecentContext {
    type V = RecentContextView;

    open spec fn deep_view(&self) -> RecentContextView {
        self.view()
    }
}

impl Clone for RecentContext {
    fn clone(&self) -> (r: Self)
        ensures
            r@ == self@,
    {
        let r: RecentContext = RecentContext {
            task_id: self.task_id.clone(),
            actions: self.actions.clone(),
            compacted_summary: self.compacted_summary.clone(),
            total_recorded: self.total_recorded,
            max_actions: self.max_actions,
            window_start: self.window_start,
            window_end: self.window_end,
            participants: self.participants.clone(),
        };
        assert(r.actions.deep_view() =~= self.actions.deep_view());
        assert(r.participants.deep_view() =~= self.participants.deep_view());
        r
    }
}

/// The actions that stay when one more is recorded.
pub open spec fn staying(c: RecentContextView) -> Seq<ActionView> {
    kept(c.actions, evictions(c.actions, c.max_actions as nat))
}

/// The window takes an action in: there is room for it, or it is evidence.
pub open spec fn takes_in(c: RecentContextView, action: ActionView) -> bool {
    staying(c).len() < c.max_actions || !is_routine(action)
}

/// The actions that are folded into the summary when one more is recorded: those that
/// made room, and the new one where there is no room for it all the same.
pub open spec fn folded_away(c: RecentContextView, action: ActionView) -> Seq<ActionView> {
    let gone = dropped(c.actions, evictions(c.actions, c.max_actions as nat));
    if takes_in(c, action) {
        gone
    } else {
        gone.push(action)
    }
}

/// The window after one more action.
pub open spec fn pushed(c: RecentContextView, action: ActionView) -> RecentContextView {
    RecentContextView {
        task_id: c.task_id,
        actions: if takes_in(c, action) {
            staying(c).push(action)
        } else {
            staying(c)
        },
        compacted_summary: folded(c.compacted_summary, folded_away(c, action)),
        total_recorded: if c.total_recorded < u64::MAX {
            (c.total_recorded + 1) as u64
        } else {
            u64::MAX
        },
        max_actions: c.max_actions,
        window_start: match c.window_start {
            Some(start) => Some(start),
            None => Some(action.at),
        },
        window_end: Some(action.at),
        participants: match action.agent_id {
            Some(agent) => if c.participants.contains(agent) {
                c.participants
            } else {
                c.participants.push(agent)
            },
            None => c.participants,
        },
    }
}

/// The first routine action of `s` stands at `i`.
spec fn first_routine(s: Seq<ActionView>, i: int) -> bool {
    0 <= i < s.len() && is_routine(s[i]) && forall|j: int| 0 <= j < i ==> !is_routine(
        #[trigger] s[j],
    )
}

proof fn lemma_remove_first_routine(s: Seq<ActionView>, i: int)
    requires
        first_routine(s, i),
    ensures
        kept(s, 1) == s.remove(i),
        dropped(s, 1) == seq![s[i]],
        routine_count(s) > 0,
    decreases s.len(),
{
    if i == 0 {
        assert(s.remove(0) =~= s.drop_first());
        assert(kept(s.drop_first(), 0) == s.drop_first());
        assert(dropped(s.drop_first(), 0) =~= Seq::empty());
        assert(seq![s[0]] + Seq::empty() =~= seq![s[0]]);
    } else {
        let t = s.drop_first();
        assert(!is_routine(s[0]));
        assert forall|j: int| 0 <= j < i - 1 implies !is_routine(#[trigger] t[j]) by {
            assert(t[j] == s[j + 1]);
        }
        lemma_remove_first_routine(t, i - 1);
        assert(seq![s[0]] + t.remove(i - 1) =~= s.remove(i));
    }
}

/// Dropping in two steps is dropping at once.
proof fn lemma_kept_in_steps(s: Seq<ActionView>, n: nat)
    ensures
        kept(kept(s, n), 1) == kept(s, n + 1),
        dropped(s, n + 1) == dropped(s, n) + dropped(kept(s, n), 1),
        kept(s, n).len() + dropped(s, n).len() == s.len(),
    decreases s.len(),
{
    if s.len() == 0 {
        assert(dropped(s, n + 1) =~= dropped(s, n) + dropped(kept(s, n), 1));
    } else if n == 0 {
        assert(dropped(s, 1) =~= Seq::empty() + dropped(s, 1));
    } else if is_routine(s[0]) {
        let t = s.drop_first();
        lemma_kept_in_steps(t, (n - 1) as nat);
        assert(dropped(s, n + 1) =~= dropped(s, n) + dropped(kept(s, n), 1));
    } else {
        let t = s.drop_first();
        lemma_kept_in_steps(t, n);
        let k = seq![s[0]] + kept(t, n);
        assert(k.drop_first() =~= kept(t, n));
        assert(k[0] == s[0]);
        assert(dropped(s, n + 1) =~= dropped(s, n) + dropped(kept(s, n), 1));
    }
}

/// Each dropped action was routine, so as many fewer routine ones remain.
proof fn lemma_routine_left(s: Seq<ActionView>, n: nat)
    requires
        n <= routine_count(s),
    ensures
        routine_count(kept(s, n)) == routine_count(s) - n,
        dropped(s, n).len() == n,
    decreases s.len(),
{
    if s.len() > 0 && n > 0 {
        let t = s.drop_first();
        if is_routine(s[0]) {
            lemma_routine_left(t, (n - 1) as nat);
        } else {
            lemma_routine_left(t, n);
            let k = seq![s[0]] + kept(t, n);
            assert(k.drop_first() =~= kept(t, n));
        }
    }
}

proof fn lemma_no_routine(s: Seq<ActionView>)
    requires
        forall|j: int| 0 <= j < s.len() ==> !is_routine(#[trigger] s[j]),
    ensures
        routine_count(s) == 0,
    decreases s.len(),
{
    if s.len() > 0 {
        assert(!is_routine(s[0]));
        assert forall|j: int| 0 <= j < s.drop_first().len() implies !is_routine(
            #[trigger] s.drop_first()[j],
        ) by {
            assert(s.drop_first()[j] == s[j + 1]);
        }
        lemma_no_routine(s.drop_first());
    }
}

proof fn lemma_some_routine(s: Seq<ActionView>, i: int)
    requires
        0 <= i < s.len(),
        is_routine(s[i]),
    ensures
        routine_count(s) > 0,
    decreases s.len(),
{
    if i > 0 {
        assert(s.drop_first()[i - 1] == s[i]);
        lemma_some_routine(s.drop_first(), i - 1);
    }
}

/// Evidence is never dropped, and keeps its order.
proof fn lemma_evidence_is_kept(s: Seq<ActionView>, n: nat)
    ensures
        kept(s, n).filter(|a: ActionView| !is_routine(a)) == s.filter(
            |a: ActionView| !is_routine(a),
        ),
    decreases s.len(),
{
    let p = |a: ActionView| !is_routine(a);
    if s.len() > 0 && n > 0 {
        let t = s.drop_first();
        assert(s =~= seq![s[0]] + t);
        Seq::filter_distributes_over_add(seq![s[0]], t, p);
        assert(seq![s[0]].filter(p) =~= (if p(s[0]) {
            seq![s[0]]
        } else {
            Seq::empty()
        })) by {
            reveal_with_fuel(Seq::filter, 2);
            assert(seq![s[0]].drop_last() =~= Seq::empty());
            assert(Seq::<ActionView>::empty().push(s[0]) =~= seq![s[0]]);
        }
        if is_routine(s[0]) {
            lemma_evidence_is_kept(t, (n - 1) as nat);
            assert(s.filter(p) =~= t.filter(p));
        } else {
            lemma_evidence_is_kept(t, n);
            Seq::filter_distributes_over_add(seq![s[0]], kept(t, n), p);
        }
    }
}

impl RecentContext {
    /// An empty window for a task, with the usual bound.
    pub fn for_task(task_id: TaskId) -> (r: Self)
        ensures
            r@ == empty_context(Some(task_id@), DEFAULT_MAX_ACTIONS),
    {
        Self::new(Some(task_id), DEFAULT_MAX_ACTIONS)
    }

    /// An empty window for no task in particular, with the usual bound.
    pub fn unbounded_from_task() -> (r: Self)
        ensures
            r@ == empty_context(None, DEFAULT_MAX_ACTIONS),
    {
        Self::new(None, DEFAULT_MAX_ACTIONS)
    }

    /// An empty window of at most `max_actions`, and of one at least.
    pub fn new(task_id: Option<TaskId>, max_actions: usize) -> (r: Self)
        ensures
            r@ == empty_context(
                task_id.deep_view(),
                (if max_actions == 0 {
                    1usize
                } else {
                    max_actions
                }),
            ),
    {
        let max_actions: usize = if max_actions == 0 {
            1
        } else {
            max_actions
        };
        let r: RecentContext = RecentContext {
            task_id,
            actions: Vec::new(),
            compacted_summary: None,
            total_recorded: 0,
            max_actions,
            window_start: None,
            window_end: None,
            participants: Vec::new(),
        };
        assert(r.actions.deep_view() =~= Seq::empty());
        assert(r.participants.deep_view() =~= Seq::empty());
        r
    }

    /// The place of the first action that compaction may drop.
    fn first_routine_action(&self) -> (r: Option<usize>)
        ensures
            match r {
                Some(i) => first_routine(self@.actions, i as int),
                None => routine_count(self@.actions) == 0,
            },
    {
        let mut i: usize = 0;
        while i < self.actions.len()
            invariant
                i <= self.actions.len(),
                forall|j: int| 0 <= j < i ==> !is_routine(#[trigger] self@.actions[j]),
            decreases self.actions.len() - i,
        {
            assert(self@.actions[i as int] == self.actions@[i as int]@);
            if self.actions[i].kind.importance() < ActionKind::Checkpoint.importance() {
                return Some(i);
            }
            i += 1;
        }
        proof {
            lemma_no_routine(self@.actions);
        }
        None
    }

    /// Records an action. When the window is full, routine actions are dropped
    /// from the front until there is room, and each leaves a line in the summary.
    /// Errors and checkpoints stay, even when the window grows past its bound; a
    /// routine action for which they leave no room goes into the summary itself.
    pub fn push(&mut self, action: Action)
        ensures
            final(self)@ == pushed(old(self)@, action@),
    {
        let ghost start = self@;
        self.total_recorded = self.total_recorded.saturating_add(1);
        if self.window_start.is_none() {
            self.window_start = Some(action.at);
        }
        self.window_end = Some(action.at);
        if let Some(agent) = &action.agent_id {
            if !agent.is_among(&self.participants) {
                let ghost before = self.participants.deep_view();
                self.participants.push(agent.clone());
                assert(self.participants.deep_view() =~= before.push(agent@));
            }
        }
        let ghost marked = self@;
        let ghost mut n: nat = 0;
        proof {
            assert(kept(start.actions, 0) == start.actions);
            assert(dropped(start.actions, 0) =~= Seq::empty());
        }
        while self.actions.len() >= self.max_actions
            invariant_except_break
                n <= routine_count(start.actions),
                n > 0 ==> start.actions.len() - n + 1 >= start.max_actions,
            invariant
                marked.max_actions == start.max_actions,
                marked.actions == start.actions,
                marked.compacted_summary == start.compacted_summary,
                self@ == (RecentContextView {
                    actions: kept(start.actions, n),
                    compacted_summary: folded(
                        start.compacted_summary,
                        dropped(start.actions, n),
                    ),
                    ..marked
                }),
                self@.actions.len() + n == start.actions.len(),
            ensures
                n == evictions(start.actions, start.max_actions as nat),
            decreases self@.actions.len(),
        {
            match self.first_routine_action() {
                None => {
                    proof {
                        lemma_routine_left(start.actions, n);
                    }
                    break ;
                },
                Some(i) => {
                    proof {
                        lemma_routine_left(start.actions, n);
                        lemma_remove_first_routine(self@.actions, i as int);
                        lemma_kept_in_steps(start.actions, n);
                        assert(n < routine_count(start.actions)) by {
                            lemma_some_routine(self@.actions, i as int);
                        }
                        lemma_routine_left(start.actions, n + 1);
                        lemma_kept_in_steps(start.actions, n + 1);
                    }
                    let ghost before = self.actions.deep_view();
                    let gone: Action = self.actions.remove(i);
                    assert(self.actions.deep_view() =~= before.remove(i as int));
                    assert(gone@ == before[i as int]);
                    self.compact(&gone);
                    proof {
                        let d = dropped(start.actions, n + 1);
                        assert(d.drop_last() =~= dropped(start.actions, n));
                        assert(d.last() == gone@);
                        n = n + 1;
                    }
                },
            }
        }
        assert(self@.actions == staying(start));
        if self.actions.len() < self.max_actions || action.kind.importance()
            >= ActionKind::Checkpoint.importance() {
            let ghost before = self.actions.deep_view();
            self.actions.push(action);
            assert(self.actions.deep_view() =~= before.push(action@));
        } else {
            self.compact(&action);
            proof {
                let gone = dropped(start.actions, n);
                assert(gone.push(action@).drop_last() =~= gone);
            }
        }
    }

    /// Adds a line about an action that was dropped.
    fn compact(&mut self, action: &Action)
        ensures
            final(self)@ == (RecentContextView {
                compacted_summary: with_line(old(self)@.compacted_summary, line_about(action@)),
                ..old(self)@
            }),
    {
        let mut line: String = "[".to_owned();
        line.append(action.kind.to_string().as_str());
        line.append("] ");
        line.append(action.summary.as_str());
        let summary: String = match &self.compacted_summary {
            Some(existing) => {
                let mut text: String = existing.clone();
                text.append("\n");
                text.append(line.as_str());
                text
            },
            None => line,
        };
        self.compacted_summary = Some(summary);
    }

    /// The number of actions in the window.
    pub fn len(&self) -> (r: usize)
        ensures
            r == self@.actions.len(),
    {
        self.actions.len()
    }

    /// Whether the window is empty.
    pub fn is_empty(&self) -> (r: bool)
        ensures
            r == (self@.actions.len() == 0),
    {
        self.actions.len() == 0
    }

    /// Whether the window is within its bound, or holds errors and checkpoints
    /// only.
    pub fn respects_bound(&self) -> (r: bool)
        ensures
            r == within_bound(self@),
    {
        if self.actions.len() <= self.max_actions {
            return true;
        }
        match self.first_routine_action() {
            Some(i) => {
                assert(is_routine(self@.actions[i as int]));
                false
            },
            None => {
                assert forall|j: int| 0 <= j < self@.actions.len() implies !is_routine(
                    #[trigger] self@.actions[j],
                ) by {
                    if is_routine(self@.actions[j]) {
                        lemma_some_routine(self@.actions, j);
                    }
                }
                true
            },
        }
    }
}

/// A window that nothing was recorded in.
pub open spec fn empty_context(task: Option<Seq<char>>, max: usize) -> RecentContextView {
    RecentContextView {
        task_id: task,
        actions: Seq::empty(),
        compacted_summary: None,
        total_recorded: 0,
        max_actions: max,
        window_start: None,
        window_end: None,
        participants: Seq::empty(),
    }
}

/// The window is within its bound, or holds errors and checkpoints only.
pub open spec fn within_bound(c: RecentContextView) -> bool {
    c.actions.len() <= c.max_actions || forall|i: int|
        0 <= i < c.actions.len() ==> !is_routine(#[trigger] c.actions[i])
}

/// Recording an action never loses an error or a checkpoint, and keeps them in
/// order.
pub proof fn law_evidence_is_never_dropped(c: RecentContextView, action: ActionView)
    ensures
        pushed(c, action).actions.filter(|a: ActionView| !is_routine(a)) == c.actions.push(
            action,
        ).filter(|a: ActionView| !is_routine(a)),
{
    let p = |a: ActionView| !is_routine(a);
    lemma_evidence_is_kept(c.actions, evictions(c.actions, c.max_actions as nat));
    reveal(Seq::filter);
    assert(staying(c).push(action).drop_last() =~= staying(c));
    assert(c.actions.push(action).drop_last() =~= c.actions);
}

/// The window is bounded at all times: after any action it is within its bound, or
/// holds errors and checkpoints only.
pub proof fn law_window_is_always_bounded(c: RecentContextView, action: ActionView)
    ensures
        within_bound(pushed(c, action)),
{
    let n = evictions(c.actions, c.max_actions as nat);
    let k = staying(c);
    lemma_routine_left(c.actions, n);
    lemma_kept_in_steps(c.actions, n);
    let a = pushed(c, action).actions;
    if a.len() > c.max_actions {
        assert(n == routine_count(c.actions));
        assert forall|i: int| 0 <= i < a.len() implies !is_routine(#[trigger] a[i]) by {
            if i < k.len() {
                assert(a[i] == k[i]);
                if is_routine(k[i]) {
                    lemma_some_routine(k, i);
                }
            } else {
                assert(a[i] == action);
            }
        }
    }
}

/// While there is room nothing is folded away, and the new action comes last.
pub proof fn law_a_new_action_comes_last(c: RecentContextView, action: ActionView)
    requires
        c.actions.len() < c.max_actions,
    ensures
        pushed(c, action).actions == c.actions.push(action),
        pushed(c, action).compacted_summary == c.compacted_summary,
{
    assert(kept(c.actions, 0) == c.actions);
    assert(dropped(c.actions, 0) =~= Seq::empty());
}

/// Nothing vanishes without a trace: every action that was recorded is in the window,
/// or has left a line in the summary.
pub proof fn law_every_action_is_accounted_for(c: RecentContextView, action: ActionView)
    ensures
        pushed(c, action).actions.len() + folded_away(c, action).len() == c.actions.len() + 1,
        pushed(c, action).compacted_summary == folded(
            c.compacted_summary,
            folded_away(c, action),
        ),
        c.total_recorded < u64::MAX ==> pushed(c, action).total_recorded == c.total_recorded + 1,
{
    lemma_kept_in_steps(c.actions, evictions(c.actions, c.max_actions as nat));
}

/// An agent is named among the participants once, however often it acts.
pub proof fn law_participants_are_named_once(c: RecentContextView, action: ActionView)
    requires
        c.participants.no_duplicates(),
    ensures
        pushed(c, action).participants.no_duplicates(),
        action.agent_id is Some ==> pushed(c, action).participants.contains(
            action.agent_id->0,
        ),
{
    if action.agent_id is Some && !c.participants.contains(action.agent_id->0) {
        let p = c.participants.push(action.agent_id->0);
        assert(p[p.len() - 1] == action.agent_id->0);
    }
}

/// The window as it stood at one moment.
#[derive(Debug, PartialEq, Eq)]
pub struct ContextSnapshot {
    /// The task that it describes, if any.
    pub task_id: Option<TaskId>,
    /// The actions that were in the window.
    pub actions: Vec<Action>,
    /// One line about each action that fell out of it.
    pub compacted_summary: Option<String>,
    /// The agents that were seen.
    pub participants: Vec<AgentId>,
    /// When the snapshot was taken.
    pub captured_at: Timestamp,
}

/// What a [`ContextSnapshot`] holds.
#[verifier::ext_equal]
pub struct ContextSnapshotView {
    pub task_id: Option<Seq<char>>,
    pub actions: Seq<ActionView>,
    pub compacted_summary: Option<Seq<char>>,
    pub participants: Seq<Seq<char>>,
    pub captured_at: Timestamp,
}

impl View for ContextSnapshot {
    type V = ContextSnapshotView;

    open spec fn view(&self) -> ContextSnapshotView {
        ContextSnapshotView {
            task_id: self.task_id.deep_view(),
            actions: self.actions.deep_view(),
            compacted_summary: self.compacted_summary.deep_view(),
            participants: self.participants.deep_view(),
            captured_at: self.captured_at,
        }
    }
}

impl DeepView for ContextSnapshot {
    type V = ContextSnapshotView;

    open spec fn deep_view(&self) -> ContextSnapshotView {
        self.view()
    }
}

impl Clone for ContextSnapshot {
    fn clone(&self) -> (r: Self)
        ensures
            r@ == self@,
    {
        let r: ContextSnapshot = ContextSnapshot {
            task_id: self.task_id.clone(),
            actions: self.actions.clone(),
            compacted_summary: self.compacted_summary.clone(),
            participants: self.participants.clone(),
            captured_at: self.captured_at,
        };
        assert(r.actions.deep_view() =~= self.actions.deep_view());
        assert(r.participants.deep_view() =~= self.participants.deep_view());
        r
    }
}

impl ContextSnapshot {
    /// Freezes the window as it is.
    pub fn from_window(ctx: &RecentContext) -> (r: Self)
        ensures
            clock_time(r.captured_at@),
            r@ == (ContextSnapshotView {
                task_id: ctx@.task_id,
                actions: ctx@.actions,
                compacted_summary: ctx@.compacted_summary,
                participants: ctx@.participants,
                captured_at: r.captured_at,
            }),
    {
        let r: ContextSnapshot = ContextSnapshot {
            task_id: ctx.task_id.clone(),
            actions: ctx.actions.clone(),
            compacted_summary: ctx.compacted_summary.clone(),
            participants: ctx.participants.clone(),
            captured_at: Timestamp::now(),
        };
        assert(r.actions.deep_view() =~= ctx.actions.deep_view());
        assert(r.participants.deep_view() =~= ctx.participants.deep_view());
        r
    }
}

/// At `k` a line of `text` begins that reads `line`.
pub open spec fn line_at(text: Seq<char>, line: Seq<char>, k: int) -> bool {
    &&& 0 <= k && k + line.len() <= text.len()
    &&& text.subrange(k, k + line.len()) == line
    &&& k == 0 || text[k - 1] == '\n'
    &&& k + line.len() == text.len() || text[k + line.len()] == '\n'
}

/// `line` is a line of `text`, or several that follow each other.
pub open spec fn has_line(text: Seq<char>, line: Seq<char>) -> bool {
    exists|k: int| line_at(text, line, k)
}

/// `longer` is `text`, or continues it on a new line.
pub open spec fn continues(longer: Seq<char>, text: Seq<char>) -> bool {
    &&& text.len() <= longer.len()
    &&& longer.take(text.len() as int) == text
    &&& longer.len() == text.len() || longer[text.len() as int] == '\n'
}

/// A line stays one when the text is continued on a new line.
proof fn lemma_line_stays(text: Seq<char>, more: Seq<char>, line: Seq<char>)
    requires
        has_line(text, line),
    ensures
        has_line(text + "\n"@ + more, line),
{
    reveal_strlit("\n");
    let longer = text + "\n"@ + more;
    let k = choose|k: int| line_at(text, line, k);
    assert(longer.subrange(k, k + line.len()) =~= line);
    assert(longer[text.len() as int] == '\n');
    assert(line_at(longer, line, k));
}

/// Folding keeps what the summary held and gives every action a line.
proof fn lemma_folded(summary: Option<Seq<char>>, gone: Seq<ActionView>)
    ensures
        gone.len() > 0 ==> folded(summary, gone) is Some,
        summary is Some ==> folded(summary, gone) is Some && continues(
            folded(summary, gone)->0,
            summary->0,
        ),
        forall|j: int|
            0 <= j < gone.len() ==> has_line(
                folded(summary, gone)->0,
                "["@ + action_kind_text((#[trigger] gone[j]).kind) + "] "@ + gone[j].summary,
            ),
    decreases gone.len(),
{
    if gone.len() > 0 {
        let front = folded(summary, gone.drop_last());
        let line = line_about(gone.last());
        let whole = folded(summary, gone)->0;
        lemma_folded(summary, gone.drop_last());
        reveal_strlit("\n");
        match front {
            Some(existing) => {
                assert(whole == existing + "\n"@ + line);
                assert(whole[existing.len() as int] == '\n');
                assert(whole.take(existing.len() as int) =~= existing);
                assert(whole.subrange(existing.len() as int + 1, whole.len() as int) =~= line);
                assert(line_at(whole, line, existing.len() as int + 1));
                if summary is Some {
                    assert(whole.take(summary->0.len() as int) =~= existing.take(
                        summary->0.len() as int,
                    ));
                }
            },
            None => {
                assert(whole == line);
                assert(whole.subrange(0, whole.len() as int) =~= line);
                assert(line_at(whole, line, 0));
            },
        }
        assert forall|j: int| 0 <= j < gone.len() implies has_line(
            whole,
            "["@ + action_kind_text((#[trigger] gone[j]).kind) + "] "@ + gone[j].summary,
        ) by {
            if j < gone.len() - 1 {
                assert(gone.drop_last()[j] == gone[j]);
                lemma_line_stays(front->0, line, line_about(gone[j]));
            }
        }
    } else if summary is Some {
        assert(summary->0.take(summary->0.len() as int) =~= summary->0);
    }
}

/// The summary only grows: what it held stays, each action that leaves the window or
/// is not taken in adds one line `[kind] summary`, and where nothing leaves, nothing
/// is added.
pub proof fn law_the_summary_only_grows(c: RecentContextView, action: ActionView)
    ensures
        c.compacted_summary matches Some(old) ==> (pushed(c, action).compacted_summary matches Some(
            new,
        ) && continues(new, old)),
        forall|j: int|
            0 <= j < folded_away(c, action).len() ==> (pushed(
                c,
                action,
            ).compacted_summary matches Some(text) && has_line(
                text,
                "["@ + action_kind_text((#[trigger] folded_away(c, action)[j]).kind) + "] "@
                    + folded_away(c, action)[j].summary,
            )),
        folded_away(c, action).len() == 0 ==> pushed(c, action).compacted_summary
            == c.compacted_summary,
{
    lemma_folded(c.compacted_summary, folded_away(c, action));
}

/// Where one action leaves, the summary grows by exactly its line.
pub proof fn law_one_action_adds_one_line(
    c: RecentContextView,
    action: ActionView,
    gone: ActionView,
)
    requires
        folded_away(c, action) == seq![gone],
    ensures
        ({
            let line = "["@ + action_kind_text(gone.kind) + "] "@ + gone.summary;
            pushed(c, action).compacted_summary == Some(
                match c.compacted_summary {
                    Some(old) => old.push('\n') + line,
                    None => line,
                },
            )
        }),
{
    reveal_strlit("\n");
    assert(seq![gone].drop_last() =~= Seq::empty());
    assert(folded(c.compacted_summary, Seq::empty()) == c.compacted_summary);
    if c.compacted_summary is Some {
        assert(c.compacted_summary->0 + "\n"@ =~= c.compacted_summary->0.push('\n'));
    }
}

/// Errors and checkpoints are what is kept as evidence, and nothing else is.
pub proof fn law_errors_and_checkpoints_are_the_evidence(a: ActionView)
    ensures
        is_routine(a) <==> a.kind != ActionKind::Error && a.kind != ActionKind::Checkpoint,
{
}

/// What is kept and what is dropped is the routine part, split at one place.
proof fn lemma_split(s: Seq<ActionView>, n: nat)
    requires
        n <= routine_count(s),
    ensures
        s.filter(|a: ActionView| is_routine(a)).len() == routine_count(s),
        kept(s, n).filter(|a: ActionView| is_routine(a)) == s.filter(
            |a: ActionView| is_routine(a),
        ).skip(n as int),
        dropped(s, n) == s.filter(|a: ActionView| is_routine(a)).take(n as int),
        kept(s, n).to_multiset().add(dropped(s, n).to_multiset()) == s.to_multiset(),
    decreases s.len(),
{
    broadcast use vstd::multiset::group_multiset_axioms;

    let p = |a: ActionView| is_routine(a);
    if s.len() == 0 {
        reveal(Seq::filter);
        assert(s.filter(p) =~= Seq::empty());
        assert(kept(s, n) == s);
        assert(s.filter(p).skip(n as int) =~= s.filter(p));
        assert(dropped(s, n) =~= s.filter(p).take(n as int));
        s.to_multiset_ensures();
        assert(kept(s, n).to_multiset().add(dropped(s, n).to_multiset()) =~= s.to_multiset());
    } else {
        let t = s.drop_first();
        let one = seq![s[0]];
        assert(s =~= one + t);
        Seq::filter_distributes_over_add(one, t, p);
        assert(one.filter(p) =~= (if p(s[0]) {
            one
        } else {
            Seq::empty()
        })) by {
            reveal_with_fuel(Seq::filter, 2);
            assert(one.drop_last() =~= Seq::empty());
            assert(Seq::<ActionView>::empty().push(s[0]) =~= one);
        }
        vstd::seq_lib::lemma_multiset_commutative(one, t);
        if n == 0 {
            lemma_split(t, 0);
            assert(s.filter(p).skip(0) =~= s.filter(p));
            assert(dropped(s, n) =~= s.filter(p).take(0));
            Seq::<ActionView>::empty().to_multiset_ensures();
            assert(kept(s, n).to_multiset().add(dropped(s, n).to_multiset()) =~= s.to_multiset());
        } else if is_routine(s[0]) {
            let m = (n - 1) as nat;
            lemma_split(t, m);
            assert(s.filter(p).skip(n as int) =~= t.filter(p).skip(m as int));
            assert(dropped(s, n) =~= s.filter(p).take(n as int));
            vstd::seq_lib::lemma_multiset_commutative(one, dropped(t, m));
            assert(kept(s, n).to_multiset().add(dropped(s, n).to_multiset()) =~= s.to_multiset());
        } else {
            lemma_split(t, n);
            Seq::filter_distributes_over_add(one, kept(t, n), p);
            assert(s.filter(p) =~= t.filter(p));
            assert(kept(s, n).filter(p) =~= kept(t, n).filter(p));
            vstd::seq_lib::lemma_multiset_commutative(one, kept(t, n));
            assert(kept(s, n).to_multiset().add(dropped(s, n).to_multiset()) =~= s.to_multiset());
        }
    }
}

/// Of the routine actions the oldest are folded away and the newest stay, and no more
/// leave than must: while any left, the window is full.
pub proof fn law_the_oldest_routine_actions_go_first(c: RecentContextView, action: ActionView)
    requires
        c.max_actions >= 1,
    ensures
        ({
            let all = c.actions.push(action).filter(|a: ActionView| is_routine(a));
            let gone = folded_away(c, action);
            &&& gone.len() <= all.len()
            &&& gone == all.take(gone.len() as int)
            &&& pushed(c, action).actions.filter(|a: ActionView| is_routine(a)) == all.skip(
                gone.len() as int,
            )
            &&& gone.len() > 0 ==> pushed(c, action).actions.len() >= c.max_actions
        }),
{
    let p = |a: ActionView| is_routine(a);
    let n = evictions(c.actions, c.max_actions as nat);
    lemma_split(c.actions, n);
    lemma_routine_left(c.actions, n);
    lemma_kept_in_steps(c.actions, n);
    reveal(Seq::filter);
    assert(c.actions.push(action).drop_last() =~= c.actions);
    assert(staying(c).push(action).drop_last() =~= staying(c));
    let before = c.actions.filter(p);
    let all = c.actions.push(action).filter(p);
    let gone = folded_away(c, action);
    if takes_in(c, action) {
        assert(gone =~= all.take(gone.len() as int));
        assert(pushed(c, action).actions.filter(p) =~= all.skip(gone.len() as int));
    } else {
        assert(n == routine_count(c.actions));
        assert(before.take(n as int) =~= before);
        assert(gone =~= all.take(gone.len() as int));
        assert(pushed(c, action).actions.filter(p) =~= all.skip(gone.len() as int));
    }
}

/// Every action is in one place: what stays in the window and what is folded away is
/// what was there and what came in, no more and no less.
pub proof fn law_window_and_summary_share_the_actions(c: RecentContextView, action: ActionView)
    ensures
        pushed(c, action).actions.to_multiset().add(folded_away(c, action).to_multiset())
            == c.actions.push(action).to_multiset(),
{
    broadcast use {vstd::multiset::group_multiset_axioms, vstd::seq_lib::to_multiset_build};

    let n = evictions(c.actions, c.max_actions as nat);
    lemma_split(c.actions, n);
    assert(pushed(c, action).actions.to_multiset().add(folded_away(c, action).to_multiset())
        =~= c.actions.push(action).to_multiset());
}

/// Recording an action moves the end of the window to it and leaves its start; whose
/// context it is and how much it holds never changes, and who took part before is
/// still named, in the same place.
pub proof fn law_recording_leaves_the_frame(c: RecentContextView, action: ActionView)
    ensures
        pushed(c, action).window_end == Some(action.at),
        c.window_start is Some ==> pushed(c, action).window_start == c.window_start,
        c.window_start is None ==> pushed(c, action).window_start == Some(action.at),
        pushed(c, action).task_id == c.task_id,
        pushed(c, action).max_actions == c.max_actions,
        pushed(c, action).total_recorded >= c.total_recorded,
        c.total_recorded < u64::MAX ==> pushed(c, action).total_recorded == c.total_recorded + 1,
        c.participants.len() <= pushed(c, action).participants.len(),
        pushed(c, action).participants.take(c.participants.len() as int) == c.participants,
        forall|who: Seq<char>| #[trigger]
            pushed(c, action).participants.contains(who) <==> c.participants.contains(who)
                || action.agent_id == Some(who),
{
    let p = pushed(c, action).participants;
    assert(p.take(c.participants.len() as int) =~= c.participants);
    assert forall|who: Seq<char>| #[trigger] p.contains(who) <==> c.participants.contains(who)
        || action.agent_id == Some(who) by {
        if action.agent_id is Some {
            vstd::seq_lib::lemma_seq_contains_after_push(
                c.participants,
                action.agent_id->0,
                who,
            );
        }
    }
}

/// A fresh window has recorded nothing: it holds no action, tells of none and has seen
/// nobody. The first action that is recorded starts and ends it.
pub proof fn law_a_fresh_window_is_empty(task: Option<Seq<char>>, max: usize, action: ActionView)
    requires
        max > 0,
    ensures
        ({
            let c = empty_context(task, max);
            &&& c.task_id == task && c.max_actions == max
            &&& c.actions.len() == 0 && c.compacted_summary is None && c.total_recorded == 0
            &&& c.participants.len() == 0 && c.window_start is None && c.window_end is None
        }),
        ({
            let c = pushed(empty_context(task, max), action);
            &&& c.total_recorded == 1
            &&& c.window_start == Some(action.at) && c.window_end == Some(action.at)
        }),
{
}

} // verus!
