//! How the pane follows the terminal's power state: a dozing pane is still
//! on screen and keeps tracking repository changes; a pane in deep sleep
//! cannot be seen, so it drops watcher refreshes and defers a change of the
//! repository roots until it wakes, when it repaints and replays the
//! deferred change once. Quitting waits for git commands that change a
//! repository, unless asked twice.

use vstd::prelude::*;

verus! {

/// The power state the terminal reports for the pane.
#[derive(Debug, Clone, Copy, PartialEq, Eq, Structural)]
pub enum PowerState {
    Awake,
    /// Dimmed but visible.
    Doze,
    /// Not visible at all.
    DeepSleep,
}

/// What the watcher or the terminal reports.
#[derive(Debug, Clone, Copy, PartialEq, Eq, Structural)]
pub enum PaneEvent {
    /// Something changed inside a listed repository.
    RepoChanged,
    /// Something changed in a directory repositories are discovered under.
    ReposRootChanged,
    Power(PowerState),
}

/// What the pane does about an event.
#[derive(Debug, Clone, Copy, PartialEq, Eq, Structural)]
pub enum PaneAction {
    /// Refresh the repository that changed.
    RefreshRepo,
    /// Handle the root change now (discovery paced by its cooldown).
    RootChanged,
    /// Draw the frame again.
    Render,
    /// Walk the roots for new repositories.
    DiscoverNewRepos,
}

/// The power state and whether a root change waits for the pane to wake.
#[derive(Debug, Clone, Copy, PartialEq, Eq, Structural)]
pub struct PowerTracker {
    pub state: PowerState,
    pub root_change_pending: bool,
}

/// The tracker after `e` and the actions it takes.
pub open spec fn spec_power_step(g: PowerTracker, e: PaneEvent) -> (PowerTracker, Seq<PaneAction>) {
    match e {
        PaneEvent::RepoChanged => if g.state == PowerState::DeepSleep {
            (g, Seq::empty())
        } else {
            (g, seq![PaneAction::RefreshRepo])
        },
        PaneEvent::ReposRootChanged => if g.state == PowerState::DeepSleep {
            (PowerTracker { root_change_pending: true, ..g }, Seq::empty())
        } else {
            (g, seq![PaneAction::RootChanged])
        },
        PaneEvent::Power(s) => if g.state == PowerState::DeepSleep && s != PowerState::DeepSleep {
            (
                PowerTracker { state: s, root_change_pending: false },
                if g.root_change_pending {
                    seq![PaneAction::Render, PaneAction::DiscoverNewRepos]
                } else {
                    seq![PaneAction::Render]
                },
            )
        } else {
            (PowerTracker { state: s, ..g }, Seq::empty())
        },
    }
}

impl PowerTracker {
    /// An awake pane with nothing deferred.
    pub fn new() -> (g: Self)
        ensures
            g == (PowerTracker { state: PowerState::Awake, root_change_pending: false }),
    {
        PowerTracker { state: PowerState::Awake, root_change_pending: false }
    }

    /// Takes in an event (see `spec_power_step`): in deep sleep a repository
    /// change is dropped and a root change deferred; leaving deep sleep
    /// repaints and replays a deferred root change once; dozing changes
    /// nothing about what is tracked.
    pub fn step(&mut self, e: PaneEvent) -> (r: Vec<PaneAction>)
        ensures
            *final(self) == spec_power_step(*old(self), e).0,
            r@ == spec_power_step(*old(self), e).1,
    {
        let mut out: Vec<PaneAction> = Vec::new();
        let asleep = self.state == PowerState::DeepSleep;
        match e {
            PaneEvent::RepoChanged => {
                if !asleep {
                    out.push(PaneAction::RefreshRepo);
                }
            },
            PaneEvent::ReposRootChanged => {
                if asleep {
                    self.root_change_pending = true;
                } else {
                    out.push(PaneAction::RootChanged);
                }
            },
            PaneEvent::Power(s) => {
                if asleep && s != PowerState::DeepSleep {
                    out.push(PaneAction::Render);
                    if self.root_change_pending {
                        out.push(PaneAction::DiscoverNewRepos);
                    }
                    self.root_change_pending = false;
                }
                self.state = s;
            },
        }
        proof {
            assert(out@ =~= spec_power_step(*old(self), e).1);
        }
        out
    }
}

/// The tracker after a run of events, and every action taken on the way.
pub open spec fn spec_power_run(g: PowerTracker, es: Seq<PaneEvent>) -> (PowerTracker, Seq<PaneAction>)
    decreases es.len(),
{
    if es.len() == 0 {
        (g, Seq::empty())
    } else {
        let (h, a) = spec_power_run(g, es.drop_last());
        let (k, b) = spec_power_step(h, es.last());
        (k, a + b)
    }
}

/// How often `a` occurs in `s`.
pub open spec fn count_of(s: Seq<PaneAction>, a: PaneAction) -> nat
    decreases s.len(),
{
    if s.len() == 0 {
        0
    } else {
        count_of(s.drop_last(), a) + if s.last() == a { 1nat } else { 0nat }
    }
}

proof fn lemma_count_append(s: Seq<PaneAction>, t: Seq<PaneAction>, a: PaneAction)
    ensures
        count_of(s + t, a) == count_of(s, a) + count_of(t, a),
    decreases t.len(),
{
    if t.len() > 0 {
        lemma_count_append(s, t.drop_last(), a);
        assert((s + t).drop_last() =~= s + t.drop_last());
    }
}

/// While the pane sleeps deeply, repository and root changes take no action
/// and the tracker stays asleep; a root change leaves one replay pending.
proof fn lemma_asleep_run(g: PowerTracker, es: Seq<PaneEvent>)
    requires
        g.state == PowerState::DeepSleep,
        forall|i: int| 0 <= i < es.len() ==> !(es[i] is Power),
    ensures
        spec_power_run(g, es).1.len() == 0,
        spec_power_run(g, es).0.state == PowerState::DeepSleep,
        spec_power_run(g, es).0.root_change_pending
            == (g.root_change_pending || exists|i: int| 0 <= i < es.len() && es[i] == PaneEvent::ReposRootChanged),
    decreases es.len(),
{
    if es.len() > 0 {
        let init = es.drop_last();
        assert forall|i: int| 0 <= i < init.len() implies !(init[i] is Power) by {
            assert(init[i] == es[i]);
        }
        lemma_asleep_run(g, init);
        let last = es.last();
        assert(!(last is Power));
        if exists|i: int| 0 <= i < init.len() && init[i] == PaneEvent::ReposRootChanged {
            let i = choose|i: int| 0 <= i < init.len() && init[i] == PaneEvent::ReposRootChanged;
            assert(es[i] == PaneEvent::ReposRootChanged);
        }
        if last == PaneEvent::ReposRootChanged {
            assert(es[es.len() - 1] == PaneEvent::ReposRootChanged);
        } else if exists|i: int| 0 <= i < es.len() && es[i] == PaneEvent::ReposRootChanged {
            let i = choose|i: int| 0 <= i < es.len() && es[i] == PaneEvent::ReposRootChanged;
            assert(i < es.len() - 1);
            assert(init[i] == PaneEvent::ReposRootChanged);
        }
    }
}

/// However many repository and root changes arrive while the pane sleeps
/// deeply, nothing is refreshed or walked meanwhile; waking repaints once
/// and walks the roots exactly once when any root changed (never when none
/// did).
pub proof fn law_deep_sleep_coalesces_root_changes(g: PowerTracker, es: Seq<PaneEvent>)
    requires
        g.state == PowerState::DeepSleep,
        !g.root_change_pending,
        forall|i: int| 0 <= i < es.len() ==> !(es[i] is Power),
    ensures
        spec_power_run(g, es).1.len() == 0,
        ({
            let woke = spec_power_run(g, es.push(PaneEvent::Power(PowerState::Awake))).1;
            &&& count_of(woke, PaneAction::Render) == 1
            &&& count_of(woke, PaneAction::DiscoverNewRepos)
                == if exists|i: int| 0 <= i < es.len() && es[i] == PaneEvent::ReposRootChanged { 1nat } else { 0nat }
            &&& count_of(woke, PaneAction::RefreshRepo) == 0
        }),
{
    lemma_asleep_run(g, es);
    let full = es.push(PaneEvent::Power(PowerState::Awake));
    assert(full.drop_last() =~= es);
    assert(full.last() == PaneEvent::Power(PowerState::Awake));
    reveal_with_fuel(count_of, 3);
    let (h, a) = spec_power_run(g, es);
    let b = spec_power_step(h, PaneEvent::Power(PowerState::Awake)).1;
    lemma_count_append(a, b, PaneAction::Render);
    lemma_count_append(a, b, PaneAction::DiscoverNewRepos);
    lemma_count_append(a, b, PaneAction::RefreshRepo);
    assert(a =~= Seq::<PaneAction>::empty());
    assert(spec_power_run(g, full) == (spec_power_step(h, PaneEvent::Power(PowerState::Awake)).0, a + b));
    if h.root_change_pending {
        assert(b.drop_last() =~= seq![PaneAction::Render]);
        assert(b.drop_last().drop_last() =~= Seq::<PaneAction>::empty());
    } else {
        assert(b.drop_last() =~= Seq::<PaneAction>::empty());
    }
}

/// A pane that only dozed resumes with nothing to replay or repaint.
pub proof fn law_doze_resumes_silently(g: PowerTracker)
    requires
        g.state == PowerState::Doze,
    ensures
        spec_power_step(g, PaneEvent::Power(PowerState::Awake)).1.len() == 0,
{
}

/// Whether the app was asked to quit, and asked again to quit regardless.
#[derive(Debug, Clone, Copy, PartialEq, Eq, Structural)]
pub struct QuitState {
    pub should_quit: bool,
    pub force_quit: bool,
}

impl QuitState {
    /// Nobody asked to quit yet.
    pub fn new() -> (q: Self)
        ensures
            q == (QuitState { should_quit: false, force_quit: false }),
    {
        QuitState { should_quit: false, force_quit: false }
    }

    /// A quit request: the first asks to quit, a second insists.
    pub fn request(&mut self)
        ensures
            final(self).should_quit,
            final(self).force_quit == (old(self).force_quit || old(self).should_quit),
    {
        if self.should_quit {
            self.force_quit = true;
        }
        self.should_quit = true;
    }

    /// Whether the app may exit now: it was asked to, and no git command
    /// that changes a repository is still running (`mutating_ops`) unless
    /// the user insisted.
    pub fn ready_to_exit(&self, mutating_ops: usize) -> (r: bool)
        ensures
            r == (self.should_quit && (mutating_ops == 0 || self.force_quit)),
    {
        self.should_quit && (mutating_ops == 0 || self.force_quit)
    }
}

/// Asking twice always lets the app exit, whatever still runs.
pub proof fn law_second_quit_request_exits(q: QuitState, once: QuitState, twice: QuitState, ops: usize)
    requires
        once.should_quit && once.force_quit == (q.force_quit || q.should_quit),
        twice.should_quit && twice.force_quit == (once.force_quit || once.should_quit),
    ensures
        twice.should_quit && (ops == 0 || twice.force_quit),
{
}

} // verus!
