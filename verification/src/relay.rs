//! The relay/subscriber bridge.
//!
//! The bridge drains one task's output channel and forwards each token,
//! tagged with the task identifier, to the external consumer in receipt
//! order; when the channel closes it emits a single terminal notification
//! for the same identifier and stops. The channel waiting lives in the
//! surrounding process; this module holds what the bridge sends and proves
//! that interleaving the notification streams of distinct tasks never
//! disturbs the order within one task.

use vstd::prelude::*;
use vstd::string::*;

verus! {

/// One notification forwarded to the external consumer.
#[derive(Debug)]
pub enum RelayEvent {
    /// One token of generated text, tagged with the task that produced it.
    Token { task_id: String, token: String },
    /// The single terminal notification of a task: no more tokens follow.
    Done { task_id: String },
}

/// The mathematical value of a [`RelayEvent`].
pub enum RelayEventView {
    Token { task_id: Seq<char>, token: Seq<char> },
    Done { task_id: Seq<char> },
}

impl View for RelayEvent {
    type V = RelayEventView;

    open spec fn view(&self) -> RelayEventView {
        match self {
            RelayEvent::Token { task_id, token } => RelayEventView::Token {
                task_id: task_id@,
                token: token@,
            },
            RelayEvent::Done { task_id } => RelayEventView::Done { task_id: task_id@ },
        }
    }
}

impl DeepView for RelayEvent {
    type V = RelayEventView;

    open spec fn deep_view(&self) -> RelayEventView {
        self@
    }
}

/// The task a notification is tagged with.
pub open spec fn event_task(e: RelayEventView) -> Seq<char> {
    match e {
        RelayEventView::Token { task_id, token } => task_id,
        RelayEventView::Done { task_id } => task_id,
    }
}

/// What the bridge sends for one task that delivered these tokens: each
/// token in receipt order, each tagged with the task identifier, then the
/// one terminal notification.
pub open spec fn bridge_events(id: Seq<char>, tokens: Seq<Seq<char>>) -> Seq<RelayEventView> {
    Seq::new(tokens.len(), |i: int| RelayEventView::Token { task_id: id, token: tokens[i] })
        + seq![RelayEventView::Done { task_id: id }]
}

/// One token notification, tagged with its task.
pub fn token_event(task_id: &str, token: String) -> (e: RelayEvent)
    ensures
        e@ == (RelayEventView::Token { task_id: task_id@, token: token@ }),
{
    RelayEvent::Token { task_id: String::from_str(task_id), token }
}

/// The terminal notification of a task.
pub fn done_event(task_id: &str) -> (e: RelayEvent)
    ensures
        e@ == (RelayEventView::Done { task_id: task_id@ }),
{
    RelayEvent::Done { task_id: String::from_str(task_id) }
}

/// The bridge's whole output for one task whose channel delivered these
/// tokens and then closed: exactly [`bridge_events`].
pub fn relay_events(task_id: &str, tokens: &Vec<String>) -> (events: Vec<RelayEvent>)
    ensures
        events.deep_view() == bridge_events(task_id@, tokens.deep_view()),
{
    let ghost toks = tokens.deep_view();
    let mut events: Vec<RelayEvent> = Vec::new();
    let n = tokens.len();
    let mut i: usize = 0;
    while i < n
        invariant
            i <= n,
            n == toks.len(),
            toks == tokens.deep_view(),
            n == tokens@.len(),
            events.deep_view() =~= Seq::new(
                i as nat,
                |j: int| RelayEventView::Token { task_id: task_id@, token: toks[j] },
            ),
        decreases n - i,
    {
        let t = tokens[i].clone();
        proof {
            assert(t@ == toks[i as int]);
        }
        let e = token_event(task_id, t);
        let ghost prev = events.deep_view();
        events.push(e);
        i = i + 1;
        proof {
            assert(events.deep_view() =~= prev.push(e@));
            assert(prev.push(e@) =~= Seq::new(
                i as nat,
                |j: int| RelayEventView::Token { task_id: task_id@, token: toks[j] },
            ));
        }
    }
    let d = done_event(task_id);
    let ghost prev = events.deep_view();
    events.push(d);
    proof {
        assert(events.deep_view() =~= prev.push(d@));
        assert(prev.push(d@) =~= bridge_events(task_id@, toks));
    }
    events
}

/// One sequence of notifications being an interleaving of two others:
/// the merged sequence takes its elements from the two, keeping each one's
/// internal order, as a channel multiplexer does.
pub open spec fn is_interleaving(
    s: Seq<RelayEventView>,
    a: Seq<RelayEventView>,
    b: Seq<RelayEventView>,
) -> bool
    decreases s.len(),
{
    if a.len() == 0 {
        s == b
    } else if b.len() == 0 {
        s == a
    } else if s.len() == 0 {
        false
    } else {
        (s.last() == a.last() && is_interleaving(s.drop_last(), a.drop_last(), b)) || (s.last()
            == b.last() && is_interleaving(s.drop_last(), a, b.drop_last()))
    }
}

/// The notifications of one task, in the order they stand in a merged
/// stream.
pub open spec fn project(s: Seq<RelayEventView>, id: Seq<char>) -> Seq<RelayEventView> {
    s.filter(|e: RelayEventView| event_task(e) == id)
}

proof fn lemma_project_none(s: Seq<RelayEventView>, id: Seq<char>)
    requires
        forall|i: int| 0 <= i < s.len() ==> event_task(s[i]) != id,
    ensures
        project(s, id) == Seq::<RelayEventView>::empty(),
    decreases s.len(),
{
    reveal(Seq::filter);
    if s.len() == 0 {
        assert(project(s, id) =~= Seq::<RelayEventView>::empty());
    } else {
        assert(event_task(s.last()) != id);
        lemma_project_none(s.drop_last(), id);
        assert(project(s, id) =~= Seq::<RelayEventView>::empty());
    }
}

proof fn lemma_project_all(s: Seq<RelayEventView>, id: Seq<char>)
    requires
        forall|i: int| 0 <= i < s.len() ==> event_task(s[i]) == id,
    ensures
        project(s, id) == s,
    decreases s.len(),
{
    reveal(Seq::filter);
    if s.len() == 0 {
        assert(project(s, id) =~= s);
    } else {
        assert(event_task(s.last()) == id);
        lemma_project_all(s.drop_last(), id);
        assert(project(s, id) =~= project(s.drop_last(), id).push(s.last()));
        assert(project(s, id) =~= s);
    }
}

/// Law: however the notification streams of two tasks with distinct
/// identifiers interleave on their way to the consumer, the notifications
/// carrying each identifier appear in exactly that task's own order — the
/// merge never reorders within a task (and claims no order across tasks).
pub proof fn lemma_interleaving_keeps_task_order(
    s: Seq<RelayEventView>,
    a: Seq<RelayEventView>,
    b: Seq<RelayEventView>,
    ida: Seq<char>,
    idb: Seq<char>,
)
    requires
        ida != idb,
        forall|i: int| 0 <= i < a.len() ==> event_task(a[i]) == ida,
        forall|i: int| 0 <= i < b.len() ==> event_task(b[i]) == idb,
        is_interleaving(s, a, b),
    ensures
        project(s, ida) == a,
        project(s, idb) == b,
    decreases s.len(),
{
    reveal(Seq::filter);
    if a.len() == 0 {
        assert(s == b);
        lemma_project_none(b, ida);
        lemma_project_all(b, idb);
    } else if b.len() == 0 {
        assert(s == a);
        lemma_project_all(a, ida);
        lemma_project_none(a, idb);
    } else {
        if s.last() == a.last() && is_interleaving(s.drop_last(), a.drop_last(), b) {
            lemma_interleaving_keeps_task_order(s.drop_last(), a.drop_last(), b, ida, idb);
            assert(event_task(a[a.len() - 1]) == ida);
            assert(project(s, ida) =~= project(s.drop_last(), ida).push(s.last()));
            assert(a.drop_last().push(a.last()) =~= a);
            assert(project(s, ida) == a);
            assert(project(s, idb) =~= project(s.drop_last(), idb));
            assert(project(s, idb) == b);
        } else {
            assert(s.last() == b.last() && is_interleaving(s.drop_last(), a, b.drop_last()));
            lemma_interleaving_keeps_task_order(s.drop_last(), a, b.drop_last(), ida, idb);
            assert(event_task(b[b.len() - 1]) == idb);
            assert(project(s, idb) =~= project(s.drop_last(), idb).push(s.last()));
            assert(b.drop_last().push(b.last()) =~= b);
            assert(project(s, idb) == b);
            assert(project(s, ida) =~= project(s.drop_last(), ida));
            assert(project(s, ida) == a);
        }
    }
}

} // verus!
