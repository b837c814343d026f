//! The task registry.
//!
//! A mapping from task identifier to a cancellable handle, the one
//! authority on whether a given task is still running. An identifier is
//! present exactly while its task is believed to run: inserted at start,
//! removed at natural completion, removed-and-aborted at cancellation, and
//! the two removals race safely — whichever comes first wins and the other
//! is a no-op. The process that shares one registry across concurrent
//! units guards every call by one mutual-exclusion lock, so each call here
//! is one critical section.

use vstd::prelude::*;
use vstd::string::*;

verus! {

/// A registry keyed by task identifiers, holding one handle per running
/// task. Its mathematical value is the map from identifier to handle.
pub struct TaskRegistry<H> {
    entries: Vec<(String, H)>,
}

/// The map an association list denotes; a later entry for the same key
/// would win, but a well-formed registry never holds two.
pub closed spec fn map_of<H>(s: Seq<(String, H)>) -> Map<Seq<char>, H>
    decreases s.len(),
{
    if s.len() == 0 {
        Map::empty()
    } else {
        map_of(s.drop_last()).insert(s.last().0@, s.last().1)
    }
}

proof fn lemma_map_of_contains<H>(s: Seq<(String, H)>, k: Seq<char>)
    ensures
        map_of(s).contains_key(k) <==> exists|i: int| 0 <= i < s.len() && s[i].0@ == k,
    decreases s.len(),
{
    if s.len() == 0 {
    } else {
        lemma_map_of_contains(s.drop_last(), k);
        if s.last().0@ == k {
            assert(s[s.len() - 1].0@ == k);
        } else {
            if exists|i: int| 0 <= i < s.len() && s[i].0@ == k {
                let i = choose|i: int| 0 <= i < s.len() && s[i].0@ == k;
                assert(s.drop_last()[i].0@ == k);
            }
        }
    }
}

proof fn lemma_map_of_index<H>(s: Seq<(String, H)>, i: int)
    requires
        0 <= i < s.len(),
        forall|j: int| i < j < s.len() ==> s[j].0@ != s[i].0@,
    ensures
        map_of(s).contains_key(s[i].0@),
        map_of(s)[s[i].0@] == s[i].1,
    decreases s.len(),
{
    if i == s.len() - 1 {
    } else {
        assert forall|j: int| i < j < s.drop_last().len() implies s.drop_last()[j].0@
            != s.drop_last()[i].0@ by {
            assert(s[j].0@ != s[i].0@);
        }
        lemma_map_of_index(s.drop_last(), i);
        assert(s.last().0@ != s[i].0@);
    }
}

proof fn lemma_map_of_remove<H>(s: Seq<(String, H)>, i: int)
    requires
        0 <= i < s.len(),
        forall|j1: int, j2: int| 0 <= j1 < j2 < s.len() ==> s[j1].0@ != s[j2].0@,
    ensures
        map_of(s.remove(i)) == map_of(s).remove(s[i].0@),
    decreases s.len(),
{
    let k = s[i].0@;
    if i == s.len() - 1 {
        assert(s.remove(i) =~= s.drop_last());
        lemma_map_of_contains(s.drop_last(), k);
        assert(!map_of(s.drop_last()).contains_key(k));
        assert(map_of(s.drop_last()).insert(k, s[i].1).remove(k) =~= map_of(s.drop_last()));
    } else {
        assert(s.remove(i).drop_last() =~= s.drop_last().remove(i));
        assert(s.remove(i).last() == s.last());
        lemma_map_of_remove(s.drop_last(), i);
        assert(s.drop_last()[i].0@ == k);
        let lastk = s.last().0@;
        let lastv = s.last().1;
        assert(lastk != k);
        assert(map_of(s.drop_last()).remove(k).insert(lastk, lastv) =~= map_of(
            s.drop_last(),
        ).insert(lastk, lastv).remove(k));
    }
}

impl<H> View for TaskRegistry<H> {
    type V = Map<Seq<char>, H>;

    closed spec fn view(&self) -> Map<Seq<char>, H> {
        map_of(self.entries@)
    }
}

impl<H> TaskRegistry<H> {
    /// No two entries share an identifier.
    pub closed spec fn wf(&self) -> bool {
        forall|j1: int, j2: int|
            0 <= j1 < j2 < self.entries@.len() ==> self.entries@[j1].0@ != self.entries@[j2].0@
    }

    /// An empty registry: no task is running.
    pub fn new() -> (r: TaskRegistry<H>)
        ensures
            r.wf(),
            r@ == Map::<Seq<char>, H>::empty(),
    {
        let r = TaskRegistry { entries: Vec::new() };
        proof {
            assert(r@ =~= Map::<Seq<char>, H>::empty());
        }
        r
    }

    /// Whether a task with this identifier is registered as running.
    pub fn contains(&self, id: &String) -> (r: bool)
        ensures
            r == self@.contains_key(id@),
    {
        let n = self.entries.len();
        let mut i: usize = 0;
        let mut found = false;
        while !found && i < n
            invariant
                n == self.entries@.len(),
                i <= n,
                forall|j: int| 0 <= j < i ==> self.entries@[j].0@ != id@,
                found ==> i < n && self.entries@[i as int].0@ == id@,
            decreases n - i + (if found { 0int } else { 1int }),
        {
            if self.entries[i].0 == *id {
                found = true;
            } else {
                i = i + 1;
            }
        }
        proof {
            lemma_map_of_contains(self.entries@, id@);
        }
        found
    }

    /// Insert a task unconditionally; the caller guarantees the identifier
    /// is fresh.
    pub fn register(&mut self, id: String, handle: H)
        requires
            old(self).wf(),
            !old(self)@.contains_key(id@),
        ensures
            final(self).wf(),
            final(self)@ == old(self)@.insert(id@, handle),
    {
        proof {
            lemma_map_of_contains(self.entries@, id@);
        }
        let ghost s0 = self.entries@;
        let ghost idv = id@;
        self.entries.push((id, handle));
        proof {
            assert(self.entries@.drop_last() =~= s0);
            assert forall|j1: int, j2: int|
                0 <= j1 < j2 < self.entries@.len() implies self.entries@[j1].0@
                != self.entries@[j2].0@ by {
                if j2 == self.entries@.len() - 1 {
                    assert(self.entries@[j1].0@ != idv);
                }
            }
        }
    }

    /// Atomically remove and return the handle of this identifier, if
    /// present; used both by natural-completion cleanup and by
    /// cancellation, whichever comes first.
    pub fn remove(&mut self, id: &String) -> (r: Option<H>)
        requires
            old(self).wf(),
        ensures
            final(self).wf(),
            r is Some <==> old(self)@.contains_key(id@),
            r matches Some(h) ==> h == old(self)@[id@] && final(self)@ == old(self)@.remove(id@),
            r is None ==> final(self)@ == old(self)@,
    {
        let n = self.entries.len();
        let mut i: usize = 0;
        let mut found = false;
        while !found && i < n
            invariant
                n == self.entries@.len(),
                i <= n,
                forall|j: int| 0 <= j < i ==> self.entries@[j].0@ != id@,
                found ==> i < n && self.entries@[i as int].0@ == id@,
            decreases n - i + (if found { 0int } else { 1int }),
        {
            if self.entries[i].0 == *id {
                found = true;
            } else {
                i = i + 1;
            }
        }
        proof {
            lemma_map_of_contains(self.entries@, id@);
        }
        if found {
            let ghost s0 = self.entries@;
            proof {
                assert forall|j: int| i < j < s0.len() implies s0[j].0@ != s0[i as int].0@ by {}
                lemma_map_of_index(s0, i as int);
                lemma_map_of_remove(s0, i as int);
            }
            let pair = self.entries.remove(i);
            proof {
                assert forall|j1: int, j2: int|
                    0 <= j1 < j2 < self.entries@.len() implies self.entries@[j1].0@
                    != self.entries@[j2].0@ by {
                    let m1 = if j1 < i as int { j1 } else { j1 + 1 };
                    let m2 = if j2 < i as int { j2 } else { j2 + 1 };
                    assert(s0[m1].0@ != s0[m2].0@);
                }
            }
            Some(pair.1)
        } else {
            None
        }
    }
}

/// The outcome of one cancellation call against a registry in a given
/// state: whether a running task was found, and the state left behind.
pub open spec fn cancel_outcome<H>(m: Map<Seq<char>, H>, id: Seq<char>) -> (bool, Map<
    Seq<char>,
    H,
>) {
    (m.contains_key(id), m.remove(id))
}

/// Law: cancellation reports success at most once per identifier.
/// Whatever the registry held, after one cancellation of an identifier a
/// second cancellation of the same identifier reports that no running task
/// was found.
pub proof fn lemma_cancel_at_most_once<H>(m: Map<Seq<char>, H>, id: Seq<char>)
    ensures
        !cancel_outcome(cancel_outcome(m, id).1, id).0,
{
}

/// Law: cancellation after natural completion reports failure. Natural
/// completion removes the identifier from the registry; a cancellation
/// arriving afterwards finds no running task.
pub proof fn lemma_cancel_after_completion<H>(m: Map<Seq<char>, H>, id: Seq<char>)
    ensures
        !cancel_outcome(m.remove(id), id).0,
{
}

/// Declares tokio's handle to a spawned background task, so registries of
/// running streaming tasks can hold it. Opaque to this library: it is only
/// stored, returned, and aborted.
#[verifier::external_type_specification]
#[verifier::external_body]
#[verifier::reject_recursive_types(T)]
pub struct ExJoinHandle<T>(tokio::task::JoinHandle<T>);

/// Declares tokio's task-join error type; it appears in `JoinHandle`'s
/// trait impls, so declaring the handle requires declaring it as well.
/// This library never constructs or reads one.
#[verifier::external_type_specification]
#[verifier::external_body]
pub struct ExJoinError(tokio::task::JoinError);

/// Relies on `tokio::task::JoinHandle::abort`: asks the runtime to cancel
/// the background task, best-effort; nothing is promised of its effect
/// here, only the registry bookkeeping around it is proved.
pub assume_specification<T>[ tokio::task::JoinHandle::<T>::abort ](
    handle: &tokio::task::JoinHandle<T>,
);

/// Relies on `uuid::Uuid::new_v4` and its hyphenated text form: a freshly
/// drawn random 128-bit identifier, rendered as 36 characters. The value
/// is random, so nothing more is promised of it.
#[verifier::external_body]
fn next_task_id() -> (id: String)
    ensures
        id@.len() == 36,
{
    uuid::Uuid::new_v4().to_string()
}

/// Mint an opaque task identifier that is not yet present in the registry,
/// or report that the freshly drawn identifier collided with a registered
/// one (the draw is random, so freshness cannot be promised beforehand; a
/// caller may simply call again). Refusal is owed only to a collision:
/// against a registry with nothing in it, every draw succeeds.
pub fn fresh_task_id<H>(reg: &TaskRegistry<H>) -> (r: Option<String>)
    ensures
        r matches Some(id) ==> !reg@.contains_key(id@) && id@.len() == 36,
        r is None ==> exists|k: Seq<char>| reg@.contains_key(k),
{
    let id = next_task_id();
    if reg.contains(&id) {
        proof {
            assert(reg@.contains_key(id@));
        }
        None
    } else {
        Some(id)
    }
}

/// Law: no two concurrently live tasks share an identifier. While one
/// task's identifier stands in the registry, an identifier minted fresh
/// against that registry ([`fresh_task_id`] returns only identifiers not
/// yet present) differs from it.
pub proof fn lemma_fresh_id_distinct<H>(
    m: Map<Seq<char>, H>,
    registered: Seq<char>,
    minted: Seq<char>,
)
    requires
        m.contains_key(registered),
        !m.contains_key(minted),
    ensures
        minted != registered,
{
}

/// The cancellation entry point: atomically remove the identifier's task
/// from the registry and abort its handle if one was found. Returns
/// whether a running task was found; aborting an already-completed or
/// already-aborted (and thus absent) identifier is a safe no-op reported
/// as `false`.
pub fn force_stop(
    reg: &mut TaskRegistry<tokio::task::JoinHandle<()>>,
    task_id: &str,
) -> (found: bool)
    requires
        old(reg).wf(),
    ensures
        final(reg).wf(),
        found == cancel_outcome(old(reg)@, task_id@).0,
        final(reg)@ == cancel_outcome(old(reg)@, task_id@).1,
{
    let key = String::from_str(task_id);
    match reg.remove(&key) {
        Some(handle) => {
            handle.abort();
            true
        },
        None => {
            proof {
                assert(reg@ =~= old(reg)@.remove(task_id@));
            }
            false
        },
    }
}

} // verus!
