//! Single-flight admission of background tasks.
//!
//! The set of running task identifiers is a lock-free `flurry` set. A task is
//! admitted only when its identifier could be inserted, and its identifier is
//! released when the run ends, however it ended.
use vstd::prelude::*;

verus! {

#[verifier::external_type_specification]
#[verifier::external_body]
pub struct ExDefaultHashBuilder(flurry::DefaultHashBuilder);

#[verifier::external_type_specification]
#[verifier::external_body]
#[verifier::reject_recursive_types(T)]
#[verifier::reject_recursive_types(S)]
pub struct ExFlurryHashSet<T, S>(flurry::HashSet<T, S>);

/// The identifiers that a `flurry` set holds.
pub uninterp spec fn flurry_set_items(s: flurry::HashSet<String>) -> Set<Seq<char>>;

/// Relies on `flurry::HashSet::new`: a new set is empty.
#[verifier::external_body]
fn flurry_new() -> (r: flurry::HashSet<String>)
    ensures
        flurry_set_items(r) == Set::<Seq<char>>::empty(),
{
    flurry::HashSet::new()
}

/// Relies on `flurry::HashSet::insert`: the value is in the set afterwards, and
/// the result tells whether it was absent before.
#[verifier::external_body]
fn flurry_insert(s: &mut flurry::HashSet<String>, v: &str) -> (r: bool)
    ensures
        r == !flurry_set_items(*old(s)).contains(v@),
        flurry_set_items(*final(s)) == flurry_set_items(*old(s)).insert(v@),
{
    let guard = s.guard();
    s.insert(v.to_string(), &guard)
}

/// Relies on `flurry::HashSet::remove`: the value is absent afterwards, and the
/// result tells whether it was present before.
#[verifier::external_body]
fn flurry_remove(s: &mut flurry::HashSet<String>, v: &str) -> (r: bool)
    ensures
        r == flurry_set_items(*old(s)).contains(v@),
        flurry_set_items(*final(s)) == flurry_set_items(*old(s)).remove(v@),
{
    let guard = s.guard();
    s.remove(v, &guard)
}

/// Relies on `flurry::HashSet::contains`: membership of the value.
#[verifier::external_body]
fn flurry_contains(s: &flurry::HashSet<String>, v: &str) -> (r: bool)
    ensures
        r == flurry_set_items(*s).contains(v@),
{
    let guard = s.guard();
    s.contains(v, &guard)
}

/// What a submission decided.
#[derive(PartialEq, Eq, Structural, Clone, Copy, Debug)]
pub enum Admission {
    /// The identifier was free: the work runs now.
    Started,
    /// The identifier is held by a run in progress: the work is dropped.
    Skipped,
}

/// Whether a submission of `id` is admitted while `running` are executing.
pub open spec fn admitted(running: Set<Seq<char>>, id: Seq<char>) -> bool {
    !running.contains(id)
}

/// The running set after a submission of `id`.
pub open spec fn after_submit(running: Set<Seq<char>>, id: Seq<char>) -> Set<Seq<char>> {
    running.insert(id)
}

/// The running set after the run of `id` ended, whatever its outcome.
pub open spec fn after_finish(running: Set<Seq<char>>, id: Seq<char>) -> Set<Seq<char>> {
    running.remove(id)
}

/// The set of identifiers of the tasks that are executing.
pub struct TaskRegistry {
    running: flurry::HashSet<String>,
}

impl TaskRegistry {
    /// The identifiers held by runs in progress.
    pub closed spec fn view(&self) -> Set<Seq<char>> {
        flurry_set_items(self.running)
    }

    /// A registry with no task running.
    pub fn new() -> (r: TaskRegistry)
        ensures
            r.view() == Set::<Seq<char>>::empty(),
    {
        TaskRegistry { running: flurry_new() }
    }

    /// Whether a run of `task_id` is in progress.
    pub fn is_running(&self, task_id: &str) -> (r: bool)
        ensures
            r == self.view().contains(task_id@),
    {
        flurry_contains(&self.running, task_id)
    }
}

/// Submits a run of `task_id`: it starts, and holds the identifier, only if no
/// run of it is in progress; otherwise the submission is dropped and nothing
/// changes.
pub fn submit_task(registry: &mut TaskRegistry, task_id: &str) -> (r: Admission)
    ensures
        (r == Admission::Started) == admitted(old(registry).view(), task_id@),
        final(registry).view() == after_submit(old(registry).view(), task_id@),
{
    if flurry_insert(&mut registry.running, task_id) {
        Admission::Started
    } else {
        Admission::Skipped
    }
}

/// Releases `task_id` when its run ended: with success, with an error, or
/// abnormally.
pub fn finish_task(registry: &mut TaskRegistry, task_id: &str)
    ensures
        final(registry).view() == after_finish(old(registry).view(), task_id@),
{
    flurry_remove(&mut registry.running, task_id);
}

/// At most one run per identifier: while a run of `id` is in progress, a
/// second submission of `id` is not admitted and leaves the running set as it
/// was.
pub proof fn lemma_single_flight(running: Set<Seq<char>>, id: Seq<char>)
    requires
        admitted(running, id),
    ensures
        !admitted(after_submit(running, id), id),
        after_submit(after_submit(running, id), id) == after_submit(running, id),
{
    assert(after_submit(running, id).insert(id) =~= after_submit(running, id));
}

/// The identifier is released on every exit path: once the admitted run of
/// `id` has ended, a new submission of `id` is admitted at once, and the other
/// runs are untouched.
pub proof fn lemma_release_after_finish(running: Set<Seq<char>>, id: Seq<char>)
    requires
        admitted(running, id),
    ensures
        admitted(after_finish(after_submit(running, id), id), id),
        after_finish(after_submit(running, id), id) == running,
{
    assert(after_finish(after_submit(running, id), id) =~= running);
}

} // verus!
