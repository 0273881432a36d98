//! Fetching the artifacts of a list of dependencies into a binding's
//! `binaries` directory: the shared work queue that a pool of workers drains,
//! the decision each worker takes for one dependency, and how the workers'
//! reports make up the fetch's result.
use vstd::prelude::*;

use crate::deps::{hex_of, sha256_of, Dependency, DependencyError, DependencySpec};

verus! {

/// The configuration that a fetch is run with.
#[derive(Clone, Debug)]
pub struct FetchConfig {
    /// How many downloads run at once.
    pub max_simultaneous: usize,
    /// Seconds allowed for connecting.
    pub connect_timeout_secs: u64,
    /// Seconds allowed for the response to arrive.
    pub read_timeout_secs: u64,
    /// Seconds allowed for a whole request, where bounded.
    pub request_timeout_secs: Option<u64>,
    /// The proxy that requests go through, if any.
    pub proxy: Option<String>,
}

impl FetchConfig {
    /// Five downloads at once, five seconds to connect and five to receive,
    /// no bound on a whole request, no proxy.
    pub fn new() -> (r: FetchConfig)
        ensures
            r.max_simultaneous == 5,
            r.connect_timeout_secs == 5,
            r.read_timeout_secs == 5,
            r.request_timeout_secs is None,
            r.proxy is None,
    {
        FetchConfig {
            max_simultaneous: 5,
            connect_timeout_secs: 5,
            read_timeout_secs: 5,
            request_timeout_secs: None,
            proxy: None,
        }
    }
}

/// What a worker does for one dependency.
#[derive(Clone, Debug, PartialEq, Eq, Structural)]
pub enum FetchAction {
    /// The artifact on disk already has the expected digest: no request.
    Skip,
    /// Download the artifact and write it over what is there.
    Download,
}

/// Whether a dependency's artifact has to be downloaded, given the bytes of
/// the file at its place (`None` where there is none): only a file whose
/// SHA-256 digest, hex-encoded, is the declared digest spares the request.
pub fn fetch_action(dep: &Dependency, existing: Option<&[u8]>) -> (r: FetchAction)
    ensures
        r == FetchAction::Skip <==> match existing {
            Some(bytes) => hex_of(sha256_of(bytes@)) == dep.sha256@,
            None => false,
        },
{
    if dep.checksum_matches(existing) {
        FetchAction::Skip
    } else {
        FetchAction::Download
    }
}

/// The dependencies that are still to be fetched. Workers take them one at a
/// time, each under the lock that guards the queue.
#[derive(Debug)]
pub struct FetchQueue {
    jobs: Vec<Dependency>,
}

impl View for FetchQueue {
    type V = Seq<DependencySpec>;

    closed spec fn view(&self) -> Seq<DependencySpec> {
        self.jobs@.map_values(|d: Dependency| d@)
    }
}

/// The queue after one job is taken, and the job: the last one queued.
pub open spec fn take_job(queue: Seq<DependencySpec>) -> (Seq<DependencySpec>, Option<DependencySpec>) {
    if queue.len() == 0 {
        (queue, None)
    } else {
        (queue.drop_last(), Some(queue.last()))
    }
}

impl FetchQueue {
    /// A queue holding `deps`.
    pub fn new(deps: Vec<Dependency>) -> (r: FetchQueue)
        ensures
            r@ == deps@.map_values(|d: Dependency| d@),
    {
        FetchQueue { jobs: deps }
    }

    /// How many dependencies are left.
    pub fn len(&self) -> (r: usize)
        ensures
            r == self@.len(),
    {
        self.jobs.len()
    }

    /// Takes one dependency off the queue, `None` once it is empty.
    pub fn pop(&mut self) -> (r: Option<Dependency>)
        ensures
            (final(self)@, match r {
                Some(d) => Some(d@),
                None => None,
            }) == take_job(old(self)@),
    {
        let ghost before = self.jobs@;
        let r = self.jobs.pop();
        proof {
            if before.len() > 0 {
                assert(self.jobs@.map_values(|d: Dependency| d@) =~= before.map_values(
                    |d: Dependency| d@,
                ).drop_last());
            }
        }
        r
    }
}

/// The jobs taken when the workers named by `schedule` get the lock in turn,
/// each taking one job: what is left, and who took which job, in order. A
/// worker that finds the queue empty takes nothing.
pub open spec fn drain(queue: Seq<DependencySpec>, schedule: Seq<int>) -> (Seq<DependencySpec>, Seq<(int, DependencySpec)>)
    decreases schedule.len(),
{
    if schedule.len() == 0 {
        (queue, Seq::empty())
    } else {
        let (left, taken) = drain(queue, schedule.drop_last());
        match take_job(left) {
            (rest, Some(job)) => (rest, taken.push((schedule.last(), job))),
            (rest, None) => (rest, taken),
        }
    }
}

proof fn lemma_drain_prefix(deps: Seq<DependencySpec>, schedule: Seq<int>)
    ensures
        schedule.len() <= deps.len() ==> drain(deps, schedule).0 == deps.subrange(
            0,
            deps.len() - schedule.len(),
        ),
        schedule.len() > deps.len() ==> drain(deps, schedule).0.len() == 0,
        drain(deps, schedule).1.map_values(|p: (int, DependencySpec)| p.1) == deps.reverse().subrange(
            0,
            if schedule.len() <= deps.len() {
                schedule.len() as int
            } else {
                deps.len() as int
            },
        ),
    decreases schedule.len(),
{
    let f = |p: (int, DependencySpec)| p.1;
    if schedule.len() == 0 {
        assert(deps.subrange(0, deps.len() as int) =~= deps);
        assert(drain(deps, schedule).1.map_values(f) =~= deps.reverse().subrange(0, 0));
    } else {
        lemma_drain_prefix(deps, schedule.drop_last());
        let (left, taken) = drain(deps, schedule.drop_last());
        let k = schedule.len() - 1;
        if k < deps.len() {
            let job = left.last();
            assert(left.drop_last() =~= deps.subrange(0, deps.len() - schedule.len()));
            assert(job == deps[deps.len() - 1 - k]);
            assert(taken.push((schedule.last(), job)).map_values(f) =~= taken.map_values(f).push(
                job,
            ));
            assert(deps.reverse().subrange(0, k + 1) =~= deps.reverse().subrange(0, k).push(
                job,
            ));
        }
    }
}

/// Any pool of at least one worker, taking jobs in any order of turns, fetches
/// every dependency exactly once once it has had as many turns as there are
/// dependencies: the queue is then empty and the jobs taken are the queued
/// ones, each once (last queued first).
pub proof fn lemma_pool_fetches_each_once(deps: Seq<DependencySpec>, pool_size: int, schedule: Seq<int>)
    requires
        pool_size >= 1,
        forall|i: int| 0 <= i < schedule.len() ==> 0 <= #[trigger] schedule[i] < pool_size,
        schedule.len() >= deps.len(),
    ensures
        drain(deps, schedule).0.len() == 0,
        drain(deps, schedule).1.map_values(|p: (int, DependencySpec)| p.1) == deps.reverse(),
        drain(deps, schedule).1.map_values(|p: (int, DependencySpec)| p.1).to_multiset()
            == deps.to_multiset(),
        forall|i: int|
            0 <= i < drain(deps, schedule).1.len() ==> 0 <= #[trigger] drain(deps, schedule).1[i].0
                < pool_size,
{
    lemma_drain_prefix(deps, schedule);
    assert(deps.reverse().subrange(0, deps.len() as int) =~= deps.reverse());
    if schedule.len() == deps.len() {
        assert(deps.subrange(0, 0).len() == 0);
    }
    deps.lemma_reverse_to_multiset();
    lemma_drain_workers(deps, schedule, pool_size);
}

proof fn lemma_drain_workers(deps: Seq<DependencySpec>, schedule: Seq<int>, pool_size: int)
    requires
        forall|i: int| 0 <= i < schedule.len() ==> 0 <= #[trigger] schedule[i] < pool_size,
    ensures
        forall|i: int|
            0 <= i < drain(deps, schedule).1.len() ==> 0 <= #[trigger] drain(deps, schedule).1[i].0
                < pool_size,
    decreases schedule.len(),
{
    if schedule.len() > 0 {
        lemma_drain_workers(deps, schedule.drop_last(), pool_size);
        assert(schedule.last() == schedule[schedule.len() - 1]);
        let (left, taken) = drain(deps, schedule.drop_last());
        assert forall|i: int|
            0 <= i < drain(deps, schedule).1.len() implies 0 <= #[trigger] drain(
            deps,
            schedule,
        ).1[i].0 < pool_size by {
            if i < taken.len() {
                assert(drain(deps, schedule).1[i] == taken[i]);
            }
        }
    }
}

/// Why a fetch failed.
#[derive(Clone, Copy, Debug, PartialEq, Eq, Structural)]
pub enum FetchErrorKind {
    /// The dependency's URI names no file.
    Filename,
    /// The request failed, or answered with an error status.
    Network,
    /// Reading or writing a file failed.
    Io,
    /// A worker ended abnormally.
    WorkerFailure,
}

/// A failed fetch: why, which URI (or path) it concerns, and the details.
#[derive(Clone, Debug)]
pub struct FetchError {
    pub kind: FetchErrorKind,
    pub subject: String,
    pub detail: String,
}

impl FetchError {
    /// A copy of the error.
    pub fn duplicate(&self) -> (r: FetchError)
        ensures
            r == *self,
    {
        FetchError { kind: self.kind, subject: self.subject.clone(), detail: self.detail.clone() }
    }

    /// The error for a dependency whose artifact has no file name.
    pub fn from_dependency(e: DependencyError) -> (r: FetchError)
        ensures
            r.kind == FetchErrorKind::Filename,
            r.subject@ == e.uri@,
    {
        FetchError {
            kind: FetchErrorKind::Filename,
            subject: e.uri,
            detail: String::from_str(e.message),
        }
    }
}

/// The first failure among the workers' reports, in the order the workers
/// were started; none where all of them finished their share.
pub open spec fn first_failure(reports: Seq<Option<FetchError>>) -> Option<FetchError>
    decreases reports.len(),
{
    if reports.len() == 0 {
        None
    } else if reports[0] is Some {
        reports[0]
    } else {
        first_failure(reports.drop_first())
    }
}

proof fn lemma_first_failure_none(reports: Seq<Option<FetchError>>)
    ensures
        first_failure(reports) is None <==> forall|i: int|
            0 <= i < reports.len() ==> reports[i] is None,
    decreases reports.len(),
{
    if reports.len() > 0 {
        lemma_first_failure_none(reports.drop_first());
        if first_failure(reports) is None {
            assert forall|i: int| 0 <= i < reports.len() implies reports[i] is None by {
                if i > 0 {
                    assert(reports[i] == reports.drop_first()[i - 1]);
                }
            }
        } else if reports[0] is None {
            let i = choose|i: int|
                0 <= i < reports.drop_first().len() && reports.drop_first()[i] is Some;
            assert(reports[i + 1] is Some);
        }
    }
}

/// The fetch's result once every worker has been joined: success where no
/// worker failed, else the first failure reported.
pub fn join_reports(reports: &Vec<Option<FetchError>>) -> (r: Result<(), FetchError>)
    ensures
        match first_failure(reports@) {
            None => r is Ok,
            Some(e) => r == Err::<(), FetchError>(e),
        },
        r is Ok <==> forall|i: int| 0 <= i < reports@.len() ==> reports@[i] is None,
{
    proof {
        lemma_first_failure_none(reports@);
    }
    let n = reports.len();
    let mut i: usize = 0;
    assert(reports@.subrange(0, n as int) =~= reports@);
    while i < n
        invariant
            n == reports@.len(),
            i <= n,
            first_failure(reports@) == first_failure(reports@.subrange(i as int, n as int)),
            forall|j: int| 0 <= j < i ==> reports@[j] is None,
        decreases n - i,
    {
        assert(reports@.subrange(i as int, n as int).drop_first() =~= reports@.subrange(
            i + 1,
            n as int,
        ));
        assert(reports@.subrange(i as int, n as int)[0] == reports@[i as int]);
        match &reports[i] {
            Some(e) => {
                return Err(e.duplicate());
            },
            None => {},
        }
        i = i + 1;
    }
    Ok(())
}

} // verus!
