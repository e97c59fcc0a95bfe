//! The archiving run as a state machine: the caller performs each action on
//! the file system and hands back what came of it; the run decides what to
//! do next.
use vstd::prelude::*;
use crate::config::{Job, JobView, Mode, job_views};
use crate::naming::{archive_file_name, archive_name, base_name, base_name_of, join_path, joined};
use crate::stamp::{now, Stamp};
use crate::text::owned;

verus! {

/// One archive to create: the directory to archive, the file to write, and
/// the instant its name was built from.
#[derive(Debug)]
pub struct ArchiveRequest {
    pub input_root: String,
    pub output_path: String,
    pub stamp: Stamp,
}

/// An archive request as values.
pub struct RequestView {
    pub input_root: Seq<char>,
    pub output_path: Seq<char>,
    pub stamp: Stamp,
}

impl View for ArchiveRequest {
    type V = RequestView;

    open spec fn view(&self) -> RequestView {
        RequestView { input_root: self.input_root@, output_path: self.output_path@, stamp: self.stamp }
    }
}

/// One entry of a source directory: its file name, and whether it is a
/// directory.
#[derive(Debug)]
pub struct Entry {
    pub name: String,
    pub is_dir: bool,
}

/// A fatal condition; each names the job, counted from 0, it arose in.
#[derive(Clone, Copy, Debug, PartialEq, Eq, Structural)]
pub enum RunError {
    /// The source directory does not exist.
    MissingSource { job: usize },
    /// The source path has no final component to name its archive after.
    UnnamedSource { job: usize },
    /// The destination could not be created, or the source not listed.
    Io { job: usize },
}

/// What the caller reports back.
#[derive(Debug)]
pub enum Event {
    /// The run is to begin.
    Start,
    /// Whether the source of the current job is an existing directory.
    SourceChecked { is_dir: bool },
    /// Whether the destination exists now (created, with its parents, if
    /// it was missing).
    DestinationReady { ok: bool },
    /// The entries of the current source, or `None` if it could not be read.
    Listed { entries: Option<Vec<Entry>> },
    /// The archiver finished the requested archive, successfully or not.
    Archived { success: bool },
}

/// An event as values; an entry is its name and whether it is a directory.
pub enum EventView {
    Start,
    SourceChecked { is_dir: bool },
    DestinationReady { ok: bool },
    Listed { entries: Option<Seq<(Seq<char>, bool)>> },
    Archived { success: bool },
}

/// The views of a vector of entries.
pub open spec fn entry_views(es: Seq<Entry>) -> Seq<(Seq<char>, bool)> {
    es.map_values(|e: Entry| (e.name@, e.is_dir))
}

impl View for Event {
    type V = EventView;

    open spec fn view(&self) -> EventView {
        match self {
            Event::Start => EventView::Start,
            Event::SourceChecked { is_dir } => EventView::SourceChecked { is_dir: *is_dir },
            Event::DestinationReady { ok } => EventView::DestinationReady { ok: *ok },
            Event::Listed { entries } => EventView::Listed {
                entries: match entries {
                    Some(es) => Some(entry_views(es@)),
                    None => None,
                },
            },
            Event::Archived { success } => EventView::Archived { success: *success },
        }
    }
}

/// What the caller is to do next.
#[derive(Debug)]
pub enum Action {
    /// Find out whether this path is an existing directory.
    CheckSource { path: String },
    /// Make sure this directory exists, creating it and its parents.
    PrepareDestination { path: String },
    /// List the entries of this directory.
    ListSource { path: String },
    /// Create this archive, and report how it went.
    Archive { request: ArchiveRequest },
    /// Every job is done.
    Finish,
    /// Stop the run.
    Abort { error: RunError },
}

/// An action as values.
pub enum ActionView {
    CheckSource { path: Seq<char> },
    PrepareDestination { path: Seq<char> },
    ListSource { path: Seq<char> },
    Archive { request: RequestView },
    Finish,
    Abort { error: RunError },
}

impl View for Action {
    type V = ActionView;

    open spec fn view(&self) -> ActionView {
        match self {
            Action::CheckSource { path } => ActionView::CheckSource { path: path@ },
            Action::PrepareDestination { path } => ActionView::PrepareDestination { path: path@ },
            Action::ListSource { path } => ActionView::ListSource { path: path@ },
            Action::Archive { request } => ActionView::Archive { request: request@ },
            Action::Finish => ActionView::Finish,
            Action::Abort { error } => ActionView::Abort { error: *error },
        }
    }
}

/// Where a run stands.
#[derive(Clone, Copy, Debug, PartialEq, Eq, Structural)]
pub enum Phase {
    /// Not started.
    Idle,
    /// Waiting to learn whether the current source exists.
    AwaitSource,
    /// Waiting for the current destination to be prepared.
    AwaitDestination,
    /// Waiting for the listing of the current source.
    AwaitListing,
    /// Waiting for the current archive to be created.
    AwaitArchive,
    /// Every job done.
    Finished,
    /// Stopped by a fatal condition.
    Aborted,
}

/// A run as values: the jobs, the extension of every archive, the current
/// job, the phase, the directories of the current job to archive (each with
/// the name its archive is named after) and the one being archived.
pub struct RunView {
    pub jobs: Seq<JobView>,
    pub extension: Seq<char>,
    pub job: nat,
    pub phase: Phase,
    pub units: Seq<(Seq<char>, Seq<char>)>,
    pub next: nat,
}

/// The jobs archiving in turn.
pub struct Run {
    jobs: Vec<Job>,
    extension: String,
    job: usize,
    phase: Phase,
    units: Vec<(String, String)>,
    next: usize,
}

/// The views of a vector of units.
pub open spec fn unit_views(us: Seq<(String, String)>) -> Seq<(Seq<char>, Seq<char>)> {
    us.map_values(|u: (String, String)| (u.0@, u.1@))
}

impl View for Run {
    type V = RunView;

    closed spec fn view(&self) -> RunView {
        RunView {
            jobs: job_views(self.jobs@),
            extension: self.extension@,
            job: self.job as nat,
            phase: self.phase,
            units: unit_views(self.units@),
            next: self.next as nat,
        }
    }
}

/// The phases in which a job is under way.
pub open spec fn in_job(p: Phase) -> bool {
    p == Phase::AwaitSource || p == Phase::AwaitDestination || p == Phase::AwaitListing || p
        == Phase::AwaitArchive
}

/// The invariant of a run.
pub open spec fn run_wf(s: RunView) -> bool {
    &&& s.job <= s.jobs.len()
    &&& s.next <= s.units.len()
    &&& in_job(s.phase) ==> s.job < s.jobs.len()
    &&& s.phase == Phase::AwaitArchive ==> s.next < s.units.len()
    &&& s.phase == Phase::AwaitDestination && s.jobs[s.job as int].mode == Mode::WholeTree
        ==> base_name_of(s.jobs[s.job as int].source) is Some
}

/// Whether a run in state `s` takes the event `ev`: each waiting phase
/// takes the one event it waits for, and a finished or aborted run none.
pub open spec fn accepts(s: RunView, ev: EventView) -> bool {
    match ev {
        EventView::Start => s.phase == Phase::Idle,
        EventView::SourceChecked { .. } => s.phase == Phase::AwaitSource,
        EventView::DestinationReady { .. } => s.phase == Phase::AwaitDestination,
        EventView::Listed { .. } => s.phase == Phase::AwaitListing,
        EventView::Archived { .. } => s.phase == Phase::AwaitArchive,
    }
}

/// The request that archives `unit` into `destination`.
pub open spec fn request_of(
    unit: (Seq<char>, Seq<char>),
    destination: Seq<char>,
    extension: Seq<char>,
    stamp: Stamp,
) -> RequestView {
    RequestView {
        input_root: unit.0,
        output_path: joined(destination, archive_name(unit.1, stamp, extension)),
        stamp,
    }
}

/// The directories among the entries of `source`, in order, each as its
/// path and its name; other entries give none.
pub open spec fn dir_units(source: Seq<char>, es: Seq<(Seq<char>, bool)>) -> Seq<
    (Seq<char>, Seq<char>),
>
    decreases es.len(),
{
    if es.len() == 0 {
        Seq::empty()
    } else if es.last().1 {
        dir_units(source, es.drop_last()).push((joined(source, es.last().0), es.last().0))
    } else {
        dir_units(source, es.drop_last())
    }
}

/// Stop with `e`.
pub open spec fn abort_with(s: RunView, e: RunError) -> (RunView, ActionView) {
    (RunView { phase: Phase::Aborted, ..s }, ActionView::Abort { error: e })
}

/// Begin the job `s.job`, or finish if there is none.
pub open spec fn begin_job(s: RunView) -> (RunView, ActionView) {
    if s.job < s.jobs.len() {
        (
            RunView { phase: Phase::AwaitSource, units: Seq::empty(), next: 0, ..s },
            ActionView::CheckSource { path: s.jobs[s.job as int].source },
        )
    } else {
        (
            RunView { phase: Phase::Finished, units: Seq::empty(), next: 0, ..s },
            ActionView::Finish,
        )
    }
}

/// Archive unit `s.next` of the current job, or go on to the next job if
/// none is left.
pub open spec fn emit_next(s: RunView, stamp: Stamp) -> (RunView, ActionView) {
    if s.next < s.units.len() {
        (
            RunView { phase: Phase::AwaitArchive, ..s },
            ActionView::Archive {
                request: request_of(
                    s.units[s.next as int],
                    s.jobs[s.job as int].destination,
                    s.extension,
                    stamp,
                ),
            },
        )
    } else {
        begin_job(RunView { job: s.job + 1, ..s })
    }
}

/// The state and action that follow event `ev` in state `s`, with `stamp`
/// as the time at which any archive request is built.
pub open spec fn next_state(s: RunView, ev: EventView, stamp: Stamp) -> (RunView, ActionView) {
    let j = s.jobs[s.job as int];
    match ev {
        EventView::Start => begin_job(RunView { job: 0, ..s }),
        EventView::SourceChecked { is_dir } => if !is_dir {
            abort_with(s, RunError::MissingSource { job: s.job as usize })
        } else if j.mode == Mode::WholeTree && base_name_of(j.source) is None {
            abort_with(s, RunError::UnnamedSource { job: s.job as usize })
        } else {
            (
                RunView { phase: Phase::AwaitDestination, ..s },
                ActionView::PrepareDestination { path: j.destination },
            )
        },
        EventView::DestinationReady { ok } => if !ok {
            abort_with(s, RunError::Io { job: s.job as usize })
        } else if j.mode == Mode::WholeTree {
            emit_next(
                RunView { units: seq![(j.source, base_name_of(j.source)->Some_0)], next: 0, ..s },
                stamp,
            )
        } else {
            (RunView { phase: Phase::AwaitListing, ..s }, ActionView::ListSource { path: j.source })
        },
        EventView::Listed { entries } => match entries {
            None => abort_with(s, RunError::Io { job: s.job as usize }),
            Some(es) => emit_next(RunView { units: dir_units(j.source, es), next: 0, ..s }, stamp),
        },
        EventView::Archived { .. } => emit_next(RunView { next: s.next + 1, ..s }, stamp),
    }
}

fn copy_job(j: &Job) -> (r: Job)
    ensures
        r@ == j@,
{
    Job { source: owned(j.source.as_str()), destination: owned(j.destination.as_str()), mode: j.mode }
}

/// The directories among `entries`, each as its path under `source` and its
/// name.
fn directory_units(source: &str, entries: &Vec<Entry>) -> (r: Vec<(String, String)>)
    ensures
        unit_views(r@) == dir_units(source@, entry_views(entries@)),
{
    let ghost es = entry_views(entries@);
    let mut out: Vec<(String, String)> = Vec::new();
    let mut i: usize = 0;
    assert(es.take(0) =~= Seq::<(Seq<char>, bool)>::empty());
    assert(unit_views(out@) =~= Seq::<(Seq<char>, Seq<char>)>::empty());
    while i < entries.len()
        invariant
            i <= entries@.len() == es.len(),
            es == entry_views(entries@),
            unit_views(out@) == dir_units(source@, es.take(i as int)),
        decreases entries@.len() - i,
    {
        let e = &entries[i];
        assert(es.take(i as int + 1).drop_last() =~= es.take(i as int));
        assert(es.take(i as int + 1).last() == (e.name@, e.is_dir));
        if e.is_dir {
            let path = join_path(source, e.name.as_str());
            let name = owned(e.name.as_str());
            let ghost before = out@;
            out.push((path, name));
            assert(unit_views(out@) =~= unit_views(before).push((path@, name@)));
        }
        i = i + 1;
    }
    assert(es.take(i as int) =~= es);
    out
}

impl Run {
    /// The invariant of the run.
    pub open spec fn wf(&self) -> bool {
        run_wf(self@)
    }

    /// A run over `jobs`, naming every archive with `extension`.
    pub fn new(jobs: Vec<Job>, extension: &str) -> (r: Run)
        ensures
            r.wf(),
            r@ == (RunView {
                jobs: job_views(jobs@),
                extension: extension@,
                job: 0,
                phase: Phase::Idle,
                units: Seq::empty(),
                next: 0,
            }),
    {
        let r = Run {
            jobs,
            extension: owned(extension),
            job: 0,
            phase: Phase::Idle,
            units: Vec::new(),
            next: 0,
        };
        assert(r@.units =~= Seq::<(Seq<char>, Seq<char>)>::empty());
        r
    }

    /// Where the run stands.
    pub fn phase(&self) -> (r: Phase)
        ensures
            r == self@.phase,
    {
        self.phase
    }

    /// Whether the run takes `ev` now.
    pub fn accepts(&self, ev: &Event) -> (r: bool)
        ensures
            r == accepts(self@, ev@),
    {
        match ev {
            Event::Start => self.phase == Phase::Idle,
            Event::SourceChecked { .. } => self.phase == Phase::AwaitSource,
            Event::DestinationReady { .. } => self.phase == Phase::AwaitDestination,
            Event::Listed { .. } => self.phase == Phase::AwaitListing,
            Event::Archived { .. } => self.phase == Phase::AwaitArchive,
        }
    }

    fn abort(&mut self, error: RunError) -> (a: Action)
        requires
            run_wf(old(self)@),
        ensures
            run_wf(final(self)@),
            (final(self)@, a@) == abort_with(old(self)@, error),
    {
        self.phase = Phase::Aborted;
        Action::Abort { error }
    }

    fn begin_job(&mut self) -> (a: Action)
        requires
            old(self).job <= old(self).jobs@.len(),
        ensures
            run_wf(final(self)@),
            (final(self)@, a@) == begin_job(old(self)@),
    {
        self.units = Vec::new();
        self.next = 0;
        assert(unit_views(self.units@) =~= Seq::<(Seq<char>, Seq<char>)>::empty());
        if self.job < self.jobs.len() {
            self.phase = Phase::AwaitSource;
            Action::CheckSource { path: owned(self.jobs[self.job].source.as_str()) }
        } else {
            self.phase = Phase::Finished;
            Action::Finish
        }
    }

    fn emit_next(&mut self, stamp: Stamp) -> (a: Action)
        requires
            old(self).job < old(self).jobs@.len(),
            old(self).next <= old(self).units@.len(),
            stamp.wf(),
        ensures
            run_wf(final(self)@),
            (final(self)@, a@) == emit_next(old(self)@, stamp),
    {
        if self.next < self.units.len() {
            self.phase = Phase::AwaitArchive;
            let unit = &self.units[self.next];
            let name = archive_file_name(unit.1.as_str(), stamp, self.extension.as_str());
            let output_path = join_path(self.jobs[self.job].destination.as_str(), name.as_str());
            let request = ArchiveRequest {
                input_root: owned(unit.0.as_str()),
                output_path,
                stamp,
            };
            Action::Archive { request }
        } else {
            let n = self.jobs.len();
            assert(self.job < n);
            self.job = self.job + 1;
            self.begin_job()
        }
    }

    /// Takes the event `ev`, with `stamp` as the time at which an archive
    /// request is built, and returns what to do next.
    pub fn step(&mut self, ev: Event, stamp: Stamp) -> (a: Action)
        requires
            old(self).wf(),
            accepts(old(self)@, ev@),
            stamp.wf(),
        ensures
            final(self).wf(),
            (final(self)@, a@) == next_state(old(self)@, ev@, stamp),
    {
        match ev {
            Event::Start => {
                self.job = 0;
                self.begin_job()
            },
            Event::SourceChecked { is_dir } => {
                let job = self.job;
                if !is_dir {
                    return self.abort(RunError::MissingSource { job });
                }
                let whole = match self.jobs[job].mode {
                    Mode::WholeTree => true,
                    Mode::PerSubfolder => false,
                };
                if whole && base_name(self.jobs[job].source.as_str()).is_none() {
                    return self.abort(RunError::UnnamedSource { job });
                }
                self.phase = Phase::AwaitDestination;
                Action::PrepareDestination { path: owned(self.jobs[job].destination.as_str()) }
            },
            Event::DestinationReady { ok } => {
                let job = self.job;
                if !ok {
                    return self.abort(RunError::Io { job });
                }
                match self.jobs[job].mode {
                    Mode::WholeTree => {
                        let source = self.jobs[job].source.as_str();
                        match base_name(source) {
                            Some(b) => {
                                let mut units: Vec<(String, String)> = Vec::new();
                                units.push((owned(source), b));
                                self.units = units;
                                self.next = 0;
                                assert(unit_views(self.units@) =~= seq![(self@.jobs[job as int].source, base_name_of(self@.jobs[job as int].source)->Some_0)]);
                                self.emit_next(stamp)
                            },
                            None => {
                                proof {
                                    assert(false);
                                }
                                self.abort(RunError::UnnamedSource { job })
                            },
                        }
                    },
                    Mode::PerSubfolder => {
                        self.phase = Phase::AwaitListing;
                        Action::ListSource { path: owned(self.jobs[job].source.as_str()) }
                    },
                }
            },
            Event::Listed { entries } => {
                let job = self.job;
                match entries {
                    None => self.abort(RunError::Io { job }),
                    Some(es) => {
                        let units = directory_units(self.jobs[job].source.as_str(), &es);
                        self.units = units;
                        self.next = 0;
                        self.emit_next(stamp)
                    },
                }
            },
            Event::Archived { .. } => {
                let n = self.units.len();
                assert(self.next < n);
                self.next = self.next + 1;
                self.emit_next(stamp)
            },
        }
    }

    /// Takes the event `ev` at the current local time, and returns what to
    /// do next.
    pub fn advance(&mut self, ev: Event) -> (a: Action)
        requires
            old(self).wf(),
            accepts(old(self)@, ev@),
        ensures
            final(self).wf(),
            exists|stamp: Stamp| stamp.wf() && (final(self)@, a@) == next_state(old(self)@, ev@, stamp),
    {
        let stamp = now();
        self.step(ev, stamp)
    }
}

/// The number of directories among the entries.
pub open spec fn count_dirs(es: Seq<(Seq<char>, bool)>) -> nat
    decreases es.len(),
{
    if es.len() == 0 {
        0
    } else {
        count_dirs(es.drop_last()) + if es.last().1 {
            1nat
        } else {
            0nat
        }
    }
}

proof fn lemma_dir_units_len(source: Seq<char>, es: Seq<(Seq<char>, bool)>)
    ensures
        dir_units(source, es).len() == count_dirs(es),
    decreases es.len(),
{
    if es.len() > 0 {
        lemma_dir_units_len(source, es.drop_last());
    }
}

/// A whole-tree job, once its destination is ready, gives exactly one
/// archive request: the whole source, named after its final component. Once
/// that archive is reported, whatever its outcome, the run moves on to the
/// next job.
pub proof fn law_whole_tree_single_request(s: RunView, stamp: Stamp, success: bool, later: Stamp)
    requires
        run_wf(s),
        s.phase == Phase::AwaitDestination,
        s.jobs[s.job as int].mode == Mode::WholeTree,
        stamp.wf(),
        later.wf(),
    ensures
        ({
            let j = s.jobs[s.job as int];
            let (t, a) = next_state(s, EventView::DestinationReady { ok: true }, stamp);
            let (u, b) = next_state(t, EventView::Archived { success }, later);
            &&& t.units.len() == 1
            &&& t.phase == Phase::AwaitArchive
            &&& a == ActionView::Archive {
                request: request_of(
                    (j.source, base_name_of(j.source)->Some_0),
                    j.destination,
                    s.extension,
                    stamp,
                ),
            }
            &&& u.job == s.job + 1
            &&& !(b is Archive)
        }),
{
}

/// A per-subfolder job gives one archive request per directory among the
/// entries of its source, in listing order; other entries give none.
pub proof fn law_per_subfolder_request_per_directory(
    s: RunView,
    es: Seq<(Seq<char>, bool)>,
    stamp: Stamp,
)
    requires
        run_wf(s),
        s.phase == Phase::AwaitListing,
        s.jobs[s.job as int].mode == Mode::PerSubfolder,
        stamp.wf(),
    ensures
        ({
            let (t, a) = next_state(s, EventView::Listed { entries: Some(es) }, stamp);
            &&& t.units == dir_units(s.jobs[s.job as int].source, es)
            &&& t.units.len() == count_dirs(es)
            &&& count_dirs(es) > 0 ==> a == ActionView::Archive {
                request: request_of(t.units[0], s.jobs[s.job as int].destination, s.extension, stamp),
            }
            &&& count_dirs(es) == 0 ==> t.job == s.job + 1
        }),
{
    lemma_dir_units_len(s.jobs[s.job as int].source, es);
}

/// A missing source stops the run at once: no archive is requested for it
/// or for any later job, since an aborted run takes no further event.
pub proof fn law_missing_source_aborts(s: RunView, stamp: Stamp)
    requires
        run_wf(s),
        s.phase == Phase::AwaitSource,
    ensures
        ({
            let (t, a) = next_state(s, EventView::SourceChecked { is_dir: false }, stamp);
            &&& t.phase == Phase::Aborted
            &&& a == ActionView::Abort { error: RunError::MissingSource { job: s.job as usize } }
            &&& forall|ev: EventView| !accepts(t, ev)
        }),
{
}

/// A failed archive changes nothing that follows: the run goes on exactly as
/// after a successful one.
pub proof fn law_archiver_failure_not_fatal(s: RunView, stamp: Stamp)
    requires
        run_wf(s),
        s.phase == Phase::AwaitArchive,
    ensures
        next_state(s, EventView::Archived { success: false }, stamp) == next_state(
            s,
            EventView::Archived { success: true },
            stamp,
        ),
        next_state(s, EventView::Archived { success: false }, stamp).0.phase != Phase::Aborted,
{
}

/// Archives are requested only once the destination of the current job is
/// ready: the phases that request archives are entered only from a
/// destination reported ready, or from one another within the same job; and
/// every archive is written directly into that destination.
pub proof fn law_archive_only_after_destination(s: RunView, ev: EventView, stamp: Stamp)
    requires
        run_wf(s),
        accepts(s, ev),
    ensures
        ({
            let (t, a) = next_state(s, ev, stamp);
            &&& (t.phase == Phase::AwaitListing || t.phase == Phase::AwaitArchive) ==> (ev
                == EventView::DestinationReady { ok: true } || ((s.phase == Phase::AwaitListing
                || s.phase == Phase::AwaitArchive) && t.job == s.job))
            &&& a is Archive ==> t.phase == Phase::AwaitArchive && a->Archive_request.output_path
                == joined(
                t.jobs[t.job as int].destination,
                archive_name(t.units[t.next as int].1, stamp, t.extension),
            )
        }),
{
}

} // verus!
