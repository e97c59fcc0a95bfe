//! The configuration: one `source|destination[|marker]` record per line.
use vstd::prelude::*;
use crate::text::{lemma_pieces_nonempty, lemma_pieces_without_delimiter, owned, pieces, split_on, views};

verus! {

/// How a job archives its source.
#[derive(Clone, Copy, Debug, PartialEq, Eq, Structural)]
pub enum Mode {
    /// One archive of the whole source tree.
    WholeTree,
    /// One archive per immediate subdirectory of the source.
    PerSubfolder,
}

/// What to do with a third field that is not the subfolder marker `S`.
#[derive(Clone, Copy, Debug, PartialEq, Eq, Structural)]
pub enum MarkerPolicy {
    /// Fall back to `WholeTree`, ignoring the field.
    Lenient,
    /// Reject a non-empty field other than `S`.
    Strict,
}

/// Why a configuration line was rejected.
#[derive(Clone, Copy, Debug, PartialEq, Eq, Structural)]
pub enum LineFault {
    /// The line has no `|`, so it names no destination.
    TooFewFields,
    /// The line has more than three fields.
    TooManyFields,
    /// Under the strict policy: a third field that is neither empty nor `S`.
    UnknownMarker,
}

/// A rejected configuration: the fault and its line, counted from 1.
#[derive(Clone, Copy, Debug, PartialEq, Eq, Structural)]
pub struct ConfigError {
    pub fault: LineFault,
    pub line: usize,
}

/// One archival task.
#[derive(Debug)]
pub struct Job {
    pub source: String,
    pub destination: String,
    pub mode: Mode,
}

/// A job as values.
pub struct JobView {
    pub source: Seq<char>,
    pub destination: Seq<char>,
    pub mode: Mode,
}

impl View for Job {
    type V = JobView;

    open spec fn view(&self) -> JobView {
        JobView { source: self.source@, destination: self.destination@, mode: self.mode }
    }
}

impl Job {
    /// A job from its parts.
    pub fn new(source: &str, destination: &str, mode: Mode) -> (r: Job)
        ensures
            r@ == (JobView { source: source@, destination: destination@, mode }),
    {
        Job { source: owned(source), destination: owned(destination), mode }
    }
}

/// The views of a vector of jobs.
pub open spec fn job_views(v: Seq<Job>) -> Seq<JobView> {
    v.map_values(|j: Job| j@)
}

/// The marker that selects `PerSubfolder`.
pub open spec fn subfolder_marker() -> Seq<char> {
    seq!['S']
}

/// A line with one trailing carriage return removed.
pub open spec fn strip_cr(l: Seq<char>) -> Seq<char> {
    if l.len() > 0 && l.last() == '\r' {
        l.drop_last()
    } else {
        l
    }
}

/// The lines of a text: cut at `\n`, each without a trailing `\r`.
pub open spec fn config_lines(text: Seq<char>) -> Seq<Seq<char>> {
    pieces(text, '\n').map_values(|l: Seq<char>| strip_cr(l))
}

/// The mode that the fields of a line select.
pub open spec fn mode_of(fields: Seq<Seq<char>>) -> Mode {
    if fields.len() >= 3 && fields[2] == subfolder_marker() {
        Mode::PerSubfolder
    } else {
        Mode::WholeTree
    }
}

/// Whether the strict policy rejects the marker among these fields.
pub open spec fn strictly_rejected(fields: Seq<Seq<char>>) -> bool {
    fields.len() == 3 && fields[2].len() > 0 && fields[2] != subfolder_marker()
}

/// The job that a non-empty line describes, or why it describes none.
pub open spec fn line_job(line: Seq<char>, policy: MarkerPolicy) -> Result<JobView, LineFault> {
    let f = pieces(line, '|');
    if f.len() < 2 {
        Err(LineFault::TooFewFields)
    } else if f.len() > 3 {
        Err(LineFault::TooManyFields)
    } else if policy == MarkerPolicy::Strict && strictly_rejected(f) {
        Err(LineFault::UnknownMarker)
    } else {
        Ok(JobView { source: f[0], destination: f[1], mode: mode_of(f) })
    }
}

/// The jobs of a sequence of lines, in order, empty lines skipped; or the
/// first faulty line with its number counted from 1.
pub open spec fn lines_jobs(ls: Seq<Seq<char>>, policy: MarkerPolicy) -> Result<
    Seq<JobView>,
    (LineFault, nat),
>
    decreases ls.len(),
{
    if ls.len() == 0 {
        Ok(Seq::empty())
    } else {
        match lines_jobs(ls.drop_last(), policy) {
            Err(e) => Err(e),
            Ok(jobs) => if ls.last().len() == 0 {
                Ok(jobs)
            } else {
                match line_job(ls.last(), policy) {
                    Err(k) => Err((k, ls.len())),
                    Ok(j) => Ok(jobs.push(j)),
                }
            },
        }
    }
}

/// The jobs that a configuration text describes.
pub open spec fn config_jobs(text: Seq<char>, policy: MarkerPolicy) -> Result<
    Seq<JobView>,
    (LineFault, nat),
> {
    lines_jobs(config_lines(text), policy)
}

/// Whether an executable result is the model's.
pub open spec fn outcome_matches(
    r: Result<Vec<Job>, ConfigError>,
    m: Result<Seq<JobView>, (LineFault, nat)>,
) -> bool {
    match r {
        Ok(v) => m == Ok::<Seq<JobView>, (LineFault, nat)>(job_views(v@)),
        Err(e) => m == Err::<Seq<JobView>, (LineFault, nat)>((e.fault, e.line as nat)),
    }
}

fn strip_carriage_return(s: &String) -> (r: String)
    ensures
        r@ == strip_cr(s@),
{
    let t = s.as_str();
    let n = t.unicode_len();
    if n > 0 && t.get_char(n - 1) == '\r' {
        let r = owned(t.substring_char(0, n - 1));
        assert(r@ =~= strip_cr(s@));
        r
    } else {
        owned(t)
    }
}

fn is_subfolder_marker(s: &String) -> (r: bool)
    ensures
        r == (s@ == subfolder_marker()),
{
    let t = s.as_str();
    let n = t.unicode_len();
    if n == 1 {
        let c = t.get_char(0);
        if c == 'S' {
            assert(s@ =~= subfolder_marker());
        }
        c == 'S'
    } else {
        false
    }
}

/// Reads one non-empty configuration line.
pub fn parse_line(line: &str, policy: MarkerPolicy) -> (r: Result<Job, LineFault>)
    ensures
        match r {
            Ok(j) => line_job(line@, policy) == Ok::<JobView, LineFault>(j@),
            Err(k) => line_job(line@, policy) == Err::<JobView, LineFault>(k),
        },
{
    let fields = split_on(line, '|');
    let ghost f = pieces(line@, '|');
    assert(f.len() == fields@.len());
    if fields.len() < 2 {
        return Err(LineFault::TooFewFields);
    }
    if fields.len() > 3 {
        return Err(LineFault::TooManyFields);
    }
    assert(fields@[0]@ == f[0] && fields@[1]@ == f[1]);
    let marked = fields.len() >= 3 && is_subfolder_marker(&fields[2]);
    if fields.len() >= 3 {
        assert(fields@[2]@ == f[2]);
    }
    match policy {
        MarkerPolicy::Strict => {
            if fields.len() == 3 && fields[2].as_str().unicode_len() > 0 && !marked {
                return Err(LineFault::UnknownMarker);
            }
        },
        MarkerPolicy::Lenient => {},
    }
    let mode = if marked {
        Mode::PerSubfolder
    } else {
        Mode::WholeTree
    };
    Ok(Job { source: owned(fields[0].as_str()), destination: owned(fields[1].as_str()), mode })
}

/// Reads a configuration text into its jobs, in line order. Empty lines are
/// skipped; the first line with a fault ends the reading with an error.
pub fn parse_config(text: &str, policy: MarkerPolicy) -> (r: Result<Vec<Job>, ConfigError>)
    ensures
        outcome_matches(r, config_jobs(text@, policy)),
{
    let lines = split_on(text, '\n');
    let ghost ls = config_lines(text@);
    assert(ls.len() == lines@.len());
    let mut jobs: Vec<Job> = Vec::new();
    let mut i: usize = 0;
    assert(ls.take(0) =~= Seq::<Seq<char>>::empty());
    assert(job_views(jobs@) =~= Seq::<JobView>::empty());
    while i < lines.len()
        invariant
            i <= lines@.len() == ls.len(),
            ls == config_lines(text@),
            views(lines@) == pieces(text@, '\n'),
            lines_jobs(ls.take(i as int), policy) == Ok::<Seq<JobView>, (LineFault, nat)>(
                job_views(jobs@),
            ),
        decreases lines@.len() - i,
    {
        let line = strip_carriage_return(&lines[i]);
        assert(line@ == ls[i as int]);
        assert(ls.take(i as int + 1).drop_last() =~= ls.take(i as int));
        assert(ls.take(i as int + 1).last() == ls[i as int]);
        if line.as_str().unicode_len() > 0 {
            match parse_line(line.as_str(), policy) {
                Ok(j) => {
                    let ghost before = jobs@;
                    jobs.push(j);
                    assert(job_views(jobs@) =~= job_views(before).push(j@));
                },
                Err(k) => {
                    let r = Err(ConfigError { fault: k, line: i + 1 });
                    proof {
                        lemma_failure_persists(ls, i as int + 1, policy);
                    }
                    return r;
                },
            }
        }
        i = i + 1;
    }
    assert(ls.take(i as int) =~= ls);
    Ok(jobs)
}

/// Once a prefix of the lines fails, every longer prefix fails the same way.
proof fn lemma_failure_persists(ls: Seq<Seq<char>>, k: int, policy: MarkerPolicy)
    requires
        0 <= k <= ls.len(),
        lines_jobs(ls.take(k), policy) is Err,
    ensures
        lines_jobs(ls, policy) == lines_jobs(ls.take(k), policy),
    decreases ls.len() - k,
{
    if k < ls.len() {
        assert(ls.take(k + 1).drop_last() =~= ls.take(k));
        lemma_failure_persists(ls, k + 1, policy);
    } else {
        assert(ls.take(k) =~= ls);
    }
}

/// Reads the configuration resource, if there is one: a missing resource
/// describes no jobs.
pub fn load(resource: Option<&str>, policy: MarkerPolicy) -> (r: Result<Vec<Job>, ConfigError>)
    ensures
        resource is None ==> r is Ok && r->Ok_0@.len() == 0,
        resource is Some ==> outcome_matches(r, config_jobs(resource->Some_0@, policy)),
{
    match resource {
        None => Ok(Vec::new()),
        Some(text) => parse_config(text, policy),
    }
}

/// The non-empty lines, in order.
pub open spec fn records(ls: Seq<Seq<char>>) -> Seq<Seq<char>>
    decreases ls.len(),
{
    if ls.len() == 0 {
        Seq::empty()
    } else if ls.last().len() > 0 {
        records(ls.drop_last()).push(ls.last())
    } else {
        records(ls.drop_last())
    }
}

/// A line of the shape `a|b` or `a|b|c`.
pub open spec fn well_formed_line(l: Seq<char>) -> bool {
    2 <= pieces(l, '|').len() <= 3
}

/// The job that a well-formed line describes.
pub open spec fn record_job(l: Seq<char>) -> JobView {
    let f = pieces(l, '|');
    JobView { source: f[0], destination: f[1], mode: mode_of(f) }
}

proof fn lemma_well_formed_lines(ls: Seq<Seq<char>>)
    requires
        forall|i: int| 0 <= i < ls.len() && ls[i].len() > 0 ==> well_formed_line(#[trigger] ls[i]),
    ensures
        lines_jobs(ls, MarkerPolicy::Lenient) == Ok::<Seq<JobView>, (LineFault, nat)>(
            records(ls).map_values(|l: Seq<char>| record_job(l)),
        ),
    decreases ls.len(),
{
    if ls.len() == 0 {
        assert(records(ls).map_values(|l: Seq<char>| record_job(l)) =~= Seq::<JobView>::empty());
    } else {
        let p = ls.drop_last();
        assert forall|i: int| 0 <= i < p.len() && p[i].len() > 0 implies well_formed_line(
            #[trigger] p[i],
        ) by {
            assert(p[i] == ls[i]);
        }
        lemma_well_formed_lines(p);
        assert(ls.last() == ls[ls.len() - 1]);
        if ls.last().len() > 0 {
            assert(records(ls).map_values(|l: Seq<char>| record_job(l)) =~= records(p).map_values(
                |l: Seq<char>| record_job(l),
            ).push(record_job(ls.last())));
        }
    }
}

/// A configuration whose every non-empty line has the shape `a|b` or `a|b|c`
/// gives, under the lenient policy, exactly one job per non-empty line, in
/// line order: source and destination are the first two fields, and the mode
/// is `PerSubfolder` exactly when the third field is `S`.
pub proof fn law_one_job_per_record(text: Seq<char>)
    requires
        forall|i: int|
            0 <= i < config_lines(text).len() && config_lines(text)[i].len() > 0
                ==> well_formed_line(#[trigger] config_lines(text)[i]),
    ensures
        config_jobs(text, MarkerPolicy::Lenient) == Ok::<Seq<JobView>, (LineFault, nat)>(
            records(config_lines(text)).map_values(|l: Seq<char>| record_job(l)),
        ),
        config_jobs(text, MarkerPolicy::Lenient)->Ok_0.len() == records(config_lines(text)).len(),
{
    lemma_well_formed_lines(config_lines(text));
}

proof fn lemma_malformed_line_fails(ls: Seq<Seq<char>>, k: int, policy: MarkerPolicy)
    requires
        0 <= k < ls.len(),
        ls[k].len() > 0,
        !well_formed_line(ls[k]),
    ensures
        lines_jobs(ls, policy) is Err,
    decreases ls.len(),
{
    if k < ls.len() - 1 {
        assert(ls.drop_last()[k] == ls[k]);
        lemma_malformed_line_fails(ls.drop_last(), k, policy);
    } else {
        assert(ls.last() == ls[k]);
    }
}

/// A non-empty line without `|`, a single field, makes the whole
/// configuration fail, under either policy, however well formed the other
/// lines are.
pub proof fn law_short_line_is_fatal(text: Seq<char>, k: int, policy: MarkerPolicy)
    requires
        0 <= k < config_lines(text).len(),
        config_lines(text)[k].len() > 0,
        !config_lines(text)[k].contains('|'),
    ensures
        config_jobs(text, policy) is Err,
{
    lemma_pieces_without_delimiter(config_lines(text)[k], '|');
    lemma_malformed_line_fails(config_lines(text), k, policy);
}

/// Under the lenient policy the configuration fails exactly when some
/// non-empty line has fewer than two or more than three `|`-separated fields.
pub proof fn law_lenient_fails_exactly_on_malformed_line(text: Seq<char>)
    ensures
        config_jobs(text, MarkerPolicy::Lenient) is Err <==> exists|k: int|
            0 <= k < config_lines(text).len() && config_lines(text)[k].len() > 0
                && !well_formed_line(#[trigger] config_lines(text)[k]),
{
    let ls = config_lines(text);
    if exists|k: int| 0 <= k < ls.len() && ls[k].len() > 0 && !well_formed_line(#[trigger] ls[k]) {
        let k = choose|k: int| 0 <= k < ls.len() && ls[k].len() > 0 && !well_formed_line(#[trigger] ls[k]);
        lemma_malformed_line_fails(ls, k, MarkerPolicy::Lenient);
    } else {
        lemma_well_formed_lines(ls);
    }
}

/// Under the lenient policy a third field other than `S` is no error: the
/// line describes a `WholeTree` job of its first two fields.
pub proof fn law_unknown_marker_falls_back(line: Seq<char>)
    requires
        pieces(line, '|').len() == 3,
        pieces(line, '|')[2] != subfolder_marker(),
    ensures
        line_job(line, MarkerPolicy::Lenient) == Ok::<JobView, LineFault>(
            JobView {
                source: pieces(line, '|')[0],
                destination: pieces(line, '|')[1],
                mode: Mode::WholeTree,
            },
        ),
{
}

/// An empty line, wherever it is inserted, gives no job: the configuration
/// succeeds with it exactly when it succeeds without it, with the same jobs.
pub proof fn law_empty_line_adds_nothing(ls: Seq<Seq<char>>, k: int, policy: MarkerPolicy)
    requires
        0 <= k <= ls.len(),
    ensures
        (lines_jobs(ls.insert(k, Seq::empty()), policy) is Ok) <==> (lines_jobs(ls, policy) is Ok),
        lines_jobs(ls, policy) is Ok ==> lines_jobs(ls.insert(k, Seq::empty()), policy)
            == lines_jobs(ls, policy),
    decreases ls.len(),
{
    let e = Seq::<char>::empty();
    let m = ls.insert(k, e);
    if k == ls.len() {
        assert(m.drop_last() =~= ls);
        assert(m.last() == e);
    } else {
        let p = ls.drop_last();
        law_empty_line_adds_nothing(p, k, policy);
        assert(m.drop_last() =~= p.insert(k, e));
        assert(m.last() == ls.last());
    }
}

/// Appending a newline to a configuration text changes nothing it describes.
pub proof fn law_trailing_newline_adds_nothing(text: Seq<char>, policy: MarkerPolicy)
    ensures
        config_jobs(text + seq!['\n'], policy) == config_jobs(text, policy),
{
    let t = text + seq!['\n'];
    assert(t.drop_last() =~= text);
    assert(t.last() == '\n');
    lemma_pieces_nonempty(text, '\n');
    let ls = config_lines(text);
    assert(config_lines(t) =~= ls.push(Seq::empty()));
    assert(config_lines(t).drop_last() =~= ls);
}

} // verus!
