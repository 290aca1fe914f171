//! The launch registry: turns static job configuration into a validated
//! launch plan.
//!
//! Each configured job names a trigger source — a cron schedule or an
//! externally fed queue — and, for queue sources, a backend locator whose
//! scheme selects the backend kind. Validation is fail-fast: an unresolvable
//! locator, an invalid cron expression or a duplicated job name rejects the
//! whole configuration, so that a misconfigured job never runs in a degraded
//! mode. Every job's records are isolated under a namespace derived from the
//! job's name, and no two jobs of one plan share a namespace.

use core::str::FromStr;
use vstd::prelude::*;
use vstd::string::StrSliceExecFns;

verus! {

/// The kind of backend store a queue-triggered job pulls from.
#[derive(Clone, Copy, Debug, PartialEq, Eq, Structural)]
pub enum BackendKind {
    /// The in-process default store, scoped to this process instance.
    InProcess,
    Redis,
    Mysql,
    Postgres,
    Sqlite,
}

/// The trigger source of one configured job.
#[derive(Debug)]
pub enum Source {
    /// Entries are pushed from outside into a backend store; `backend` is
    /// the store's locator, absent for the in-process default.
    Http { backend: Option<String> },
    /// A time-based tick source described by a cron expression.
    Cron(String),
}

/// What a triggered job executes.
#[derive(Debug)]
pub enum Task {
    /// An ordered sequence of named command steps; when `docker` names an
    /// image, the steps run inside one ephemeral container of that image.
    Command { steps: Vec<(String, String)>, docker: Option<String> },
}

/// One configured job: its trigger source and its task.
#[derive(Debug)]
pub struct Launch {
    pub source: Source,
    pub task: Task,
}

/// Why a configuration was rejected. Any of these is fatal at startup.
#[derive(Debug)]
pub enum ConfigError {
    /// A backend locator whose scheme no backend kind recognizes.
    UnknownScheme { locator: String },
    /// A cron expression the schedule parser rejects.
    InvalidCron { schedule: String },
    /// Two jobs share one name, which would share one namespace.
    DuplicateNamespace { namespace: String },
}

/// `p` is a prefix of `s`.
pub open spec fn is_prefix_of(p: Seq<char>, s: Seq<char>) -> bool {
    p.len() <= s.len() && s.subrange(0, p.len() as int) == p
}

/// Character-for-character string equality.
pub fn str_equal(a: &str, b: &str) -> (r: bool)
    ensures
        r == (a@ == b@),
{
    let alen = a.unicode_len();
    let blen = b.unicode_len();
    if alen != blen {
        return false;
    }
    let mut i: usize = 0;
    while i < alen
        invariant
            i <= alen,
            alen == a@.len(),
            alen == b@.len(),
            forall|j: int| 0 <= j < i ==> a@[j] == b@[j],
        decreases alen - i,
    {
        if a.get_char(i) != b.get_char(i) {
            return false;
        }
        i = i + 1;
    }
    proof {
        assert(a@ =~= b@);
    }
    true
}

/// Whether `s` starts with `p`.
pub fn str_starts_with(s: &str, p: &str) -> (r: bool)
    ensures
        r == is_prefix_of(p@, s@),
{
    let slen = s.unicode_len();
    let plen = p.unicode_len();
    if plen > slen {
        return false;
    }
    let mut i: usize = 0;
    while i < plen
        invariant
            i <= plen,
            plen == p@.len(),
            slen == s@.len(),
            plen <= slen,
            forall|j: int| 0 <= j < i ==> s@[j] == p@[j],
        decreases plen - i,
    {
        if s.get_char(i) != p.get_char(i) {
            proof {
                if is_prefix_of(p@, s@) {
                    assert(s@.subrange(0, p@.len() as int)[i as int] == s@[i as int]);
                }
            }
            return false;
        }
        i = i + 1;
    }
    proof {
        assert(s@.subrange(0, p@.len() as int) =~= p@);
    }
    true
}

/// The view of an optional locator string.
pub open spec fn opt_str_view(o: Option<String>) -> Option<Seq<char>> {
    match o {
        Option::None => Option::None,
        Option::Some(s) => Option::Some(s@),
    }
}

/// Which backend kind a locator selects: no locator or `"default"` names
/// the in-process store, otherwise the scheme decides, and an unrecognized
/// scheme selects none.
pub open spec fn locator_kind(loc: Option<Seq<char>>) -> Option<BackendKind> {
    match loc {
        Option::None => Option::Some(BackendKind::InProcess),
        Option::Some(s) => if s == "default"@ {
            Option::Some(BackendKind::InProcess)
        } else if is_prefix_of("redis://"@, s) {
            Option::Some(BackendKind::Redis)
        } else if is_prefix_of("mysql://"@, s) {
            Option::Some(BackendKind::Mysql)
        } else if is_prefix_of("postgresql://"@, s) {
            Option::Some(BackendKind::Postgres)
        } else if is_prefix_of("sqlite://"@, s) {
            Option::Some(BackendKind::Sqlite)
        } else {
            Option::None
        },
    }
}

/// Resolve a backend locator to its backend kind, or reject it.
pub fn parse_locator(backend: &Option<String>) -> (r: Result<BackendKind, ConfigError>)
    ensures
        match r {
            Ok(k) => locator_kind(opt_str_view(*backend)) == Some(k),
            Err(e) => locator_kind(opt_str_view(*backend)) is None && (e matches
                ConfigError::UnknownScheme { locator } && locator@ == backend->0@),
        },
{
    match backend {
        Option::None => Ok(BackendKind::InProcess),
        Option::Some(s) => {
            if str_equal(s.as_str(), "default") {
                Ok(BackendKind::InProcess)
            } else if str_starts_with(s.as_str(), "redis://") {
                Ok(BackendKind::Redis)
            } else if str_starts_with(s.as_str(), "mysql://") {
                Ok(BackendKind::Mysql)
            } else if str_starts_with(s.as_str(), "postgresql://") {
                Ok(BackendKind::Postgres)
            } else if str_starts_with(s.as_str(), "sqlite://") {
                Ok(BackendKind::Sqlite)
            } else {
                Err(ConfigError::UnknownScheme { locator: s.clone() })
            }
        },
    }
}

/// Whether a cron expression parses into a schedule. A function of the
/// expression's characters alone.
pub uninterp spec fn cron_is_valid(s: Seq<char>) -> bool;

/// Relies on the `FromStr` impl of `cron::Schedule` (re-exported by
/// `apalis_cron`): whether an expression parses is decided by the
/// expression's characters alone.
#[verifier::external_body]
fn cron_parse_ok(expr: &str) -> (r: bool)
    ensures
        r == cron_is_valid(expr@),
{
    <apalis_cron::Schedule as FromStr>::from_str(expr).is_ok()
}

/// Whether a cron expression is accepted as a tick source.
pub fn validate_cron(expr: &String) -> (r: bool)
    ensures
        r == cron_is_valid(expr@),
{
    cron_parse_ok(expr.as_str())
}

/// The resolved trigger source of one planned job.
#[derive(Debug)]
pub enum ResolvedSource {
    /// Pull entries from the backend store the locator selected.
    Store { kind: BackendKind, locator: Option<String> },
    /// Tick on the given (validated) cron schedule.
    Tick { schedule: String },
}

/// One job of a validated launch plan, ready to be given a poller. The
/// job's namespace — the isolation key for its records within a shared
/// store — is the job's name.
#[derive(Debug)]
pub struct ResolvedJob {
    pub namespace: String,
    pub source: ResolvedSource,
    pub task: Task,
}

/// A job's source is valid: its locator selects a backend kind, or its
/// cron expression parses.
pub open spec fn source_valid(s: Source) -> bool {
    match s {
        Source::Http { backend } => locator_kind(opt_str_view(backend)) is Some,
        Source::Cron(expr) => cron_is_valid(expr@),
    }
}

/// No two jobs share a name, so no two jobs share a namespace.
pub open spec fn names_distinct(jobs: Seq<(String, Launch)>) -> bool {
    forall|i: int, j: int| 0 <= i < j < jobs.len() ==> jobs[i].0@ != jobs[j].0@
}

/// A configuration is accepted exactly when its names are distinct and
/// every job's source is valid.
pub open spec fn plan_valid(jobs: Seq<(String, Launch)>) -> bool {
    names_distinct(jobs) && forall|i: int|
        0 <= i < jobs.len() ==> #[trigger] source_valid(jobs[i].1.source)
}

/// The planned job is the configured job, resolved: same name as namespace,
/// the task passed through unchanged, and the source replaced by its
/// resolved form.
pub open spec fn resolves(job: (String, Launch), rj: ResolvedJob) -> bool {
    &&& rj.namespace@ == job.0@
    &&& rj.task == job.1.task
    &&& match job.1.source {
        Source::Http { backend } => rj.source matches ResolvedSource::Store { kind, locator }
            && locator_kind(opt_str_view(backend)) == Some(kind) && locator == backend,
        Source::Cron(expr) => rj.source matches ResolvedSource::Tick { schedule } && schedule@
            == expr@,
    }
}

/// The namespaces a plan exposes to the read API, in plan order. Distinct
/// whenever the plan came out of [`build_plan`], which rejects shared
/// names.
pub fn namespaces(plan: &Vec<ResolvedJob>) -> (r: Vec<String>)
    ensures
        r@.len() == plan@.len(),
        forall|i: int| 0 <= i < plan@.len() ==> (#[trigger] r@[i])@ == plan@[i].namespace@,
{
    let n = plan.len();
    let mut out: Vec<String> = Vec::new();
    let mut i: usize = 0;
    while i < n
        invariant
            i <= n,
            n == plan@.len(),
            out@.len() == i,
            forall|x: int| 0 <= x < i ==> (#[trigger] out@[x])@ == plan@[x].namespace@,
        decreases n - i,
    {
        out.push(plan[i].namespace.clone());
        i = i + 1;
    }
    out
}

/// Turn a configuration into a launch plan, or reject it.
///
/// The plan keeps the configuration's order: job `i` of the plan resolves
/// job `i` of the configuration. Rejection is fail-fast and total: the
/// result is `Ok` exactly when every job's source is valid and no namespace
/// is shared.
pub fn build_plan(jobs: Vec<(String, Launch)>) -> (r: Result<Vec<ResolvedJob>, ConfigError>)
    ensures
        (r is Ok) == plan_valid(jobs@),
        r matches Ok(plan) ==> plan@.len() == jobs@.len() && forall|i: int|
            0 <= i < jobs@.len() ==> #[trigger] resolves(jobs@[i], plan@[i]),
        r matches Err(ConfigError::DuplicateNamespace { namespace }) ==> !names_distinct(jobs@),
        (r matches Err(ConfigError::UnknownScheme { locator }) || r matches Err(
            ConfigError::InvalidCron { schedule },
        )) ==> exists|i: int|
            0 <= i < jobs@.len() && !#[trigger] source_valid(jobs@[i].1.source),
{
    // Namespaces are derived from job names: two equal names would share a
    // namespace across possibly different command sets.
    let n = jobs.len();
    let mut i: usize = 0;
    while i < n
        invariant
            n == jobs@.len(),
            i <= n,
            forall|x: int, y: int| 0 <= x < y < n && x < i ==> jobs@[x].0@ != jobs@[y].0@,
        decreases n - i,
    {
        let mut j: usize = i + 1;
        while j < n
            invariant
                n == jobs@.len(),
                i < n,
                i < j <= n,
                forall|y: int| i < y < j ==> jobs@[i as int].0@ != jobs@[y].0@,
            decreases n - j,
        {
            if jobs[i].0 == jobs[j].0 {
                return Err(ConfigError::DuplicateNamespace { namespace: jobs[i].0.clone() });
            }
            j = j + 1;
        }
        i = i + 1;
    }

    let mut i: usize = 0;
    while i < n
        invariant
            n == jobs@.len(),
            i <= n,
            forall|x: int| 0 <= x < i ==> #[trigger] source_valid(jobs@[x].1.source),
        decreases n - i,
    {
        match &jobs[i].1.source {
            Source::Http { backend } => {
                match parse_locator(backend) {
                    Ok(_) => (),
                    Err(e) => {
                        proof {
                            assert(!source_valid(jobs@[i as int].1.source));
                        }
                        return Err(e);
                    },
                }
            },
            Source::Cron(expr) => {
                if !validate_cron(expr) {
                    proof {
                        assert(!source_valid(jobs@[i as int].1.source));
                    }
                    return Err(ConfigError::InvalidCron { schedule: expr.clone() });
                }
            },
        }
        i = i + 1;
    }

    let ghost all = jobs@;
    let mut rest = jobs;
    let mut plan: Vec<ResolvedJob> = Vec::new();
    while rest.len() > 0
        invariant
            plan@.len() + rest@.len() == all.len(),
            rest@ == all.subrange(plan@.len() as int, all.len() as int),
            forall|x: int| 0 <= x < all.len() ==> #[trigger] source_valid(all[x].1.source),
            forall|x: int| 0 <= x < plan@.len() ==> #[trigger] resolves(all[x], plan@[x]),
        decreases rest@.len(),
    {
        let ghost k = plan@.len() as int;
        let (name, launch) = rest.remove(0);
        let ghost job_k = all[k];
        proof {
            assert(all.subrange(k, all.len() as int)[0] == all[k]);
            assert(rest@ =~= all.subrange(k + 1, all.len() as int));
            assert(name == job_k.0 && launch == job_k.1);
            assert(source_valid(job_k.1.source));
        }
        let source = match launch.source {
            Source::Http { backend } => {
                let kind = match parse_locator(&backend) {
                    Ok(kind) => kind,
                    Err(e) => {
                        proof {
                            assert(job_k.1.source == (Source::Http { backend }));
                            assert(false);
                        }
                        return Err(e);
                    },
                };
                ResolvedSource::Store { kind, locator: backend }
            },
            Source::Cron(expr) => ResolvedSource::Tick { schedule: expr },
        };
        plan.push(ResolvedJob { namespace: name, source, task: launch.task });
    }
    Ok(plan)
}

} // verus!
