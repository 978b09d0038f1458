use vstd::prelude::*;
use crate::strutil::push_decimal;
use crate::strutil::spec_udec;
use crate::strutil::str_eq;
use crate::strutil::u16_to_string;

verus! {

/// The lifecycle of the supervised worker.
#[derive(Clone, Copy, PartialEq, Eq, Structural, Debug)]
pub enum WorkerState {
    Idle,
    Spawning,
    Running,
    Failed,
    Terminated,
}

/// Everything fixed before the spawn attempt and immutable afterwards: the
/// ordered executable candidates, the entry artifact, the working directory,
/// the chosen backend port, and the import root appended to the worker's
/// search path.
pub struct SpawnSpec {
    pub candidates: Vec<String>,
    pub entry: String,
    pub workdir: String,
    pub port: u16,
    pub import_root: String,
}

/// The ordered executable candidates: an override, when present, stands
/// first and is attempted before any bundled candidate — whether or not the
/// override path exists; the bundled candidates keep their order.
pub fn candidate_order(override_exe: Option<String>, bundled: &Vec<String>) -> (r: Vec<String>)
    ensures
        r@ == match override_exe {
            Some(o) => seq![o] + bundled@,
            None => bundled@,
        },
{
    let ghost head: Seq<String> = match override_exe {
        Some(ref o) => seq![*o],
        None => Seq::empty(),
    };
    let mut r: Vec<String> = Vec::new();
    match override_exe {
        Some(o) => {
            r.push(o);
        },
        None => {},
    }
    proof {
        assert(r@ =~= head);
    }
    let mut i: usize = 0;
    while i < bundled.len()
        invariant
            i <= bundled@.len(),
            r@ == head + bundled@.take(i as int),
        decreases bundled@.len() - i,
    {
        r.push(bundled[i].clone());
        proof {
            assert((head + bundled@.take(i as int)).push(bundled@[i as int]) =~= head
                + bundled@.take(i + 1));
        }
        i += 1;
    }
    proof {
        assert(bundled@.take(bundled@.len() as int) =~= bundled@);
        if override_exe is None {
            assert(head + bundled@ =~= bundled@);
        }
    }
    r
}

/// Builds the immutable spawn specification: the executable-override
/// environment value, when set, becomes the first candidate ahead of the
/// resolved bundled runtime; the remaining fields are taken as resolved.
pub fn build_spawn_spec(
    override_exe: Option<String>,
    runtime: String,
    entry: String,
    workdir: String,
    port: u16,
    import_root: String,
) -> (s: SpawnSpec)
    ensures
        s.candidates@ == match override_exe {
            Some(o) => seq![o, runtime],
            None => seq![runtime],
        },
        s.entry == entry,
        s.workdir == workdir,
        s.port == port,
        s.import_root == import_root,
{
    let ghost orig_runtime = runtime;
    let mut candidates: Vec<String> = Vec::new();
    match override_exe {
        Some(o) => {
            let ghost orig_o = o;
            candidates.push(o);
            candidates.push(runtime);
            proof {
                assert(candidates@ =~= seq![orig_o, orig_runtime]);
            }
        },
        None => {
            candidates.push(runtime);
            proof {
                assert(candidates@ =~= seq![orig_runtime]);
            }
        },
    }
    SpawnSpec { candidates, entry, workdir, port, import_root }
}

/// The worker's argument list: `<entry-artifact> --port <port>`.
pub fn worker_args(entry: &str, port: u16) -> (r: Vec<String>)
    ensures
        r@.len() == 3,
        r@[0]@ == entry@,
        r@[1]@ == "--port"@,
        r@[2]@ == spec_udec(port as nat),
{
    let mut r: Vec<String> = Vec::new();
    r.push(String::from_str(entry));
    r.push(String::from_str("--port"));
    r.push(u16_to_string(port));
    r
}

/// The worker's import search path: an existing value is preserved and
/// extended with the import root after the host's path-list separator,
/// never replaced; with none set, the root stands alone.
pub fn augment_search_path(existing: Option<&str>, sep: &str, root: &str) -> (r: String)
    ensures
        r@ == match existing {
            Some(e) => e@ + sep@ + root@,
            None => root@,
        },
{
    match existing {
        Some(e) => {
            let mut s = String::from_str(e);
            s.append(sep);
            s.append(root);
            s
        },
        None => String::from_str(root),
    }
}

/// Whether the worker's console is visible: the dedicated startup flag
/// forces it on any platform; otherwise a Windows release build suppresses
/// it unless the console-visibility toggle reads exactly "1", and every
/// other build always shows it.
pub fn console_visible(force_flag: bool, toggle: Option<&str>, windows_release: bool) -> (r: bool)
    ensures
        r == (force_flag || if windows_release {
            toggle matches Some(t) && t@ == "1"@
        } else {
            true
        }),
{
    if force_flag {
        true
    } else if windows_release {
        match toggle {
            Some(t) => str_eq(t, "1"),
            None => false,
        }
    } else {
        true
    }
}

/// The API base URL injected once into the supervised UI surface at setup
/// time, derived from the chosen backend port.
pub fn api_base_url(port: u16) -> (r: String)
    ensures
        r@ == "http://127.0.0.1:"@ + spec_udec(port as nat),
{
    let mut s = String::from_str("http://127.0.0.1:");
    push_decimal(&mut s, port as u128);
    s
}

/// One failed spawn attempt: the candidate tried and the operating system's
/// reason.
pub struct SpawnAttempt {
    pub candidate: String,
    pub error: String,
}

/// How one attempt reads inside the aggregate report.
pub open spec fn spec_attempt_line(a: SpawnAttempt) -> Seq<char> {
    seq!['['] + a.candidate@ + seq![']', ' '] + a.error@ + seq![';', ' ']
}

/// The aggregate report over every attempt, in attempt order.
pub open spec fn spec_spawn_report(attempts: Seq<SpawnAttempt>) -> Seq<char>
    decreases attempts.len(),
{
    if attempts.len() == 0 {
        Seq::empty()
    } else {
        spec_spawn_report(attempts.drop_last()) + spec_attempt_line(attempts.last())
    }
}

/// Aggregates every candidate's failure into the one fatal report that is
/// logged before startup aborts: each candidate with its own reason.
pub fn aggregate_spawn_errors(attempts: &Vec<SpawnAttempt>) -> (r: String)
    ensures
        r@ == spec_spawn_report(attempts@),
{
    let mut s = String::new();
    let mut i: usize = 0;
    while i < attempts.len()
        invariant
            i <= attempts@.len(),
            s@ == spec_spawn_report(attempts@.take(i as int)),
        decreases attempts@.len() - i,
    {
        s.append("[");
        s.append(attempts[i].candidate.as_str());
        s.append("] ");
        s.append(attempts[i].error.as_str());
        s.append("; ");
        proof {
            reveal_strlit("[");
            reveal_strlit("] ");
            reveal_strlit("; ");
            assert("["@ =~= seq!['[']);
            assert("] "@ =~= seq![']', ' ']);
            assert("; "@ =~= seq![';', ' ']);
            assert(attempts@.take(i + 1).drop_last() =~= attempts@.take(i as int));
            assert(attempts@.take(i + 1).last() == attempts@[i as int]);
            assert(s@ =~= spec_spawn_report(attempts@.take(i + 1)));
        }
        i += 1;
    }
    proof {
        assert(attempts@.take(attempts@.len() as int) =~= attempts@);
    }
    s
}

/// The supervisor's view of its single worker: the lifecycle state, whether
/// the mutex-guarded handle slot is occupied, and whether the orphan guard
/// holds the worker.
pub struct Supervisor {
    pub state: WorkerState,
    pub has_handle: bool,
    pub guard_attached: bool,
}

/// The state after a termination request: a running worker becomes
/// Terminated and the handle slot is taken and cleared; in every other state
/// nothing changes. The guard association is untouched.
pub open spec fn spec_terminated(s: Supervisor) -> Supervisor {
    if s.state is Running {
        Supervisor { state: WorkerState::Terminated, has_handle: false, guard_attached: s.guard_attached }
    } else {
        s
    }
}

/// A termination request issues a kill exactly when the handle slot still
/// holds the worker.
pub open spec fn spec_kill_issued(s: Supervisor) -> bool {
    s.has_handle
}

impl Supervisor {
    /// The handle slot is occupied exactly while the worker runs.
    pub open spec fn wf(self) -> bool {
        self.has_handle <==> self.state is Running
    }

    /// A fresh supervisor: no spawn attempted, no handle, no guard.
    pub fn new() -> (s: Supervisor)
        ensures
            s.state is Idle,
            !s.has_handle,
            !s.guard_attached,
            s.wf(),
    {
        Supervisor { state: WorkerState::Idle, has_handle: false, guard_attached: false }
    }

    /// Startup enters the spawn attempt; this happens once, from Idle.
    pub fn begin_spawn(&mut self)
        requires
            old(self).wf(),
            old(self).state is Idle,
        ensures
            final(self).state is Spawning,
            !final(self).has_handle,
            final(self).guard_attached == old(self).guard_attached,
            final(self).wf(),
    {
        self.state = WorkerState::Spawning;
    }

    /// Some candidate's process creation succeeded: the worker runs and the
    /// handle slot is written — the one write it ever receives.
    pub fn mark_running(&mut self)
        requires
            old(self).wf(),
            old(self).state is Spawning,
        ensures
            final(self).state is Running,
            final(self).has_handle,
            final(self).guard_attached == old(self).guard_attached,
            final(self).wf(),
    {
        self.state = WorkerState::Running;
        self.has_handle = true;
    }

    /// Every candidate failed: the fatal state; startup must abort after
    /// logging the aggregate report.
    pub fn mark_failed(&mut self)
        requires
            old(self).wf(),
            old(self).state is Spawning,
        ensures
            final(self).state is Failed,
            !final(self).has_handle,
            final(self).guard_attached == old(self).guard_attached,
            final(self).wf(),
    {
        self.state = WorkerState::Failed;
    }

    /// The orphan guard took the worker. Guard failures are non-fatal and
    /// simply never reach this call: the worker then runs unprotected.
    pub fn attach_guard(&mut self)
        requires
            old(self).wf(),
            old(self).state is Running,
        ensures
            *final(self) == (Supervisor {
                guard_attached: true,
                state: old(self).state,
                has_handle: old(self).has_handle,
            }),
            final(self).wf(),
    {
        self.guard_attached = true;
    }

    /// Unconditional, idempotent termination: the first request on a running
    /// worker takes the handle and reports `true` (issue kill, then wait);
    /// any further request finds nothing to do, changes nothing and reports
    /// `false`. The guard stays attached: it outlives the worker and is
    /// released only at supervisor teardown.
    pub fn request_termination(&mut self) -> (do_kill: bool)
        requires
            old(self).wf(),
        ensures
            *final(self) == spec_terminated(*old(self)),
            do_kill == spec_kill_issued(*old(self)),
            final(self).guard_attached == old(self).guard_attached,
            final(self).wf(),
    {
        match self.state {
            WorkerState::Running => {
                let k = self.has_handle;
                self.state = WorkerState::Terminated;
                self.has_handle = false;
                k
            },
            _ => false,
        }
    }

    /// Teardown of the supervisor itself, at application exit: the guard
    /// handle is released here and nowhere else. Closing it is what makes
    /// the operating system kill any process still assigned to it — even
    /// when no in-process cleanup ever ran.
    pub fn teardown(&mut self)
        ensures
            !final(self).guard_attached,
            final(self).state == old(self).state,
            final(self).has_handle == old(self).has_handle,
    {
        self.guard_attached = false;
    }
}

/// Termination terminates at most once: a second request after any first
/// one is a no-op that issues no kill, and a running worker's first request
/// issues exactly the one kill.
pub proof fn lemma_termination_idempotent(s: Supervisor)
    requires
        s.wf(),
    ensures
        spec_terminated(spec_terminated(s)) == spec_terminated(s),
        !spec_kill_issued(spec_terminated(s)),
        s.state is Running ==> spec_kill_issued(s),
{
}

} // verus!
