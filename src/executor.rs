//! The removal of attributes as a state machine.
//!
//! The machine never touches the filesystem. Each call hands back the next
//! [`Step`] for the caller to perform, and the caller reports how it went with
//! a [`Reply`]. A removal opens the target, removes the namespaced attributes
//! one by one in the order given, stops at the first failure without undoing
//! earlier removals, and, when every removal succeeded on a directory, asks
//! for one recursive propagation over the directory's open handle.
use crate::command::{Operation, OperationView};
use crate::names::{namespaced, namespaced_spec};
use vstd::prelude::*;

verus! {

/// Where a run of the machine stands.
#[derive(Debug, Clone, Copy, PartialEq, Eq, Structural)]
pub enum Phase {
    /// The target is being opened and its kind looked up.
    Opening,
    /// An attribute removal is in progress.
    Removing,
    /// The recursive propagation over the directory is in progress.
    Propagating,
    /// The run is over; no further reply is expected.
    Finished,
}

/// How the step that the machine asked for went.
#[derive(Debug, Clone, Copy, PartialEq, Eq)]
pub enum Reply {
    /// The target was opened; `is_dir` tells whether it is a directory.
    Opened { is_dir: bool },
    /// Opening the target or reading its metadata failed, with the
    /// operating system's error code where there is one.
    OpenFailed { os_code: Option<i32> },
    /// The attribute was removed.
    Removed,
    /// Removing the attribute failed with this operating-system error code.
    RemoveFailed { code: i32 },
    /// The recursive propagation was started. Its outcome is not observed:
    /// the filesystem reports its own failures there.
    Propagated,
}

/// Why a run failed.
#[derive(Debug, PartialEq, Eq)]
pub enum AttrError {
    /// Opening the target or reading its metadata failed.
    Io { os_code: Option<i32> },
    /// Removing the attribute `name` (namespaced) failed with `code`.
    Removal { name: Vec<u8>, code: i32 },
}

/// The mathematical model of an [`AttrError`].
pub ghost enum AttrErrorView {
    Io { os_code: Option<i32> },
    Removal { name: Seq<u8>, code: i32 },
}

impl View for AttrError {
    type V = AttrErrorView;

    open spec fn view(&self) -> AttrErrorView {
        match self {
            AttrError::Io { os_code } => AttrErrorView::Io { os_code: *os_code },
            AttrError::Removal { name, code } => AttrErrorView::Removal { name: name@, code: *code },
        }
    }
}

/// What the caller is to do next.
#[derive(Debug, PartialEq, Eq)]
pub enum Step {
    /// Open the target path and find out whether it is a directory.
    Open,
    /// Print a progress line naming `name` and the target path, then remove
    /// the extended attribute `name` from the target path.
    Remove { name: Vec<u8> },
    /// Start the filesystem's recursive propagation on the open directory.
    Propagate,
    /// The run is over, with this result.
    Finish { result: Result<(), AttrError> },
}

/// The mathematical model of a [`Step`].
pub ghost enum StepView {
    Open,
    Remove { name: Seq<u8> },
    Propagate,
    Finish { result: Result<(), AttrErrorView> },
}

/// The model of a finishing result.
pub open spec fn result_view(r: Result<(), AttrError>) -> Result<(), AttrErrorView> {
    match r {
        Ok(()) => Ok(()),
        Err(e) => Err(e@),
    }
}

impl View for Step {
    type V = StepView;

    open spec fn view(&self) -> StepView {
        match self {
            Step::Open => StepView::Open,
            Step::Remove { name } => StepView::Remove { name: name@ },
            Step::Propagate => StepView::Propagate,
            Step::Finish { result } => StepView::Finish { result: result_view(*result) },
        }
    }
}

/// One run of an operation.
pub struct Executor {
    attributes: Vec<Vec<u8>>,
    path: Vec<u8>,
    phase: Phase,
    next: usize,
    is_dir: bool,
}

/// The mathematical model of an [`Executor`]: the bare attribute names, the
/// target path, the phase, the index of the attribute being removed, and
/// whether the target is a directory.
pub ghost struct ExecutorView {
    pub attributes: Seq<Seq<u8>>,
    pub path: Seq<u8>,
    pub phase: Phase,
    pub next: nat,
    pub is_dir: bool,
}

impl View for Executor {
    type V = ExecutorView;

    closed spec fn view(&self) -> ExecutorView {
        ExecutorView {
            attributes: crate::command::names_view(self.attributes@),
            path: self.path@,
            phase: self.phase,
            next: self.next as nat,
            is_dir: self.is_dir,
        }
    }
}

/// The state and first step of a run of `op`. `add` finishes at once with
/// success and asks for nothing; `remove` first asks to open its target.
pub open spec fn start(op: OperationView) -> (ExecutorView, StepView) {
    match op {
        OperationView::Add => (
            ExecutorView {
                attributes: Seq::empty(),
                path: Seq::empty(),
                phase: Phase::Finished,
                next: 0,
                is_dir: false,
            },
            StepView::Finish { result: Ok(()) },
        ),
        OperationView::Remove { attributes, path } => (
            ExecutorView { attributes, path, phase: Phase::Opening, next: 0, is_dir: false },
            StepView::Open,
        ),
    }
}

/// Whether `reply` answers the step that a machine in state `s` asked for.
pub open spec fn awaits(s: ExecutorView, reply: Reply) -> bool {
    match s.phase {
        Phase::Opening => reply is Opened || reply is OpenFailed,
        Phase::Removing => reply is Removed || reply is RemoveFailed,
        Phase::Propagating => reply is Propagated,
        Phase::Finished => false,
    }
}

/// The state once `s` is over.
pub open spec fn finished(s: ExecutorView) -> ExecutorView {
    ExecutorView { phase: Phase::Finished, ..s }
}

/// The state and step once the first `k` removals have succeeded: the next
/// removal if one is left, else the propagation for a directory, else success.
pub open spec fn proceed(s: ExecutorView, k: nat) -> (ExecutorView, StepView) {
    if k < s.attributes.len() {
        (
            ExecutorView { phase: Phase::Removing, next: k, ..s },
            StepView::Remove { name: namespaced_spec(s.attributes[k as int]) },
        )
    } else if s.is_dir {
        (ExecutorView { phase: Phase::Propagating, next: k, ..s }, StepView::Propagate)
    } else {
        (ExecutorView { phase: Phase::Finished, next: k, ..s }, StepView::Finish { result: Ok(()) })
    }
}

/// The state and step that follow `reply` in state `s`.
pub open spec fn next(s: ExecutorView, reply: Reply) -> (ExecutorView, StepView) {
    match reply {
        Reply::Opened { is_dir } => proceed(ExecutorView { is_dir, ..s }, 0),
        Reply::OpenFailed { os_code } => (
            finished(s),
            StepView::Finish { result: Err(AttrErrorView::Io { os_code }) },
        ),
        Reply::Removed => proceed(s, s.next + 1),
        Reply::RemoveFailed { code } => (
            finished(s),
            StepView::Finish {
                result: Err(
                    AttrErrorView::Removal {
                        name: namespaced_spec(s.attributes[s.next as int]),
                        code,
                    },
                ),
            },
        ),
        Reply::Propagated => (finished(s), StepView::Finish { result: Ok(()) }),
    }
}

impl Executor {
    #[verifier::type_invariant]
    spec fn removing_in_range(self) -> bool {
        self.phase == Phase::Removing ==> self.next < self.attributes@.len()
    }

    /// Begins a run of `op`, returning the machine and its first step.
    pub fn new(op: Operation) -> (r: (Executor, Step))
        ensures
            (r.0@, r.1@) == start(op@),
    {
        match op {
            Operation::Add => {
                let e = Executor {
                    attributes: Vec::new(),
                    path: Vec::new(),
                    phase: Phase::Finished,
                    next: 0,
                    is_dir: false,
                };
                assert(e@.attributes =~= Seq::empty());
                assert(e@.path =~= Seq::empty());
                (e, Step::Finish { result: Ok(()) })
            },
            Operation::Remove { attributes, path } => {
                let e = Executor { attributes, path, phase: Phase::Opening, next: 0, is_dir: false };
                (e, Step::Open)
            },
        }
    }

    /// The target path.
    pub fn path(&self) -> (r: &Vec<u8>)
        ensures
            r@ == self@.path,
    {
        &self.path
    }

    /// Whether the run is over.
    pub fn is_finished(&self) -> (r: bool)
        ensures
            r == (self@.phase == Phase::Finished),
    {
        self.phase == Phase::Finished
    }

    /// Whether `reply` answers the step this machine asked for last.
    pub fn accepts(&self, reply: &Reply) -> (r: bool)
        ensures
            r == awaits(self@, *reply),
    {
        match self.phase {
            Phase::Opening => match reply {
                Reply::Opened { .. } | Reply::OpenFailed { .. } => true,
                _ => false,
            },
            Phase::Removing => match reply {
                Reply::Removed | Reply::RemoveFailed { .. } => true,
                _ => false,
            },
            Phase::Propagating => match reply {
                Reply::Propagated => true,
                _ => false,
            },
            Phase::Finished => false,
        }
    }

    fn proceed_to(&mut self, k: usize) -> (r: Step)
        requires
            k <= old(self)@.attributes.len(),
        ensures
            (final(self)@, r@) == proceed(old(self)@, k as nat),
    {
        if k < self.attributes.len() {
            let name = namespaced(self.attributes[k].as_slice());
            self.next = k;
            self.phase = Phase::Removing;
            Step::Remove { name }
        } else if self.is_dir {
            self.phase = Phase::Propagating;
            self.next = k;
            Step::Propagate
        } else {
            self.phase = Phase::Finished;
            self.next = k;
            Step::Finish { result: Ok(()) }
        }
    }

    /// Takes the caller's report on the last step and returns the next step.
    pub fn advance(&mut self, reply: Reply) -> (r: Step)
        requires
            awaits(old(self)@, reply),
        ensures
            (final(self)@, r@) == next(old(self)@, reply),
    {
        proof {
            use_type_invariant(&*self);
        }
        match reply {
            Reply::Opened { is_dir } => {
                self.is_dir = is_dir;
                self.proceed_to(0)
            },
            Reply::OpenFailed { os_code } => {
                self.phase = Phase::Finished;
                Step::Finish { result: Err(AttrError::Io { os_code }) }
            },
            Reply::Removed => {
                let n = self.attributes.len();
                assert(self.next < n);
                let k = self.next + 1;
                self.proceed_to(k)
            },
            Reply::RemoveFailed { code } => {
                let name = namespaced(self.attributes[self.next].as_slice());
                self.phase = Phase::Finished;
                Step::Finish { result: Err(AttrError::Removal { name, code }) }
            },
            Reply::Propagated => {
                self.phase = Phase::Finished;
                Step::Finish { result: Ok(()) }
            },
        }
    }
}

} // verus!
