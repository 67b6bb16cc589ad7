//! What a whole run of the executor does, and the laws it obeys.
//!
//! A run is described by the replies the caller feeds in, in order. The
//! machine takes replies while each answers the step it asked for; the steps
//! it hands out are the run's trace.
use crate::command::OperationView;
use crate::executor::{
    awaits, next, start, AttrErrorView, ExecutorView, Phase, Reply, StepView,
};
use crate::names::namespaced_spec;
use vstd::prelude::*;

verus! {

/// Feeds `replies` to a machine in state `s`, stopping at the first reply
/// that does not answer the pending step; gives the final state and the
/// steps handed out.
pub open spec fn replay(s: ExecutorView, replies: Seq<Reply>) -> (ExecutorView, Seq<StepView>)
    decreases replies.len(),
{
    if replies.len() == 0 || !awaits(s, replies[0]) {
        (s, Seq::empty())
    } else {
        let (t, step) = next(s, replies[0]);
        let (u, rest) = replay(t, replies.drop_first());
        (u, seq![step] + rest)
    }
}

/// Every step handed out by a run of `op` fed with `replies`, the first one included.
pub open spec fn trace(op: OperationView, replies: Seq<Reply>) -> Seq<StepView> {
    seq![start(op).1] + replay(start(op).0, replies).1
}

/// The removal steps for the attributes at indices `from` up to `to`, in order.
pub open spec fn removals(attributes: Seq<Seq<u8>>, from: int, to: int) -> Seq<StepView> {
    Seq::new(
        (to - from) as nat,
        |i: int| StepView::Remove { name: namespaced_spec(attributes[from + i]) },
    )
}

/// `n` successful removals.
pub open spec fn successes(n: nat) -> Seq<Reply> {
    Seq::new(n, |i: int| Reply::Removed)
}

/// A machine that is over takes no further reply.
proof fn lemma_finished_takes_nothing(s: ExecutorView, replies: Seq<Reply>)
    requires
        s.phase == Phase::Finished,
    ensures
        replay(s, replies) == (s, Seq::<StepView>::empty()),
{
}

/// While removals succeed and attributes are left, each success asks for
/// the removal of the next attribute.
proof fn lemma_successes(s: ExecutorView, j: nat, tail: Seq<Reply>)
    requires
        s.phase == Phase::Removing,
        s.next + j < s.attributes.len(),
    ensures
        ({
            let s2 = ExecutorView { next: s.next + j, ..s };
            replay(s, successes(j) + tail) == (
                replay(s2, tail).0,
                removals(s.attributes, s.next + 1int, s.next + j + 1int) + replay(s2, tail).1,
            )
        }),
    decreases j,
{
    let s2 = ExecutorView { next: s.next + j, ..s };
    if j == 0 {
        assert(successes(0) + tail =~= tail);
        assert(s2 == s);
        assert(removals(s.attributes, s.next + 1int, s.next + 1int) =~= Seq::<StepView>::empty());
    } else {
        let replies = successes(j) + tail;
        assert(replies[0] == Reply::Removed);
        assert(replies.drop_first() =~= successes((j - 1) as nat) + tail);
        let s1 = ExecutorView { next: s.next + 1, ..s };
        assert(next(s, Reply::Removed).0 == s1);
        lemma_successes(s1, (j - 1) as nat, tail);
        assert(ExecutorView { next: s1.next + (j - 1) as nat, ..s1 } == s2);
        assert(removals(s.attributes, s.next + 1int, s.next + j + 1int) =~= seq![
            StepView::Remove { name: namespaced_spec(s.attributes[s.next + 1int]) },
        ] + removals(s.attributes, s.next + 2int, s.next + j + 1int));
    }
}

/// The removal of `attributes` from `path`, with the target opened as a
/// directory or not as `is_dir` says: the state once the first removal has
/// been asked for.
proof fn lemma_opened(attributes: Seq<Seq<u8>>, path: Seq<u8>, is_dir: bool, tail: Seq<Reply>)
    requires
        attributes.len() > 0,
    ensures
        ({
            let op = OperationView::Remove { attributes, path };
            let s1 = ExecutorView { attributes, path, phase: Phase::Removing, next: 0, is_dir };
            trace(op, seq![Reply::Opened { is_dir }] + tail) == seq![StepView::Open]
                + seq![StepView::Remove { name: namespaced_spec(attributes[0]) }] + replay(
                s1,
                tail,
            ).1
        }),
{
    let replies = seq![Reply::Opened { is_dir }] + tail;
    assert(replies[0] == Reply::Opened { is_dir });
    assert(replies.drop_first() =~= tail);
}

/// On a regular file whose removals all succeed, the run removes each name,
/// namespaced, once and in the order given, and then succeeds.
pub proof fn law_file_removals_in_order(attributes: Seq<Seq<u8>>, path: Seq<u8>)
    ensures
        trace(
            OperationView::Remove { attributes, path },
            seq![Reply::Opened { is_dir: false }] + successes(attributes.len()),
        ) == seq![StepView::Open] + removals(attributes, 0, attributes.len() as int) + seq![
            StepView::Finish { result: Ok(()) },
        ],
{
    let n = attributes.len();
    let replies = seq![Reply::Opened { is_dir: false }] + successes(n);
    if n == 0 {
        assert(replies[0] == Reply::Opened { is_dir: false });
        assert(replies.drop_first() =~= Seq::<Reply>::empty());
        assert(removals(attributes, 0, 0) =~= Seq::<StepView>::empty());
        let s0 = start(OperationView::Remove { attributes, path }).0;
        lemma_finished_takes_nothing(next(s0, replies[0]).0, replies.drop_first());
        assert(trace(OperationView::Remove { attributes, path }, replies) =~= seq![
            StepView::Open,
            StepView::Finish { result: Ok(()) },
        ]);
    } else {
        let tail = seq![Reply::Removed];
        assert(successes(n) =~= successes((n - 1) as nat) + tail);
        lemma_opened(attributes, path, false, successes(n));
        let s1 = ExecutorView { attributes, path, phase: Phase::Removing, next: 0, is_dir: false };
        lemma_successes(s1, (n - 1) as nat, tail);
        let s2 = ExecutorView { next: (n - 1) as nat, ..s1 };
        assert(tail[0] == Reply::Removed);
        assert(tail.drop_first() =~= Seq::<Reply>::empty());
        lemma_finished_takes_nothing(next(s2, Reply::Removed).0, tail.drop_first());
        assert(replay(s2, tail).1 =~= seq![StepView::Finish { result: Ok(()) }]);
        assert(removals(attributes, 0, n as int) =~= seq![
            StepView::Remove { name: namespaced_spec(attributes[0]) },
        ] + removals(attributes, 1, n as int));
        assert(trace(OperationView::Remove { attributes, path }, replies) =~= seq![StepView::Open]
            + removals(attributes, 0, n as int) + seq![StepView::Finish { result: Ok(()) }]);
    }
}

/// On a directory whose removals all succeed, the run removes each name in
/// order, then asks for exactly one recursive propagation, then succeeds.
pub proof fn law_directory_propagates_once(attributes: Seq<Seq<u8>>, path: Seq<u8>)
    ensures
        trace(
            OperationView::Remove { attributes, path },
            seq![Reply::Opened { is_dir: true }] + successes(attributes.len()) + seq![
                Reply::Propagated,
            ],
        ) == seq![StepView::Open] + removals(attributes, 0, attributes.len() as int) + seq![
            StepView::Propagate,
            StepView::Finish { result: Ok(()) },
        ],
{
    let n = attributes.len();
    let op = OperationView::Remove { attributes, path };
    let replies = seq![Reply::Opened { is_dir: true }] + successes(n) + seq![Reply::Propagated];
    let last = seq![Reply::Propagated];
    assert(last[0] == Reply::Propagated);
    assert(last.drop_first() =~= Seq::<Reply>::empty());
    if n == 0 {
        assert(replies[0] == Reply::Opened { is_dir: true });
        assert(replies.drop_first() =~= last);
        let s0 = start(op).0;
        let s1 = next(s0, replies[0]).0;
        lemma_finished_takes_nothing(next(s1, Reply::Propagated).0, last.drop_first());
        assert(replay(s1, last).1 =~= seq![StepView::Finish { result: Ok(()) }]);
        assert(removals(attributes, 0, 0) =~= Seq::<StepView>::empty());
        assert(trace(op, replies) =~= seq![
            StepView::Open,
            StepView::Propagate,
            StepView::Finish { result: Ok(()) },
        ]);
    } else {
        let tail = seq![Reply::Removed, Reply::Propagated];
        assert(successes(n) + last =~= successes((n - 1) as nat) + tail);
        assert(replies =~= seq![Reply::Opened { is_dir: true }] + (successes(n) + last));
        lemma_opened(attributes, path, true, successes(n) + last);
        let s1 = ExecutorView { attributes, path, phase: Phase::Removing, next: 0, is_dir: true };
        lemma_successes(s1, (n - 1) as nat, tail);
        let s2 = ExecutorView { next: (n - 1) as nat, ..s1 };
        assert(tail[0] == Reply::Removed);
        assert(tail.drop_first() =~= last);
        let s3 = next(s2, Reply::Removed).0;
        assert(s3.phase == Phase::Propagating);
        lemma_finished_takes_nothing(next(s3, Reply::Propagated).0, last.drop_first());
        assert(replay(s3, last).1 =~= seq![StepView::Finish { result: Ok(()) }]);
        assert(replay(s2, tail).1 =~= seq![
            StepView::Propagate,
            StepView::Finish { result: Ok(()) },
        ]);
        assert(removals(attributes, 0, n as int) =~= seq![
            StepView::Remove { name: namespaced_spec(attributes[0]) },
        ] + removals(attributes, 1, n as int));
        assert(trace(op, replies) =~= seq![StepView::Open] + removals(attributes, 0, n as int)
            + seq![StepView::Propagate, StepView::Finish { result: Ok(()) }]);
    }
}

/// A machine past opening on something that is not a directory never asks
/// for propagation, whatever the replies.
proof fn lemma_no_propagation(s: ExecutorView, replies: Seq<Reply>)
    requires
        !s.is_dir,
        s.phase == Phase::Removing || s.phase == Phase::Finished,
    ensures
        forall|i: int|
            0 <= i < replay(s, replies).1.len() ==> !(#[trigger] replay(s, replies).1[i] is Propagate),
    decreases replies.len(),
{
    if replies.len() > 0 && awaits(s, replies[0]) {
        let (t, step) = next(s, replies[0]);
        lemma_no_propagation(t, replies.drop_first());
        let rest = replay(t, replies.drop_first()).1;
        assert forall|i: int| 0 <= i < replay(s, replies).1.len() implies !(#[trigger] replay(
            s,
            replies,
        ).1[i] is Propagate) by {
            if i > 0 {
                assert(replay(s, replies).1[i] == rest[i - 1]);
            }
        }
    }
}

/// On a regular file the run never asks for recursive propagation,
/// whatever happens to the removals.
pub proof fn law_file_never_propagates(
    attributes: Seq<Seq<u8>>,
    path: Seq<u8>,
    replies: Seq<Reply>,
)
    ensures
        forall|i: int|
            0 <= i < trace(
                OperationView::Remove { attributes, path },
                seq![Reply::Opened { is_dir: false }] + replies,
            ).len() ==> !(#[trigger] trace(
                OperationView::Remove { attributes, path },
                seq![Reply::Opened { is_dir: false }] + replies,
            )[i] is Propagate),
{
    let op = OperationView::Remove { attributes, path };
    let all = seq![Reply::Opened { is_dir: false }] + replies;
    assert(all[0] == Reply::Opened { is_dir: false });
    assert(all.drop_first() =~= replies);
    let s0 = start(op).0;
    let (s1, first) = next(s0, all[0]);
    lemma_no_propagation(s1, replies);
    let rest = replay(s1, replies).1;
    assert(trace(op, all) =~= seq![StepView::Open] + (seq![first] + rest));
    assert forall|i: int| 0 <= i < trace(op, all).len() implies !(#[trigger] trace(op, all)[i] is Propagate) by {
        if i > 1 {
            assert(trace(op, all)[i] == rest[i - 2]);
        }
    }
}

/// When the `k`-th removal fails (counting from one), the run stops there:
/// the first `k` names were asked for, no later one ever is, no propagation
/// happens, and the error names the `k`-th namespaced attribute and carries
/// the operating system's code, whatever replies come after.
pub proof fn law_first_failure_stops(
    attributes: Seq<Seq<u8>>,
    path: Seq<u8>,
    is_dir: bool,
    k: nat,
    code: i32,
    later: Seq<Reply>,
)
    requires
        1 <= k <= attributes.len(),
    ensures
        trace(
            OperationView::Remove { attributes, path },
            seq![Reply::Opened { is_dir }] + successes((k - 1) as nat) + seq![
                Reply::RemoveFailed { code },
            ] + later,
        ) == seq![StepView::Open] + removals(attributes, 0, k as int) + seq![
            StepView::Finish {
                result: Err(
                    AttrErrorView::Removal { name: namespaced_spec(attributes[k - 1]), code },
                ),
            },
        ],
{
    let op = OperationView::Remove { attributes, path };
    let failed = seq![Reply::RemoveFailed { code }] + later;
    let replies = seq![Reply::Opened { is_dir }] + successes((k - 1) as nat) + seq![
        Reply::RemoveFailed { code },
    ] + later;
    assert(replies =~= seq![Reply::Opened { is_dir }] + (successes((k - 1) as nat) + failed));
    lemma_opened(attributes, path, is_dir, successes((k - 1) as nat) + failed);
    let s1 = ExecutorView { attributes, path, phase: Phase::Removing, next: 0, is_dir };
    lemma_successes(s1, (k - 1) as nat, failed);
    let s2 = ExecutorView { next: (k - 1) as nat, ..s1 };
    assert(failed[0] == Reply::RemoveFailed { code });
    assert(failed.drop_first() =~= later);
    lemma_finished_takes_nothing(next(s2, failed[0]).0, later);
    let last = StepView::Finish {
        result: Err(AttrErrorView::Removal { name: namespaced_spec(attributes[k - 1]), code }),
    };
    assert(replay(s2, failed).1 =~= seq![last]);
    assert(removals(attributes, 0, k as int) =~= seq![
        StepView::Remove { name: namespaced_spec(attributes[0]) },
    ] + removals(attributes, 1, k as int));
    assert(trace(op, replies) =~= seq![StepView::Open] + removals(attributes, 0, k as int)
        + seq![last]);
}

/// When the target cannot be opened, the run asks for no removal and fails
/// with the opening error, whatever replies come after.
pub proof fn law_open_failure_removes_nothing(
    attributes: Seq<Seq<u8>>,
    path: Seq<u8>,
    os_code: Option<i32>,
    later: Seq<Reply>,
)
    ensures
        trace(
            OperationView::Remove { attributes, path },
            seq![Reply::OpenFailed { os_code }] + later,
        ) == seq![
            StepView::Open,
            StepView::Finish { result: Err(AttrErrorView::Io { os_code }) },
        ],
{
    let op = OperationView::Remove { attributes, path };
    let replies = seq![Reply::OpenFailed { os_code }] + later;
    assert(replies[0] == Reply::OpenFailed { os_code });
    assert(replies.drop_first() =~= later);
    lemma_finished_takes_nothing(next(start(op).0, replies[0]).0, later);
    assert(trace(op, replies) =~= seq![
        StepView::Open,
        StepView::Finish { result: Err(AttrErrorView::Io { os_code }) },
    ]);
}

/// `add` succeeds at once and asks for nothing, whatever replies come.
pub proof fn law_add_does_nothing(replies: Seq<Reply>)
    ensures
        trace(OperationView::Add, replies) == seq![StepView::Finish { result: Ok(()) }],
{
    lemma_finished_takes_nothing(start(OperationView::Add).0, replies);
    assert(trace(OperationView::Add, replies) =~= seq![StepView::Finish { result: Ok(()) }]);
}

} // verus!
