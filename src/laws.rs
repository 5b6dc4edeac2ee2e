use vstd::prelude::*;
use crate::entry::{Entry, Kind, empty_first, empty_dirs, non_empty_dirs, lemma_partition, lemma_no_empty_dirs};
use crate::walker::{ActionView, EventView, FlattenError, FrameView, WalkerView};

verus! {

/// A dry run asks for no operation that changes the filesystem, and every
/// event keeps it a dry run.
pub proof fn lemma_dry_run_never_mutates(w: WalkerView, e: EventView)
    requires
        w.wf(),
        w.dry_run,
    ensures
        !w.action().mutates(),
        w.after(e) matches Ok(w2) ==> w2.dry_run,
{
}

/// Whatever order the filesystem lists a directory in, its children are
/// handled with every empty directory before any other entry, and no entry
/// is lost or added.
pub proof fn lemma_empty_directories_first(w: WalkerView, es: Seq<Entry>)
    requires
        w.wf(),
        w.action() is List,
    ensures
        w.after(EventView::Listed(es)) is Ok,
        w.after(EventView::Listed(es))->Ok_0.top().children == empty_first(es),
        w.after(EventView::Listed(es))->Ok_0.top().next == 0,
        empty_first(es).to_multiset() == es.to_multiset(),
        forall|i: int, j: int| 0 <= i < j < es.len() && (#[trigger] empty_first(es)[j]).kind == Kind::EmptyDir
            ==> (#[trigger] empty_first(es)[i]).kind == Kind::EmptyDir,
{
    lemma_partition(es);
    vstd::seq_lib::lemma_multiset_commutative(empty_dirs(es), non_empty_dirs(es));
    vstd::seq_lib::to_multiset_len(empty_dirs(es));
    vstd::seq_lib::to_multiset_len(non_empty_dirs(es));
    vstd::seq_lib::to_multiset_len(es);
    let a = empty_dirs(es);
    let b = non_empty_dirs(es);
    assert forall|i: int, j: int| 0 <= i < j < es.len() && (#[trigger] empty_first(es)[j]).kind == Kind::EmptyDir
        implies (#[trigger] empty_first(es)[i]).kind == Kind::EmptyDir by {
        if j >= a.len() {
            assert(empty_first(es)[j] == b[j - a.len()]);
        }
        assert(empty_first(es)[i] == a[i]);
    }
}

/// A directory listed with no children is removed next (outside a dry run),
/// and once removed it is no longer among the directories being drained.
/// Its removal failing is fatal.
pub proof fn lemma_empty_directory_removed(w: WalkerView, es: Seq<Entry>)
    requires
        w.wf(),
        !w.dry_run,
        w.action() is List,
        es.len() == 0,
    ensures
        w.after(EventView::Listed(es)) is Ok,
        ({
            let w2 = w.after(EventView::Listed(es))->Ok_0;
            &&& w2.action() == (ActionView::RemoveEmpty { path: w.action()->List_path })
            &&& w2.after(EventView::Outcome(true)) is Ok
            &&& w2.after(EventView::Outcome(true))->Ok_0.frames.len() == w.frames.len()
            &&& w2.after(EventView::Outcome(false)) == Err::<WalkerView, FlattenError>(FlattenError::RemovalFailure)
        }),
{
    assert(empty_first(es) =~= es);
}

/// A drained directory that cannot be removed (a file left behind by a name
/// collision, say) does not stop the run: the run goes on with its parent.
pub proof fn lemma_drained_removal_failure_not_fatal(w: WalkerView)
    requires
        w.wf(),
        w.action() is RemoveDrained,
    ensures
        w.after(EventView::Outcome(false)) == Ok::<WalkerView, FlattenError>(w.popped()),
        w.popped().wf(),
        w.popped().frames.len() > 0,
{
}

/// A file is moved exactly one level up: from the directory being drained
/// into the directory that holds it, under its own name. Files directly in
/// the root are left where they are.
pub proof fn lemma_files_move_one_level_up(w: WalkerView)
    requires
        w.wf(),
        w.started,
        !w.dry_run,
        w.frames.len() > 0,
        !w.top().removing,
        w.top().next < w.top().children.len(),
        w.top().children[w.top().next].kind == Kind::File,
    ensures
        ({
            let n = w.frames.len();
            let c = w.top().children[w.top().next];
            &&& n > 1 ==> w.action() == (ActionView::Move { from: c.path@, to_dir: w.frames[n - 2].path, name: c.name@ })
                && w.top().path == w.frames[n - 2].children[w.frames[n - 2].next - 1].path@
            &&& n == 1 ==> w.action() == (ActionView::Keep { path: c.path@ })
            &&& w.after(EventView::Outcome(true)) == Ok::<WalkerView, FlattenError>(w.advanced())
        }),
{
    let n = w.frames.len();
    if n > 1 {
        assert(0 < n - 1 < n);
        assert(w.frames[(n - 1) - 1] == w.frames[n - 2]);
    }
}

/// The state reached from `w` when the next `k` operations all succeed.
pub open spec fn after_successes(w: WalkerView, k: nat) -> WalkerView
    decreases k,
{
    if k == 0 {
        w
    } else {
        let p = after_successes(w, (k - 1) as nat);
        match p.after(EventView::Outcome(true)) {
            Ok(x) => x,
            Err(_) => p,
        }
    }
}

proof fn lemma_flat_root_steps(w1: WalkerView, root: Seq<char>, es: Seq<Entry>, k: nat)
    requires
        k <= es.len(),
        w1 == (WalkerView { started: true, frames: seq![FrameView { path: root, children: es, next: 0, removing: false }], ..w1 }),
        forall|i: int| 0 <= i < es.len() ==> (#[trigger] es[i]).kind == Kind::File,
    ensures
        after_successes(w1, k) == w1.with_frames(seq![FrameView { path: root, children: es, next: k as int, removing: false }]),
    decreases k,
{
    if k > 0 {
        let k1 = (k - 1) as nat;
        lemma_flat_root_steps(w1, root, es, k1);
        let p = after_successes(w1, k1);
        assert(p.top().children[k1 as int].kind == Kind::File);
        assert(p.after(EventView::Outcome(true)) == Ok::<WalkerView, FlattenError>(p.advanced()));
        assert(p.advanced().frames =~= seq![FrameView { path: root, children: es, next: k as int, removing: false }]);
    } else {
        assert(w1.frames =~= seq![FrameView { path: root, children: es, next: 0, removing: false }]);
    }
}

/// A tree that is already flat, a root holding files only, is left as it is:
/// after the root is listed each file is kept in place in turn and the run
/// finishes, without any operation that changes the filesystem.
pub proof fn lemma_flat_tree_untouched(root: Seq<char>, dry_run: bool, es: Seq<Entry>)
    requires
        es.len() > 0,
        forall|i: int| 0 <= i < es.len() ==> (#[trigger] es[i]).kind == Kind::File,
    ensures
        WalkerView::initial(root, dry_run).after(EventView::Listed(es)) is Ok,
        ({
            let w1 = WalkerView::initial(root, dry_run).after(EventView::Listed(es))->Ok_0;
            &&& forall|k: nat| k < es.len() ==>
                (#[trigger] after_successes(w1, k)).action() == (ActionView::Keep { path: es[k as int].path@ })
            &&& after_successes(w1, es.len()).action() == ActionView::Finished
        }),
{
    lemma_no_empty_dirs(es);
    let w0 = WalkerView::initial(root, dry_run);
    let w1 = w0.after(EventView::Listed(es))->Ok_0;
    assert(w1.frames =~= seq![FrameView { path: root, children: es, next: 0, removing: false }]);
    assert forall|k: nat| k < es.len() implies
        (#[trigger] after_successes(w1, k)).action() == (ActionView::Keep { path: es[k as int].path@ }) by {
        lemma_flat_root_steps(w1, root, es, k);
    }
    lemma_flat_root_steps(w1, root, es, es.len());
}

/// Every event keeps a run well formed.
pub proof fn lemma_after_keeps_wf(w: WalkerView, e: EventView)
    requires
        w.wf(),
    ensures
        w.after(e) matches Ok(w2) ==> w2.wf(),
{
}

/// The state after a sequence of events, or the first fatal error.
pub open spec fn run(w: WalkerView, events: Seq<EventView>) -> Result<WalkerView, FlattenError>
    decreases events.len(),
{
    if events.len() == 0 {
        Ok(w)
    } else {
        match run(w, events.drop_last()) {
            Ok(p) => p.after(events.last()),
            Err(k) => Err(k),
        }
    }
}

/// Whatever the tree and whatever the filesystem answers, a dry run started
/// on it never asks for an operation that changes the filesystem.
pub proof fn lemma_dry_run_leaves_tree_alone(root: Seq<char>, events: Seq<EventView>)
    ensures
        run(WalkerView::initial(root, true), events) matches Ok(w) ==> w.wf() && w.dry_run && !w.action().mutates(),
    decreases events.len(),
{
    if events.len() > 0 {
        lemma_dry_run_leaves_tree_alone(root, events.drop_last());
        if let Ok(p) = run(WalkerView::initial(root, true), events.drop_last()) {
            lemma_after_keeps_wf(p, events.last());
        }
    }
}

} // verus!
