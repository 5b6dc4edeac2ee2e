use vstd::prelude::*;
use crate::entry::{Entry, Kind, empty_first, order_entries};

verus! {

/// Why a flatten run stopped.
#[derive(Clone, Copy, Debug, PartialEq, Eq, Structural)]
pub enum FlattenError {
    /// The root path does not exist; nothing was touched.
    PathNotFound,
    /// A directory could not be listed.
    ListingFailure,
    /// A directory seen empty could not be removed.
    RemovalFailure,
    /// A file could not be moved to the parent directory.
    RenameFailure,
}

/// The next filesystem operation a run asks its caller to perform.
#[derive(Debug)]
pub enum Action {
    /// List `path` (with the emptiness of each child directory). `parent` is
    /// `None` for the root only.
    List { path: String, parent: Option<String> },
    /// Remove the directory `path`, found empty when listed.
    RemoveEmpty { path: String },
    /// Dry run: report that `path` is empty.
    ReportEmpty { path: String },
    /// Move the file `from` into the directory `to_dir`, under `name`.
    Move { from: String, to_dir: String, name: String },
    /// Dry run: report the move that would be made.
    SkipMove { from: String, to_dir: String, name: String },
    /// A file directly in the root: it stays where it is.
    Keep { path: String },
    /// Tell whether `path` is still an existing directory.
    Check { path: String },
    /// Remove the drained directory `path`; a failure here is not fatal.
    RemoveDrained { path: String },
    /// Dry run: report that `path` would be removed.
    SkipRemove { path: String },
    /// Nothing is left to do.
    Finished,
}

/// The abstract value of an [`Action`].
pub enum ActionView {
    List { path: Seq<char>, parent: Option<Seq<char>> },
    RemoveEmpty { path: Seq<char> },
    ReportEmpty { path: Seq<char> },
    Move { from: Seq<char>, to_dir: Seq<char>, name: Seq<char> },
    SkipMove { from: Seq<char>, to_dir: Seq<char>, name: Seq<char> },
    Keep { path: Seq<char> },
    Check { path: Seq<char> },
    RemoveDrained { path: Seq<char> },
    SkipRemove { path: Seq<char> },
    Finished,
}

impl ActionView {
    /// The operation changes the filesystem.
    pub open spec fn mutates(self) -> bool {
        ||| self is RemoveEmpty
        ||| self is Move
        ||| self is RemoveDrained
    }
}

/// The view of an optional string.
pub open spec fn opt_view(o: Option<String>) -> Option<Seq<char>> {
    match o {
        Some(s) => Some(s@),
        None => None,
    }
}

impl View for Action {
    type V = ActionView;

    open spec fn view(&self) -> ActionView {
        match self {
            Action::List { path, parent } => ActionView::List { path: path@, parent: opt_view(*parent) },
            Action::RemoveEmpty { path } => ActionView::RemoveEmpty { path: path@ },
            Action::ReportEmpty { path } => ActionView::ReportEmpty { path: path@ },
            Action::Move { from, to_dir, name } => ActionView::Move { from: from@, to_dir: to_dir@, name: name@ },
            Action::SkipMove { from, to_dir, name } => ActionView::SkipMove { from: from@, to_dir: to_dir@, name: name@ },
            Action::Keep { path } => ActionView::Keep { path: path@ },
            Action::Check { path } => ActionView::Check { path: path@ },
            Action::RemoveDrained { path } => ActionView::RemoveDrained { path: path@ },
            Action::SkipRemove { path } => ActionView::SkipRemove { path: path@ },
            Action::Finished => ActionView::Finished,
        }
    }
}

/// What the caller observed while performing the last action.
#[derive(Debug)]
pub enum Event {
    /// The listing asked for, in the order the filesystem gave it.
    Listed(Vec<Entry>),
    /// The directory could not be listed.
    ListingFailed,
    /// Any other action: whether it succeeded (for `Check`, whether the path
    /// is still an existing directory). Reports are acknowledged with either.
    Outcome(bool),
}

/// The abstract value of an [`Event`].
pub enum EventView {
    Listed(Seq<Entry>),
    ListingFailed,
    Outcome(bool),
}

impl View for Event {
    type V = EventView;

    open spec fn view(&self) -> EventView {
        match self {
            Event::Listed(v) => EventView::Listed(v@),
            Event::ListingFailed => EventView::ListingFailed,
            Event::Outcome(b) => EventView::Outcome(*b),
        }
    }
}

/// A directory being drained: its children in empty-first order, how many
/// of them have been handled, and whether its own removal is under way.
pub struct Frame {
    pub path: String,
    pub children: Vec<Entry>,
    pub next: usize,
    pub removing: bool,
}

/// The abstract value of a [`Frame`].
pub struct FrameView {
    pub path: Seq<char>,
    pub children: Seq<Entry>,
    pub next: int,
    pub removing: bool,
}

impl View for Frame {
    type V = FrameView;

    open spec fn view(&self) -> FrameView {
        FrameView { path: self.path@, children: self.children@, next: self.next as int, removing: self.removing }
    }
}

/// A flatten run in progress. The directories being drained form a stack
/// whose bottom is the root; each one's parent is the frame below it.
pub struct Walker {
    pub root: String,
    pub dry_run: bool,
    pub started: bool,
    pub frames: Vec<Frame>,
}

/// The abstract value of a [`Walker`]: the state of the run.
pub struct WalkerView {
    pub root: Seq<char>,
    pub dry_run: bool,
    pub started: bool,
    pub frames: Seq<FrameView>,
}

impl View for Walker {
    type V = WalkerView;

    open spec fn view(&self) -> WalkerView {
        WalkerView {
            root: self.root@,
            dry_run: self.dry_run,
            started: self.started,
            frames: self.frames@.map_values(|f: Frame| f@),
        }
    }
}

impl WalkerView {
    /// A run on `root` that has not listed anything yet.
    pub open spec fn initial(root: Seq<char>, dry_run: bool) -> WalkerView {
        WalkerView { root, dry_run, started: false, frames: Seq::empty() }
    }

    /// The directory being drained.
    pub open spec fn top(self) -> FrameView {
        self.frames.last()
    }

    /// The directory the top frame's files move into; `None` at the root.
    pub open spec fn parent(self) -> Option<Seq<char>> {
        if self.frames.len() > 1 {
            Some(self.frames[self.frames.len() - 2].path)
        } else {
            None
        }
    }

    /// Every frame has handled at most all of its children, and a frame
    /// above the root is the directory its parent handled last.
    pub open spec fn wf(self) -> bool {
        &&& !self.started ==> self.frames.len() == 0
        &&& forall|i: int| 0 <= i < self.frames.len() ==>
            0 <= #[trigger] self.frames[i].next <= self.frames[i].children.len()
        &&& forall|i: int| 0 < i < self.frames.len() ==>
            1 <= #[trigger] self.frames[i - 1].next
            && self.frames[i].path == self.frames[i - 1].children[self.frames[i - 1].next - 1].path@
        &&& forall|i: int| 0 <= i < self.frames.len() && #[trigger] self.frames[i].removing ==>
            i > 0 && self.frames[i].next == self.frames[i].children.len()
    }

    /// The operation this run asks for next.
    pub open spec fn action(self) -> ActionView {
        if !self.started {
            ActionView::List { path: self.root, parent: None }
        } else if self.frames.len() == 0 {
            ActionView::Finished
        } else {
            let top = self.top();
            if top.removing {
                if self.dry_run {
                    ActionView::SkipRemove { path: top.path }
                } else {
                    ActionView::RemoveDrained { path: top.path }
                }
            } else if top.children.len() == 0 {
                if self.dry_run {
                    ActionView::ReportEmpty { path: top.path }
                } else {
                    ActionView::RemoveEmpty { path: top.path }
                }
            } else if top.next < top.children.len() {
                let c = top.children[top.next];
                if c.kind == Kind::File {
                    match self.parent() {
                        Some(p) => if self.dry_run {
                            ActionView::SkipMove { from: c.path@, to_dir: p, name: c.name@ }
                        } else {
                            ActionView::Move { from: c.path@, to_dir: p, name: c.name@ }
                        },
                        None => ActionView::Keep { path: c.path@ },
                    }
                } else {
                    ActionView::List { path: c.path@, parent: Some(top.path) }
                }
            } else if self.frames.len() > 1 {
                ActionView::Check { path: top.path }
            } else {
                ActionView::Finished
            }
        }
    }

    /// The event answers the pending action.
    pub open spec fn fits(self, e: EventView) -> bool {
        match self.action() {
            ActionView::List { .. } => e is Listed || e is ListingFailed,
            ActionView::Finished => false,
            _ => e is Outcome,
        }
    }

    /// The same run with other frames.
    pub open spec fn with_frames(self, frames: Seq<FrameView>) -> WalkerView {
        WalkerView { frames, ..self }
    }

    /// The top frame moves on to its next child.
    pub open spec fn advanced(self) -> WalkerView {
        let top = self.top();
        self.with_frames(self.frames.drop_last().push(FrameView { next: top.next + 1, ..top }))
    }

    /// The top frame is done with.
    pub open spec fn popped(self) -> WalkerView {
        self.with_frames(self.frames.drop_last())
    }

    /// The state after the event, or the fatal error it causes.
    pub open spec fn after(self, e: EventView) -> Result<WalkerView, FlattenError> {
        match self.action() {
            ActionView::List { path, parent } => match e {
                EventView::Listed(es) => {
                    let base = if self.started { self.advanced() } else { self };
                    let frame = FrameView { path, children: empty_first(es), next: 0, removing: false };
                    Ok(WalkerView { started: true, frames: base.frames.push(frame), ..base })
                },
                _ => Err(FlattenError::ListingFailure),
            },
            ActionView::RemoveEmpty { .. } => if e == EventView::Outcome(true) {
                Ok(self.popped())
            } else {
                Err(FlattenError::RemovalFailure)
            },
            ActionView::Move { .. } => if e == EventView::Outcome(true) {
                Ok(self.advanced())
            } else {
                Err(FlattenError::RenameFailure)
            },
            ActionView::SkipMove { .. } => Ok(self.advanced()),
            ActionView::Keep { .. } => Ok(self.advanced()),
            ActionView::Check { .. } => if e == EventView::Outcome(true) {
                Ok(self.with_frames(self.frames.drop_last().push(FrameView { removing: true, ..self.top() })))
            } else {
                Ok(self.popped())
            },
            ActionView::Finished => Ok(self),
            _ => Ok(self.popped()),
        }
    }
}

/// Starts a run on `root`, whose existence the caller has checked. A missing
/// root ends the run at once, before any operation is asked for.
pub fn flatten(root: String, root_exists: bool, dry_run: bool) -> (r: Result<Walker, FlattenError>)
    ensures
        r is Ok <==> root_exists,
        !root_exists <==> r == Err::<Walker, FlattenError>(FlattenError::PathNotFound),
        r matches Ok(w) ==> w@ == WalkerView::initial(root@, dry_run) && w@.wf()
            && w@.action() == (ActionView::List { path: root@, parent: None }),
{
    if !root_exists {
        return Err(FlattenError::PathNotFound);
    }
    let w = Walker { root, dry_run, started: false, frames: Vec::new() };
    assert(w@.frames =~= Seq::empty());
    Ok(w)
}

impl Walker {
    /// The operation to perform next.
    pub fn next_action(&self) -> (r: Action)
        requires
            self@.wf(),
        ensures
            r@ == self@.action(),
    {
        if !self.started {
            return Action::List { path: self.root.clone(), parent: None };
        }
        let n = self.frames.len();
        if n == 0 {
            return Action::Finished;
        }
        let top = &self.frames[n - 1];
        assert(self@.top() == top@);
        if top.removing {
            if self.dry_run {
                Action::SkipRemove { path: top.path.clone() }
            } else {
                Action::RemoveDrained { path: top.path.clone() }
            }
        } else if top.children.len() == 0 {
            if self.dry_run {
                Action::ReportEmpty { path: top.path.clone() }
            } else {
                Action::RemoveEmpty { path: top.path.clone() }
            }
        } else if top.next < top.children.len() {
            let c = &top.children[top.next];
            if c.kind == Kind::File {
                if n > 1 {
                    let p = self.frames[n - 2].path.clone();
                    assert(self@.frames[n - 2] == self.frames@[n - 2]@);
                    if self.dry_run {
                        Action::SkipMove { from: c.path.clone(), to_dir: p, name: c.name.clone() }
                    } else {
                        Action::Move { from: c.path.clone(), to_dir: p, name: c.name.clone() }
                    }
                } else {
                    Action::Keep { path: c.path.clone() }
                }
            } else {
                Action::List { path: c.path.clone(), parent: Some(top.path.clone()) }
            }
        } else if n > 1 {
            Action::Check { path: top.path.clone() }
        } else {
            Action::Finished
        }
    }

    /// The event answers the pending action.
    pub fn accepts(&self, e: &Event) -> (r: bool)
        requires
            self@.wf(),
        ensures
            r == self@.fits(e@),
    {
        let a = self.next_action();
        match a {
            Action::List { .. } => match e {
                Event::Outcome(_) => false,
                _ => true,
            },
            Action::Finished => false,
            _ => match e {
                Event::Outcome(_) => true,
                _ => false,
            },
        }
    }

    fn advance(&mut self)
        requires
            old(self).frames@.len() > 0,
            old(self)@.top().next < old(self)@.top().children.len(),
        ensures
            final(self)@ == old(self)@.advanced(),
    {
        let ghost n = old(self).frames@.len();
        assert(old(self)@.top() == old(self).frames@[n - 1]@);
        let mut f = self.frames.pop().unwrap();
        let n_children = f.children.len();
        assert(f.next < n_children);
        f.next = f.next + 1;
        self.frames.push(f);
        assert(self@.frames =~= old(self)@.advanced().frames);
    }

    fn pop_frame(&mut self)
        requires
            old(self).frames@.len() > 0,
        ensures
            final(self)@ == old(self)@.popped(),
    {
        let _ = self.frames.pop();
        assert(self@.frames =~= old(self)@.popped().frames);
    }

    /// Hands the outcome of the pending action to the run. On a fatal error
    /// the run is left as it was.
    pub fn step(&mut self, e: Event) -> (r: Result<(), FlattenError>)
        requires
            old(self)@.wf(),
            old(self)@.fits(e@),
        ensures
            match old(self)@.after(e@) {
                Ok(w) => r is Ok && final(self)@ == w && w.wf(),
                Err(k) => r == Err::<(), FlattenError>(k) && final(self)@ == old(self)@,
            },
    {
        let ghost w0 = self@;
        let a = self.next_action();
        match a {
            Action::List { path, parent: _ } => match e {
                Event::Listed(es) => {
                    let children = order_entries(&es);
                    if self.started {
                        self.advance();
                    }
                    self.frames.push(Frame { path, children, next: 0, removing: false });
                    self.started = true;
                    assert(self@.frames =~= w0.after(e@).unwrap().frames);
                    Ok(())
                },
                _ => Err(FlattenError::ListingFailure),
            },
            Action::RemoveEmpty { .. } => match e {
                Event::Outcome(true) => {
                    self.pop_frame();
                    Ok(())
                },
                _ => Err(FlattenError::RemovalFailure),
            },
            Action::Move { .. } => match e {
                Event::Outcome(true) => {
                    self.advance();
                    Ok(())
                },
                _ => Err(FlattenError::RenameFailure),
            },
            Action::SkipMove { .. } | Action::Keep { .. } => {
                self.advance();
                Ok(())
            },
            Action::Check { .. } => match e {
                Event::Outcome(true) => {
                    let mut f = self.frames.pop().unwrap();
                    f.removing = true;
                    self.frames.push(f);
                    assert(self@.frames =~= w0.after(e@).unwrap().frames);
                    Ok(())
                },
                _ => {
                    self.pop_frame();
                    Ok(())
                },
            },
            _ => {
                self.pop_frame();
                Ok(())
            },
        }
    }
}

} // verus!
