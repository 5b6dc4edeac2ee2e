use vstd::prelude::*;
use vstd::multiset::Multiset;

verus! {

/// What a child entry of a directory is, as seen when the directory was listed.
#[derive(Clone, Copy, Debug, PartialEq, Eq, Structural)]
pub enum Kind {
    /// A regular file (anything that is not a directory).
    File,
    /// A directory that held no entry when it was listed.
    EmptyDir,
    /// A directory that held at least one entry when it was listed.
    Dir,
}

/// One child of a listed directory.
#[derive(Debug)]
pub struct Entry {
    /// Full path of the child.
    pub path: String,
    /// Its last component, used as the name at the destination of a move.
    pub name: String,
    pub kind: Kind,
}

impl Entry {
    pub fn new(path: String, name: String, kind: Kind) -> (r: Entry)
        ensures
            r.path == path,
            r.name == name,
            r.kind == kind,
    {
        Entry { path, name, kind }
    }

    /// An equal copy of the entry.
    pub fn duplicate(&self) -> (r: Entry)
        ensures
            r == *self,
    {
        Entry { path: self.path.clone(), name: self.name.clone(), kind: self.kind }
    }
}

/// The entries of `s` that are empty directories, in their order in `s`.
pub open spec fn empty_dirs(s: Seq<Entry>) -> Seq<Entry>
    decreases s.len(),
{
    if s.len() == 0 {
        Seq::empty()
    } else if s.last().kind == Kind::EmptyDir {
        empty_dirs(s.drop_last()).push(s.last())
    } else {
        empty_dirs(s.drop_last())
    }
}

/// The entries of `s` that are not empty directories, in their order in `s`.
pub open spec fn non_empty_dirs(s: Seq<Entry>) -> Seq<Entry>
    decreases s.len(),
{
    if s.len() == 0 {
        Seq::empty()
    } else if s.last().kind == Kind::EmptyDir {
        non_empty_dirs(s.drop_last())
    } else {
        non_empty_dirs(s.drop_last()).push(s.last())
    }
}

/// Empty-first order: the empty directories, then everything else, each group
/// keeping the order of the listing.
pub open spec fn empty_first(s: Seq<Entry>) -> Seq<Entry> {
    empty_dirs(s) + non_empty_dirs(s)
}

/// Puts the entries of a listing in empty-first order.
pub fn order_entries(entries: &Vec<Entry>) -> (r: Vec<Entry>)
    ensures
        r@ == empty_first(entries@),
{
    let mut first: Vec<Entry> = Vec::new();
    let mut rest: Vec<Entry> = Vec::new();
    let mut i: usize = 0;
    while i < entries.len()
        invariant
            i <= entries@.len(),
            first@ == empty_dirs(entries@.subrange(0, i as int)),
            rest@ == non_empty_dirs(entries@.subrange(0, i as int)),
        decreases entries@.len() - i,
    {
        let e = entries[i].duplicate();
        proof {
            let s = entries@.subrange(0, i as int + 1);
            assert(s.drop_last() =~= entries@.subrange(0, i as int));
            assert(s.last() == entries@[i as int]);
        }
        if e.kind == Kind::EmptyDir {
            first.push(e);
        } else {
            rest.push(e);
        }
        i = i + 1;
    }
    assert(entries@.subrange(0, entries@.len() as int) =~= entries@);
    let mut j: usize = 0;
    let ghost head = first@;
    while j < rest.len()
        invariant
            j <= rest@.len(),
            first@ == head + rest@.subrange(0, j as int),
        decreases rest@.len() - j,
    {
        let e = rest[j].duplicate();
        first.push(e);
        j = j + 1;
        assert(first@ =~= head + rest@.subrange(0, j as int));
    }
    assert(rest@.subrange(0, rest@.len() as int) =~= rest@);
    first
}

/// The two groups of the empty-first order split the listing: the first holds
/// only empty directories, the second none, and together they hold exactly
/// the listing's entries.
pub proof fn lemma_partition(s: Seq<Entry>)
    ensures
        forall|i: int| 0 <= i < empty_dirs(s).len() ==> (#[trigger] empty_dirs(s)[i]).kind == Kind::EmptyDir,
        forall|i: int| 0 <= i < non_empty_dirs(s).len() ==> (#[trigger] non_empty_dirs(s)[i]).kind != Kind::EmptyDir,
        empty_dirs(s).to_multiset().add(non_empty_dirs(s).to_multiset()) == s.to_multiset(),
    decreases s.len(),
{
    broadcast use vstd::seq_lib::to_multiset_build;
    if s.len() == 0 {
        broadcast use vstd::seq_lib::to_multiset_len, vstd::multiset::lemma_multiset_empty_len;
        assert(s =~= Seq::<Entry>::empty());
        assert(s.to_multiset().len() == 0);
        assert(s.to_multiset() =~= Multiset::empty());
        assert(empty_dirs(s).to_multiset().add(non_empty_dirs(s).to_multiset()) =~= s.to_multiset());
    } else {
        let t = s.drop_last();
        lemma_partition(t);
        assert(s =~= t.push(s.last()));
        assert(empty_dirs(s).to_multiset().add(non_empty_dirs(s).to_multiset()) =~= s.to_multiset());
    }
}

/// A listing without empty directories keeps its order.
pub proof fn lemma_no_empty_dirs(s: Seq<Entry>)
    requires
        forall|i: int| 0 <= i < s.len() ==> (#[trigger] s[i]).kind != Kind::EmptyDir,
    ensures
        empty_dirs(s) == Seq::<Entry>::empty(),
        non_empty_dirs(s) == s,
        empty_first(s) == s,
    decreases s.len(),
{
    if s.len() == 0 {
        assert(non_empty_dirs(s) =~= s);
    } else {
        let t = s.drop_last();
        assert forall|i: int| 0 <= i < t.len() implies (#[trigger] t[i]).kind != Kind::EmptyDir by {
            assert(t[i] == s[i]);
        }
        lemma_no_empty_dirs(t);
        assert(s.last() == s[s.len() - 1]);
        assert(non_empty_dirs(s) =~= s);
    }
    assert(empty_first(s) =~= s);
}

} // verus!
