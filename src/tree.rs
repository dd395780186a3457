use vstd::prelude::*;

verus! {

/// The kind of a node of the boot-menu tree.
#[derive(Debug, Clone, Copy, PartialEq, Eq, Structural)]
pub enum EntryType {
    Root,
    MenuEntry,
    Submenu,
}

/// A node of the boot-menu tree: its title, its kind and its ordered children.
#[derive(Debug)]
pub struct Entry {
    pub name: String,
    pub entry_type: EntryType,
    pub children: Vec<Entry>,
}

/// Mathematical model of a node: title as characters, kind, and the models of its children.
pub struct EntryView {
    pub name: Seq<char>,
    pub kind: EntryType,
    pub children: Seq<EntryView>,
}

/// The model of a node, built from the models of its children.
pub open spec fn entry_view(e: &Entry) -> EntryView
    decreases e,
{
    EntryView {
        name: e.name@,
        kind: e.entry_type,
        children: Seq::new(
            e.children@.len(),
            |i: int| if 0 <= i < e.children@.len() { entry_view(&e.children@[i]) } else { arbitrary() },
        ),
    }
}

impl View for Entry {
    type V = EntryView;

    open spec fn view(&self) -> EntryView {
        entry_view(self)
    }
}

impl Entry {
    /// The model's children are the models of the children.
    pub proof fn lemma_view_children(&self)
        ensures
            self@.children.len() == self.children@.len(),
            forall|k: int| 0 <= k < self.children@.len() ==> #[trigger] self@.children[k] == self.children@[k]@,
    {
    }

    /// A node with the given title and kind and no children.
    pub fn new(name: String, entry_type: EntryType) -> (r: Entry)
        ensures
            r@ == (EntryView { name: name@, kind: entry_type, children: Seq::empty() }),
    {
        let r = Entry { name, entry_type, children: Vec::new() };
        assert(r@.children =~= Seq::<EntryView>::empty());
        r
    }
}

/// The node that `p` addresses from `t`: each index picks a child of the node reached so far;
/// `None` as soon as an index is out of range.
pub open spec fn node_at(t: EntryView, p: Seq<usize>) -> Option<EntryView>
    decreases p.len(),
{
    if p.len() == 0 {
        Some(t)
    } else if p[0] < t.children.len() {
        node_at(t.children[p[0] as int], p.drop_first())
    } else {
        None
    }
}

/// `p` addresses a node of `t`.
pub open spec fn valid_path(t: EntryView, p: Seq<usize>) -> bool {
    node_at(t, p) is Some
}

/// The node at `path`; `path` must address a node of `root`.
pub fn get_entry<'a>(root: &'a Entry, path: &[usize]) -> (r: &'a Entry)
    requires
        valid_path(root@, path@),
    ensures
        node_at(root@, path@) == Some(r@),
{
    let mut e: &Entry = root;
    let mut i: usize = 0;
    assert(path@.subrange(0, path@.len() as int) =~= path@);
    while i < path.len()
        invariant
            0 <= i <= path@.len(),
            valid_path(root@, path@),
            node_at(root@, path@) == node_at(e@, path@.subrange(i as int, path@.len() as int)),
        decreases path@.len() - i,
    {
        let idx = path[i];
        proof {
            let rest = path@.subrange(i as int, path@.len() as int);
            assert(rest.drop_first() =~= path@.subrange(i + 1, path@.len() as int));
            assert(rest[0] == idx);
            e.lemma_view_children();
        }
        e = &e.children[idx];
        i = i + 1;
    }
    proof {
        assert(path@.subrange(i as int, path@.len() as int) =~= Seq::<usize>::empty());
    }
    e
}

/// The node at `path`, or `None` when some index of `path` is out of range.
pub fn try_get_entry<'a>(root: &'a Entry, path: &[usize]) -> (r: Option<&'a Entry>)
    ensures
        match r {
            Some(e) => node_at(root@, path@) == Some(e@),
            None => node_at(root@, path@) is None,
        },
{
    let mut e: &Entry = root;
    let mut i: usize = 0;
    assert(path@.subrange(0, path@.len() as int) =~= path@);
    while i < path.len()
        invariant
            0 <= i <= path@.len(),
            node_at(root@, path@) == node_at(e@, path@.subrange(i as int, path@.len() as int)),
        decreases path@.len() - i,
    {
        let idx = path[i];
        proof {
            let rest = path@.subrange(i as int, path@.len() as int);
            assert(rest.drop_first() =~= path@.subrange(i + 1, path@.len() as int));
            assert(rest[0] == idx);
            e.lemma_view_children();
        }
        if idx >= e.children.len() {
            return None;
        }
        e = &e.children[idx];
        i = i + 1;
    }
    proof {
        assert(path@.subrange(i as int, path@.len() as int) =~= Seq::<usize>::empty());
    }
    Some(e)
}

} // verus!
