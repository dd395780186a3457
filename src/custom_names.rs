use vstd::prelude::*;
use crate::grub_config::{assign, assign_in, find_key, key_index, lookup, pairs_view};
use crate::path::{path_text, path_to_string};

verus! {

/// User-chosen display names of boot entries, keyed by the entry's path rendered as text
/// (`"1>0"`).
pub struct CustomNames {
    pub names: Vec<(String, String)>,
}

/// The list without the entry named `k`, if it has one.
pub open spec fn without_key(ps: Seq<(Seq<char>, Seq<char>)>, k: Seq<char>) -> Seq<(Seq<char>, Seq<char>)> {
    let j = key_index(ps, k);
    if j < ps.len() { ps.remove(j) } else { ps }
}

impl CustomNames {
    /// The names as path-text/name pairs.
    pub open spec fn entries(&self) -> Seq<(Seq<char>, Seq<char>)> {
        pairs_view(self.names@)
    }

    /// Each path text appears once.
    pub open spec fn wf(&self) -> bool {
        forall|i: int, j: int| 0 <= i < j < pairs_view(self.names@).len()
            ==> (#[trigger] pairs_view(self.names@)[i]).0 != (#[trigger] pairs_view(self.names@)[j]).0
    }

    /// No custom names.
    pub fn new() -> (r: CustomNames)
        ensures
            r.wf(),
            r.entries().len() == 0,
    {
        CustomNames { names: Vec::new() }
    }

    /// The custom name of the entry at `path`, if it has one.
    pub fn get_custom_name(&self, path: &[usize]) -> (r: Option<&String>)
        ensures
            match r {
                Some(n) => lookup(self.entries(), path_text(path@)) == Some(n@),
                None => lookup(self.entries(), path_text(path@)) is None,
            },
    {
        let key = path_to_string(path);
        let j = find_key(&self.names, key.as_str());
        if j < self.names.len() {
            Some(&self.names[j].1)
        } else {
            None
        }
    }

    /// Gives the entry at `path` the custom name `name`; the empty name removes its custom name.
    pub fn set_custom_name(&mut self, path: &[usize], name: String)
        requires
            old(self).wf(),
        ensures
            final(self).wf(),
            name@.len() == 0 ==> final(self).entries() == without_key(old(self).entries(), path_text(path@)),
            name@.len() > 0 ==> final(self).entries() == assign(old(self).entries(), path_text(path@), name@),
    {
        let key = path_to_string(path);
        self.set_name_for_key(key.as_str(), name);
    }

    /// Gives the entry whose path renders as `key` the name `name`, keeping `key` as it is
    /// (as read back from storage); the empty name removes it.
    pub fn set_name_for_key(&mut self, key: &str, name: String)
        requires
            old(self).wf(),
        ensures
            final(self).wf(),
            name@.len() == 0 ==> final(self).entries() == without_key(old(self).entries(), key@),
            name@.len() > 0 ==> final(self).entries() == assign(old(self).entries(), key@, name@),
    {
        if name.as_str().is_empty() {
            let j = find_key(&self.names, key);
            if j < self.names.len() {
                let ghost before = self.entries();
                self.names.remove(j);
                assert(self.entries() =~= before.remove(j as int));
                assert forall|a: int, b: int| 0 <= a < b < pairs_view(self.names@).len() implies
                    (#[trigger] pairs_view(self.names@)[a]).0 != (#[trigger] pairs_view(self.names@)[b]).0 by {
                    let a0 = if a < j { a } else { a + 1 };
                    let b0 = if b < j { b } else { b + 1 };
                    assert(self.entries()[a] == before[a0]);
                    assert(self.entries()[b] == before[b0]);
                }
            }
        } else {
            assign_in(&mut self.names, key, name);
        }
    }
}

} // verus!
