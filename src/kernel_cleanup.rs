use vstd::prelude::*;
use crate::grub_config::{lemma_map_push, texts};
use crate::kernel_info::is_kernel_in_use;
use crate::ordering::{insert_pos, lemma_insert_pos_bounds, lemma_insert_pos_step, lemma_map_insert, less_text, stable_sorted, text_less};
use crate::records::{KernelInfo, KernelToClean};
use crate::search::{contains_seq, matches_folded};

verus! {

/// A removable kernel as plain values: version, files, total size, whether it runs.
pub open spec fn clean_view(k: KernelToClean) -> (Seq<char>, Seq<Seq<char>>, u64, bool) {
    (k.version@, texts(k.files@), k.size, k.in_use)
}

/// The paths of the files (name, path, size) whose name contains `v`, in order.
pub open spec fn files_with(bf: Seq<(String, String, u64)>, v: Seq<char>) -> Seq<Seq<char>>
    decreases bf.len(),
{
    if bf.len() == 0 {
        Seq::empty()
    } else {
        let r = files_with(bf.drop_last(), v);
        if contains_seq(bf.last().0@, v) { r.push(bf.last().1@) } else { r }
    }
}

/// The total size of those files, held at `u64::MAX` when it does not fit.
pub open spec fn size_with(bf: Seq<(String, String, u64)>, v: Seq<char>) -> u64
    decreases bf.len(),
{
    if bf.len() == 0 {
        0
    } else {
        let r = size_with(bf.drop_last(), v);
        if contains_seq(bf.last().0@, v) {
            if r + bf.last().2 > u64::MAX { u64::MAX } else { (r + bf.last().2) as u64 }
        } else {
            r
        }
    }
}

/// The kernels other than the running one, each with its files and their size, in order.
pub open spec fn clean_list(ks: Seq<KernelInfo>, current: Option<Seq<char>>, bf: Seq<(String, String, u64)>)
    -> Seq<(Seq<char>, Seq<Seq<char>>, u64, bool)>
    decreases ks.len(),
{
    if ks.len() == 0 {
        Seq::empty()
    } else {
        let r = clean_list(ks.drop_last(), current, bf);
        let v = ks.last().version@;
        if current == Some(v) { r } else { r.push((v, files_with(bf, v), size_with(bf, v), false)) }
    }
}

/// Older versions (smaller in text order) come first.
pub open spec fn older_version_first() -> spec_fn((Seq<char>, Seq<Seq<char>>, u64, bool), (Seq<char>, Seq<Seq<char>>, u64, bool)) -> bool {
    |a: (Seq<char>, Seq<Seq<char>>, u64, bool), b: (Seq<char>, Seq<Seq<char>>, u64, bool)| text_less(a.0, b.0)
}

fn files_of(bf: &Vec<(String, String, u64)>, version: &str) -> (r: (Vec<String>, u64))
    ensures
        texts(r.0@) == files_with(bf@, version@),
        r.1 == size_with(bf@, version@),
{
    let mut files: Vec<String> = Vec::new();
    let mut size: u64 = 0;
    let mut i: usize = 0;
    assert(bf@.subrange(0, 0) =~= Seq::<(String, String, u64)>::empty());
    assert(texts(files@) =~= Seq::<Seq<char>>::empty());
    while i < bf.len()
        invariant
            0 <= i <= bf@.len(),
            texts(files@) == files_with(bf@.subrange(0, i as int), version@),
            size == size_with(bf@.subrange(0, i as int), version@),
        decreases bf@.len() - i,
    {
        let ghost sub = bf@.subrange(0, i + 1);
        assert(sub.drop_last() =~= bf@.subrange(0, i as int));
        assert(sub.last() == bf@[i as int]);
        if matches_folded(bf[i].0.as_str(), version) {
            let p = bf[i].1.clone();
            let ghost before = files@;
            files.push(p);
            proof {
                lemma_map_push(before, p, |s: String| s@);
            }
            size = size.saturating_add(bf[i].2);
        }
        i = i + 1;
    }
    assert(bf@.subrange(0, i as int) =~= bf@);
    (files, size)
}

/// The kernels that may be removed: all but the running one (`current`), each with the
/// files of the boot directory (name, path, size) whose name holds its version and their
/// total size, oldest version first.
pub fn kernels_to_clean(kernels: Vec<KernelInfo>, current: Option<&str>, boot_files: &Vec<(String, String, u64)>) -> (r: Vec<KernelToClean>)
    ensures
        r@.map_values(|k: KernelToClean| clean_view(k)) == stable_sorted(
            clean_list(kernels@, match current { Some(c) => Some(c@), None => None }, boot_files@),
            older_version_first(),
        ),
{
    let ghost all = kernels@;
    let ghost cur = match current { Some(c) => Some(c@), None => None };
    let ghost f = |k: KernelToClean| clean_view(k);
    let n = kernels.len();
    let mut rest = kernels;
    let mut out: Vec<KernelToClean> = Vec::new();
    let ghost mut kept: Seq<(Seq<char>, Seq<Seq<char>>, u64, bool)> = Seq::empty();
    let mut k: usize = 0;
    assert(all.subrange(0, 0) =~= Seq::<KernelInfo>::empty());
    assert(out@.map_values(f) =~= stable_sorted(kept, older_version_first()));
    while rest.len() > 0
        invariant
            n == all.len(),
            f == (|k: KernelToClean| clean_view(k)),
            cur == (match current { Some(c) => Some(c@), None => None }),
            all == all.subrange(0, k as int) + rest@,
            k + rest@.len() == all.len(),
            kept == clean_list(all.subrange(0, k as int), cur, boot_files@),
            out@.map_values(f) == stable_sorted(kept, older_version_first()),
        decreases rest@.len(),
    {
        let ghost before_rest = rest@;
        let info = rest.remove(0);
        proof {
            assert(all[k as int] == before_rest[0]);
            assert(all.subrange(0, k + 1).drop_last() =~= all.subrange(0, k as int));
            assert(all.subrange(0, k + 1).last() == all[k as int]);
            assert(all =~= all.subrange(0, k + 1) + rest@);
        }
        if !is_kernel_in_use(current, info.version.as_str()) {
            let (files, size) = files_of(boot_files, info.version.as_str());
            let item = KernelToClean { version: info.version, files, size, in_use: false };
            let ghost x = clean_view(item);
            let mut i: usize = 0;
            proof {
                assert(out@.map_values(f).skip(0) =~= out@.map_values(f));
            }
            while i < out.len() && !less_text(item.version.as_str(), out[i].version.as_str())
                invariant
                    0 <= i <= out@.len(),
                    f == (|k: KernelToClean| clean_view(k)),
                    insert_pos(out@.map_values(f), x, older_version_first()) == i + insert_pos(out@.map_values(f).skip(i as int), x, older_version_first()),
                    x == clean_view(item),
                decreases out@.len() - i,
            {
                proof {
                    assert(out@.map_values(f)[i as int] == clean_view(out@[i as int]));
                    lemma_insert_pos_step(out@.map_values(f), x, older_version_first(), i as int);
                }
                i = i + 1;
            }
            proof {
                let vs = out@.map_values(f);
                if i < out@.len() {
                    assert(vs.skip(i as int)[0] == vs[i as int]);
                    assert(vs[i as int] == clean_view(out@[i as int]));
                } else {
                    assert(vs.skip(i as int).len() == 0);
                }
                lemma_insert_pos_bounds(vs, x, older_version_first());
                lemma_map_insert(out@, i as int, item, f);
                assert(kept.push(x).drop_last() =~= kept);
                kept = kept.push(x);
            }
            out.insert(i, item);
        }
        k = k + 1;
    }
    assert(all.subrange(0, k as int) =~= all);
    out
}

} // verus!
