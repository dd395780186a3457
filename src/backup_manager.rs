use vstd::prelude::*;
use crate::ordering::{insert_pos, lemma_insert_pos_bounds, lemma_insert_pos_step, stable_sorted};
use crate::records::BackupInfo;
use crate::text::chars_of;

verus! {

broadcast use vstd::string::group_string_axioms;

/// A file name of a settings backup: it starts with `grub` and ends with `.bak`.
pub open spec fn is_backup_name(n: Seq<char>) -> bool {
    &&& n.len() >= 4 && n.subrange(0, 4) == seq!['g', 'r', 'u', 'b']
    &&& n.len() >= 4 && n.subrange(n.len() - 4, n.len() as int) == seq!['.', 'b', 'a', 'k']
}

/// Newer backups come first.
pub open spec fn newer_first() -> spec_fn(BackupInfo, BackupInfo) -> bool {
    |a: BackupInfo, b: BackupInfo| a.modified > b.modified
}

/// The backups among named files, in the order given.
pub open spec fn backup_files(files: Seq<(String, BackupInfo)>) -> Seq<BackupInfo>
    decreases files.len(),
{
    if files.len() == 0 {
        Seq::empty()
    } else {
        let r = backup_files(files.drop_last());
        if is_backup_name(files.last().0@) { r.push(files.last().1) } else { r }
    }
}

fn backup_name(n: &str) -> (r: bool)
    ensures
        r == is_backup_name(n@),
{
    let c = chars_of(n);
    let len = c.len();
    if len < 4 {
        return false;
    }
    let starts = c[0] == 'g' && c[1] == 'r' && c[2] == 'u' && c[3] == 'b';
    let ends = c[len - 4] == '.' && c[len - 3] == 'b' && c[len - 2] == 'a' && c[len - 1] == 'k';
    assert(starts == (c@.subrange(0, 4) =~= seq!['g', 'r', 'u', 'b']));
    assert(ends == (c@.subrange(len - 4, len as int) =~= seq!['.', 'b', 'a', 'k']));
    starts && ends
}

/// The settings backups among a directory's files (name and details), newest first; files
/// modified at the same time keep their order.
pub fn select_backups(files: Vec<(String, BackupInfo)>) -> (r: Vec<BackupInfo>)
    ensures
        r@ == stable_sorted(backup_files(files@), newer_first()),
{
    let ghost all = files@;
    let n = files.len();
    let mut rest = files;
    let mut out: Vec<BackupInfo> = Vec::new();
    let ghost mut kept: Seq<BackupInfo> = Seq::empty();
    let mut k: usize = 0;
    assert(all.subrange(0, 0) =~= Seq::<(String, BackupInfo)>::empty());
    while rest.len() > 0
        invariant
            n == all.len(),
            all == all.subrange(0, k as int) + rest@,
            k + rest@.len() == all.len(),
            kept == backup_files(all.subrange(0, k as int)),
            out@ == stable_sorted(kept, newer_first()),
        decreases rest@.len(),
    {
        let ghost before_rest = rest@;
        let (name, info) = rest.remove(0);
        proof {
            assert(all[k as int] == before_rest[0]);
            assert(all.subrange(0, k + 1).drop_last() =~= all.subrange(0, k as int));
            assert(all.subrange(0, k + 1).last() == all[k as int]);
            assert(all =~= all.subrange(0, k + 1) + rest@);
        }
        if backup_name(name.as_str()) {
            let ghost x = info;
            let mut i: usize = 0;
            proof {
                assert(out@.skip(0) =~= out@);
            }
            while i < out.len() && !(info.modified > out[i].modified)
                invariant
                    0 <= i <= out@.len(),
                    insert_pos(out@, x, newer_first()) == i + insert_pos(out@.skip(i as int), x, newer_first()),
                    x == info,
                decreases out@.len() - i,
            {
                proof {
                    lemma_insert_pos_step(out@, x, newer_first(), i as int);
                }
                i = i + 1;
            }
            proof {
                if i < out@.len() {
                    assert(out@.skip(i as int)[0] == out@[i as int]);
                } else {
                    assert(out@.skip(i as int).len() == 0);
                }
                lemma_insert_pos_bounds(out@, x, newer_first());
                assert(kept.push(x).drop_last() =~= kept);
                kept = kept.push(x);
            }
            out.insert(i, info);
        }
        k = k + 1;
    }
    assert(all.subrange(0, k as int) =~= all);
    out
}

} // verus!
