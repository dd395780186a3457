use vstd::prelude::*;
use crate::ordering::{insert_pos, lemma_insert_pos_bounds, lemma_insert_pos_step, lemma_map_insert, less_text, stable_sorted, text_less};
use crate::records::KernelInfo;
use crate::search::{contains_seq, matches_folded};
use crate::text::{chars_of, same_text, string_of_range};

verus! {

/// Whether `kernel_version` is the running kernel, given the running kernel's release if it
/// could be found.
pub fn is_kernel_in_use(current: Option<&str>, kernel_version: &str) -> (r: bool)
    ensures
        r == (current matches Some(c) && c@ == kernel_version@),
{
    match current {
        Some(c) => same_text(c, kernel_version),
        None => false,
    }
}

/// A kernel as texts: version, release, architecture, image path.
pub open spec fn kernel_view(k: KernelInfo) -> (Seq<char>, Seq<char>, Seq<char>, Seq<char>) {
    (k.version@, k.release@, k.arch@, k.path@)
}

/// `vmlinuz-`, the start of a kernel image's name.
pub open spec fn image_prefix() -> Seq<char> {
    seq!['v', 'm', 'l', 'i', 'n', 'u', 'z', '-']
}

/// A kernel image's file name: `vmlinuz-` then the version, without `old` in it.
pub open spec fn is_kernel_image(n: Seq<char>) -> bool {
    n.len() >= 8 && n.subrange(0, 8) == image_prefix() && !contains_seq(n, seq!['o', 'l', 'd'])
}

/// Newer versions (greater in text order) come first.
pub open spec fn newer_version_first() -> spec_fn((Seq<char>, Seq<char>, Seq<char>, Seq<char>), (Seq<char>, Seq<char>, Seq<char>, Seq<char>)) -> bool {
    |a: (Seq<char>, Seq<char>, Seq<char>, Seq<char>), b: (Seq<char>, Seq<char>, Seq<char>, Seq<char>)| text_less(b.0, a.0)
}

/// The kernels that the image files among `files` (name, path) stand for, in the order given.
pub open spec fn kernel_images(files: Seq<(String, String)>) -> Seq<(Seq<char>, Seq<char>, Seq<char>, Seq<char>)>
    decreases files.len(),
{
    if files.len() == 0 {
        Seq::empty()
    } else {
        let r = kernel_images(files.drop_last());
        let n = files.last().0@;
        if is_kernel_image(n) {
            let v = n.subrange(8, n.len() as int);
            r.push((v, v, seq!['x', '8', '6', '_', '6', '4'], files.last().1@))
        } else {
            r
        }
    }
}

/// The kernels of the image files among a directory's files (name and path), newest
/// version first.
pub fn select_kernels(files: Vec<(String, String)>) -> (r: Vec<KernelInfo>)
    ensures
        r@.map_values(|k: KernelInfo| kernel_view(k)) == stable_sorted(kernel_images(files@), newer_version_first()),
{
    let ghost all = files@;
    let ghost f = |k: KernelInfo| kernel_view(k);
    let n = files.len();
    let mut rest = files;
    let mut out: Vec<KernelInfo> = Vec::new();
    let ghost mut kept: Seq<(Seq<char>, Seq<char>, Seq<char>, Seq<char>)> = Seq::empty();
    let mut k: usize = 0;
    assert(all.subrange(0, 0) =~= Seq::<(String, String)>::empty());
    assert(out@.map_values(f) =~= stable_sorted(kept, newer_version_first()));
    proof {
        reveal_strlit("vmlinuz-");
        reveal_strlit("old");
        reveal_strlit("x86_64");
    }
    while rest.len() > 0
        invariant
            n == all.len(),
            f == (|k: KernelInfo| kernel_view(k)),
            "vmlinuz-"@ == image_prefix(),
            "old"@ == seq!['o', 'l', 'd'],
            "x86_64"@ == seq!['x', '8', '6', '_', '6', '4'],
            all == all.subrange(0, k as int) + rest@,
            k + rest@.len() == all.len(),
            kept == kernel_images(all.subrange(0, k as int)),
            out@.map_values(f) == stable_sorted(kept, newer_version_first()),
        decreases rest@.len(),
    {
        let ghost before_rest = rest@;
        let (name, path) = rest.remove(0);
        proof {
            assert(all[k as int] == before_rest[0]);
            assert(all.subrange(0, k + 1).drop_last() =~= all.subrange(0, k as int));
            assert(all.subrange(0, k + 1).last() == all[k as int]);
            assert(all =~= all.subrange(0, k + 1) + rest@);
        }
        let c = chars_of(name.as_str());
        let mut image = false;
        if c.len() >= 8 {
            let head = string_of_range(&c, 0, 8);
            image = same_text(head.as_str(), "vmlinuz-") && !matches_folded(name.as_str(), "old");
        }
        if image {
            let version = string_of_range(&c, 8, c.len());
            let release = string_of_range(&c, 8, c.len());
            let info = KernelInfo { version, release, arch: "x86_64".to_string(), path };
            let ghost x = kernel_view(info);
            let mut i: usize = 0;
            proof {
                assert(out@.map_values(f).skip(0) =~= out@.map_values(f));
            }
            while i < out.len() && !less_text(out[i].version.as_str(), info.version.as_str())
                invariant
                    0 <= i <= out@.len(),
                    f == (|k: KernelInfo| kernel_view(k)),
                    insert_pos(out@.map_values(f), x, newer_version_first()) == i + insert_pos(out@.map_values(f).skip(i as int), x, newer_version_first()),
                    x == kernel_view(info),
                decreases out@.len() - i,
            {
                proof {
                    assert(out@.map_values(f)[i as int] == kernel_view(out@[i as int]));
                    lemma_insert_pos_step(out@.map_values(f), x, newer_version_first(), i as int);
                }
                i = i + 1;
            }
            proof {
                let vs = out@.map_values(f);
                if i < out@.len() {
                    assert(vs.skip(i as int)[0] == vs[i as int]);
                    assert(vs[i as int] == kernel_view(out@[i as int]));
                } else {
                    assert(vs.skip(i as int).len() == 0);
                }
                lemma_insert_pos_bounds(vs, x, newer_version_first());
                lemma_map_insert(out@, i as int, info, f);
                assert(kept.push(x).drop_last() =~= kept);
                kept = kept.push(x);
            }
            out.insert(i, info);
        }
        k = k + 1;
    }
    assert(all.subrange(0, k as int) =~= all);
    out
}

/// The first match of the pattern `(\d+\.\d+\.\d+[-\w]*)` (a kernel version) in a text.
pub uninterp spec fn version_in(s: Seq<char>) -> Option<Seq<char>>;

/// Relies on `regex::Regex::captures` for the pattern `(\d+\.\d+\.\d+[-\w]*)`: the text of
/// its first match in `s`, which depends on the characters of `s` alone.
#[verifier::external_body]
fn find_version(s: &str) -> (r: Option<String>)
    ensures
        match r {
            Some(v) => version_in(s@) == Some(v@),
            None => version_in(s@) is None,
        },
{
    match regex::Regex::new(r"(\d+\.\d+\.\d+[-\w]*)") {
        Ok(re) => match re.captures(s) {
            Some(caps) => match caps.get(1) {
                Some(m) => Some(m.as_str().to_string()),
                None => None,
            },
            None => None,
        },
        Err(_) => None,
    }
}

/// The index of the first kernel image file (name, path) whose name holds `v`.
pub open spec fn first_image_with(files: Seq<(String, String)>, v: Seq<char>, i: int) -> int
    decreases files.len() - i,
{
    if 0 <= i < files.len() && !(files[i].0@.len() >= 8 && files[i].0@.subrange(0, 8) == image_prefix()
        && contains_seq(files[i].0@, v)) {
        first_image_with(files, v, i + 1)
    } else {
        i
    }
}

/// The kernel that an entry's title names, found among the boot directory's files (name,
/// path): the version in the title and the first `vmlinuz-` image whose name holds it.
pub fn get_kernel_version_from_entry(entry_name: &str, boot_files: &Vec<(String, String)>) -> (r: Option<KernelInfo>)
    ensures
        match version_in(entry_name@) {
            None => r is None,
            Some(v) => {
                let j = first_image_with(boot_files@, v, 0);
                if j < boot_files@.len() {
                    r matches Some(k) && k.version@ == v && k.release@ == v
                        && k.arch@ == seq!['x', '8', '6', '_', '6', '4'] && k.path@ == boot_files@[j].1@
                } else {
                    r is None
                }
            },
        },
{
    let version = match find_version(entry_name) {
        Some(v) => v,
        None => return None,
    };
    proof {
        reveal_strlit("vmlinuz-");
        reveal_strlit("x86_64");
    }
    let mut i: usize = 0;
    while i < boot_files.len()
        invariant
            0 <= i <= boot_files@.len(),
            "vmlinuz-"@ == image_prefix(),
            "x86_64"@ == seq!['x', '8', '6', '_', '6', '4'],
            version_in(entry_name@) == Some(version@),
            first_image_with(boot_files@, version@, 0) == first_image_with(boot_files@, version@, i as int),
        decreases boot_files@.len() - i,
    {
        let name = &boot_files[i].0;
        let c = chars_of(name.as_str());
        let mut image = false;
        if c.len() >= 8 {
            let head = string_of_range(&c, 0, 8);
            image = same_text(head.as_str(), "vmlinuz-") && matches_folded(name.as_str(), version.as_str());
        }
        if image {
            let release = version.clone();
            return Some(KernelInfo { version, release, arch: "x86_64".to_string(), path: boot_files[i].1.clone() });
        }
        i = i + 1;
    }
    None
}

} // verus!
