use vstd::prelude::*;
use crate::grub_config::{GrubConfig, assign, default_key, lemma_map_push, split_lines, strip_char, text_lines, texts};
use crate::path::{parse_index, parse_path_strict, path_text, path_to_string, strict_text_path};
use crate::records::ValidationResult;
use crate::search::{contains_seq, lower_of, lowercase, matches_folded};
use crate::text::{chars_of, same_text, string_of_range};
use crate::tree::{Entry, EntryView, node_at, try_get_entry};

verus! {

broadcast use vstd::string::group_string_axioms;

/// Whether the pattern `.*Linux\s+[\d\.-]+.*` (a kernel's menu title) occurs in a text.
pub uninterp spec fn kernel_title_like(s: Seq<char>) -> bool;

/// Relies on `regex::Regex::is_match` for the pattern `.*Linux\s+[\d\.-]+.*`: whether the
/// pattern occurs in `s`, which depends on the characters of `s` alone.
#[verifier::external_body]
fn looks_like_kernel_title(s: &str) -> (r: bool)
    ensures
        r == kernel_title_like(s@),
{
    match regex::Regex::new(r".*Linux\s+[\d\.-]+.*") {
        Ok(re) => re.is_match(s),
        Err(_) => false,
    }
}

/// `gnulinux-`, the start of an entry id.
pub open spec fn gnulinux_prefix() -> Seq<char> {
    seq!['g', 'n', 'u', 'l', 'i', 'n', 'u', 'x', '-']
}

/// `saved`.
pub open spec fn saved_word() -> Seq<char> {
    seq!['s', 'a', 'v', 'e', 'd']
}

/// A `GRUB_DEFAULT` value without its surrounding quotes.
pub open spec fn unquoted(v: Seq<char>) -> Seq<char> {
    strip_char(strip_char(v, '"'), '\'')
}

/// A `GRUB_DEFAULT` value that names a kernel entry by its bare title (the old format), rather
/// than by an index path, a `gnulinux-` id, `saved`, or a `>`-separated title path.
pub open spec fn is_old_default(v: Seq<char>) -> bool {
    let t = unquoted(v);
    &&& !t.contains('>')
    &&& parse_index(t) is None
    &&& !(t.len() >= 9 && t.subrange(0, 9) == gnulinux_prefix())
    &&& t != saved_word()
    &&& kernel_title_like(t)
}

/// The path of the first node, in pre-order from `e` itself, whose title is `name`.
pub open spec fn find_in_tree(e: EntryView, name: Seq<char>) -> Option<Seq<usize>>
    decreases e, 1nat,
{
    if e.name == name {
        Some(Seq::empty())
    } else {
        find_in_forest(e.children, name, 0)
    }
}

/// The first match among `cs[i..]` and their descendants, as a path from their parent.
pub open spec fn find_in_forest(cs: Seq<EntryView>, name: Seq<char>, i: int) -> Option<Seq<usize>>
    decreases cs, cs.len() - i,
{
    if i < 0 || i >= cs.len() || i > usize::MAX {
        None
    } else {
        match find_in_tree(cs[i], name) {
            Some(p) => Some(seq![i as usize] + p),
            None => find_in_forest(cs, name, i + 1),
        }
    }
}

fn find_by_name(e: &Entry, name: &str) -> (r: Option<Vec<usize>>)
    ensures
        match r {
            Some(p) => find_in_tree(e@, name@) == Some(p@),
            None => find_in_tree(e@, name@) is None,
        },
    decreases e, 1nat,
{
    if same_text(e.name.as_str(), name) {
        let p: Vec<usize> = Vec::new();
        assert(p@ =~= Seq::<usize>::empty());
        return Some(p);
    }
    proof {
        e.lemma_view_children();
    }
    let mut i: usize = 0;
    while i < e.children.len()
        invariant
            0 <= i <= e.children@.len(),
            e@.children.len() == e.children@.len(),
            forall|k: int| 0 <= k < e.children@.len() ==> #[trigger] e@.children[k] == e.children@[k]@,
            e@.name != name@,
            find_in_tree(e@, name@) == find_in_forest(e@.children, name@, i as int),
        decreases e.children@.len() - i,
    {
        match find_by_name(&e.children[i], name) {
            Some(p) => {
                let mut full: Vec<usize> = Vec::new();
                full.push(i);
                let mut k: usize = 0;
                while k < p.len()
                    invariant
                        0 <= k <= p@.len(),
                        full@ == seq![i] + p@.subrange(0, k as int),
                    decreases p@.len() - k,
                {
                    full.push(p[k]);
                    assert(seq![i] + p@.subrange(0, k + 1) =~= (seq![i] + p@.subrange(0, k as int)).push(p@[k as int]));
                    k = k + 1;
                }
                assert(p@.subrange(0, k as int) =~= p@);
                return Some(full);
            },
            None => {},
        }
        i = i + 1;
    }
    None
}

/// Tells whether a `GRUB_DEFAULT` value is in the old bare-title format.
pub fn is_old_grub_default_format(value: &str) -> (r: bool)
    ensures
        r == is_old_default(value@),
{
    let v = chars_of(value);
    let a = crate::grub_config::strip_chars(&v, '"');
    let t = crate::grub_config::strip_chars(&a, '\'');
    let mut has_gt = false;
    let mut i: usize = 0;
    while i < t.len()
        invariant
            0 <= i <= t@.len(),
            has_gt ==> t@.contains('>'),
            !has_gt ==> forall|j: int| 0 <= j < i ==> #[trigger] t@[j] != '>',
        decreases t@.len() - i,
    {
        if t[i] == '>' {
            has_gt = true;
        }
        i = i + 1;
    }
    assert(t@.subrange(0, t@.len() as int) =~= t@);
    if has_gt {
        return false;
    }
    if crate::path::parse_index_range(&t, 0, t.len()).is_some() {
        return false;
    }
    proof {
        reveal_strlit("gnulinux-");
        reveal_strlit("saved");
        assert("gnulinux-"@ =~= gnulinux_prefix());
        assert("saved"@ =~= saved_word());
    }
    let ts = string_of_range(&t, 0, t.len());
    if t.len() >= 9 {
        let head = string_of_range(&t, 0, 9);
        if same_text(head.as_str(), "gnulinux-") {
            return false;
        }
    }
    if same_text(ts.as_str(), "saved") {
        return false;
    }
    looks_like_kernel_title(ts.as_str())
}

/// Turns an old bare-title `GRUB_DEFAULT` value into the index path of the first entry of the
/// tree, in pre-order, with that title; `None` when no node has it.
pub fn fix_old_grub_default_format(old_value: &str, grub_entry: &Entry) -> (r: Option<String>)
    ensures
        match r {
            Some(s) => find_in_tree(grub_entry@, unquoted(old_value@)) matches Some(p) && s@ == path_text(p),
            None => find_in_tree(grub_entry@, unquoted(old_value@)) is None,
        },
{
    let v = chars_of(old_value);
    let a = crate::grub_config::strip_chars(&v, '"');
    let t = crate::grub_config::strip_chars(&a, '\'');
    let name = string_of_range(&t, 0, t.len());
    assert(t@.subrange(0, t@.len() as int) =~= t@);
    match find_by_name(grub_entry, name.as_str()) {
        Some(p) => Some(path_to_string(p.as_slice())),
        None => None,
    }
}

/// Output lines that report an error: their lower-cased text contains `error`.
pub open spec fn error_lines(ls: Seq<Seq<char>>) -> Seq<Seq<char>>
    decreases ls.len(),
{
    if ls.len() == 0 {
        Seq::empty()
    } else {
        let r = error_lines(ls.drop_last());
        if contains_seq(lower_of(ls.last()), seq!['e', 'r', 'r', 'o', 'r']) { r.push(ls.last()) } else { r }
    }
}

/// Output lines that report a warning and no error.
pub open spec fn warning_lines(ls: Seq<Seq<char>>) -> Seq<Seq<char>>
    decreases ls.len(),
{
    if ls.len() == 0 {
        Seq::empty()
    } else {
        let r = warning_lines(ls.drop_last());
        let l = lower_of(ls.last());
        if !contains_seq(l, seq!['e', 'r', 'r', 'o', 'r']) && contains_seq(l, seq!['w', 'a', 'r', 'n', 'i', 'n', 'g']) {
            r.push(ls.last())
        } else {
            r
        }
    }
}

/// Sorts the output of a configuration check into error and warning lines (the lines of the
/// standard output, then of the error output); the configuration is valid when the check
/// succeeded and reported no error.
pub fn validation_result(success: bool, stdout: &str, stderr: &str) -> (r: ValidationResult)
    ensures
        texts(r.errors@) == error_lines(text_lines(stdout@) + text_lines(stderr@)),
        texts(r.warnings@) == warning_lines(text_lines(stdout@) + text_lines(stderr@)),
        r.valid == (success && r.errors@.len() == 0),
        r.output@ == stdout@,
{
    let mut all = split_lines(stdout);
    let mut b = split_lines(stderr);
    let ghost ta = texts(all@);
    let ghost tb = texts(b@);
    all.append(&mut b);
    let ghost ls = text_lines(stdout@) + text_lines(stderr@);
    assert(texts(all@) =~= ta + tb);
    let mut errors: Vec<String> = Vec::new();
    let mut warnings: Vec<String> = Vec::new();
    proof {
        reveal_strlit("error");
        reveal_strlit("warning");
        assert("error"@ =~= seq!['e', 'r', 'r', 'o', 'r']);
        assert("warning"@ =~= seq!['w', 'a', 'r', 'n', 'i', 'n', 'g']);
        assert(ls.subrange(0, 0) =~= Seq::<Seq<char>>::empty());
    }
    let mut i: usize = 0;
    while i < all.len()
        invariant
            ls == texts(all@),
            "error"@ == seq!['e', 'r', 'r', 'o', 'r'],
            "warning"@ == seq!['w', 'a', 'r', 'n', 'i', 'n', 'g'],
            0 <= i <= ls.len(),
            texts(errors@) == error_lines(ls.subrange(0, i as int)),
            texts(warnings@) == warning_lines(ls.subrange(0, i as int)),
        decreases ls.len() - i,
    {
        let line = &all[i];
        assert(line@ == ls[i as int]);
        let low = lowercase(line.as_str());
        assert(ls.subrange(0, i + 1).drop_last() =~= ls.subrange(0, i as int));
        assert(ls.subrange(0, i + 1).last() == ls[i as int]);
        if matches_folded(low.as_str(), "error") {
            let ghost before = errors@;
            let c = line.clone();
            errors.push(c);
            proof {
                lemma_map_push(before, c, |s: String| s@);
            }
        } else if matches_folded(low.as_str(), "warning") {
            let ghost before = warnings@;
            let c = line.clone();
            warnings.push(c);
            proof {
                lemma_map_push(before, c, |s: String| s@);
            }
        }
        i = i + 1;
    }
    assert(ls.subrange(0, i as int) =~= ls);
    let valid = success && errors.len() == 0;
    let out = chars_of(stdout);
    let output = string_of_range(&out, 0, out.len());
    assert(out@.subrange(0, out@.len() as int) =~= out@);
    ValidationResult { valid, errors, warnings, output }
}

impl GrubConfig {
    /// When `GRUB_DEFAULT` holds an old bare title, replaces it by the index path of the first
    /// entry of `grub_entry` with that title; tells whether it did.
    pub fn validate_and_fix_grub_default(&mut self, grub_entry: &Entry) -> (r: bool)
        requires
            old(self).wf(),
        ensures
            final(self).wf(),
            r == (old(self).grub_default@.len() > 0 && old(self).grub_default@ != saved_word()
                && is_old_default(old(self).grub_default@)
                && find_in_tree(grub_entry@, unquoted(old(self).grub_default@)) is Some),
            r ==> final(self).settings() == assign(old(self).settings(), default_key(),
                path_text(find_in_tree(grub_entry@, unquoted(old(self).grub_default@))->0)),
            !r ==> *final(self) == *old(self),
    {
        proof {
            reveal_strlit("saved");
            reveal_strlit("GRUB_DEFAULT");
            assert("saved"@ =~= saved_word());
            assert("GRUB_DEFAULT"@ =~= default_key());
        }
        if self.grub_default.as_str().is_empty() || same_text(self.grub_default.as_str(), "saved") {
            return false;
        }
        if is_old_grub_default_format(self.grub_default.as_str()) {
            match fix_old_grub_default_format(self.grub_default.as_str(), grub_entry) {
                Some(fixed) => {
                    self.set("GRUB_DEFAULT", fixed);
                    return true;
                },
                None => {},
            }
        }
        false
    }
}

/// What a `GRUB_DEFAULT` value designates in the current tree.
pub enum DefaultEntry {
    /// The last booted entry is used.
    Saved,
    /// An index path that addresses an entry with this title.
    Found { path: Vec<usize>, name: String },
    /// An index path that addresses no entry of the tree.
    Missing { path: Vec<usize> },
    /// Not an index path (a title, an id, or empty).
    Unrecognised,
}

/// Tells what a `GRUB_DEFAULT` value designates in `tree`: `saved`, the entry at its index
/// path, an index path that no longer resolves, or something else.
pub fn describe_default(value: &str, tree: &Entry) -> (r: DefaultEntry)
    ensures
        value@ == saved_word() ==> r is Saved,
        value@ != saved_word() ==> match strict_text_path(unquoted(value@)) {
            Some(p) => match node_at(tree@, p) {
                Some(n) => r matches DefaultEntry::Found { path, name } && path@ == p && name@ == n.name,
                None => r matches DefaultEntry::Missing { path } && path@ == p,
            },
            None => r is Unrecognised,
        },
{
    proof {
        reveal_strlit("saved");
        assert("saved"@ =~= saved_word());
    }
    if same_text(value, "saved") {
        return DefaultEntry::Saved;
    }
    let v = chars_of(value);
    let a = crate::grub_config::strip_chars(&v, '"');
    let t = crate::grub_config::strip_chars(&a, '\'');
    let ts = string_of_range(&t, 0, t.len());
    assert(t@.subrange(0, t@.len() as int) =~= t@);
    match parse_path_strict(ts.as_str()) {
        Some(p) => match try_get_entry(tree, p.as_slice()) {
            Some(e) => {
                let name = e.name.clone();
                DefaultEntry::Found { path: p, name }
            },
            None => DefaultEntry::Missing { path: p },
        },
        None => DefaultEntry::Unrecognised,
    }
}

} // verus!
