use vstd::prelude::*;
use crate::ordering::{insert_pos, lemma_insert_pos_bounds, lemma_insert_pos_step, less_text, stable_sorted, text_less};
use crate::parser::{is_space, spaces_end};
use crate::path::split_on;
use crate::text::{copy_range, same_text, skip_spaces, trim_chars, trim_text, trimmed};
use crate::text::{chars_of, concat_text, is_space_char, push_char, string_of_range};

verus! {

broadcast use vstd::string::group_string_axioms;

/// The first index at or after `i` holding `c` (`s.len()` if none).
pub open spec fn index_of_from(s: Seq<char>, c: char, i: int) -> int
    decreases s.len() - i,
{
    if 0 <= i < s.len() && s[i] != c {
        index_of_from(s, c, i + 1)
    } else {
        i
    }
}

/// A kernel parameter split at its first `=`: the name, and the value if there is an `=`.
pub open spec fn parameter_parts(p: Seq<char>) -> (Seq<char>, Option<Seq<char>>) {
    let k = index_of_from(p, '=', 0);
    if k < p.len() {
        (p.subrange(0, k), Some(p.subrange(k + 1, p.len() as int)))
    } else {
        (p, None)
    }
}

/// A parameter written from its name and optional value: `name=value`, or `name` alone.
pub open spec fn parameter_text(name: Seq<char>, value: Option<Seq<char>>) -> Seq<char> {
    match value {
        Some(v) => name + seq!['='] + v,
        None => name,
    }
}

/// The maximal runs of non-white-space characters of `s`, in order.
pub open spec fn words(s: Seq<char>) -> Seq<Seq<char>>
    decreases s.len(),
{
    if s.len() == 0 {
        Seq::empty()
    } else {
        let w = words(s.drop_last());
        let c = s.last();
        if is_space(c) {
            w
        } else if s.len() >= 2 && !is_space(s[s.len() - 2]) {
            w.update(w.len() - 1, w.last().push(c))
        } else {
            w.push(seq![c])
        }
    }
}

/// The pieces joined with single spaces.
pub open spec fn joined(parts: Seq<Seq<char>>) -> Seq<char>
    decreases parts.len(),
{
    if parts.len() == 0 {
        Seq::empty()
    } else if parts.len() == 1 {
        parts[0]
    } else {
        joined(parts.drop_last()) + seq![' '] + parts.last()
    }
}

/// The texts held by a vector of strings.
pub open spec fn texts(v: Seq<String>) -> Seq<Seq<char>> {
    v.map_values(|s: String| s@)
}

/// Splits a parameter at its first `=` (`"quiet"` gives `("quiet", None)`, `"a=b=c"` gives
/// `("a", Some("b=c"))`).
pub fn split_parameter(param: &str) -> (r: (String, Option<String>))
    ensures
        (r.0@, match r.1 { Some(v) => Some(v@), None => None }) == parameter_parts(param@),
{
    let cs = chars_of(param);
    let mut k: usize = 0;
    while k < cs.len() && cs[k] != '='
        invariant
            0 <= k <= cs@.len(),
            index_of_from(cs@, '=', 0) == index_of_from(cs@, '=', k as int),
        decreases cs@.len() - k,
    {
        k = k + 1;
    }
    if k < cs.len() {
        (string_of_range(&cs, 0, k), Some(string_of_range(&cs, k + 1, cs.len())))
    } else {
        assert(cs@.subrange(0, k as int) =~= cs@);
        (string_of_range(&cs, 0, k), None)
    }
}

/// Writes a parameter from its name and optional value.
pub fn format_parameter(name: &str, value: Option<&str>) -> (r: String)
    ensures
        r@ == parameter_text(name@, match value { Some(v) => Some(v@), None => None }),
{
    match value {
        Some(v) => {
            let mut s = concat_text(name, "");
            proof {
                reveal_strlit("");
            }
            assert(s@ =~= name@);
            push_char(&mut s, '=');
            let r = concat_text(s.as_str(), v);
            assert(r@ =~= name@ + seq!['='] + v@);
            r
        },
        None => {
            proof {
                reveal_strlit("");
            }
            let r = concat_text(name, "");
            assert(r@ =~= name@);
            r
        },
    }
}

/// The white-space-separated words of a kernel command line.
pub fn parse_parameters(cmdline: &str) -> (r: Vec<String>)
    ensures
        texts(r@) == words(cmdline@),
{
    let cs = chars_of(cmdline);
    let mut r: Vec<String> = Vec::new();
    let mut i: usize = 0;
    let mut start: usize = 0;
    let mut in_word = false;
    assert(cs@.subrange(0, 0) =~= Seq::<char>::empty());
    while i < cs.len()
        invariant
            0 <= start <= i <= cs@.len(),
            in_word == (i > 0 && !is_space(cs@[i - 1])),
            in_word ==> start < i && words(cs@.subrange(0, i as int)) == texts(r@).push(cs@.subrange(start as int, i as int)),
            !in_word ==> words(cs@.subrange(0, i as int)) == texts(r@),
            in_word ==> forall|j: int| start <= j < i ==> !is_space(#[trigger] cs@[j]),
            in_word ==> (start == 0 || is_space(cs@[start - 1])),
        decreases cs@.len() - i,
    {
        let c = cs[i];
        let ghost pre = cs@.subrange(0, i as int);
        let ghost next = cs@.subrange(0, i + 1);
        assert(next.drop_last() =~= pre);
        assert(next.last() == c);
        if is_space_char(c) {
            if in_word {
                let w = string_of_range(&cs, start, i);
                r.push(w);
                assert(texts(r@) =~= words(pre));
            }
            in_word = false;
        } else {
            if !in_word {
                start = i;
                in_word = true;
                if i > 0 {
                    assert(next[next.len() - 2] == cs@[i - 1]);
                }
                assert(cs@.subrange(start as int, i + 1) =~= seq![c]);
                assert(words(next) =~= texts(r@).push(cs@.subrange(start as int, i + 1)));
            } else {
                assert(next[next.len() - 2] == cs@[i - 1]);
                assert(cs@.subrange(start as int, i + 1) =~= cs@.subrange(start as int, i as int).push(c));
                let ghost t = texts(r@);
                assert(t.push(cs@.subrange(start as int, i as int)).update(t.len() as int, cs@.subrange(start as int, i + 1))
                    =~= t.push(cs@.subrange(start as int, i + 1)));
            }
        }
        i = i + 1;
    }
    if in_word {
        let w = string_of_range(&cs, start, i);
        r.push(w);
        assert(texts(r@) =~= texts(r@).drop_last().push(cs@.subrange(start as int, i as int)));
    }
    assert(cs@.subrange(0, i as int) =~= cmdline@);
    proof {
        if in_word {
            assert(texts(r@) =~= words(cmdline@));
        }
    }
    r
}

/// The parameters joined with single spaces.
pub fn join_parameters(params: &[String]) -> (r: String)
    ensures
        r@ == joined(params@.map_values(|s: String| s@)),
{
    let ghost ps = params@.map_values(|s: String| s@);
    let mut r = String::new();
    let mut i: usize = 0;
    while i < params.len()
        invariant
            ps == params@.map_values(|s: String| s@),
            0 <= i <= params@.len(),
            r@ == joined(ps.subrange(0, i as int)),
        decreases params@.len() - i,
    {
        if i > 0 {
            push_char(&mut r, ' ');
        }
        let piece = chars_of(params[i].as_str());
        let mut k: usize = 0;
        let ghost base = r@;
        while k < piece.len()
            invariant
                0 <= k <= piece@.len(),
                r@ == base + piece@.subrange(0, k as int),
            decreases piece@.len() - k,
        {
            push_char(&mut r, piece[k]);
            assert(base + piece@.subrange(0, k + 1) =~= (base + piece@.subrange(0, k as int)).push(piece@[k as int]));
            k = k + 1;
        }
        proof {
            assert(piece@.subrange(0, k as int) =~= piece@);
            let q = ps.subrange(0, i + 1);
            assert(q.drop_last() =~= ps.subrange(0, i as int));
            assert(q.last() == ps[i as int]);
            if i == 0 {
                assert(r@ =~= joined(q));
            } else {
                assert(r@ =~= joined(q));
            }
        }
        i = i + 1;
    }
    assert(ps.subrange(0, i as int) =~= ps);
    r
}

/// The lines of a text as `str::lines` gives them: split at `\n`, a `\r` before it dropped,
/// no line after a final `\n`.
pub open spec fn text_lines(s: Seq<char>) -> Seq<Seq<char>> {
    let parts = split_on(s, '\n');
    let kept = if parts.last().len() == 0 { parts.drop_last() } else { parts };
    kept.map_values(|l: Seq<char>| if l.len() > 0 && l.last() == '\r' { l.drop_last() } else { l })
}

/// A character that may start a setting's name.
pub open spec fn is_key_start(c: char) -> bool {
    ('A' <= c && c <= 'Z') || c == '_'
}

/// A character that may continue a setting's name.
pub open spec fn is_key_char(c: char) -> bool {
    ('A' <= c && c <= 'Z') || ('0' <= c && c <= '9') || c == '_'
}

/// The end of the run of name characters that starts at `i`.
pub open spec fn key_end(s: Seq<char>, i: int) -> int
    decreases s.len() - i,
{
    if 0 <= i < s.len() && is_key_char(s[i]) {
        key_end(s, i + 1)
    } else {
        i
    }
}

/// The setting that a trimmed line assigns, as far as `NAME =` goes: the name and the index
/// just after the `=`.
pub open spec fn assignment_head(t: Seq<char>) -> Option<(Seq<char>, int)> {
    let e = key_end(t, 1);
    let q = spaces_end(t, e);
    if t.len() > 0 && is_key_start(t[0]) && q < t.len() && t[q] == '=' {
        Some((t.subrange(0, e), q + 1))
    } else {
        None
    }
}

/// `s` without the leading and trailing copies of `c`, as `str::trim_matches` gives it.
pub open spec fn strip_char(s: Seq<char>, c: char) -> Seq<char>
    decreases s.len(),
{
    if s.len() > 0 && s[0] == c {
        strip_char(s.drop_first(), c)
    } else if s.len() > 0 && s.last() == c {
        strip_char(s.drop_last(), c)
    } else {
        s
    }
}

/// The setting that a line of the settings file assigns: name and unquoted value. Blank
/// lines, comments and lines without `NAME=value` assign nothing.
pub open spec fn setting_of_line(line: Seq<char>) -> Option<(Seq<char>, Seq<char>)> {
    let t = trimmed(line);
    match assignment_head(t) {
        Some((k, after)) => {
            let v0 = t.subrange(spaces_end(t, after), t.len() as int);
            if t[0] != '#' && v0.len() > 0 {
                Some((k, trimmed(strip_char(strip_char(v0, '"'), '\''))))
            } else {
                None
            }
        },
        None => None,
    }
}

/// The index of the first setting named `k` (`ps.len()` if none).
pub open spec fn key_index(ps: Seq<(Seq<char>, Seq<char>)>, k: Seq<char>) -> int
    decreases ps.len(),
{
    if ps.len() == 0 {
        0
    } else if key_index(ps.drop_last(), k) < ps.len() - 1 {
        key_index(ps.drop_last(), k)
    } else if ps.last().0 == k {
        ps.len() - 1
    } else {
        ps.len() as int
    }
}

/// The value of the setting named `k`, if any.
pub open spec fn lookup(ps: Seq<(Seq<char>, Seq<char>)>, k: Seq<char>) -> Option<Seq<char>> {
    let j = key_index(ps, k);
    if j < ps.len() { Some(ps[j].1) } else { None }
}

/// The settings after setting `k` to `v`: its value replaced in place, or appended.
pub open spec fn assign(ps: Seq<(Seq<char>, Seq<char>)>, k: Seq<char>, v: Seq<char>) -> Seq<(Seq<char>, Seq<char>)> {
    let j = key_index(ps, k);
    if j < ps.len() { ps.update(j, (k, v)) } else { ps.push((k, v)) }
}

/// The settings assigned by `lines`, in order of first appearance, later values winning.
pub open spec fn settings_of_lines(lines: Seq<Seq<char>>) -> Seq<(Seq<char>, Seq<char>)>
    decreases lines.len(),
{
    if lines.len() == 0 {
        Seq::empty()
    } else {
        let ps = settings_of_lines(lines.drop_last());
        match setting_of_line(lines.last()) {
            Some((k, v)) => assign(ps, k, v),
            None => ps,
        }
    }
}

/// The settings held as pairs of strings.
pub open spec fn pairs_view(v: Seq<(String, String)>) -> Seq<(Seq<char>, Seq<char>)> {
    v.map_values(|p: (String, String)| (p.0@, p.1@))
}

/// `GRUB_TIMEOUT`.
pub open spec fn timeout_key() -> Seq<char> {
    seq!['G', 'R', 'U', 'B', '_', 'T', 'I', 'M', 'E', 'O', 'U', 'T']
}

/// `GRUB_TIMEOUT_STYLE`.
pub open spec fn timeout_style_key() -> Seq<char> {
    timeout_key() + seq!['_', 'S', 'T', 'Y', 'L', 'E']
}

/// `GRUB_DEFAULT`.
pub open spec fn default_key() -> Seq<char> {
    seq!['G', 'R', 'U', 'B', '_', 'D', 'E', 'F', 'A', 'U', 'L', 'T']
}

/// `GRUB_CMDLINE_LINUX`.
pub open spec fn cmdline_key() -> Seq<char> {
    seq!['G', 'R', 'U', 'B', '_', 'C', 'M', 'D', 'L', 'I', 'N', 'E', '_', 'L', 'I', 'N', 'U', 'X']
}

/// `GRUB_CMDLINE_LINUX_DEFAULT`.
pub open spec fn cmdline_default_key() -> Seq<char> {
    cmdline_key() + seq!['_', 'D', 'E', 'F', 'A', 'U', 'L', 'T']
}

/// The settings of a file's text, with a timeout of `5` and the `menu` style when the file
/// sets none.
pub open spec fn settings_of_text(text: Seq<char>) -> Seq<(Seq<char>, Seq<char>)> {
    let ps = settings_of_lines(text_lines(text));
    let ps1 = if lookup(ps, timeout_key()) is Some { ps } else { ps.push((timeout_key(), seq!['5'])) };
    if lookup(ps1, timeout_style_key()) is Some { ps1 } else { ps1.push((timeout_style_key(), seq!['m', 'e', 'n', 'u'])) }
}

/// A value, or the empty text.
pub open spec fn or_empty(v: Option<Seq<char>>) -> Seq<char> {
    match v {
        Some(x) => x,
        None => Seq::empty(),
    }
}

/// The settings of `/etc/default/grub`, with the most used ones also held in fields of their own.
pub struct GrubConfig {
    pub params: Vec<(String, String)>,
    pub grub_default: String,
    pub grub_cmdline_linux: String,
    pub grub_cmdline_linux_default: String,
    pub grub_timeout: String,
    pub grub_timeout_style: String,
}

impl GrubConfig {
    /// The settings as name/value texts.
    pub open spec fn settings(&self) -> Seq<(Seq<char>, Seq<char>)> {
        pairs_view(self.params@)
    }

    /// Names are unique and each own field holds the value of its setting.
    pub open spec fn wf(&self) -> bool {
        let ps = self.settings();
        &&& forall|i: int, j: int| 0 <= i < j < ps.len() ==> (#[trigger] ps[i]).0 != (#[trigger] ps[j]).0
        &&& self.grub_default@ == or_empty(lookup(ps, default_key()))
        &&& self.grub_cmdline_linux@ == or_empty(lookup(ps, cmdline_key()))
        &&& self.grub_cmdline_linux_default@ == or_empty(lookup(ps, cmdline_default_key()))
        &&& self.grub_timeout@ == or_empty(lookup(ps, timeout_key()))
        &&& self.grub_timeout_style@ == or_empty(lookup(ps, timeout_style_key()))
    }
}

/// Finds the setting named `key`.
pub(crate) fn find_key(ps: &Vec<(String, String)>, key: &str) -> (r: usize)
    ensures
        r as int == key_index(pairs_view(ps@), key@),
        r <= ps@.len(),
{
    proof {
        lemma_key_index(pairs_view(ps@), key@);
    }
    let ghost v = pairs_view(ps@);
    let mut i: usize = 0;
    while i < ps.len()
        invariant
            0 <= i <= ps@.len(),
            v == pairs_view(ps@),
            key_index(v.subrange(0, i as int), key@) == i,
        decreases ps@.len() - i,
    {
        let ghost pre = v.subrange(0, i as int);
        assert(v.subrange(0, i + 1).drop_last() =~= pre);
        if same_text(ps[i].0.as_str(), key) {
            proof {
                lemma_key_index_prefix(v, key@, i as int);
            }
            return i;
        }
        i = i + 1;
    }
    assert(v.subrange(0, i as int) =~= v);
    i
}

/// The first match in a prefix that holds one is the first match of the whole.
proof fn lemma_key_index_prefix(v: Seq<(Seq<char>, Seq<char>)>, k: Seq<char>, i: int)
    requires
        0 <= i < v.len(),
        key_index(v.subrange(0, i), k) == i,
        v[i].0 == k,
    ensures
        key_index(v, k) == i,
    decreases v.len() - i,
{
    if i + 1 < v.len() {
        lemma_key_index_prefix_grow(v, k, i, i + 1);
        assert(v.subrange(0, v.len() as int) =~= v);
        lemma_key_index_prefix_grow(v, k, i, v.len() as int);
    } else {
        let p = v.subrange(0, i + 1);
        assert(p.drop_last() =~= v.subrange(0, i));
        assert(p =~= v);
    }
}

/// Once a prefix holds a match, longer prefixes find the same one.
proof fn lemma_key_index_prefix_grow(v: Seq<(Seq<char>, Seq<char>)>, k: Seq<char>, i: int, n: int)
    requires
        0 <= i < n <= v.len(),
        key_index(v.subrange(0, i), k) == i,
        v[i].0 == k,
    ensures
        key_index(v.subrange(0, n), k) == i,
    decreases n - i,
{
    let p = v.subrange(0, n);
    if n == i + 1 {
        assert(p.drop_last() =~= v.subrange(0, i));
    } else {
        lemma_key_index_prefix_grow(v, k, i, n - 1);
        assert(p.drop_last() =~= v.subrange(0, n - 1));
    }
}

/// `key_index` is the first index holding `k`.
proof fn lemma_key_index(ps: Seq<(Seq<char>, Seq<char>)>, k: Seq<char>)
    ensures
        0 <= key_index(ps, k) <= ps.len(),
        key_index(ps, k) < ps.len() ==> ps[key_index(ps, k)].0 == k,
        forall|i: int| 0 <= i < key_index(ps, k) ==> (#[trigger] ps[i]).0 != k,
    decreases ps.len(),
{
    if ps.len() > 0 {
        lemma_key_index(ps.drop_last(), k);
        let j = key_index(ps.drop_last(), k);
        assert forall|i: int| 0 <= i < key_index(ps, k) implies (#[trigger] ps[i]).0 != k by {
            if i < ps.len() - 1 {
                assert(ps[i] == ps.drop_last()[i]);
            }
        }
    }
}

/// Any index that is first to hold `k` (or the end, when none does) is `key_index`.
proof fn lemma_key_index_is(ps: Seq<(Seq<char>, Seq<char>)>, k: Seq<char>, j: int)
    requires
        0 <= j <= ps.len(),
        j < ps.len() ==> ps[j].0 == k,
        forall|i: int| 0 <= i < j ==> (#[trigger] ps[i]).0 != k,
    ensures
        key_index(ps, k) == j,
{
    lemma_key_index(ps, k);
    let m = key_index(ps, k);
    if m < j {
        assert(ps[m].0 != k);
    } else if j < m {
        assert(ps[j].0 != k);
    }
}

/// Names stay unique after an assignment, which changes the value of its name only.
proof fn lemma_assign(ps: Seq<(Seq<char>, Seq<char>)>, k: Seq<char>, v: Seq<char>)
    requires
        forall|i: int, j: int| 0 <= i < j < ps.len() ==> (#[trigger] ps[i]).0 != (#[trigger] ps[j]).0,
    ensures
        forall|i: int, j: int| 0 <= i < j < assign(ps, k, v).len() ==> (#[trigger] assign(ps, k, v)[i]).0 != (#[trigger] assign(ps, k, v)[j]).0,
        lookup(assign(ps, k, v), k) == Some(v),
        forall|k2: Seq<char>| k2 != k ==> #[trigger] lookup(assign(ps, k, v), k2) == lookup(ps, k2),
{
    lemma_key_index(ps, k);
    let j = key_index(ps, k);
    let qs = assign(ps, k, v);
    assert forall|a: int, b: int| 0 <= a < b < qs.len() implies (#[trigger] qs[a]).0 != (#[trigger] qs[b]).0 by {
        if j < ps.len() {
            if a != j && b != j {
                assert(qs[a] == ps[a] && qs[b] == ps[b]);
            } else if a == j {
                assert(qs[b] == ps[b]);
                assert(ps[j].0 != ps[b].0);
            } else {
                assert(qs[a] == ps[a]);
                assert(ps[a].0 != ps[j].0);
            }
        } else {
            if b == ps.len() {
                assert(qs[a] == ps[a]);
            } else {
                assert(qs[a] == ps[a] && qs[b] == ps[b]);
            }
        }
    }
    assert forall|i: int| 0 <= i < j implies (#[trigger] qs[i]).0 != k by {
        assert(qs[i] == ps[i]);
    }
    lemma_key_index_is(qs, k, j);
    assert forall|k2: Seq<char>| k2 != k implies #[trigger] lookup(qs, k2) == lookup(ps, k2) by {
        lemma_key_index(ps, k2);
        let j2 = key_index(ps, k2);
        assert forall|i: int| 0 <= i < j2 implies (#[trigger] qs[i]).0 != k2 by {
            if i != j || j == ps.len() {
                assert(qs[i] == ps[i]);
            }
        }
        if j2 < ps.len() {
            assert(j2 != j);
            assert(qs[j2] == ps[j2]);
            lemma_key_index_is(qs, k2, j2);
        } else {
            if j < ps.len() {
                assert forall|i: int| 0 <= i < qs.len() implies (#[trigger] qs[i]).0 != k2 by {
                    if i != j {
                        assert(qs[i] == ps[i]);
                    }
                }
                lemma_key_index_is(qs, k2, qs.len() as int);
            } else {
                assert(qs[ps.len() as int].0 == k);
                lemma_key_index_is(qs, k2, qs.len() as int);
            }
        }
    }
}

/// Sets `key` to `value` in a list of settings with unique names.
pub(crate) fn assign_in(ps: &mut Vec<(String, String)>, key: &str, value: String)
    requires
        forall|i: int, j: int| 0 <= i < j < pairs_view(old(ps)@).len()
            ==> (#[trigger] pairs_view(old(ps)@)[i]).0 != (#[trigger] pairs_view(old(ps)@)[j]).0,
    ensures
        pairs_view(final(ps)@) == assign(pairs_view(old(ps)@), key@, value@),
        forall|i: int, j: int| 0 <= i < j < pairs_view(final(ps)@).len()
            ==> (#[trigger] pairs_view(final(ps)@)[i]).0 != (#[trigger] pairs_view(final(ps)@)[j]).0,
        lookup(pairs_view(final(ps)@), key@) == Some(value@),
        forall|k2: Seq<char>| k2 != key@ ==> #[trigger] lookup(pairs_view(final(ps)@), k2) == lookup(pairs_view(old(ps)@), k2),
{
    let ghost v0 = pairs_view(ps@);
    proof {
        lemma_assign(v0, key@, value@);
    }
    let j = find_key(ps, key);
    let k = key.to_string();
    if j < ps.len() {
        ps.set(j, (k, value));
    } else {
        ps.push((k, value));
    }
    assert(pairs_view(ps@) =~= assign(v0, key@, value@));
}

impl GrubConfig {
    /// The value of the setting `key`, if the file sets it.
    pub fn get(&self, key: &str) -> (r: Option<&String>)
        ensures
            match r {
                Some(v) => lookup(self.settings(), key@) == Some(v@),
                None => lookup(self.settings(), key@) is None,
            },
    {
        let j = find_key(&self.params, key);
        if j < self.params.len() {
            Some(&self.params[j].1)
        } else {
            None
        }
    }

    /// All settings, in the order the file first sets them.
    pub fn get_all_params(&self) -> (r: &Vec<(String, String)>)
        ensures
            pairs_view(r@) == self.settings(),
    {
        &self.params
    }

    /// Sets `key` to `value`, in place when the file sets it already, else at the end; the
    /// matching own field follows.
    pub fn set(&mut self, key: &str, value: String)
        requires
            old(self).wf(),
        ensures
            final(self).wf(),
            final(self).settings() == assign(old(self).settings(), key@, value@),
    {
        let v = value.clone();
        assign_in(&mut self.params, key, value);
        proof {
            reveal_strlit("GRUB_DEFAULT");
            reveal_strlit("GRUB_CMDLINE_LINUX");
            reveal_strlit("GRUB_CMDLINE_LINUX_DEFAULT");
            reveal_strlit("GRUB_TIMEOUT");
            reveal_strlit("GRUB_TIMEOUT_STYLE");
            assert("GRUB_DEFAULT"@ =~= default_key());
            assert("GRUB_CMDLINE_LINUX"@ =~= cmdline_key());
            assert("GRUB_CMDLINE_LINUX_DEFAULT"@ =~= cmdline_default_key());
            assert("GRUB_TIMEOUT"@ =~= timeout_key());
            assert("GRUB_TIMEOUT_STYLE"@ =~= timeout_style_key());
        }
        if same_text(key, "GRUB_DEFAULT") {
            self.grub_default = v;
        } else if same_text(key, "GRUB_CMDLINE_LINUX") {
            self.grub_cmdline_linux = v;
        } else if same_text(key, "GRUB_CMDLINE_LINUX_DEFAULT") {
            self.grub_cmdline_linux_default = v;
        } else if same_text(key, "GRUB_TIMEOUT") {
            self.grub_timeout = v;
        } else if same_text(key, "GRUB_TIMEOUT_STYLE") {
            self.grub_timeout_style = v;
        }
    }
}

fn strip_range(s: &Vec<char>, lo: usize, hi: usize, c: char) -> (r: (usize, usize))
    requires
        lo <= hi <= s@.len(),
    ensures
        r.0 <= r.1 <= s@.len(),
        s@.subrange(r.0 as int, r.1 as int) == strip_char(s@.subrange(lo as int, hi as int), c),
    decreases hi - lo,
{
    let ghost t = s@.subrange(lo as int, hi as int);
    if lo < hi && s[lo] == c {
        assert(t.drop_first() =~= s@.subrange(lo + 1, hi as int));
        strip_range(s, lo + 1, hi, c)
    } else if lo < hi && s[hi - 1] == c {
        assert(t.drop_last() =~= s@.subrange(lo as int, hi - 1));
        assert(t.last() == s@[hi - 1]);
        strip_range(s, lo, hi - 1, c)
    } else {
        (lo, hi)
    }
}

/// `v` without the leading and trailing copies of `c`.
pub(crate) fn strip_chars(v: &Vec<char>, c: char) -> (r: Vec<char>)
    ensures
        r@ == strip_char(v@, c),
{
    let (a, b) = strip_range(v, 0, v.len(), c);
    assert(v@.subrange(0, v@.len() as int) =~= v@);
    copy_range(v, a, b)
}

fn key_end_exec(s: &Vec<char>, i: usize) -> (r: usize)
    requires
        i <= s@.len(),
    ensures
        i <= r <= s@.len(),
        r == key_end(s@, i as int),
{
    let mut j = i;
    while j < s.len() && (('A' <= s[j] && s[j] <= 'Z') || ('0' <= s[j] && s[j] <= '9') || s[j] == '_')
        invariant
            i <= j <= s@.len(),
            key_end(s@, i as int) == key_end(s@, j as int),
        decreases s@.len() - j,
    {
        j = j + 1;
    }
    j
}

/// The setting that one line of the settings file assigns.
pub fn parse_setting_line(line: &Vec<char>) -> (r: Option<(String, String)>)
    ensures
        match r {
            Some((k, v)) => setting_of_line(line@) == Some((k@, v@)),
            None => setting_of_line(line@) is None,
        },
{
    let t = trim_chars(line);
    if t.len() == 0 || !(('A' <= t[0] && t[0] <= 'Z') || t[0] == '_') {
        return None;
    }
    let e = key_end_exec(&t, 1);
    let q = skip_spaces(&t, e);
    if q >= t.len() || t[q] != '=' {
        return None;
    }
    let vs = skip_spaces(&t, q + 1);
    if vs >= t.len() {
        return None;
    }
    let v0 = copy_range(&t, vs, t.len());
    let v1 = strip_chars(&v0, '"');
    let v2 = strip_chars(&v1, '\'');
    let v3 = trim_chars(&v2);
    let k = string_of_range(&t, 0, e);
    let v = string_of_range(&v3, 0, v3.len());
    assert(v3@.subrange(0, v3@.len() as int) =~= v3@);
    Some((k, v))
}

impl GrubConfig {
    /// The settings that the text of a settings file assigns, in order of first assignment,
    /// later values winning, with a timeout of `5` and the `menu` style when unset.
    pub fn from_text(text: &str) -> (r: GrubConfig)
        ensures
            r.wf(),
            r.settings() == settings_of_text(text@),
    {
        let cs = chars_of(text);
        let mut ps: Vec<(String, String)> = Vec::new();
        let mut start: usize = 0;
        let mut i: usize = 0;
        let ghost mut done: Seq<Seq<char>> = Seq::empty();
        assert(cs@.subrange(0, 0) =~= Seq::<char>::empty());
        assert(split_on(Seq::<char>::empty(), '\n') =~= done.push(Seq::<char>::empty()));
        while i < cs.len()
            invariant
                0 <= start <= i <= cs@.len(),
                split_on(cs@.subrange(0, i as int), '\n') == done.push(cs@.subrange(start as int, i as int)),
                pairs_view(ps@) == settings_of_lines(done.map_values(|l: Seq<char>| if l.len() > 0 && l.last() == '\r' { l.drop_last() } else { l })),
                forall|a: int, b: int| 0 <= a < b < pairs_view(ps@).len() ==> (#[trigger] pairs_view(ps@)[a]).0 != (#[trigger] pairs_view(ps@)[b]).0,
            decreases cs@.len() - i,
        {
            let ghost pre = cs@.subrange(0, i as int);
            assert(cs@.subrange(0, i + 1).drop_last() =~= pre);
            if cs[i] == '\n' {
                let end = if i > start && cs[i - 1] == '\r' { i - 1 } else { i };
                let line = copy_range(&cs, start, end);
                let ghost cur = cs@.subrange(start as int, i as int);
                let ghost old_ps = pairs_view(ps@);
                proof {
                    if i > start && cs@[i - 1] == '\r' {
                        assert(cur.drop_last() =~= line@);
                    } else {
                        assert(cur =~= line@);
                    }
                }
                match parse_setting_line(&line) {
                    Some((k, v)) => assign_in(&mut ps, k.as_str(), v),
                    None => {},
                }
                proof {
                    let f = |l: Seq<char>| if l.len() > 0 && l.last() == '\r' { l.drop_last() } else { l };
                    assert(done.push(cur).map_values(f).drop_last() =~= done.map_values(f));
                    assert(done.push(cur).map_values(f).last() == line@);
                    done = done.push(cur);
                    assert(cs@.subrange(i + 1, i + 1) =~= Seq::<char>::empty());
                }
                start = i + 1;
            } else {
                proof {
                    let cur = cs@.subrange(start as int, i as int);
                    assert(cs@.subrange(start as int, i + 1) =~= cur.push(cs@[i as int]));
                    assert(done.push(cur).update(done.len() as int, cur.push(cs@[i as int]))
                        =~= done.push(cs@.subrange(start as int, i + 1)));
                }
            }
            i = i + 1;
        }
        let ghost cur = cs@.subrange(start as int, i as int);
        assert(cs@.subrange(0, i as int) =~= text@);
        if start < i {
            let end = if cs[i - 1] == '\r' { i - 1 } else { i };
            let line = copy_range(&cs, start, end);
            proof {
                if cs@[i - 1] == '\r' {
                    assert(cur.drop_last() =~= line@);
                } else {
                    assert(cur =~= line@);
                }
            }
            match parse_setting_line(&line) {
                Some((k, v)) => assign_in(&mut ps, k.as_str(), v),
                None => {},
            }
            proof {
                let f = |l: Seq<char>| if l.len() > 0 && l.last() == '\r' { l.drop_last() } else { l };
                assert(done.push(cur).map_values(f).drop_last() =~= done.map_values(f));
                assert(done.push(cur).map_values(f).last() == line@);
                assert(text_lines(text@) =~= done.push(cur).map_values(f));
            }
        } else {
            proof {
                let f = |l: Seq<char>| if l.len() > 0 && l.last() == '\r' { l.drop_last() } else { l };
                assert(done.push(cur).drop_last() =~= done);
                assert(text_lines(text@) =~= done.map_values(f));
            }
        }
        proof {
            reveal_strlit("GRUB_DEFAULT");
            reveal_strlit("GRUB_CMDLINE_LINUX");
            reveal_strlit("GRUB_CMDLINE_LINUX_DEFAULT");
            reveal_strlit("GRUB_TIMEOUT");
            reveal_strlit("GRUB_TIMEOUT_STYLE");
            reveal_strlit("5");
            reveal_strlit("menu");
            assert("GRUB_DEFAULT"@ =~= default_key());
            assert("GRUB_CMDLINE_LINUX"@ =~= cmdline_key());
            assert("GRUB_CMDLINE_LINUX_DEFAULT"@ =~= cmdline_default_key());
            assert("GRUB_TIMEOUT"@ =~= timeout_key());
            assert("GRUB_TIMEOUT_STYLE"@ =~= timeout_style_key());
            assert("5"@ =~= seq!['5']);
            assert("menu"@ =~= seq!['m', 'e', 'n', 'u']);
        }
        let ghost ps0 = pairs_view(ps@);
        if find_key(&ps, "GRUB_TIMEOUT") == ps.len() {
            assign_in(&mut ps, "GRUB_TIMEOUT", "5".to_string());
            assert(pairs_view(ps@) == ps0.push((timeout_key(), seq!['5'])));
        }
        let ghost ps1 = pairs_view(ps@);
        if find_key(&ps, "GRUB_TIMEOUT_STYLE") == ps.len() {
            assign_in(&mut ps, "GRUB_TIMEOUT_STYLE", "menu".to_string());
            assert(pairs_view(ps@) == ps1.push((timeout_style_key(), seq!['m', 'e', 'n', 'u'])));
        }
        let mut cfg = GrubConfig {
            params: ps,
            grub_default: String::new(),
            grub_cmdline_linux: String::new(),
            grub_cmdline_linux_default: String::new(),
            grub_timeout: String::new(),
            grub_timeout_style: String::new(),
        };
        cfg.grub_default = match cfg.get("GRUB_DEFAULT") { Some(v) => v.clone(), None => String::new() };
        cfg.grub_cmdline_linux = match cfg.get("GRUB_CMDLINE_LINUX") { Some(v) => v.clone(), None => String::new() };
        cfg.grub_cmdline_linux_default = match cfg.get("GRUB_CMDLINE_LINUX_DEFAULT") { Some(v) => v.clone(), None => String::new() };
        cfg.grub_timeout = match cfg.get("GRUB_TIMEOUT") { Some(v) => v.clone(), None => String::new() };
        cfg.grub_timeout_style = match cfg.get("GRUB_TIMEOUT_STYLE") { Some(v) => v.clone(), None => String::new() };
        cfg
    }
}

/// Mapping commutes with appending.
pub proof fn lemma_map_push<A, B>(s: Seq<A>, x: A, f: spec_fn(A) -> B)
    ensures
        s.push(x).map_values(f) == s.map_values(f).push(f(x)),
{
    assert(s.push(x).map_values(f) =~= s.map_values(f).push(f(x)));
}

/// The lines of a text, as `str::lines` gives them.
pub fn split_lines(text: &str) -> (r: Vec<String>)
    ensures
        texts(r@) == text_lines(text@),
{
    let cs = chars_of(text);
    let mut out: Vec<String> = Vec::new();
    let mut start: usize = 0;
    let mut i: usize = 0;
    let ghost mut done: Seq<Seq<char>> = Seq::empty();
    let ghost f = |l: Seq<char>| if l.len() > 0 && l.last() == '\r' { l.drop_last() } else { l };
    assert(cs@.subrange(0, 0) =~= Seq::<char>::empty());
    assert(split_on(Seq::<char>::empty(), '\n') =~= done.push(Seq::<char>::empty()));
    assert(texts(out@) =~= done.map_values(f));
    while i < cs.len()
        invariant
            0 <= start <= i <= cs@.len(),
            f == (|l: Seq<char>| if l.len() > 0 && l.last() == '\r' { l.drop_last() } else { l }),
            split_on(cs@.subrange(0, i as int), '\n') == done.push(cs@.subrange(start as int, i as int)),
            texts(out@) == done.map_values(f),
        decreases cs@.len() - i,
    {
        assert(cs@.subrange(0, i + 1).drop_last() =~= cs@.subrange(0, i as int));
        if cs[i] == '\n' {
            let end = if i > start && cs[i - 1] == '\r' { i - 1 } else { i };
            let line = string_of_range(&cs, start, end);
            let ghost cur = cs@.subrange(start as int, i as int);
            proof {
                if i > start && cs@[i - 1] == '\r' {
                    assert(cur.drop_last() =~= line@);
                } else {
                    assert(cur =~= line@);
                }
            }
            let ghost before = out@;
            out.push(line);
            proof {
                lemma_map_push(before, line, |s: String| s@);
                lemma_map_push(done, cur, f);
                assert(texts(out@) == texts(before).push(line@));
                assert(texts(out@) =~= done.push(cur).map_values(f));
                done = done.push(cur);
                assert(cs@.subrange(i + 1, i + 1) =~= Seq::<char>::empty());
            }
            start = i + 1;
        } else {
            proof {
                let cur = cs@.subrange(start as int, i as int);
                assert(cs@.subrange(start as int, i + 1) =~= cur.push(cs@[i as int]));
                assert(done.push(cur).update(done.len() as int, cur.push(cs@[i as int]))
                    =~= done.push(cs@.subrange(start as int, i + 1)));
            }
        }
        i = i + 1;
    }
    let ghost cur = cs@.subrange(start as int, i as int);
    assert(cs@.subrange(0, i as int) =~= text@);
    if start < i {
        let end = if cs[i - 1] == '\r' { i - 1 } else { i };
        let line = string_of_range(&cs, start, end);
        proof {
            if cs@[i - 1] == '\r' {
                assert(cur.drop_last() =~= line@);
            } else {
                assert(cur =~= line@);
            }
        }
        let ghost before = out@;
        out.push(line);
        proof {
            lemma_map_push(before, line, |s: String| s@);
            lemma_map_push(done, cur, f);
            assert(texts(out@) == texts(before).push(line@));
        }
        assert(texts(out@) =~= done.push(cur).map_values(f));
        assert(text_lines(text@) =~= done.push(cur).map_values(f));
    } else {
        assert(done.push(cur).drop_last() =~= done);
        assert(text_lines(text@) =~= done.map_values(f));
    }
    out
}

/// The name that a line of the file assigns, when the line is neither blank nor a comment.
pub open spec fn line_key(line: Seq<char>) -> Option<Seq<char>> {
    let t = trimmed(line);
    if t.len() > 0 && t[0] != '#' {
        match assignment_head(t) {
            Some((k, _)) => Some(k),
            None => None,
        }
    } else {
        None
    }
}

/// The kernel command lines are written between double quotes.
pub open spec fn quoted_key(k: Seq<char>) -> bool {
    k == cmdline_key() || k == cmdline_default_key()
}

/// The line that writes setting `k` with value `v`.
pub open spec fn setting_line(k: Seq<char>, v: Seq<char>) -> Seq<char> {
    if quoted_key(k) { k + seq!['=', '"'] + v + seq!['"'] } else { k + seq!['='] + v }
}

/// A line of the file with its value replaced when it assigns a known setting.
pub open spec fn rewritten(line: Seq<char>, ps: Seq<(Seq<char>, Seq<char>)>) -> Seq<char> {
    match line_key(line) {
        Some(k) => match lookup(ps, k) {
            Some(v) => setting_line(k, v),
            None => line,
        },
        None => line,
    }
}

/// Some line assigns `k`.
pub open spec fn mentions(lines: Seq<Seq<char>>, k: Seq<char>) -> bool {
    exists|i: int| 0 <= i < lines.len() && #[trigger] line_key(lines[i]) == Some(k)
}

/// The lines for the settings that no line of the file assigns, in order.
pub open spec fn added_lines(ps: Seq<(Seq<char>, Seq<char>)>, lines: Seq<Seq<char>>) -> Seq<Seq<char>>
    decreases ps.len(),
{
    if ps.len() == 0 {
        Seq::empty()
    } else {
        let r = added_lines(ps.drop_last(), lines);
        if mentions(lines, ps.last().0) { r } else { r.push(setting_line(ps.last().0, ps.last().1)) }
    }
}

/// Each line followed by a newline.
pub open spec fn with_newlines(ls: Seq<Seq<char>>) -> Seq<char>
    decreases ls.len(),
{
    if ls.len() == 0 { Seq::empty() } else { with_newlines(ls.drop_last()) + ls.last() + seq!['\n'] }
}

/// The file's new text: its lines with known settings rewritten, then lines for the
/// settings it did not assign, each line ended by a newline.
pub open spec fn rendered(content: Seq<char>, ps: Seq<(Seq<char>, Seq<char>)>) -> Seq<char> {
    let lines = text_lines(content);
    let all = lines.map_values(|l: Seq<char>| rewritten(l, ps)) + added_lines(ps, lines);
    if all.len() == 0 { seq!['\n'] } else { with_newlines(all) }
}

/// The name that a line assigns, if it is neither blank nor a comment.
fn line_key_of(line: &str) -> (r: Option<String>)
    ensures
        match r {
            Some(k) => line_key(line@) == Some(k@),
            None => line_key(line@) is None,
        },
{
    let l = chars_of(line);
    let t = trim_chars(&l);
    if t.len() == 0 || t[0] == '#' || !(('A' <= t[0] && t[0] <= 'Z') || t[0] == '_') {
        return None;
    }
    let e = key_end_exec(&t, 1);
    let q = skip_spaces(&t, e);
    if q >= t.len() || t[q] != '=' {
        return None;
    }
    Some(string_of_range(&t, 0, e))
}

fn setting_line_of(k: &str, v: &str) -> (r: String)
    ensures
        r@ == setting_line(k@, v@),
{
    proof {
        reveal_strlit("GRUB_CMDLINE_LINUX");
        reveal_strlit("GRUB_CMDLINE_LINUX_DEFAULT");
        assert("GRUB_CMDLINE_LINUX"@ =~= cmdline_key());
        assert("GRUB_CMDLINE_LINUX_DEFAULT"@ =~= cmdline_default_key());
    }
    let mut r = concat_text(k, "");
    proof {
        reveal_strlit("");
    }
    assert(r@ =~= k@);
    push_char(&mut r, '=');
    if same_text(k, "GRUB_CMDLINE_LINUX") || same_text(k, "GRUB_CMDLINE_LINUX_DEFAULT") {
        push_char(&mut r, '"');
        let mut r2 = concat_text(r.as_str(), v);
        push_char(&mut r2, '"');
        assert(r2@ =~= setting_line(k@, v@));
        r2
    } else {
        let r2 = concat_text(r.as_str(), v);
        assert(r2@ =~= setting_line(k@, v@));
        r2
    }
}

impl GrubConfig {
    /// The new text of the settings file whose current text is `content`: lines that assign a
    /// known setting get its value, settings no line assigns are appended.
    pub fn render(&self, content: &str) -> (r: String)
        ensures
            r@ == rendered(content@, self.settings()),
    {
        let ghost ps = self.settings();
        let lines = split_lines(content);
        let ghost ls = text_lines(content@);
        let mut keys: Vec<Option<String>> = Vec::new();
        let mut out: Vec<String> = Vec::new();
        let mut i: usize = 0;
        while i < lines.len()
            invariant
                ps == self.settings(),
                texts(lines@) == ls,
                0 <= i <= lines@.len(),
                keys@.len() == i,
                forall|j: int| 0 <= j < i ==> #[trigger] line_key(ls[j]) == (match keys@[j] { Some(k) => Some(k@), None => None }),
                texts(out@) == ls.subrange(0, i as int).map_values(|l: Seq<char>| rewritten(l, ps)),
            decreases lines@.len() - i,
        {
            let line = &lines[i];
            assert(line@ == ls[i as int]);
            let k = line_key_of(line.as_str());
            let new_line = match &k {
                Some(name) => match self.get(name.as_str()) {
                    Some(v) => setting_line_of(name.as_str(), v.as_str()),
                    None => line.clone(),
                },
                None => line.clone(),
            };
            keys.push(k);
            let ghost before = out@;
            out.push(new_line);
            proof {
                lemma_map_push(before, new_line, |s: String| s@);
                assert(ls.subrange(0, i + 1) =~= ls.subrange(0, i as int).push(ls[i as int]));
                lemma_map_push(ls.subrange(0, i as int), ls[i as int], |l: Seq<char>| rewritten(l, ps));
            }
            i = i + 1;
        }
        assert(ls.subrange(0, i as int) =~= ls);
        let ghost first = texts(out@);
        let mut j: usize = 0;
        while j < self.params.len()
            invariant
                ps == self.settings(),
                texts(lines@) == ls,
                keys@.len() == ls.len(),
                forall|m: int| 0 <= m < ls.len() ==> #[trigger] line_key(ls[m]) == (match keys@[m] { Some(k) => Some(k@), None => None }),
                0 <= j <= ps.len(),
                texts(out@) == first + added_lines(ps.subrange(0, j as int), ls),
            decreases ps.len() - j,
        {
            let name = &self.params[j].0;
            let mut seen = false;
            let mut m: usize = 0;
            while m < keys.len() && !seen
                invariant
                    keys@.len() == ls.len(),
                    forall|x: int| 0 <= x < ls.len() ==> #[trigger] line_key(ls[x]) == (match keys@[x] { Some(k) => Some(k@), None => None }),
                    0 <= m <= keys@.len(),
                    seen ==> mentions(ls, name@),
                    !seen ==> forall|x: int| 0 <= x < m ==> #[trigger] line_key(ls[x]) != Some(name@),
                decreases keys@.len() - m, if seen { 0int } else { 1int },
            {
                match &keys[m] {
                    Some(k) => {
                        if same_text(k.as_str(), name.as_str()) {
                            assert(line_key(ls[m as int]) == Some(name@));
                            seen = true;
                        }
                    },
                    None => {},
                }
                if !seen {
                    m = m + 1;
                }
            }
            let ghost sub = ps.subrange(0, j + 1);
            assert(sub.drop_last() =~= ps.subrange(0, j as int));
            assert(sub.last() == ps[j as int]);
            assert(ps[j as int].0 == name@);
            if !seen {
                let ghost before = out@;
                let extra = setting_line_of(name.as_str(), self.params[j].1.as_str());
                out.push(extra);
                proof {
                    lemma_map_push(before, extra, |s: String| s@);
                }
            }
            j = j + 1;
        }
        assert(ps.subrange(0, j as int) =~= ps);
        let mut text = String::new();
        let mut k: usize = 0;
        let ghost all = texts(out@);
        while k < out.len()
            invariant
                all == texts(out@),
                0 <= k <= out@.len(),
                text@ == with_newlines(all.subrange(0, k as int)),
            decreases out@.len() - k,
        {
            let piece = concat_text(text.as_str(), out[k].as_str());
            text = piece;
            push_char(&mut text, '\n');
            assert(all.subrange(0, k + 1).drop_last() =~= all.subrange(0, k as int));
            k = k + 1;
        }
        assert(all.subrange(0, k as int) =~= all);
        if out.len() == 0 {
            push_char(&mut text, '\n');
            assert(text@ =~= seq!['\n']);
        }
        text
    }
}

/// Settings ordered by name.
pub open spec fn by_name() -> spec_fn((Seq<char>, Seq<char>), (Seq<char>, Seq<char>)) -> bool {
    |a: (Seq<char>, Seq<char>), b: (Seq<char>, Seq<char>)| text_less(a.0, b.0)
}

proof fn lemma_pairs_insert(s: Seq<(String, String)>, i: int, x: (String, String))
    requires
        0 <= i <= s.len(),
    ensures
        pairs_view(s.insert(i, x)) == pairs_view(s).insert(i, (x.0@, x.1@)),
{
    assert(pairs_view(s.insert(i, x)) =~= pairs_view(s).insert(i, (x.0@, x.1@)));
}

impl GrubConfig {
    /// A copy of all settings ordered by name.
    pub fn sorted_params(&self) -> (r: Vec<(String, String)>)
        ensures
            pairs_view(r@) == stable_sorted(self.settings(), by_name()),
    {
        let ghost ps = self.settings();
        let mut out: Vec<(String, String)> = Vec::new();
        let mut k: usize = 0;
        assert(ps.subrange(0, 0) =~= Seq::<(Seq<char>, Seq<char>)>::empty());
        assert(pairs_view(out@) =~= stable_sorted(ps.subrange(0, 0), by_name()));
        while k < self.params.len()
            invariant
                ps == self.settings(),
                0 <= k <= ps.len(),
                pairs_view(out@) == stable_sorted(ps.subrange(0, k as int), by_name()),
            decreases ps.len() - k,
        {
            let item = (self.params[k].0.clone(), self.params[k].1.clone());
            let ghost x = (item.0@, item.1@);
            assert(x == ps[k as int]);
            let mut i: usize = 0;
            proof {
                assert(pairs_view(out@).skip(0) =~= pairs_view(out@));
            }
            while i < out.len() && !less_text(item.0.as_str(), out[i].0.as_str())
                invariant
                    0 <= i <= out@.len(),
                    insert_pos(pairs_view(out@), x, by_name()) == i + insert_pos(pairs_view(out@).skip(i as int), x, by_name()),
                    x == (item.0@, item.1@),
                decreases out@.len() - i,
            {
                proof {
                    assert(pairs_view(out@)[i as int] == (out@[i as int].0@, out@[i as int].1@));
                    lemma_insert_pos_step(pairs_view(out@), x, by_name(), i as int);
                }
                i = i + 1;
            }
            proof {
                let vs = pairs_view(out@);
                if i < out@.len() {
                    assert(vs.skip(i as int)[0] == vs[i as int]);
                } else {
                    assert(vs.skip(i as int).len() == 0);
                }
                lemma_insert_pos_bounds(vs, x, by_name());
                lemma_pairs_insert(out@, i as int, item);
                let sub = ps.subrange(0, k + 1);
                assert(sub.drop_last() =~= ps.subrange(0, k as int));
                assert(sub.last() == x);
            }
            out.insert(i, item);
            k = k + 1;
        }
        assert(ps.subrange(0, k as int) =~= ps);
        out
    }
}

} // verus!
