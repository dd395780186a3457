use vstd::prelude::*;
use crate::path::split_on;
use crate::text::{back_over_spaces, chars_of, copy_range, skip_spaces, string_of_range};
use crate::tree::{Entry, EntryType, EntryView};

verus! {

broadcast use vstd::string::group_string_axioms;

/// Unicode white space (the `White_Space` property).
pub open spec fn is_space(c: char) -> bool {
    ||| c == '\t' || c == '\n' || c == '\x0B' || c == '\x0C' || c == '\r' || c == ' '
    ||| c == '\u{85}' || c == '\u{A0}' || c == '\u{1680}'
    ||| ('\u{2000}' <= c && c <= '\u{200A}')
    ||| c == '\u{2028}' || c == '\u{2029}' || c == '\u{202F}' || c == '\u{205F}' || c == '\u{3000}'
}

/// The first index at or after `i` that does not hold white space (`s.len()` if none).
pub open spec fn spaces_end(s: Seq<char>, i: int) -> int
    decreases s.len() - i,
{
    if 0 <= i < s.len() && is_space(s[i]) {
        spaces_end(s, i + 1)
    } else {
        i
    }
}

/// The start of the run of white space that ends at index `j`.
pub open spec fn spaces_start(s: Seq<char>, j: int) -> int
    decreases j,
{
    if 0 < j <= s.len() && is_space(s[j - 1]) {
        spaces_start(s, j - 1)
    } else {
        j
    }
}

/// The first index at or after `i` that holds a single quote (`s.len()` if none).
pub open spec fn quote_at_or_after(s: Seq<char>, i: int) -> int
    decreases s.len() - i,
{
    if 0 <= i < s.len() && s[i] != '\'' {
        quote_at_or_after(s, i + 1)
    } else {
        i
    }
}

/// `w` stands in `s` at index `i`.
pub open spec fn word_at(s: Seq<char>, i: int, w: Seq<char>) -> bool {
    0 <= i && i + w.len() <= s.len() && s.subrange(i, i + w.len()) == w
}

/// `menuentry`.
pub open spec fn menuentry_word() -> Seq<char> {
    seq!['m', 'e', 'n', 'u', 'e', 'n', 't', 'r', 'y']
}

/// `submenu`.
pub open spec fn submenu_word() -> Seq<char> {
    seq!['s', 'u', 'b', 'm', 'e', 'n', 'u']
}

/// The declaration that a line starts with, if any: after optional white space, the word
/// `menuentry` or `submenu`, optional white space, then a title between single quotes.
pub open spec fn declaration(s: Seq<char>) -> Option<(EntryType, Seq<char>)> {
    let a = spaces_end(s, 0);
    let (found, kind, after) = if word_at(s, a, menuentry_word()) {
        (true, EntryType::MenuEntry, a + 9)
    } else if word_at(s, a, submenu_word()) {
        (true, EntryType::Submenu, a + 7)
    } else {
        (false, EntryType::Root, 0)
    };
    let b = spaces_end(s, after);
    let e = quote_at_or_after(s, b + 1);
    if found && b < s.len() && s[b] == '\'' && e < s.len() {
        Some((kind, s.subrange(b + 1, e)))
    } else {
        None
    }
}

/// The line ends with `{`, white space after it aside.
pub open spec fn opens_block(s: Seq<char>) -> bool {
    let k = spaces_start(s, s.len() as int);
    k > 0 && s[k - 1] == '{'
}

/// The line starts with `}`, white space before it aside.
pub open spec fn closes_block(s: Seq<char>) -> bool {
    let a = spaces_end(s, 0);
    a < s.len() && s[a] == '}'
}

/// The tree with `n` appended to the children of the node open at depth `level`: the node
/// reached by taking the last child `level` times, stopping early at a node without children.
pub open spec fn insert_at_level(t: EntryView, level: nat, n: EntryView) -> EntryView
    decreases level,
{
    if level == 0 || t.children.len() == 0 {
        EntryView { name: t.name, kind: t.kind, children: t.children.push(n) }
    } else {
        let k = t.children.len() - 1;
        EntryView {
            name: t.name,
            kind: t.kind,
            children: t.children.update(k, insert_at_level(t.children[k], (level - 1) as nat, n)),
        }
    }
}

/// The synthetic root, before any line is read.
pub open spec fn root_view() -> EntryView {
    EntryView { name: seq!['r', 'o', 'o', 't'], kind: EntryType::Root, children: Seq::empty() }
}

/// One line's effect on the tree and the nesting level: a declaration adds a leaf at the
/// current level, a trailing `{` opens a level, a leading `}` closes one (never below zero).
pub open spec fn parse_step(t: EntryView, level: nat, line: Seq<char>) -> (EntryView, nat) {
    let t2 = match declaration(line) {
        Some((k, name)) => insert_at_level(t, level, EntryView { name, kind: k, children: Seq::empty() }),
        None => t,
    };
    let l2 = if opens_block(line) { level + 1 } else { level };
    let l3: nat = if closes_block(line) { if l2 > 0 { (l2 - 1) as nat } else { 0 } } else { l2 };
    (t2, l3)
}

/// The tree and nesting level after reading `lines` in order.
pub open spec fn parse_lines(lines: Seq<Seq<char>>) -> (EntryView, nat)
    decreases lines.len(),
{
    if lines.len() == 0 {
        (root_view(), 0)
    } else {
        let (t, level) = parse_lines(lines.drop_last());
        parse_step(t, level, lines.last())
    }
}

/// The tree that a configuration text describes, read line by line.
pub open spec fn parse_text(text: Seq<char>) -> EntryView {
    parse_lines(split_on(text, '\n')).0
}

fn find_quote(s: &Vec<char>, i: usize) -> (r: usize)
    requires
        i <= s@.len(),
    ensures
        i <= r <= s@.len(),
        r == quote_at_or_after(s@, i as int),
{
    let mut j = i;
    while j < s.len() && s[j] != '\''
        invariant
            i <= j <= s@.len(),
            quote_at_or_after(s@, i as int) == quote_at_or_after(s@, j as int),
        decreases s@.len() - j,
    {
        j = j + 1;
    }
    j
}

fn has_word(s: &Vec<char>, i: usize, w: &str) -> (r: bool)
    ensures
        r == word_at(s@, i as int, w@),
{
    let wc = chars_of(w);
    if i > s.len() || wc.len() > s.len() - i {
        return false;
    }
    let n = s.len();
    let mut k: usize = 0;
    while k < wc.len()
        invariant
            n == s@.len(),
            i + wc@.len() <= s@.len(),
            wc@ == w@,
            0 <= k <= wc@.len(),
            s@.subrange(i as int, i + k) == wc@.subrange(0, k as int),
        decreases wc@.len() - k,
    {
        if s[i + k] != wc[k] {
            assert(s@.subrange(i as int, i + wc@.len())[k as int] != wc@[k as int]);
            return false;
        }
        assert(s@.subrange(i as int, i + k + 1) =~= wc@.subrange(0, k + 1));
        k = k + 1;
    }
    assert(wc@.subrange(0, k as int) =~= wc@);
    true
}

/// The declaration that a line starts with: its kind and the index range of its title.
fn declaration_of(s: &Vec<char>) -> (r: Option<(EntryType, usize, usize)>)
    ensures
        match r {
            Some((k, b, e)) => b <= e <= s@.len() && declaration(s@) == Some((k, s@.subrange(b as int, e as int))),
            None => declaration(s@) is None,
        },
{
    proof {
        reveal_strlit("menuentry");
        reveal_strlit("submenu");
    }
    let n = s.len();
    let a = skip_spaces(s, 0);
    let kind;
    let after;
    if has_word(s, a, "menuentry") {
        assert("menuentry"@ =~= menuentry_word());
        assert(menuentry_word().len() == 9);
        kind = EntryType::MenuEntry;
        after = a + 9;
    } else if has_word(s, a, "submenu") {
        assert("menuentry"@ =~= menuentry_word());
        assert("submenu"@ =~= submenu_word());
        assert(submenu_word().len() == 7);
        kind = EntryType::Submenu;
        after = a + 7;
    } else {
        assert("menuentry"@ =~= menuentry_word());
        assert("submenu"@ =~= submenu_word());
        return None;
    }
    let b = skip_spaces(s, after);
    if b < s.len() && s[b] == '\'' {
        let e = find_quote(s, b + 1);
        if e < s.len() {
            return Some((kind, b + 1, e));
        }
    }
    None
}

fn opens_block_line(s: &Vec<char>) -> (r: bool)
    ensures
        r == opens_block(s@),
        r ==> s@.len() > 0,
{
    let k = back_over_spaces(s, s.len());
    k > 0 && s[k - 1] == '{'
}

fn closes_block_line(s: &Vec<char>) -> (r: bool)
    ensures
        r == closes_block(s@),
{
    let a = skip_spaces(s, 0);
    a < s.len() && s[a] == '}'
}

/// Appends `n` to the children of the node open at depth `level` (see `insert_at_level`).
fn insert_at(t: &mut Entry, level: usize, n: Entry)
    ensures
        final(t)@ == insert_at_level(old(t)@, level as nat, n@),
    decreases level,
{
    proof {
        t.lemma_view_children();
    }
    if level == 0 || t.children.len() == 0 {
        t.children.push(n);
        proof {
            t.lemma_view_children();
            assert(t@.children =~= old(t)@.children.push(n@));
        }
    } else {
        let mut last = t.children.pop().unwrap();
        insert_at(&mut last, level - 1, n);
        t.children.push(last);
        proof {
            t.lemma_view_children();
            let k = old(t)@.children.len() - 1;
            assert(t@.children =~= old(t)@.children.update(
                k,
                insert_at_level(old(t)@.children[k], (level - 1) as nat, n@),
            ));
        }
    }
}

/// Applies one line to the tree and returns the new nesting level.
fn apply_line(t: &mut Entry, level: usize, line: &Vec<char>) -> (r: usize)
    requires
        level + line@.len() <= usize::MAX,
    ensures
        (final(t)@, r as nat) == parse_step(old(t)@, level as nat, line@),
{
    match declaration_of(line) {
        Some((kind, b, e)) => {
            let name = string_of_range(line, b, e);
            let leaf = Entry::new(name, kind);
            insert_at(t, level, leaf);
        },
        None => {},
    }
    let mut l = level;
    if opens_block_line(line) {
        l = l + 1;
    }
    if closes_block_line(line) {
        l = if l > 0 { l - 1 } else { 0 };
    }
    l
}

/// Builds the boot-menu tree from the text of a GRUB configuration. Lines that declare a
/// `menuentry` or `submenu` with a quoted title add a node under the node open at the current
/// nesting level; other lines only move the level. Malformed lines are never an error.
pub fn parse_grub(text: &str) -> (r: Entry)
    ensures
        r@ == parse_text(text@),
{
    let cs = chars_of(text);
    proof {
        reveal_strlit("root");
    }
    let root_name = "root".to_string();
    assert(root_name@ =~= seq!['r', 'o', 'o', 't']);
    let mut t = Entry::new(root_name, EntryType::Root);
    assert(t@ =~= root_view());
    let mut level: usize = 0;
    let mut start: usize = 0;
    let mut i: usize = 0;
    let ghost mut lines: Seq<Seq<char>> = Seq::empty();
    assert(cs@.subrange(0, 0) =~= Seq::<char>::empty());
    assert(split_on(Seq::<char>::empty(), '\n') =~= lines.push(Seq::<char>::empty()));
    while i < cs.len()
        invariant
            0 <= start <= i <= cs@.len(),
            level <= start,
            split_on(cs@.subrange(0, i as int), '\n') == lines.push(cs@.subrange(start as int, i as int)),
            (t@, level as nat) == parse_lines(lines),
        decreases cs@.len() - i,
    {
        let ghost pre = cs@.subrange(0, i as int);
        assert(cs@.subrange(0, i + 1).drop_last() =~= pre);
        if cs[i] == '\n' {
            let line = copy_range(&cs, start, i);
            level = apply_line(&mut t, level, &line);
            proof {
                let cur = cs@.subrange(start as int, i as int);
                assert(lines.push(cur).drop_last() =~= lines);
                lines = lines.push(cur);
                assert(cs@.subrange(i + 1, i + 1) =~= Seq::<char>::empty());
            }
            start = i + 1;
        } else {
            proof {
                let cur = cs@.subrange(start as int, i as int);
                assert(cs@.subrange(start as int, i + 1) =~= cur.push(cs@[i as int]));
                assert(lines.push(cur).update(lines.len() as int, cur.push(cs@[i as int]))
                    =~= lines.push(cs@.subrange(start as int, i + 1)));
            }
        }
        i = i + 1;
    }
    let line = copy_range(&cs, start, i);
    level = apply_line(&mut t, level, &line);
    proof {
        let cur = cs@.subrange(start as int, i as int);
        assert(lines.push(cur).drop_last() =~= lines);
        assert(cs@.subrange(0, i as int) =~= text@);
    }
    t
}

} // verus!
