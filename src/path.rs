use vstd::prelude::*;
use crate::text::{chars_of, push_char};

verus! {

/// The decimal digit character for `d < 10`.
pub open spec fn digit_char(d: nat) -> char {
    if d == 0 { '0' } else if d == 1 { '1' } else if d == 2 { '2' } else if d == 3 { '3' }
    else if d == 4 { '4' } else if d == 5 { '5' } else if d == 6 { '6' } else if d == 7 { '7' }
    else if d == 8 { '8' } else { '9' }
}

/// `c` is one of the ASCII digits `0`..`9`.
pub open spec fn is_digit(c: char) -> bool {
    '0' <= c && c <= '9'
}

/// The value of an ASCII digit.
pub open spec fn digit_value(c: char) -> nat {
    ((c as u32) - ('0' as u32)) as nat
}

/// The decimal rendering of `n`, most significant digit first, without leading zeros.
pub open spec fn decimal(n: nat) -> Seq<char>
    decreases n,
{
    if n < 10 {
        seq![digit_char(n)]
    } else {
        decimal(n / 10).push(digit_char(n % 10))
    }
}

/// A path rendered as its decimal indices joined by `>`; the empty path renders as the empty text.
pub open spec fn path_text(p: Seq<usize>) -> Seq<char>
    decreases p.len(),
{
    if p.len() == 0 {
        Seq::empty()
    } else if p.len() == 1 {
        decimal(p[0] as nat)
    } else {
        path_text(p.drop_last()) + seq!['>'] + decimal(p.last() as nat)
    }
}

/// The pieces of `s` between occurrences of `sep`; at least one piece, possibly empty.
pub open spec fn split_on(s: Seq<char>, sep: char) -> Seq<Seq<char>>
    decreases s.len(),
{
    if s.len() == 0 {
        seq![Seq::empty()]
    } else {
        let pre = split_on(s.drop_last(), sep);
        if s.last() == sep {
            pre.push(Seq::empty())
        } else {
            pre.update(pre.len() - 1, pre.last().push(s.last()))
        }
    }
}

/// All characters of `s` are ASCII digits.
pub open spec fn all_digits(s: Seq<char>) -> bool {
    forall|i: int| 0 <= i < s.len() ==> is_digit(#[trigger] s[i])
}

/// The value of a run of decimal digits.
pub open spec fn digits_value(s: Seq<char>) -> nat
    decreases s.len(),
{
    if s.len() == 0 {
        0
    } else {
        digits_value(s.drop_last()) * 10 + digit_value(s.last())
    }
}

/// What `usize`'s `from_str` makes of `s`: an optional `+`, then one or more ASCII digits whose
/// value fits in `usize`.
pub open spec fn parse_index(s: Seq<char>) -> Option<usize> {
    let d = if s.len() > 0 && s[0] == '+' { s.drop_first() } else { s };
    if d.len() > 0 && all_digits(d) && digits_value(d) <= usize::MAX {
        Some(digits_value(d) as usize)
    } else {
        None
    }
}

/// The indices that the pieces parse to, in order, skipping pieces that do not parse.
pub open spec fn parsed_indices(parts: Seq<Seq<char>>) -> Seq<usize>
    decreases parts.len(),
{
    if parts.len() == 0 {
        Seq::empty()
    } else {
        let r = parsed_indices(parts.drop_last());
        match parse_index(parts.last()) {
            Some(v) => r.push(v),
            None => r,
        }
    }
}

/// The path that a text denotes: its `>`-separated pieces, each read as an index, malformed
/// pieces ignored.
pub open spec fn text_path(s: Seq<char>) -> Seq<usize> {
    parsed_indices(split_on(s, '>'))
}

fn digit_char_exec(d: usize) -> (c: char)
    requires
        d < 10,
    ensures
        c == digit_char(d as nat),
{
    match d {
        0 => '0',
        1 => '1',
        2 => '2',
        3 => '3',
        4 => '4',
        5 => '5',
        6 => '6',
        7 => '7',
        8 => '8',
        _ => '9',
    }
}

fn push_decimal(s: &mut String, n: usize)
    ensures
        final(s)@ == old(s)@ + decimal(n as nat),
    decreases n,
{
    if n >= 10 {
        push_decimal(s, n / 10);
    }
    let c = digit_char_exec(n % 10);
    push_char(s, c);
    proof {
        if n < 10 {
            assert(n % 10 == n);
        }
        assert(final(s)@ =~= old(s)@ + decimal(n as nat));
    }
}

/// Renders a path as its indices joined by `>` (`[1, 0]` becomes `"1>0"`).
pub fn path_to_string(path: &[usize]) -> (r: String)
    ensures
        r@ == path_text(path@),
{
    let mut r = String::new();
    let mut i: usize = 0;
    while i < path.len()
        invariant
            0 <= i <= path@.len(),
            r@ == path_text(path@.subrange(0, i as int)),
        decreases path@.len() - i,
    {
        if i > 0 {
            push_char(&mut r, '>');
        }
        push_decimal(&mut r, path[i]);
        proof {
            let p = path@.subrange(0, i + 1);
            assert(p.drop_last() =~= path@.subrange(0, i as int));
            if i == 0 {
                assert(r@ =~= path_text(p));
            } else {
                assert(r@ =~= path_text(p));
            }
        }
        i = i + 1;
    }
    assert(path@.subrange(0, path@.len() as int) =~= path@);
    r
}

/// The path that a text denotes when every `>`-separated piece is an index.
pub open spec fn strict_text_path(s: Seq<char>) -> Option<Seq<usize>> {
    let parts = split_on(s, '>');
    if forall|i: int| 0 <= i < parts.len() ==> #[trigger] parse_index(parts[i]) is Some {
        Some(parsed_indices(parts))
    } else {
        None
    }
}

/// The `GRUB_DEFAULT` value that selects the entry at `path`: its rendering between double
/// quotes (`[1, 0]` gives `"1>0"` with the quotes).
pub fn default_value(path: &[usize]) -> (r: String)
    ensures
        r@ == seq!['"'] + path_text(path@) + seq!['"'],
{
    let mut r = String::new();
    push_char(&mut r, '"');
    let p = path_to_string(path);
    let pc = chars_of(p.as_str());
    let mut i: usize = 0;
    while i < pc.len()
        invariant
            0 <= i <= pc@.len(),
            pc@ == path_text(path@),
            r@ == seq!['"'] + pc@.subrange(0, i as int),
        decreases pc@.len() - i,
    {
        push_char(&mut r, pc[i]);
        assert(seq!['"'] + pc@.subrange(0, i + 1) =~= (seq!['"'] + pc@.subrange(0, i as int)).push(pc@[i as int]));
        i = i + 1;
    }
    push_char(&mut r, '"');
    assert(pc@.subrange(0, i as int) =~= pc@);
    assert(r@ =~= seq!['"'] + path_text(path@) + seq!['"']);
    r
}

/// Extending a run of digits never lowers its value.
proof fn lemma_digits_value_prefix(s: Seq<char>, k: int)
    requires
        0 <= k <= s.len(),
    ensures
        digits_value(s.subrange(0, k)) <= digits_value(s),
    decreases s.len() - k,
{
    if k < s.len() {
        lemma_digits_value_prefix(s, k + 1);
        assert(s.subrange(0, k + 1).drop_last() =~= s.subrange(0, k));
    } else {
        assert(s.subrange(0, k) =~= s);
    }
}

/// Reads `cs[from..to]` as an index, as `usize`'s `from_str` would.
pub(crate) fn parse_index_range(cs: &Vec<char>, from: usize, to: usize) -> (r: Option<usize>)
    requires
        from <= to <= cs@.len(),
    ensures
        r == parse_index(cs@.subrange(from as int, to as int)),
{
    let ghost s = cs@.subrange(from as int, to as int);
    let mut start = from;
    if from < to && cs[from] == '+' {
        start = from + 1;
    }
    let ghost d = cs@.subrange(start as int, to as int);
    assert(d =~= (if s.len() > 0 && s[0] == '+' { s.drop_first() } else { s }));
    if start == to {
        return None;
    }
    let mut v: usize = 0;
    let mut i = start;
    assert(parse_index(s) == (if d.len() > 0 && all_digits(d) && digits_value(d) <= usize::MAX {
        Some(digits_value(d) as usize)
    } else {
        None
    }));
    while i < to
        invariant
            from <= start <= i <= to <= cs@.len(),
            s == cs@.subrange(from as int, to as int),
            d.len() > 0,
            parse_index(s) == (if all_digits(d) && digits_value(d) <= usize::MAX {
                Some(digits_value(d) as usize)
            } else {
                None
            }),
            d == cs@.subrange(start as int, to as int),
            all_digits(cs@.subrange(start as int, i as int)),
            v as nat == digits_value(cs@.subrange(start as int, i as int)),
        decreases to - i,
    {
        let c = cs[i];
        let ghost pre = cs@.subrange(start as int, i as int);
        let ghost next = cs@.subrange(start as int, i + 1);
        assert(next.drop_last() =~= pre);
        if !('0' <= c && c <= '9') {
            assert(!is_digit(d[i - start]));
            return None;
        }
        let dv = (c as u32 - '0' as u32) as usize;
        assert(digits_value(next) == v * 10 + dv);
        if v > (usize::MAX - dv) / 10 {
            proof {
                assert(v * 10 + dv > usize::MAX) by (nonlinear_arith)
                    requires v > (usize::MAX - dv) / 10, dv <= 9;
                if all_digits(d) {
                    assert(next =~= d.subrange(0, i + 1 - start));
                    lemma_digits_value_prefix(d, i + 1 - start);
                }
            }
            return None;
        }
        v = v * 10 + dv;
        i = i + 1;
    }
    proof {
        assert(cs@.subrange(start as int, i as int) =~= d);
    }
    Some(v)
}

/// Reads a path from text: the `>`-separated pieces that parse as indices, in order; other
/// pieces are skipped (`"1>0"` gives `[1, 0]`, `"a>2"` gives `[2]`).
pub fn string_to_path(s: &str) -> (r: Vec<usize>)
    ensures
        r@ == text_path(s@),
{
    let cs = chars_of(s);
    let mut r: Vec<usize> = Vec::new();
    let mut start: usize = 0;
    let mut i: usize = 0;
    let ghost mut parts: Seq<Seq<char>> = Seq::empty();
    assert(cs@.subrange(0, 0) =~= Seq::<char>::empty());
    assert(split_on(Seq::<char>::empty(), '>') =~= parts.push(Seq::<char>::empty()));
    while i < cs.len()
        invariant
            0 <= start <= i <= cs@.len(),
            split_on(cs@.subrange(0, i as int), '>') == parts.push(cs@.subrange(start as int, i as int)),
            r@ == parsed_indices(parts),
        decreases cs@.len() - i,
    {
        let ghost pre = cs@.subrange(0, i as int);
        let ghost next = cs@.subrange(0, i + 1);
        assert(next.drop_last() =~= pre);
        if cs[i] == '>' {
            let piece = parse_index_range(&cs, start, i);
            proof {
                let cur = cs@.subrange(start as int, i as int);
                assert(parts.push(cur).drop_last() =~= parts);
                parts = parts.push(cur);
                assert(cs@.subrange(i + 1, i + 1) =~= Seq::<char>::empty());
            }
            match piece {
                Some(v) => r.push(v),
                None => {},
            }
            start = i + 1;
        } else {
            proof {
                let cur = cs@.subrange(start as int, i as int);
                assert(cs@.subrange(start as int, i + 1) =~= cur.push(cs@[i as int]));
                assert(parts.push(cur).update(parts.len() as int, cur.push(cs@[i as int]))
                    =~= parts.push(cs@.subrange(start as int, i + 1)));
            }
        }
        i = i + 1;
    }
    let piece = parse_index_range(&cs, start, i);
    proof {
        let cur = cs@.subrange(start as int, i as int);
        assert(parts.push(cur).drop_last() =~= parts);
        assert(cs@.subrange(0, i as int) =~= s@);
    }
    match piece {
        Some(v) => r.push(v),
        None => {},
    }
    r
}

proof fn lemma_decimal(n: nat)
    ensures
        decimal(n).len() > 0,
        all_digits(decimal(n)),
        digits_value(decimal(n)) == n,
    decreases n,
{
    if n < 10 {
        let d = decimal(n);
        assert(d.drop_last() =~= Seq::<char>::empty());
        assert(d.last() == digit_char(n));
        assert(digits_value(Seq::<char>::empty()) == 0);
        assert(digit_value(digit_char(n)) == n);
    } else {
        lemma_decimal(n / 10);
        let d = decimal(n);
        assert(d.drop_last() =~= decimal(n / 10));
        assert(digit_value(digit_char(n % 10)) == n % 10);
        assert(d.last() == digit_char(n % 10));
        assert(n == (n / 10) * 10 + n % 10);
        assert forall|i: int| 0 <= i < d.len() implies is_digit(#[trigger] d[i]) by {
            if i < d.len() - 1 {
                assert(d[i] == decimal(n / 10)[i]);
            }
        }
    }
}

proof fn lemma_split_no_sep(t: Seq<char>, sep: char)
    requires
        !t.contains(sep),
    ensures
        split_on(t, sep) == seq![t],
    decreases t.len(),
{
    if t.len() > 0 {
        assert(!t.drop_last().contains(sep)) by {
            if t.drop_last().contains(sep) {
                let i = choose|i: int| 0 <= i < t.drop_last().len() && t.drop_last()[i] == sep;
                assert(t[i] == sep);
            }
        }
        lemma_split_no_sep(t.drop_last(), sep);
        assert(t.last() != sep) by {
            assert(t[t.len() - 1] == t.last());
        }
        assert(t.drop_last().push(t.last()) =~= t);
        let pre = split_on(t.drop_last(), sep);
        assert(pre.update(pre.len() - 1, pre.last().push(t.last())) =~= seq![t]);
    } else {
        assert(t =~= Seq::<char>::empty());
    }
}

proof fn lemma_split_concat(s: Seq<char>, t: Seq<char>, sep: char)
    requires
        !t.contains(sep),
    ensures
        split_on(s + seq![sep] + t, sep) == split_on(s, sep).push(t),
    decreases t.len(),
{
    let whole = s + seq![sep] + t;
    if t.len() == 0 {
        assert(whole.drop_last() =~= s);
        assert(whole =~= (s + seq![sep] + t));
        assert(whole.last() == sep);
        assert(t =~= Seq::<char>::empty());
    } else {
        assert(!t.drop_last().contains(sep)) by {
            if t.drop_last().contains(sep) {
                let i = choose|i: int| 0 <= i < t.drop_last().len() && t.drop_last()[i] == sep;
                assert(t[i] == sep);
            }
        }
        lemma_split_concat(s, t.drop_last(), sep);
        assert(whole.drop_last() =~= s + seq![sep] + t.drop_last());
        assert(whole.last() == t.last());
        assert(t.last() != sep) by {
            assert(t[t.len() - 1] == t.last());
        }
        assert(t.drop_last().push(t.last()) =~= t);
        assert(split_on(whole, sep) =~= split_on(s, sep).push(t));
    }
}

proof fn lemma_decimal_no_gt(n: nat)
    ensures
        !decimal(n).contains('>'),
        parse_index(decimal(n)) == (if n <= usize::MAX { Some(n as usize) } else { None }),
{
    lemma_decimal(n);
    let d = decimal(n);
    if d.contains('>') {
        let i = choose|i: int| 0 <= i < d.len() && d[i] == '>';
        assert(is_digit(d[i]));
    }
    assert(is_digit(d[0]));
}

proof fn lemma_split_path_text(p: Seq<usize>)
    requires
        p.len() > 0,
    ensures
        split_on(path_text(p), '>') == Seq::new(p.len(), |i: int| decimal(p[i] as nat)),
    decreases p.len(),
{
    if p.len() == 1 {
        lemma_decimal_no_gt(p[0] as nat);
        lemma_split_no_sep(decimal(p[0] as nat), '>');
        assert(split_on(path_text(p), '>') =~= Seq::new(p.len(), |i: int| decimal(p[i] as nat)));
    } else {
        lemma_split_path_text(p.drop_last());
        lemma_decimal_no_gt(p.last() as nat);
        lemma_split_concat(path_text(p.drop_last()), decimal(p.last() as nat), '>');
        assert(split_on(path_text(p), '>') =~= Seq::new(p.len(), |i: int| decimal(p[i] as nat)));
    }
}

proof fn lemma_parsed_decimals(p: Seq<usize>)
    ensures
        parsed_indices(Seq::new(p.len(), |i: int| decimal(p[i] as nat))) == p,
    decreases p.len(),
{
    let parts = Seq::new(p.len(), |i: int| decimal(p[i] as nat));
    if p.len() > 0 {
        lemma_parsed_decimals(p.drop_last());
        assert(parts.drop_last() =~= Seq::new(p.drop_last().len(), |i: int| decimal(p.drop_last()[i] as nat)));
        lemma_decimal_no_gt(p.last() as nat);
        assert(p.drop_last().push(p.last()) =~= p);
    } else {
        assert(p =~= Seq::<usize>::empty());
    }
}

/// Reading back a rendered path gives the path: `string_to_path(path_to_string(p)) == p`.
pub proof fn lemma_path_round_trip(p: Seq<usize>)
    ensures
        text_path(path_text(p)) == p,
{
    if p.len() == 0 {
        assert(split_on(Seq::<char>::empty(), '>') =~= seq![Seq::<char>::empty()]);
        assert(seq![Seq::<char>::empty()].drop_last() =~= Seq::<Seq<char>>::empty());
        assert(parse_index(Seq::<char>::empty()) is None);
        let one = seq![Seq::<char>::empty()];
        assert(one.last() == Seq::<char>::empty());
        assert(parsed_indices(one.drop_last()) =~= Seq::<usize>::empty());
        assert(parsed_indices(one) =~= Seq::<usize>::empty());
        assert(path_text(p) =~= Seq::<char>::empty());
        assert(p =~= Seq::<usize>::empty());
    } else {
        lemma_split_path_text(p);
        lemma_parsed_decimals(p);
    }
}

/// Reads a path from text in which every `>`-separated piece must be an index; `None` if
/// some piece is not (the empty text included).
pub fn parse_path_strict(s: &str) -> (r: Option<Vec<usize>>)
    ensures
        match r {
            Some(p) => strict_text_path(s@) == Some(p@),
            None => strict_text_path(s@) is None,
        },
{
    let cs = chars_of(s);
    let mut r: Vec<usize> = Vec::new();
    let mut start: usize = 0;
    let mut i: usize = 0;
    let mut ok = true;
    let ghost mut parts: Seq<Seq<char>> = Seq::empty();
    assert(cs@.subrange(0, 0) =~= Seq::<char>::empty());
    assert(split_on(Seq::<char>::empty(), '>') =~= parts.push(Seq::<char>::empty()));
    while i < cs.len()
        invariant
            0 <= start <= i <= cs@.len(),
            split_on(cs@.subrange(0, i as int), '>') == parts.push(cs@.subrange(start as int, i as int)),
            r@ == parsed_indices(parts),
            ok == forall|j: int| 0 <= j < parts.len() ==> #[trigger] parse_index(parts[j]) is Some,
        decreases cs@.len() - i,
    {
        let ghost pre = cs@.subrange(0, i as int);
        assert(cs@.subrange(0, i + 1).drop_last() =~= pre);
        if cs[i] == '>' {
            let piece = parse_index_range(&cs, start, i);
            proof {
                let cur = cs@.subrange(start as int, i as int);
                let np = parts.push(cur);
                assert(np.drop_last() =~= parts);
                assert(forall|j: int| 0 <= j < parts.len() ==> #[trigger] np[j] == parts[j]);
                assert(np[parts.len() as int] == cur);
                parts = np;
                assert(cs@.subrange(i + 1, i + 1) =~= Seq::<char>::empty());
            }
            match piece {
                Some(v) => r.push(v),
                None => {
                    ok = false;
                },
            }
            start = i + 1;
        } else {
            proof {
                let cur = cs@.subrange(start as int, i as int);
                assert(cs@.subrange(start as int, i + 1) =~= cur.push(cs@[i as int]));
                assert(parts.push(cur).update(parts.len() as int, cur.push(cs@[i as int]))
                    =~= parts.push(cs@.subrange(start as int, i + 1)));
            }
        }
        i = i + 1;
    }
    let piece = parse_index_range(&cs, start, i);
    let ghost cur = cs@.subrange(start as int, i as int);
    let ghost all = parts.push(cur);
    proof {
        assert(all.drop_last() =~= parts);
        assert(cs@.subrange(0, i as int) =~= s@);
        assert(forall|j: int| 0 <= j < parts.len() ==> #[trigger] all[j] == parts[j]);
        assert(all[parts.len() as int] == cur);
    }
    match piece {
        Some(v) => {
            r.push(v);
            if ok {
                assert forall|j: int| 0 <= j < all.len() implies #[trigger] parse_index(all[j]) is Some by {
                    if j < parts.len() {
                        assert(all[j] == parts[j]);
                    }
                }
                Some(r)
            } else {
                let ghost j = choose|j: int| 0 <= j < parts.len() && !(parse_index(parts[j]) is Some);
                assert(all[j] == parts[j]);
                None
            }
        },
        None => {
            assert(!(parse_index(all[parts.len() as int]) is Some));
            None
        },
    }
}

} // verus!
