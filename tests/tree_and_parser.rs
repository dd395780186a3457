use grublist::parser::parse_grub;
use grublist::path::{parse_path_strict, path_to_string, string_to_path};
use grublist::search::{collect_matches, first_match, matches_folded, next_match, previous_match};
use grublist::tree::{get_entry, try_get_entry, Entry, EntryType};

fn sample_text() -> &'static str {
    "menuentry 'Ubuntu' {\n}\nsubmenu 'Advanced options' {\nmenuentry 'Ubuntu, with Linux 6.5.0' {\n}\n}\n"
}

fn leaf(name: &str, kind: EntryType) -> Entry {
    Entry::new(name.to_string(), kind)
}

#[test]
fn parses_nested_submenu() {
    let t = parse_grub("menuentry 'A' { }\nsubmenu 'B' {\nmenuentry 'C' { }\n}\n");
    assert_eq!(t.entry_type, EntryType::Root);
    assert_eq!(t.children.len(), 2);
    assert_eq!(t.children[0].name, "A");
    assert_eq!(t.children[0].entry_type, EntryType::MenuEntry);
    assert_eq!(t.children[1].name, "B");
    assert_eq!(t.children[1].entry_type, EntryType::Submenu);
    assert_eq!(t.children[1].children.len(), 1);
    assert_eq!(t.children[1].children[0].name, "C");
    assert_eq!(t.children[1].children[0].entry_type, EntryType::MenuEntry);
}

#[test]
fn parses_nested_submenu_on_one_line_each() {
    // Only a declaration at the start of a line counts, and a line that does not end in `{`
    // opens no block.
    let t = parse_grub("menuentry 'A' { }\nsubmenu 'B' { menuentry 'C' { } }\n");
    assert_eq!(t.children.len(), 2);
    assert_eq!(t.children[0].name, "A");
    assert_eq!(t.children[1].name, "B");
    assert_eq!(t.children[1].entry_type, EntryType::Submenu);
    assert!(t.children[1].children.is_empty());
}

#[test]
fn scenario_ubuntu_advanced_options() {
    let t = parse_grub(sample_text());
    assert_eq!(t.children.len(), 2);
    assert_eq!(t.children[0].name, "Ubuntu");
    assert_eq!(t.children[0].entry_type, EntryType::MenuEntry);
    assert_eq!(t.children[1].name, "Advanced options");
    assert_eq!(t.children[1].entry_type, EntryType::Submenu);
    let nested = get_entry(&t, &[1, 0]);
    assert_eq!(nested.name, "Ubuntu, with Linux 6.5.0");
    assert_eq!(nested.entry_type, EntryType::MenuEntry);
    assert_eq!(path_to_string(&[1, 0]), "1>0");
}

#[test]
fn empty_configuration_gives_bare_root() {
    let t = parse_grub("");
    assert_eq!(t.entry_type, EntryType::Root);
    assert_eq!(t.name, "root");
    assert!(t.children.is_empty());
}

#[test]
fn parser_handles_indentation_crlf_and_noise() {
    let text = "# comment\r\n  menuentry\t'Linux A' --class x {\r\n\tlinux /vmlinuz\r\n  }\r\nset timeout=5\r\nsubmenu  'S' {\r\n   menuentry 'Inner' {\r\n   }\r\n}\r\nmenuentry \"double\" {\r\n}\r\n";
    let t = parse_grub(text);
    assert_eq!(t.children.len(), 2);
    assert_eq!(t.children[0].name, "Linux A");
    assert_eq!(t.children[1].name, "S");
    assert_eq!(t.children[1].children.len(), 1);
    assert_eq!(t.children[1].children[0].name, "Inner");
}

#[test]
fn parser_unbalanced_braces_attach_shallower() {
    // The level says 2 but the open node has no children: the entry lands one level up.
    let t = parse_grub("submenu 'S' {\n{\nmenuentry 'X' {\n}\n");
    assert_eq!(t.children.len(), 1);
    assert_eq!(t.children[0].children.len(), 1);
    assert_eq!(t.children[0].children[0].name, "X");
    // Extra closing braces never drive the level below zero.
    let u = parse_grub("}\n}\nmenuentry 'Top' {\n}\n");
    assert_eq!(u.children.len(), 1);
    assert_eq!(u.children[0].name, "Top");
}

#[test]
fn try_get_out_of_range_is_none() {
    let t = parse_grub(sample_text());
    assert!(try_get_entry(&t, &[5]).is_none());
    assert!(try_get_entry(&t, &[0, 0]).is_none());
    assert!(try_get_entry(&t, &[1, 0, 0]).is_none());
    assert!(try_get_entry(&t, &[usize::MAX]).is_none());
    assert_eq!(try_get_entry(&t, &[]).unwrap().name, "root");
    assert_eq!(try_get_entry(&t, &[1, 0]).unwrap().name, "Ubuntu, with Linux 6.5.0");
}

#[test]
fn path_round_trip_examples() {
    let paths: Vec<Vec<usize>> = vec![vec![], vec![0], vec![1, 0], vec![12, 3, 456], vec![usize::MAX, 0, 7]];
    for p in paths {
        assert_eq!(string_to_path(&path_to_string(&p)), p);
    }
}

#[test]
fn string_to_path_skips_malformed_pieces() {
    assert_eq!(string_to_path("1>0"), vec![1, 0]);
    assert_eq!(string_to_path("a>2"), vec![2]);
    assert_eq!(string_to_path(""), Vec::<usize>::new());
    assert_eq!(string_to_path(">>3>"), vec![3]);
    assert_eq!(string_to_path("+4>-1>07"), vec![4, 7]);
    assert_eq!(string_to_path("99999999999999999999999>1"), vec![1]);
    assert_eq!(path_to_string(&[]), "");
    assert_eq!(path_to_string(&[0, 10, 205]), "0>10>205");
}

#[test]
fn strict_path_needs_every_piece() {
    assert_eq!(parse_path_strict("1>0"), Some(vec![1, 0]));
    assert_eq!(parse_path_strict("2"), Some(vec![2]));
    assert_eq!(parse_path_strict("a>2"), None);
    assert_eq!(parse_path_strict(""), None);
    assert_eq!(parse_path_strict("1>"), None);
}

fn search_tree() -> Entry {
    let mut root = leaf("root", EntryType::Root);
    root.children.push(leaf("Ubuntu", EntryType::MenuEntry));
    let mut adv = leaf("Advanced options for Ubuntu", EntryType::Submenu);
    adv.children.push(leaf("Ubuntu, with Linux 6.5.0", EntryType::MenuEntry));
    adv.children.push(leaf("Ubuntu, with Linux 6.5.0 (recovery mode)", EntryType::MenuEntry));
    root.children.push(adv);
    let mut other = leaf("Other", EntryType::Submenu);
    other.children.push(leaf("Windows", EntryType::MenuEntry));
    other.children.push(leaf("", EntryType::MenuEntry));
    root.children.push(other);
    root
}

#[test]
fn search_finds_matches_in_preorder_ignoring_case() {
    let t = search_tree();
    let r = collect_matches(&t, "ubuntu");
    assert_eq!(r, vec![vec![0], vec![1], vec![1, 0], vec![1, 1]]);
    let r2 = collect_matches(&t, "RECOVERY");
    assert_eq!(r2, vec![vec![1, 1]]);
    // A non-matching submenu still has its matching children searched.
    let r3 = collect_matches(&t, "win");
    assert_eq!(r3, vec![vec![2, 0]]);
    // The root is never a candidate.
    assert!(collect_matches(&t, "root").is_empty());
}

#[test]
fn search_is_deterministic() {
    let t = search_tree();
    for q in ["u", "ubuntu", "Linux", "x", "o"] {
        assert_eq!(collect_matches(&t, q), collect_matches(&t, q));
    }
}

#[test]
fn search_containment_matches_titles() {
    let t = search_tree();
    let q = "Linux 6";
    let r = collect_matches(&t, q);
    let candidates: Vec<Vec<usize>> = vec![vec![0], vec![1], vec![1, 0], vec![1, 1], vec![2], vec![2, 0], vec![2, 1]];
    for p in candidates {
        let name = &get_entry(&t, &p).name;
        let hit = !name.is_empty() && name.to_lowercase().contains(&q.to_lowercase());
        assert_eq!(r.contains(&p), hit);
    }
}

#[test]
fn empty_query_matches_nothing() {
    let t = search_tree();
    assert!(collect_matches(&t, "").is_empty());
    let empty = leaf("root", EntryType::Root);
    assert!(collect_matches(&empty, "").is_empty());
    assert!(collect_matches(&empty, "a").is_empty());
}

#[test]
fn matches_folded_is_plain_containment() {
    assert!(matches_folded("ubuntu, with linux", "linux"));
    assert!(matches_folded("abc", ""));
    assert!(!matches_folded("abc", "abcd"));
    assert!(!matches_folded("Linux", "linux"));
    assert!(matches_folded("aab", "ab"));
}

#[test]
fn match_navigation_wraps_and_falls_back() {
    let ms: Vec<Vec<usize>> = vec![vec![0], vec![1, 0], vec![1, 1]];
    assert_eq!(first_match(&ms), Some(vec![0]));
    assert_eq!(next_match(&ms, &[0]), Some(vec![1, 0]));
    assert_eq!(next_match(&ms, &[1, 1]), Some(vec![0]));
    assert_eq!(next_match(&ms, &[2]), Some(vec![0]));
    assert_eq!(previous_match(&ms, &[0]), Some(vec![1, 1]));
    assert_eq!(previous_match(&ms, &[1, 1]), Some(vec![1, 0]));
    assert_eq!(previous_match(&ms, &[1]), Some(vec![1, 1]));
    let none: Vec<Vec<usize>> = Vec::new();
    assert_eq!(first_match(&none), None);
    assert_eq!(next_match(&none, &[0]), None);
    assert_eq!(previous_match(&none, &[0]), None);
}
