use grublist::grub_config::{format_parameter, join_parameters, parse_parameters, split_lines, split_parameter, GrubConfig};
use grublist::grub_validate::{describe_default, fix_old_grub_default_format, is_old_grub_default_format, validation_result, DefaultEntry};
use grublist::parser::parse_grub;
use grublist::custom_names::CustomNames;

const SETTINGS: &str = "# GRUB settings\nGRUB_DEFAULT=0\nGRUB_TIMEOUT_STYLE=hidden\nGRUB_CMDLINE_LINUX_DEFAULT=\"quiet splash\"\n  GRUB_CMDLINE_LINUX = ''\nBAD LINE\nGRUB_DISABLE_OS_PROBER='true'\n";

#[test]
fn parameters_split_join_and_format() {
    assert_eq!(parse_parameters("  quiet splash\tnomodeset "), vec!["quiet", "splash", "nomodeset"]);
    assert!(parse_parameters("   ").is_empty());
    assert!(parse_parameters("").is_empty());
    assert_eq!(join_parameters(&["a".to_string(), "b=1".to_string()]), "a b=1");
    assert_eq!(join_parameters(&[]), "");
    assert_eq!(split_parameter("root=/dev/sda1"), ("root".to_string(), Some("/dev/sda1".to_string())));
    assert_eq!(split_parameter("a=b=c"), ("a".to_string(), Some("b=c".to_string())));
    assert_eq!(split_parameter("quiet"), ("quiet".to_string(), None));
    assert_eq!(split_parameter("x="), ("x".to_string(), Some(String::new())));
    assert_eq!(format_parameter("root", Some("/dev/sda1")), "root=/dev/sda1");
    assert_eq!(format_parameter("quiet", None), "quiet");
}

#[test]
fn settings_text_is_parsed_with_defaults() {
    let c = GrubConfig::from_text(SETTINGS);
    assert_eq!(c.get("GRUB_DEFAULT"), Some(&"0".to_string()));
    assert_eq!(c.get("GRUB_CMDLINE_LINUX_DEFAULT"), Some(&"quiet splash".to_string()));
    assert_eq!(c.get("GRUB_CMDLINE_LINUX"), Some(&"".to_string()));
    assert_eq!(c.get("GRUB_DISABLE_OS_PROBER"), Some(&"true".to_string()));
    assert_eq!(c.get("GRUB_TIMEOUT"), Some(&"5".to_string()));
    assert_eq!(c.get("GRUB_TIMEOUT_STYLE"), Some(&"hidden".to_string()));
    assert_eq!(c.get("BAD"), None);
    assert_eq!(c.grub_timeout, "5");
    assert_eq!(c.grub_timeout_style, "hidden");
    assert_eq!(c.grub_cmdline_linux_default, "quiet splash");
    let names: Vec<&str> = c.get_all_params().iter().map(|p| p.0.as_str()).collect();
    assert_eq!(names, vec!["GRUB_DEFAULT", "GRUB_TIMEOUT_STYLE", "GRUB_CMDLINE_LINUX_DEFAULT", "GRUB_CMDLINE_LINUX", "GRUB_DISABLE_OS_PROBER", "GRUB_TIMEOUT"]);
}

#[test]
fn later_assignment_wins() {
    let c = GrubConfig::from_text("GRUB_TIMEOUT=1\nGRUB_TIMEOUT=\"10\"\n");
    assert_eq!(c.get("GRUB_TIMEOUT"), Some(&"10".to_string()));
    assert_eq!(c.get_all_params().len(), 2);
}

#[test]
fn set_updates_value_and_field() {
    let mut c = GrubConfig::from_text(SETTINGS);
    c.set("GRUB_TIMEOUT", "3".to_string());
    assert_eq!(c.grub_timeout, "3");
    assert_eq!(c.get("GRUB_TIMEOUT"), Some(&"3".to_string()));
    c.set("GRUB_DEFAULT", "\"1>0\"".to_string());
    assert_eq!(c.grub_default, "\"1>0\"");
    c.set("NEW_KEY", "v".to_string());
    assert_eq!(c.get_all_params().last().unwrap().0, "NEW_KEY");
    assert_eq!(c.get_all_params().len(), 7);
}

#[test]
fn render_rewrites_and_appends() {
    let mut c = GrubConfig::from_text(SETTINGS);
    c.set("GRUB_CMDLINE_LINUX", "nomodeset".to_string());
    let out = c.render(SETTINGS);
    let expected = "# GRUB settings\nGRUB_DEFAULT=0\nGRUB_TIMEOUT_STYLE=hidden\nGRUB_CMDLINE_LINUX_DEFAULT=\"quiet splash\"\nGRUB_CMDLINE_LINUX=\"nomodeset\"\nBAD LINE\nGRUB_DISABLE_OS_PROBER=true\nGRUB_TIMEOUT=5\n";
    assert_eq!(out, expected);
}

#[test]
fn lines_follow_str_lines() {
    for text in ["", "a", "a\n", "a\r\nb", "\n\n", "x\ny\r\n"] {
        let expected: Vec<String> = text.lines().map(|s| s.to_string()).collect();
        assert_eq!(split_lines(text), expected);
    }
}

#[test]
fn old_default_format_detection() {
    assert!(is_old_grub_default_format("Ubuntu, with Linux 6.5.0-rc2-snp-host"));
    assert!(is_old_grub_default_format("\"Ubuntu, with Linux 6.5.0\""));
    assert!(!is_old_grub_default_format("0>2"));
    assert!(!is_old_grub_default_format("3"));
    assert!(!is_old_grub_default_format("saved"));
    assert!(!is_old_grub_default_format("gnulinux-advanced-1234"));
    assert!(!is_old_grub_default_format("Advanced options>Ubuntu, with Linux 6.5.0"));
    assert!(!is_old_grub_default_format("Windows Boot Manager"));
}

#[test]
fn old_default_is_fixed_to_a_path() {
    let t = parse_grub("menuentry 'Ubuntu' {\n}\nsubmenu 'Advanced options' {\nmenuentry 'Ubuntu, with Linux 6.5.0' {\n}\n}\n");
    assert_eq!(fix_old_grub_default_format("'Ubuntu, with Linux 6.5.0'", &t), Some("1>0".to_string()));
    assert_eq!(fix_old_grub_default_format("Ubuntu", &t), Some("0".to_string()));
    assert_eq!(fix_old_grub_default_format("root", &t), Some(String::new()));
    assert_eq!(fix_old_grub_default_format("Nothing", &t), None);

    let mut c = GrubConfig::from_text("GRUB_DEFAULT=\"Ubuntu, with Linux 6.5.0\"\n");
    assert!(c.validate_and_fix_grub_default(&t));
    assert_eq!(c.grub_default, "1>0");
    let mut d = GrubConfig::from_text("GRUB_DEFAULT=saved\n");
    assert!(!d.validate_and_fix_grub_default(&t));
    assert_eq!(d.grub_default, "saved");
}

#[test]
fn default_entry_description() {
    let t = parse_grub("menuentry 'Ubuntu' {\n}\nsubmenu 'Advanced options' {\nmenuentry 'Ubuntu, with Linux 6.5.0' {\n}\n}\n");
    assert!(matches!(describe_default("saved", &t), DefaultEntry::Saved));
    match describe_default("\"1>0\"", &t) {
        DefaultEntry::Found { path, name } => {
            assert_eq!(path, vec![1, 0]);
            assert_eq!(name, "Ubuntu, with Linux 6.5.0");
        }
        _ => panic!("expected an entry"),
    }
    match describe_default("4", &t) {
        DefaultEntry::Missing { path } => assert_eq!(path, vec![4]),
        _ => panic!("expected a missing path"),
    }
    assert!(matches!(describe_default("Ubuntu", &t), DefaultEntry::Unrecognised));
    assert!(matches!(describe_default("", &t), DefaultEntry::Unrecognised));
}

#[test]
fn validation_output_is_sorted_into_errors_and_warnings() {
    let r = validation_result(true, "Generating grub configuration file ...\nWARNING: os-prober skipped\ndone\n", "error: no such device\nWarning and ERROR together\n");
    assert_eq!(r.errors, vec!["error: no such device", "Warning and ERROR together"]);
    assert_eq!(r.warnings, vec!["WARNING: os-prober skipped"]);
    assert!(!r.valid);
    assert!(r.output.starts_with("Generating"));
    let ok = validation_result(true, "done\n", "");
    assert!(ok.valid);
    let failed = validation_result(false, "done\n", "");
    assert!(!failed.valid);
}

#[test]
fn custom_names_set_get_and_remove() {
    let mut n = CustomNames::new();
    assert_eq!(n.get_custom_name(&[1, 0]), None);
    n.set_custom_name(&[1, 0], "Main".to_string());
    assert_eq!(n.get_custom_name(&[1, 0]), Some(&"Main".to_string()));
    assert_eq!(n.names[0].0, "1>0");
    n.set_custom_name(&[1, 0], "Other".to_string());
    assert_eq!(n.names.len(), 1);
    assert_eq!(n.get_custom_name(&[1, 0]), Some(&"Other".to_string()));
    n.set_custom_name(&[2], "Two".to_string());
    n.set_custom_name(&[1, 0], String::new());
    assert_eq!(n.get_custom_name(&[1, 0]), None);
    assert_eq!(n.get_custom_name(&[2]), Some(&"Two".to_string()));
    n.set_custom_name(&[7], String::new());
    assert_eq!(n.names.len(), 1);
}

#[test]
fn stored_names_keep_their_keys() {
    let mut n = CustomNames::new();
    n.set_name_for_key("x>1", "Odd".to_string());
    assert_eq!(n.names[0].0, "x>1");
    n.set_name_for_key("x>1", String::new());
    assert!(n.names.is_empty());
}
