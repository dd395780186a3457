use grublist::prompts::{is_confirmation, list_menu_choice, ListChoice};
use grublist::colorprint::Bcolors;
use grublist::interaction::{decode_input, key_code, more_bytes_wanted, InputEvent};
use grublist::kernel_info::is_kernel_in_use;
use grublist::sizes::format_size;

#[test]
fn sizes_in_units() {
    assert_eq!(format_size(0), "0.00 B");
    assert_eq!(format_size(1023), "1023.00 B");
    assert_eq!(format_size(1024), "1.00 KB");
    assert_eq!(format_size(1536), "1.50 KB");
    assert_eq!(format_size(1048576), "1.00 MB");
    assert_eq!(format_size(5 * 1073741824), "5.00 GB");
    assert_eq!(format_size(2048 * 1073741824), "2048.00 GB");
}

#[test]
fn sizes_agree_with_float_formatting() {
    let units = ["B", "KB", "MB", "GB"];
    let samples: Vec<u64> = vec![0, 1, 5, 999, 1023, 1024, 1025, 1152, 1184, 1536, 2047, 2049, 10240, 123456, 1048575, 1048576, 5242880, 7340032, 1073741823, 1073741824, 1610612736, 123456789012, 9007199254740991];
    for b in samples {
        let mut size = b as f64;
        let mut i = 0;
        while size >= 1024.0 && i < 3 {
            size /= 1024.0;
            i += 1;
        }
        assert_eq!(format_size(b), format!("{:.2} {}", size, units[i]), "for {}", b);
    }
}

#[test]
fn colour_sequences() {
    let c = Bcolors::new();
    assert_eq!(c.header("x"), "\x1b[95mx\x1b[0m");
    assert_eq!(c.okblue("x"), "\x1b[94mx\x1b[0m");
    assert_eq!(c.okgreen(""), "\x1b[92m\x1b[0m");
    assert_eq!(c.fail("e"), "\x1b[91me\x1b[0m");
    assert_eq!(c.inverse("i"), "\x1b[7mi\x1b[0m");
    assert_eq!(c.underline("u"), "\x1b[4mu\x1b[0m");
    assert_eq!(c.warning(), "\x1b[93m");
    assert_eq!(c.endc(), "\x1b[0m");
    assert_eq!(c.bold(), "\x1b[1m");
}

#[test]
fn input_bytes_decode() {
    assert_eq!(key_code(&decode_input(&[27, 91, 65])), 1);
    assert_eq!(key_code(&decode_input(&[27, 91, 68])), 4);
    assert_eq!(key_code(&decode_input(&[27])), 27);
    assert_eq!(key_code(&decode_input(&[27, 79])), 27);
    assert_eq!(key_code(&decode_input(&[13])), 5);
    assert_eq!(key_code(&decode_input(&[127])), 127);
    assert_eq!(key_code(&decode_input(&[b'q'])), 6);
    assert_eq!(key_code(&decode_input(&[b'y'])), 7);
    assert_eq!(key_code(&decode_input(&[b'n'])), 8);
    assert_eq!(key_code(&decode_input(&[b'/'])), 47);
    assert_eq!(key_code(&decode_input(&[b'd'])), 100);
    assert_eq!(key_code(&decode_input(&[b'A'])), 65);
    assert_eq!(key_code(&decode_input(&[1])), 0);
    match decode_input(&[27, 91, 77, 32, 40, 35]) {
        InputEvent::MouseClick(m) => {
            assert_eq!((m.x, m.y, m.button), (8, 3, 0));
        }
        _ => panic!("expected a click"),
    }
    assert_eq!(key_code(&decode_input(&[27, 91, 77, 35, 40, 35])), 0);
    assert_eq!(more_bytes_wanted(&[]), 1);
    assert_eq!(more_bytes_wanted(&[27]), 1);
    assert_eq!(more_bytes_wanted(&[27, 91]), 1);
    assert_eq!(more_bytes_wanted(&[27, 91, 77]), 3);
    assert_eq!(more_bytes_wanted(&[65]), 0);
}

#[test]
fn running_kernel_check() {
    assert!(is_kernel_in_use(Some("6.5.0-14-generic"), "6.5.0-14-generic"));
    assert!(!is_kernel_in_use(Some("6.5.0-14-generic"), "6.5.0"));
    assert!(!is_kernel_in_use(None, "6.5.0"));
}


#[test]
fn menu_answers() {
    assert_eq!(list_menu_choice(" 2\n", 3), ListChoice::Edit(1));
    assert_eq!(list_menu_choice("4", 3), ListChoice::Other);
    assert_eq!(list_menu_choice("0", 3), ListChoice::Other);
    assert_eq!(list_menu_choice("A", 3), ListChoice::Add);
    assert_eq!(list_menu_choice("d", 3), ListChoice::Delete);
    assert_eq!(list_menu_choice("d", 0), ListChoice::Other);
    assert_eq!(list_menu_choice(" S ", 0), ListChoice::Save);
    assert_eq!(list_menu_choice("c\n", 0), ListChoice::Cancel);
    assert_eq!(list_menu_choice("x", 0), ListChoice::Other);
    assert!(is_confirmation("\n"));
    assert!(is_confirmation("Y"));
    assert!(is_confirmation(" yes "));
    assert!(is_confirmation("YES"));
    assert!(!is_confirmation("n"));
    assert!(!is_confirmation("yep"));
}

#[test]
fn line_editor_answers() {
    use_value_edit();
}

fn use_value_edit() {
    match grublist::prompts::value_edit("root=/dev/sda", " /dev/sdb \n") {
        grublist::prompts::ValueEdit::Replace(p) => assert_eq!(p, "root=/dev/sdb"),
        _ => panic!("expected a replacement"),
    }
    assert!(matches!(grublist::prompts::value_edit("quiet", "\n"), grublist::prompts::ValueEdit::AskName));
    assert!(matches!(grublist::prompts::value_edit("a=1", "  "), grublist::prompts::ValueEdit::Keep));
    assert_eq!(grublist::prompts::nonempty_answer("  x \n"), Some("x".to_string()));
    assert_eq!(grublist::prompts::nonempty_answer(" \n"), None);
    assert_eq!(grublist::prompts::new_parameter("root", " /dev/sda\n"), "root=/dev/sda");
    assert_eq!(grublist::prompts::new_parameter("quiet", "\n"), "quiet");
}
