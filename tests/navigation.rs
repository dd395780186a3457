use grublist::nav::{App, AppState, Effect, GrubConfigInputMode, InputMode, Key, ParamTarget};
use grublist::parser::parse_grub;
use grublist::records::{BackupInfo, KernelToClean};

fn tree_text() -> &'static str {
    "menuentry 'Ubuntu' {\n}\nsubmenu 'Advanced options' {\nmenuentry 'Ubuntu, with Linux 6.5.0' {\n}\nmenuentry 'Ubuntu, with Linux 6.5.0 (recovery mode)' {\n}\n}\n"
}

fn app() -> App {
    App::new(parse_grub(tree_text()))
}

fn browse_state(a: &App) -> (Vec<usize>, usize) {
    match &a.state {
        AppState::SelectBootEntry { path, selected, .. } => (path.clone(), *selected),
        _ => panic!("not browsing"),
    }
}

fn kernel(v: &str) -> KernelToClean {
    KernelToClean { version: v.to_string(), files: vec![], size: 0, in_use: false }
}

#[test]
fn main_menu_wraps_and_quits() {
    let mut a = app();
    assert!(matches!(a.on_key(Key::Up), Effect::Nothing));
    assert!(matches!(a.state, AppState::MainMenu { selected: 5 }));
    a.on_key(Key::Down);
    assert!(matches!(a.state, AppState::MainMenu { selected: 0 }));
    assert!(matches!(a.on_key(Key::Esc), Effect::Quit));
    a.on_key(Key::Down);
    a.on_key(Key::Down);
    assert!(matches!(a.on_key(Key::Enter), Effect::OpenSettings));
    assert!(matches!(a.state, AppState::MainMenu { selected: 2 }));
}

#[test]
fn browse_descend_ascend_and_back() {
    let mut a = app();
    a.on_key(Key::Enter);
    assert_eq!(browse_state(&a), (vec![], 0));
    assert_eq!(a.state_stack.len(), 1);
    a.on_key(Key::Down);
    assert_eq!(browse_state(&a), (vec![], 1));
    a.on_key(Key::Right);
    assert_eq!(browse_state(&a), (vec![1], 0));
    a.on_key(Key::Up);
    assert_eq!(browse_state(&a), (vec![1], 1));
    // Enter on a menu entry does not navigate.
    a.on_key(Key::Enter);
    assert_eq!(browse_state(&a), (vec![1], 1));
    a.on_key(Key::Left);
    assert_eq!(browse_state(&a), (vec![], 0));
    a.on_key(Key::Left);
    assert!(matches!(a.state, AppState::MainMenu { selected: 0 }));
    assert!(a.state_stack.is_empty());
}

#[test]
fn confirm_default_from_browser() {
    let mut a = app();
    a.on_key(Key::Enter);
    a.on_key(Key::Down);
    a.on_key(Key::Enter);
    a.on_key(Key::Char('y'));
    match &a.state {
        AppState::ConfirmSetDefaultEntry { path, entry_name } => {
            assert_eq!(path, &vec![1, 0]);
            assert_eq!(entry_name, "Ubuntu, with Linux 6.5.0");
        }
        _ => panic!("expected the confirmation screen"),
    }
    match a.on_key(Key::Char('y')) {
        Effect::SetDefault { path } => assert_eq!(path, vec![1, 0]),
        _ => panic!("expected a request to store the default"),
    }
    a.on_key(Key::Char('n'));
    assert_eq!(browse_state(&a), (vec![1], 0));
}

#[test]
fn kernel_info_and_rename_requests() {
    let mut a = app();
    a.on_key(Key::Enter);
    match a.on_key(Key::Char('i')) {
        Effect::ShowKernelInfo { path, name } => {
            assert_eq!(path, vec![0]);
            assert_eq!(name, "Ubuntu");
        }
        _ => panic!("expected a kernel lookup"),
    }
    match a.on_key(Key::Char('e')) {
        Effect::StartRename { path, name } => {
            assert_eq!(path, vec![0]);
            assert_eq!(name, "Ubuntu");
        }
        _ => panic!("expected a rename"),
    }
    // On a submenu these keys do nothing.
    a.on_key(Key::Down);
    assert!(matches!(a.on_key(Key::Char('i')), Effect::Nothing));
    assert_eq!(browse_state(&a), (vec![], 1));
}

#[test]
fn browser_search_types_and_confirms() {
    let mut a = app();
    a.on_key(Key::Enter);
    a.on_key(Key::Char('r'));
    match &a.state {
        AppState::SelectBootEntrySearch { query, results, selected, .. } => {
            assert_eq!(query, "r");
            assert_eq!(results, &vec![vec![1, 1]]);
            assert_eq!(*selected, 0);
        }
        _ => panic!("expected the search screen"),
    }
    a.on_key(Key::Backspace);
    match &a.state {
        AppState::SelectBootEntrySearch { query, results, .. } => {
            assert_eq!(query, "");
            assert!(results.is_empty());
        }
        _ => panic!("expected the search screen"),
    }
    a.on_key(Key::Char('L'));
    a.on_key(Key::Char('I'));
    a.on_key(Key::Down);
    a.on_key(Key::Enter);
    match &a.state {
        AppState::ConfirmSetDefaultEntry { path, entry_name } => {
            assert_eq!(path, &vec![1, 1]);
            assert_eq!(entry_name, "Ubuntu, with Linux 6.5.0 (recovery mode)");
        }
        _ => panic!("expected the confirmation screen"),
    }
    a.on_key(Key::Esc);
    a.on_key(Key::Esc);
    assert_eq!(browse_state(&a), (vec![], 0));
}

#[test]
fn forward_then_back_restores_start() {
    let mut a = app();
    a.on_key(Key::Down);
    let depth = a.state_stack.len();
    a.navigate_to(AppState::ViewDefaultEntry, true);
    a.open_cleanup(vec![kernel("5.15.0-91-generic")]);
    a.open_backups(vec![]);
    assert_eq!(a.state_stack.len(), depth + 3);
    for _ in 0..3 {
        assert!(a.navigate_back());
    }
    assert!(matches!(a.state, AppState::MainMenu { selected: 1 }));
    assert_eq!(a.state_stack.len(), depth);
    assert!(!a.navigate_back());
    assert!(matches!(a.state, AppState::MainMenu { selected: 0 }));
}

#[test]
fn deleting_last_item_clamps_selection() {
    for k in 1usize..5 {
        let mut a = app();
        a.open_cleanup((0..k).map(|i| kernel(&format!("{}", i))).collect());
        for _ in 0..(k - 1) {
            a.on_key(Key::Down);
        }
        a.refresh_cleanup((0..k - 1).map(|i| kernel(&format!("{}", i))).collect());
        match &a.state {
            AppState::CleanupKernels { selected, .. } => assert_eq!(*selected, if k >= 2 { k - 2 } else { 0 }),
            _ => panic!("expected the clean-up list"),
        }
    }
    let mut b = app();
    let backup = |p: &str| BackupInfo { path: p.to_string(), size: 1, modified: 2 };
    b.open_backups(vec![backup("a"), backup("b")]);
    b.on_key(Key::Up);
    match b.on_key(Key::Char('d')) {
        Effect::DeleteBackup { path } => assert_eq!(path, "b"),
        _ => panic!("expected a delete request"),
    }
    b.refresh_backups(vec![backup("a")]);
    assert!(matches!(b.state, AppState::BackupManager { selected: 0, .. }));
}

#[test]
fn running_kernel_is_not_offered_for_deletion() {
    let mut a = app();
    let mut k = kernel("6.5.0");
    k.in_use = true;
    a.open_cleanup(vec![k, kernel("5.4.0")]);
    assert!(matches!(a.on_key(Key::Enter), Effect::Nothing));
    a.on_key(Key::Down);
    match a.on_key(Key::Enter) {
        Effect::DeleteKernel { version } => assert_eq!(version, "5.4.0"),
        _ => panic!("expected a delete request"),
    }
}

fn settings_app() -> App {
    let mut a = app();
    a.open_settings(vec!["quiet".to_string()], vec!["splash".to_string(), "a=1".to_string()], "5".to_string(), "menu".to_string());
    a
}

#[test]
fn settings_timeout_and_style_fields() {
    let mut a = settings_app();
    a.on_key(Key::Down);
    a.on_key(Key::Down);
    a.on_key(Key::Enter);
    a.on_key(Key::Backspace);
    a.on_key(Key::Char('1'));
    a.on_key(Key::Char('0'));
    a.on_key(Key::Char(' '));
    a.on_key(Key::Right);
    match &a.state {
        AppState::ConfigureGrub { selected, timeout, input_mode, input_buffer, .. } => {
            assert_eq!(*selected, 3);
            assert_eq!(timeout, "10");
            assert!(*input_mode == GrubConfigInputMode::SelectTimeoutStyle);
            assert!(input_buffer.is_empty());
        }
        _ => panic!("expected the settings screen"),
    }
    for c in " HIDDEN".chars() {
        a.on_key(Key::Char(c));
    }
    a.on_key(Key::Enter);
    match &a.state {
        AppState::ConfigureGrub { timeout_style, input_mode, .. } => {
            assert_eq!(timeout_style, "hidden");
            assert!(*input_mode == GrubConfigInputMode::Idle);
        }
        _ => panic!("expected the settings screen"),
    }
    a.on_key(Key::Enter);
    for c in "bogus".chars() {
        a.on_key(Key::Char(c));
    }
    a.on_key(Key::Enter);
    match &a.state {
        AppState::ConfigureGrub { timeout_style, .. } => assert_eq!(timeout_style, "hidden"),
        _ => panic!("expected the settings screen"),
    }
    for _ in 0..3 {
        a.on_key(Key::Down);
    }
    match a.on_key(Key::Enter) {
        Effect::SaveSettings { linux, linux_default, timeout, timeout_style } => {
            assert_eq!(linux, "quiet");
            assert_eq!(linux_default, "splash a=1");
            assert_eq!(timeout, "10");
            assert_eq!(timeout_style, "hidden");
        }
        _ => panic!("expected a save request"),
    }
}

fn list_state(a: &App) -> (Vec<String>, usize, bool) {
    match &a.state {
        AppState::EditParameterList { params, selected, input_mode, .. } => {
            (params.clone(), *selected, matches!(input_mode, InputMode::Idle))
        }
        _ => panic!("expected the parameter list"),
    }
}

#[test]
fn parameter_list_edit_add_delete() {
    let mut a = settings_app();
    a.on_key(Key::Down);
    a.on_key(Key::Enter);
    assert_eq!(list_state(&a), (vec!["splash".to_string(), "a=1".to_string()], 0, true));
    // Edit the value of the second parameter.
    a.on_key(Key::Down);
    a.on_key(Key::Enter);
    for c in " 2 ".chars() {
        a.on_key(Key::Char(c));
    }
    a.on_key(Key::Enter);
    assert_eq!(list_state(&a).0, vec!["splash".to_string(), "a=2".to_string()]);
    // Add a parameter with a value.
    a.on_key(Key::Down);
    a.on_key(Key::Enter);
    for c in "root".chars() {
        a.on_key(Key::Char(c));
    }
    a.on_key(Key::Enter);
    for c in "/dev/sda".chars() {
        a.on_key(Key::Char(c));
    }
    a.on_key(Key::Enter);
    assert_eq!(list_state(&a).0, vec!["splash".to_string(), "a=2".to_string(), "root=/dev/sda".to_string()]);
    // Delete the first parameter; the selection moves to the "delete" row first.
    a.on_key(Key::Down);
    assert_eq!(list_state(&a).1, 3);
    a.on_key(Key::Down);
    assert_eq!(list_state(&a).1, 4);
    a.on_key(Key::Enter);
    a.on_key(Key::Char('1'));
    a.on_key(Key::Enter);
    assert_eq!(list_state(&a), (vec!["a=2".to_string(), "root=/dev/sda".to_string()], 4, true));
    // Esc in the idle sub-mode asks to return with the edits.
    match a.on_key(Key::Esc) {
        Effect::ReturnToSettings { target, params, back_on_error } => {
            assert!(target == ParamTarget::LinuxDefault);
            assert_eq!(params, Some(vec!["a=2".to_string(), "root=/dev/sda".to_string()]));
            assert!(back_on_error);
        }
        _ => panic!("expected a return request"),
    }
    a.return_to_settings(ParamTarget::LinuxDefault, Some(vec!["a=2".to_string()]), vec!["x".to_string()], vec!["y".to_string()], "5".to_string(), "menu".to_string());
    match &a.state {
        AppState::ConfigureGrub { selected, linux_params, linux_default_params, .. } => {
            assert_eq!(*selected, 1);
            assert_eq!(linux_params, &vec!["x".to_string()]);
            assert_eq!(linux_default_params, &vec!["a=2".to_string()]);
        }
        _ => panic!("expected the settings screen"),
    }
}

#[test]
fn parameter_list_submode_exit_keeps_screen() {
    let mut a = settings_app();
    a.on_key(Key::Enter);
    a.on_key(Key::Enter);
    a.on_key(Key::Char('z'));
    assert!(matches!(a.on_key(Key::Esc), Effect::Nothing));
    assert_eq!(list_state(&a), (vec!["quiet".to_string()], 0, true));
    // Up from the first row wraps to "cancel".
    a.on_key(Key::Up);
    assert_eq!(list_state(&a).1, 4);
    assert!(matches!(a.on_key(Key::Enter), Effect::ReturnToSettings { params: None, back_on_error: false, .. }));
}

#[test]
fn all_params_edit_and_store() {
    let mut a = app();
    a.open_all_params(vec![("GRUB_DEFAULT".to_string(), "0".to_string()), ("GRUB_TIMEOUT".to_string(), "5".to_string())]);
    a.on_key(Key::Down);
    a.on_key(Key::Enter);
    a.on_key(Key::Char('\x7f'));
    a.on_key(Key::Char('7'));
    match a.on_key(Key::Enter) {
        Effect::SaveParam { key, value } => {
            assert_eq!(key, "GRUB_TIMEOUT");
            assert_eq!(value, "7");
        }
        _ => panic!("expected a store request"),
    }
    a.refresh_all_params(vec![("A".to_string(), "1".to_string()), ("GRUB_DEFAULT".to_string(), "0".to_string()), ("GRUB_TIMEOUT".to_string(), "7".to_string())], "GRUB_TIMEOUT");
    assert!(matches!(a.state, AppState::EditAllGrubParams { selected: 2, .. }));
}

#[test]
fn main_search_mode() {
    let mut a = app();
    a.start_search('u');
    assert_eq!(a.search_results.len(), 3);
    a.on_key(Key::Char('b'));
    assert_eq!(a.search_query, "ub");
    a.on_key(Key::Backspace);
    a.on_key(Key::Backspace);
    assert_eq!(a.search_query, "");
    assert!(a.search_results.is_empty());
    a.on_key(Key::Esc);
    assert!(matches!(a.state, AppState::MainMenu { selected: 0 }));
}

#[test]
fn message_returns_to_main_menu() {
    let mut a = app();
    a.navigate_to(AppState::ViewDefaultEntry, true);
    a.show_message("Error".to_string(), vec!["x".to_string()], grublist::nav::MessageType::Error);
    assert_eq!(a.state_stack.len(), 1);
    a.on_key(Key::Char('x'));
    assert!(matches!(a.state, AppState::Message { .. }));
    a.on_key(Key::Enter);
    assert!(matches!(a.state, AppState::MainMenu { selected: 0 }));
}

#[test]
fn main_search_is_stacked_and_esc_goes_back() {
    let mut a = app();
    a.on_key(Key::Down);
    a.start_search('u');
    assert_eq!(a.state_stack.len(), 1);
    a.on_key(Key::Esc);
    assert!(matches!(a.state, AppState::MainMenu { selected: 1 }));
    assert!(a.state_stack.is_empty());
    assert!(a.search_query.is_empty());
    a.start_search('u');
    a.on_key(Key::Enter);
    assert!(matches!(a.state, AppState::MainMenu { selected: 1 }));
    assert!(a.state_stack.is_empty());
}

#[test]
fn esc_in_settings_field_ends_the_edit_only() {
    let mut a = settings_app();
    let depth = a.state_stack.len();
    a.on_key(Key::Down);
    a.on_key(Key::Down);
    a.on_key(Key::Enter);
    a.on_key(Key::Char('9'));
    a.on_key(Key::Esc);
    match &a.state {
        AppState::ConfigureGrub { selected, timeout, input_mode, input_buffer, .. } => {
            assert_eq!(*selected, 2);
            assert_eq!(timeout, "5");
            assert!(*input_mode == GrubConfigInputMode::Idle);
            assert!(input_buffer.is_empty());
        }
        _ => panic!("expected the settings screen"),
    }
    assert_eq!(a.state_stack.len(), depth);
    a.on_key(Key::Esc);
    assert!(matches!(a.state, AppState::MainMenu { .. }));
}

#[test]
fn deleting_selected_last_parameter_clamps_selection() {
    let mut a = app();
    a.open_settings(vec!["a".to_string(), "b".to_string(), "c".to_string()], vec![], "5".to_string(), "menu".to_string());
    a.on_key(Key::Enter);
    a.on_key(Key::Down);
    a.on_key(Key::Down);
    assert_eq!(list_state(&a).1, 2);
    // Put the selected last parameter into the delete prompt, as a caller may do.
    let st = std::mem::replace(&mut a.state, AppState::MainMenu { selected: 0 });
    if let AppState::EditParameterList { target, params, selected, .. } = st {
        a.state = AppState::EditParameterList { target, params, selected, input_mode: InputMode::DeleteIndex, input_buffer: "3".to_string() };
    }
    a.on_key(Key::Enter);
    assert_eq!(list_state(&a), (vec!["a".to_string(), "b".to_string()], 1, true));
}

#[test]
fn default_value_is_quoted_path() {
    assert_eq!(grublist::path::default_value(&[1, 0]), "\"1>0\"");
    assert_eq!(grublist::path::default_value(&[]), "\"\"");
}
