use vstd::prelude::*;
use crate::records::{BackupInfo, BootTimeEntry, KernelInfo, KernelToClean, ValidationResult};
use crate::grub_config::{format_parameter, join_parameters, joined, parameter_parts, parameter_text, split_parameter, texts};
use crate::path::parse_index;
use crate::search::{collect_matches, lower_of, lowercase, paths_view, search_results};
use crate::text::{pop_char, push_char, same_text, trim_text, trimmed};
use crate::tree::{Entry, EntryType, EntryView, node_at, try_get_entry};

verus! {

broadcast use vstd::string::group_string_axioms;

/// What a boot-entry browser was opened for.
#[derive(Debug, Clone, Copy, PartialEq, Eq, Structural)]
pub enum SelectBootEntryAction {
    ViewKernelInfo,
    Rename,
}

/// The text field that a settings screen is editing, if any.
#[derive(Debug, Clone, Copy, PartialEq, Eq, Structural)]
pub enum GrubConfigInputMode {
    Idle,
    EditTimeout,
    SelectTimeoutStyle,
    EditLinuxParams,
    EditLinuxDefaultParams,
}

/// The sub-mode of the parameter-list editor.
pub enum InputMode {
    Idle,
    EditValue(usize),
    AddName,
    AddValue(String),
    DeleteIndex,
}

/// Which kernel command line a parameter-list editor works on.
#[derive(Debug, Clone, Copy, PartialEq, Eq, Structural)]
pub enum ParamTarget {
    Linux,
    LinuxDefault,
}

/// The tone of an informational screen.
#[derive(Debug, Clone, Copy, PartialEq, Eq, Structural)]
pub enum MessageType {
    Success,
    Error,
    Info,
}

/// A key press, as the screens see it.
#[derive(Debug, Clone, Copy, PartialEq, Eq, Structural)]
pub enum Key {
    Esc,
    Up,
    Down,
    Left,
    Right,
    Enter,
    Backspace,
    Char(char),
    Other,
}

/// A screen together with the data it needs.
#[allow(inconsistent_fields)]
pub enum AppState {
    MainMenu { selected: usize },
    SearchMode { selected: usize },
    SelectBootEntry { path: Vec<usize>, selected: usize, action: Option<SelectBootEntryAction> },
    SelectBootEntrySearch { path: Vec<usize>, query: String, results: Vec<Vec<usize>>, selected: usize },
    ConfigureGrub {
        selected: usize,
        linux_params: Vec<String>,
        linux_default_params: Vec<String>,
        timeout: String,
        timeout_style: String,
        input_mode: GrubConfigInputMode,
        input_buffer: String,
    },
    EditParameterList {
        target: ParamTarget,
        params: Vec<String>,
        selected: usize,
        input_mode: InputMode,
        input_buffer: String,
    },
    ViewDefaultEntry,
    ConfirmSetDefaultEntry { path: Vec<usize>, entry_name: String },
    Message { title: String, content: Vec<String>, message_type: MessageType },
    ViewKernelInfo { path: Vec<usize>, kernel_info: Option<KernelInfo> },
    CleanupKernels { kernels: Vec<KernelToClean>, selected: usize },
    RenameBootEntry { path: Vec<usize>, original_name: String, input_buffer: String },
    BackupManager { backups: Vec<BackupInfo>, selected: usize },
    ValidateGrub { result: Option<ValidationResult> },
    BootTimeStats { entries: Vec<BootTimeEntry>, selected: usize },
    EditAllGrubParams {
        params: Vec<(String, String)>,
        selected: usize,
        input_mode: GrubConfigInputMode,
        input_buffer: String,
    },
}

/// Outside work that a key press asks of the caller, which reports back through the
/// corresponding `App` method.
#[allow(inconsistent_fields)]
pub enum Effect {
    /// Nothing to do.
    Nothing,
    /// Leave the program.
    Quit,
    /// Load the GRUB settings and open the settings screen (`open_settings`).
    OpenSettings,
    /// Scan for removable kernels (`open_cleanup`).
    ScanKernels,
    /// List the settings backups (`open_backups`).
    ListBackups,
    /// Collect boot-time records (`open_boot_times`).
    LoadBootTimes,
    /// Load every GRUB setting (`open_all_params`).
    OpenAllParams,
    /// Run the configuration check (`open_validation`).
    Validate,
    /// Store the edited command lines and timeout settings.
    SaveSettings { linux: String, linux_default: String, timeout: String, timeout_style: String },
    /// Reload the settings and return to the settings screen (`return_to_settings`), carrying
    /// the edited list when it is to be kept; on a load failure go back or to the main menu.
    ReturnToSettings { target: ParamTarget, params: Option<Vec<String>>, back_on_error: bool },
    /// Make the entry at `path` the default boot entry.
    SetDefault { path: Vec<usize> },
    /// Look up the kernel of an entry (`open_kernel_info`).
    ShowKernelInfo { path: Vec<usize>, name: String },
    /// Look up the custom name of an entry (`open_rename`).
    StartRename { path: Vec<usize>, name: String },
    /// Store a custom name for the entry at `path` (empty: remove it).
    SaveCustomName { path: Vec<usize>, name: String },
    /// Delete a kernel's files (`refresh_cleanup`).
    DeleteKernel { version: String },
    /// Restore a settings backup.
    RestoreBackup { path: String },
    /// Delete a settings backup (`refresh_backups`).
    DeleteBackup { path: String },
    /// Store one GRUB setting (`refresh_all_params`).
    SaveParam { key: String, value: String },
}

/// The interactive session: the boot-menu tree, the active screen and the screens to go
/// back to, and the state of the main search.
pub struct App {
    pub entry: Entry,
    pub state: AppState,
    pub state_stack: Vec<AppState>,
    pub search_query: String,
    pub search_results: Vec<Vec<usize>>,
    pub search_selected: usize,
}

/// The selection after moving up in a list of `n` items, wrapping to the bottom.
pub open spec fn wrap_prev(sel: usize, n: usize) -> usize {
    if n == 0 {
        sel
    } else if sel == 0 {
        (n - 1) as usize
    } else {
        (sel - 1) as usize
    }
}

/// The selection after moving down in a list of `n` items, wrapping to the top.
pub open spec fn wrap_next(sel: usize, n: usize) -> usize {
    if n == 0 {
        sel
    } else {
        ((sel + 1) % (n as int)) as usize
    }
}

/// A selection kept inside a list that now has `len` items: the last item at most, 0 when empty.
pub open spec fn clamped(sel: usize, len: usize) -> usize {
    if len == 0 {
        0
    } else if sel < len {
        sel
    } else {
        (len - 1) as usize
    }
}

/// Moves a selection up in a list of `n` items, wrapping to the bottom.
pub fn prev_index(sel: usize, n: usize) -> (r: usize)
    ensures
        r == wrap_prev(sel, n),
{
    if n == 0 {
        sel
    } else if sel == 0 {
        n - 1
    } else {
        sel - 1
    }
}

/// Moves a selection down in a list of `n` items, wrapping to the top.
pub fn next_index(sel: usize, n: usize) -> (r: usize)
    ensures
        r == wrap_next(sel, n),
{
    if n == 0 {
        sel
    } else {
        let m = sel % n;
        let r = (m + 1) % n;
        assert((r as int) == (sel as int + 1) % (n as int)) by (nonlinear_arith)
            requires (m as int) == (sel as int) % (n as int), (r as int) == (m as int + 1) % (n as int), n > 0;
        r
    }
}

/// Keeps a selection inside a list of `len` items.
pub fn clamp_selection(sel: usize, len: usize) -> (r: usize)
    ensures
        r == clamped(sel, len),
{
    if len == 0 {
        0
    } else if sel < len {
        sel
    } else {
        len - 1
    }
}

/// `b` differs from `a` in its active screen and back-stack at most.
pub open spec fn same_session(a: App, b: App) -> bool {
    &&& b.entry == a.entry
    &&& b.search_query == a.search_query
    &&& b.search_results == a.search_results
    &&& b.search_selected == a.search_selected
}

/// `b` is `a` with the screen replaced by `s`, the back-stack untouched.
pub open spec fn replaced(a: App, b: App, s: AppState) -> bool {
    &&& same_session(a, b)
    &&& b.state == s
    &&& b.state_stack@ == a.state_stack@
}

/// `b` is `a` after entering screen `s`, the screen left behind pushed on the back-stack.
pub open spec fn entered(a: App, b: App, s: AppState) -> bool {
    &&& same_session(a, b)
    &&& b.state == s
    &&& b.state_stack@ == a.state_stack@.push(a.state)
}

/// `b` is `a` after going back: the last stacked screen is restored, or the main menu when
/// the stack is empty.
pub open spec fn went_back(a: App, b: App) -> bool {
    &&& same_session(a, b)
    &&& if a.state_stack@.len() > 0 {
        &&& b.state == a.state_stack@.last()
        &&& b.state_stack@ == a.state_stack@.drop_last()
    } else {
        &&& b.state == (AppState::MainMenu { selected: 0 })
        &&& b.state_stack@ == a.state_stack@
    }
}

impl App {
    /// A session on the tree `entry`, at the main menu with nothing stacked.
    pub fn new(entry: Entry) -> (r: App)
        ensures
            r.entry == entry,
            r.state == (AppState::MainMenu { selected: 0 }),
            r.state_stack@.len() == 0,
            r.search_query@.len() == 0,
            r.search_results@.len() == 0,
            r.search_selected == 0,
    {
        App {
            entry,
            state: AppState::MainMenu { selected: 0 },
            state_stack: Vec::new(),
            search_query: String::new(),
            search_results: Vec::new(),
            search_selected: 0,
        }
    }

    /// Takes the active screen out, leaving the main menu in its place.
    fn take_state(&mut self) -> (r: AppState)
        ensures
            r == old(self).state,
            final(self).state == (AppState::MainMenu { selected: 0 }),
            same_session(*old(self), *final(self)),
            final(self).state_stack == old(self).state_stack,
    {
        let mut s = AppState::MainMenu { selected: 0 };
        std::mem::swap(&mut self.state, &mut s);
        s
    }

    /// Puts screen `s` on the back-stack.
    pub fn push_state(&mut self, s: AppState)
        ensures
            final(self).state_stack@ == old(self).state_stack@.push(s),
            final(self).state == old(self).state,
            same_session(*old(self), *final(self)),
    {
        self.state_stack.push(s);
    }

    /// Takes the last screen off the back-stack.
    pub fn pop_state(&mut self) -> (r: Option<AppState>)
        ensures
            old(self).state_stack@.len() > 0 ==> r == Some(old(self).state_stack@.last())
                && final(self).state_stack@ == old(self).state_stack@.drop_last(),
            old(self).state_stack@.len() == 0 ==> r is None && final(self).state_stack@ == old(self).state_stack@,
            final(self).state == old(self).state,
            same_session(*old(self), *final(self)),
    {
        self.state_stack.pop()
    }

    /// Makes `new_state` the active screen; with `push_current`, the screen left behind goes
    /// on the back-stack.
    pub fn navigate_to(&mut self, new_state: AppState, push_current: bool)
        ensures
            push_current ==> entered(*old(self), *final(self), new_state),
            !push_current ==> replaced(*old(self), *final(self), new_state),
    {
        let mut s = new_state;
        std::mem::swap(&mut self.state, &mut s);
        if push_current {
            self.push_state(s);
        }
    }

    /// Returns to the last stacked screen, or to the main menu when nothing is stacked;
    /// tells whether a screen was unstacked.
    pub fn navigate_back(&mut self) -> (r: bool)
        ensures
            went_back(*old(self), *final(self)),
            r == (old(self).state_stack@.len() > 0),
    {
        match self.pop_state() {
            Some(prev) => {
                self.state = prev;
                true
            },
            None => {
                self.state = AppState::MainMenu { selected: 0 };
                false
            },
        }
    }
}

/// The selection of the list screen that `s` is, if it is one of the removable-item lists.
pub open spec fn list_selection(s: AppState) -> usize {
    match s {
        AppState::CleanupKernels { selected, .. } => selected,
        AppState::BackupManager { selected, .. } => selected,
        _ => 0,
    }
}

impl App {
    /// The paths of the nodes whose title contains `query`, ignoring case, in pre-order.
    pub fn collect_all_matches(&self, query: &str) -> (r: Vec<Vec<usize>>)
        ensures
            paths_view(r@) == search_results(self.entry@, query@),
    {
        collect_matches(&self.entry, query)
    }

    /// Recomputes the main search's results from its query.
    pub fn update_search_results(&mut self)
        ensures
            paths_view(final(self).search_results@) == search_results(old(self).entry@, old(self).search_query@),
            final(self).entry == old(self).entry,
            final(self).search_query == old(self).search_query,
            final(self).search_selected == old(self).search_selected,
            final(self).state == old(self).state,
            final(self).state_stack == old(self).state_stack,
    {
        self.search_results = collect_matches(&self.entry, self.search_query.as_str());
    }

    /// Starts the main search with the single character `c`; the screen left behind goes on
    /// the back-stack.
    pub fn start_search(&mut self, c: char)
        ensures
            final(self).search_query@ == seq![c],
            paths_view(final(self).search_results@) == search_results(old(self).entry@, seq![c]),
            final(self).state == (AppState::SearchMode { selected: 0 }),
            final(self).entry == old(self).entry,
            final(self).search_selected == old(self).search_selected,
            final(self).state_stack@ == old(self).state_stack@.push(old(self).state),
    {
        let mut q = String::new();
        crate::text::push_char(&mut q, c);
        assert(q@ =~= seq![c]);
        self.search_query = q;
        self.update_search_results();
        self.navigate_to(AppState::SearchMode { selected: 0 }, true);
    }

    /// Opens a search over the tree, typed from the browser at `path`, with the single
    /// character `c`; the browser goes on the back-stack.
    pub fn start_boot_entry_search(&mut self, c: char, path: Vec<usize>)
        ensures
            same_session(*old(self), *final(self)),
            final(self).state_stack@ == old(self).state_stack@.push(old(self).state),
            final(self).state matches AppState::SelectBootEntrySearch { path: p, query, results, selected }
                && p == path && query@ == seq![c] && selected == 0
                && paths_view(results@) == search_results(old(self).entry@, seq![c]),
    {
        let mut query = String::new();
        crate::text::push_char(&mut query, c);
        assert(query@ =~= seq![c]);
        let results = self.collect_all_matches(query.as_str());
        self.navigate_to(AppState::SelectBootEntrySearch { path, query, results, selected: 0 }, true);
    }

    /// Acts on the main-menu item `selected`: browse entries (0), view the default entry (1),
    /// or ask the caller to load what the settings (2), kernel clean-up (3), backups (4) or
    /// boot-time (5) screens show.
    pub fn handle_main_menu_action(&mut self, selected: usize) -> (r: Effect)
        ensures
            selected == 0 ==> r is Nothing && same_session(*old(self), *final(self))
                && final(self).state_stack@ == old(self).state_stack@.push(old(self).state)
                && (final(self).state matches AppState::SelectBootEntry { path, selected: s, action }
                && path@.len() == 0 && s == 0 && action is None),
            selected == 1 ==> r is Nothing && entered(*old(self), *final(self), AppState::ViewDefaultEntry),
            selected == 2 ==> r is OpenSettings && *final(self) == *old(self),
            selected == 3 ==> r is ScanKernels && *final(self) == *old(self),
            selected == 4 ==> r is ListBackups && *final(self) == *old(self),
            selected == 5 ==> r is LoadBootTimes && *final(self) == *old(self),
            selected > 5 ==> r is Nothing && *final(self) == *old(self),
    {
        if selected == 0 {
            let path: Vec<usize> = Vec::new();
            self.navigate_to(AppState::SelectBootEntry { path, selected: 0, action: None }, true);
            Effect::Nothing
        } else if selected == 1 {
            self.navigate_to(AppState::ViewDefaultEntry, true);
            Effect::Nothing
        } else if selected == 2 {
            Effect::OpenSettings
        } else if selected == 3 {
            Effect::ScanKernels
        } else if selected == 4 {
            Effect::ListBackups
        } else if selected == 5 {
            Effect::LoadBootTimes
        } else {
            Effect::Nothing
        }
    }

    /// Opens the settings screen on the loaded command lines and timeout settings.
    pub fn open_settings(&mut self, linux_params: Vec<String>, linux_default_params: Vec<String>, timeout: String, timeout_style: String)
        ensures
            entered(*old(self), *final(self), AppState::ConfigureGrub {
                selected: 0,
                linux_params,
                linux_default_params,
                timeout,
                timeout_style,
                input_mode: GrubConfigInputMode::Idle,
                input_buffer: final(self).state->ConfigureGrub_input_buffer,
            }),
            final(self).state->ConfigureGrub_input_buffer@.len() == 0,
    {
        self.navigate_to(AppState::ConfigureGrub {
            selected: 0,
            linux_params,
            linux_default_params,
            timeout,
            timeout_style,
            input_mode: GrubConfigInputMode::Idle,
            input_buffer: String::new(),
        }, true);
    }

    /// Returns from a parameter-list editor to the settings screen, rebuilt from the reloaded
    /// settings; the edited list, when given, replaces the one it was edited from. The
    /// back-stack is left as it is.
    pub fn return_to_settings(
        &mut self,
        target: ParamTarget,
        edited: Option<Vec<String>>,
        linux_params: Vec<String>,
        linux_default_params: Vec<String>,
        timeout: String,
        timeout_style: String,
    )
        ensures
            same_session(*old(self), *final(self)),
            final(self).state_stack@ == old(self).state_stack@,
            final(self).state matches AppState::ConfigureGrub {
                selected, linux_params: lp, linux_default_params: ldp, timeout: t, timeout_style: ts, input_mode, input_buffer
            } && selected == (if target == ParamTarget::Linux { 0usize } else { 1usize })
                && lp == (if target == ParamTarget::Linux && edited is Some { edited->0 } else { linux_params })
                && ldp == (if target == ParamTarget::LinuxDefault && edited is Some { edited->0 } else { linux_default_params })
                && t == timeout && ts == timeout_style && input_mode == GrubConfigInputMode::Idle
                && input_buffer@.len() == 0,
    {
        let (lp, ldp) = match edited {
            Some(p) => {
                if target == ParamTarget::Linux {
                    (p, linux_default_params)
                } else {
                    (linux_params, p)
                }
            },
            None => (linux_params, linux_default_params),
        };
        let selected: usize = if target == ParamTarget::Linux { 0 } else { 1 };
        self.state = AppState::ConfigureGrub {
            selected,
            linux_params: lp,
            linux_default_params: ldp,
            timeout,
            timeout_style,
            input_mode: GrubConfigInputMode::Idle,
            input_buffer: String::new(),
        };
    }

    /// Opens the kernel clean-up list.
    pub fn open_cleanup(&mut self, kernels: Vec<KernelToClean>)
        ensures
            entered(*old(self), *final(self), AppState::CleanupKernels { kernels, selected: 0 }),
    {
        self.navigate_to(AppState::CleanupKernels { kernels, selected: 0 }, true);
    }

    /// Shows the kernel list after a removal, keeping the selection inside the new list.
    pub fn refresh_cleanup(&mut self, kernels: Vec<KernelToClean>)
        ensures
            replaced(*old(self), *final(self), AppState::CleanupKernels {
                kernels,
                selected: clamped(list_selection(old(self).state), kernels@.len() as usize),
            }),
    {
        let sel = match &self.state {
            AppState::CleanupKernels { selected, .. } => *selected,
            AppState::BackupManager { selected, .. } => *selected,
            _ => 0,
        };
        let selected = clamp_selection(sel, kernels.len());
        self.state = AppState::CleanupKernels { kernels, selected };
    }

    /// Opens the backup list.
    pub fn open_backups(&mut self, backups: Vec<BackupInfo>)
        ensures
            entered(*old(self), *final(self), AppState::BackupManager { backups, selected: 0 }),
    {
        self.navigate_to(AppState::BackupManager { backups, selected: 0 }, true);
    }

    /// Shows the backup list after a removal, keeping the selection inside the new list.
    pub fn refresh_backups(&mut self, backups: Vec<BackupInfo>)
        ensures
            replaced(*old(self), *final(self), AppState::BackupManager {
                backups,
                selected: clamped(list_selection(old(self).state), backups@.len() as usize),
            }),
    {
        let sel = match &self.state {
            AppState::CleanupKernels { selected, .. } => *selected,
            AppState::BackupManager { selected, .. } => *selected,
            _ => 0,
        };
        let selected = clamp_selection(sel, backups.len());
        self.state = AppState::BackupManager { backups, selected };
    }

    /// Opens the boot-time list.
    pub fn open_boot_times(&mut self, entries: Vec<BootTimeEntry>)
        ensures
            entered(*old(self), *final(self), AppState::BootTimeStats { entries, selected: 0 }),
    {
        self.navigate_to(AppState::BootTimeStats { entries, selected: 0 }, true);
    }

    /// Opens the list of all GRUB settings.
    pub fn open_all_params(&mut self, params: Vec<(String, String)>)
        ensures
            same_session(*old(self), *final(self)),
            final(self).state_stack@ == old(self).state_stack@.push(old(self).state),
            final(self).state matches AppState::EditAllGrubParams { params: p, selected, input_mode, input_buffer }
                && p == params && selected == 0 && input_mode == GrubConfigInputMode::Idle && input_buffer@.len() == 0,
    {
        self.navigate_to(AppState::EditAllGrubParams {
            params,
            selected: 0,
            input_mode: GrubConfigInputMode::Idle,
            input_buffer: String::new(),
        }, true);
    }

    /// Shows the reloaded settings after one was stored, with the selection on `key` when it
    /// is still listed, else where it was.
    pub fn refresh_all_params(&mut self, params: Vec<(String, String)>, key: &str)
        ensures
            same_session(*old(self), *final(self)),
            final(self).state_stack@ == old(self).state_stack@,
            final(self).state matches AppState::EditAllGrubParams { params: p, selected, input_mode, input_buffer }
                && p == params && input_mode == GrubConfigInputMode::Idle && input_buffer@.len() == 0
                && ((exists|k: int| 0 <= k < params@.len() && #[trigger] params@[k].0@ == key@)
                    ==> selected < params@.len() && params@[selected as int].0@ == key@
                        && forall|k: int| 0 <= k < selected ==> #[trigger] params@[k].0@ != key@)
                && (!(exists|k: int| 0 <= k < params@.len() && #[trigger] params@[k].0@ == key@)
                    ==> selected == (match old(self).state { AppState::EditAllGrubParams { selected, .. } => selected, _ => 0usize })),
    {
        let old_sel = match &self.state {
            AppState::EditAllGrubParams { selected, .. } => *selected,
            _ => 0,
        };
        let mut k: usize = 0;
        let mut found = false;
        while k < params.len() && !found
            invariant
                0 <= k <= params@.len(),
                found ==> k < params@.len() && params@[k as int].0@ == key@,
                forall|j: int| 0 <= j < k ==> #[trigger] params@[j].0@ != key@,
            decreases params@.len() - k, if found { 0int } else { 1int },
        {
            if crate::text::same_text(params[k].0.as_str(), key) {
                found = true;
            } else {
                k = k + 1;
            }
        }
        let selected = if found { k } else { old_sel };
        self.state = AppState::EditAllGrubParams {
            params,
            selected,
            input_mode: GrubConfigInputMode::Idle,
            input_buffer: String::new(),
        };
    }

    /// Opens the result of a configuration check.
    pub fn open_validation(&mut self, result: ValidationResult)
        ensures
            entered(*old(self), *final(self), AppState::ValidateGrub { result: Some(result) }),
    {
        self.navigate_to(AppState::ValidateGrub { result: Some(result) }, true);
    }

    /// Opens the kernel details of the entry at `path`.
    pub fn open_kernel_info(&mut self, path: Vec<usize>, kernel_info: Option<KernelInfo>)
        ensures
            entered(*old(self), *final(self), AppState::ViewKernelInfo { path, kernel_info }),
    {
        self.navigate_to(AppState::ViewKernelInfo { path, kernel_info }, true);
    }

    /// Opens the rename editor for the entry at `path`, pre-filled with `current`.
    pub fn open_rename(&mut self, path: Vec<usize>, original_name: String, current: String)
        ensures
            entered(*old(self), *final(self), AppState::RenameBootEntry { path, original_name, input_buffer: current }),
    {
        self.navigate_to(AppState::RenameBootEntry { path, original_name, input_buffer: current }, true);
    }

    /// Replaces the active screen by a message; the back-stack is left as it is.
    pub fn show_message(&mut self, title: String, content: Vec<String>, message_type: MessageType)
        ensures
            replaced(*old(self), *final(self), AppState::Message { title, content, message_type }),
    {
        self.navigate_to(AppState::Message { title, content, message_type }, false);
    }
}

/// `b` is `a` with nothing changed.
pub open spec fn unchanged(a: App, b: App) -> bool {
    &&& same_session(a, b)
    &&& b.state == a.state
    &&& b.state_stack@ == a.state_stack@
}

/// The number of children of the node at `path`, 0 when `path` addresses no node.
pub open spec fn child_count(t: EntryView, path: Seq<usize>) -> nat {
    match node_at(t, path) {
        Some(n) => n.children.len(),
        None => 0,
    }
}

/// The child `sel` of the node at `path`, if both exist.
pub open spec fn child_at(t: EntryView, path: Seq<usize>, sel: usize) -> Option<EntryView> {
    match node_at(t, path) {
        Some(n) => if sel < n.children.len() { Some(n.children[sel as int]) } else { None },
        None => None,
    }
}

/// The text after one backspace.
pub open spec fn backspaced(s: Seq<char>) -> Seq<char> {
    if s.len() > 0 { s.drop_last() } else { s }
}

/// The effect of the main-menu item `selected` (see `handle_main_menu_action`).
pub open spec fn main_menu_acted(a: App, b: App, selected: usize, r: Effect) -> bool {
    &&& selected == 0 ==> r is Nothing && same_session(a, b) && b.state_stack@ == a.state_stack@.push(a.state)
        && (b.state matches AppState::SelectBootEntry { path, selected: s, action }
        && path@.len() == 0 && s == 0 && action is None)
    &&& selected == 1 ==> r is Nothing && entered(a, b, AppState::ViewDefaultEntry)
    &&& selected == 2 ==> r is OpenSettings && unchanged(a, b)
    &&& selected == 3 ==> r is ScanKernels && unchanged(a, b)
    &&& selected == 4 ==> r is ListBackups && unchanged(a, b)
    &&& selected == 5 ==> r is LoadBootTimes && unchanged(a, b)
    &&& selected > 5 ==> r is Nothing && unchanged(a, b)
}

/// A key on the main menu: Esc quits, Up/Down move through its six items with wrap-around,
/// Enter/Right act on the selected item.
pub open spec fn main_menu_step(a: App, b: App, key: Key, r: Effect) -> bool {
    a.state matches AppState::MainMenu { selected } ==> match key {
        Key::Esc => r is Quit && unchanged(a, b),
        Key::Up => r is Nothing && replaced(a, b, AppState::MainMenu { selected: wrap_prev(selected, 6) }),
        Key::Down => r is Nothing && replaced(a, b, AppState::MainMenu { selected: wrap_next(selected, 6) }),
        Key::Enter | Key::Right => main_menu_acted(a, b, selected, r),
        _ => r is Nothing && unchanged(a, b),
    }
}

/// The main search after its query became `q`: results recomputed, selection reset.
pub open spec fn search_retyped(a: App, b: App, q: Seq<char>) -> bool {
    &&& b.entry == a.entry
    &&& b.search_query@ == q
    &&& paths_view(b.search_results@) == search_results(a.entry@, q)
    &&& b.search_selected == a.search_selected
    &&& b.state == (AppState::SearchMode { selected: 0 })
    &&& b.state_stack@ == a.state_stack@
}

/// The main search closed: query and results cleared, and back to the screen it was
/// opened from (the last stacked screen, or the main menu when nothing is stacked).
pub open spec fn search_closed(a: App, b: App) -> bool {
    &&& b.entry == a.entry
    &&& b.search_query@.len() == 0
    &&& b.search_results@.len() == 0
    &&& b.search_selected == a.search_selected
    &&& if a.state_stack@.len() > 0 {
        &&& b.state == a.state_stack@.last()
        &&& b.state_stack@ == a.state_stack@.drop_last()
    } else {
        &&& b.state == (AppState::MainMenu { selected: 0 })
        &&& b.state_stack@ == a.state_stack@
    }
}

/// A key in the main search: Esc closes it and goes back, Up/Down move through the results
/// with wrap-around, Enter on a result closes it and goes back, typing and backspace edit the query and
/// recompute the results.
pub open spec fn search_mode_step(a: App, b: App, key: Key, r: Effect) -> bool {
    a.state matches AppState::SearchMode { selected } ==> r is Nothing && match key {
        Key::Esc => search_closed(a, b),
        Key::Up => replaced(a, b, AppState::SearchMode { selected: wrap_prev(selected, a.search_results@.len() as usize) }),
        Key::Down => replaced(a, b, AppState::SearchMode { selected: wrap_next(selected, a.search_results@.len() as usize) }),
        Key::Enter => if selected < a.search_results@.len() { search_closed(a, b) } else { unchanged(a, b) },
        Key::Backspace => search_retyped(a, b, backspaced(a.search_query@)),
        Key::Char(c) => search_retyped(a, b, a.search_query@.push(c)),
        _ => unchanged(a, b),
    }
}

/// A key in the boot-entry browser at `path`, with `selected` among the children of the
/// node there: Esc goes back; Up/Down move with wrap-around; Enter/Right descend into a
/// submenu (a menu entry is a leaf here, whatever a malformed file put below it); Left goes
/// up one level, or back at the top; `i`, `y`, `e` on a menu entry ask
/// for its kernel details, confirm it as the default, or rename it (the last two only when
/// the browser was opened to choose a default); any other character starts a search.
pub open spec fn select_entry_step(a: App, b: App, key: Key, r: Effect) -> bool {
    a.state matches AppState::SelectBootEntry { path, selected, action } ==> {
        let n = child_count(a.entry@, path@) as usize;
        let child = child_at(a.entry@, path@, selected);
        let is_entry = child is Some && child->0.kind == EntryType::MenuEntry;
        match key {
            Key::Esc => r is Nothing && went_back(a, b),
            Key::Up => r is Nothing && replaced(a, b, AppState::SelectBootEntry { path, selected: wrap_prev(selected, n), action }),
            Key::Down => r is Nothing && replaced(a, b, AppState::SelectBootEntry { path, selected: wrap_next(selected, n), action }),
            Key::Enter | Key::Right => r is Nothing && if child is Some && child->0.kind == EntryType::Submenu {
                same_session(a, b) && b.state_stack@ == a.state_stack@
                    && (b.state matches AppState::SelectBootEntry { path: p, selected: s, action: act }
                    && p@ == path@.push(selected) && s == 0 && act == action)
            } else {
                unchanged(a, b)
            },
            Key::Left => r is Nothing && if path@.len() > 0 {
                same_session(a, b) && b.state_stack@ == a.state_stack@
                    && (b.state matches AppState::SelectBootEntry { path: p, selected: s, action: act }
                    && p@ == path@.drop_last() && s == 0 && act == action)
            } else {
                went_back(a, b)
            },
            Key::Char(c) => if c == 'i' || c == 'I' {
                if is_entry {
                    unchanged(a, b) && (r matches Effect::ShowKernelInfo { path: p, name }
                        && p@ == path@.push(selected) && name@ == child->0.name)
                } else {
                    r is Nothing && unchanged(a, b)
                }
            } else if c == 'y' || c == 'Y' {
                r is Nothing && if is_entry && action is None {
                    same_session(a, b) && b.state_stack@ == a.state_stack@.push(a.state)
                        && (b.state matches AppState::ConfirmSetDefaultEntry { path: p, entry_name }
                        && p@ == path@.push(selected) && entry_name@ == child->0.name)
                } else {
                    unchanged(a, b)
                }
            } else if c == 'e' || c == 'E' {
                if is_entry && action is None {
                    unchanged(a, b) && (r matches Effect::StartRename { path: p, name }
                        && p@ == path@.push(selected) && name@ == child->0.name)
                } else {
                    r is Nothing && unchanged(a, b)
                }
            } else {
                r is Nothing && same_session(a, b) && b.state_stack@ == a.state_stack@.push(a.state)
                    && (b.state matches AppState::SelectBootEntrySearch { path: p, query, results, selected: s }
                    && p@ == path@ && query@ == seq![c] && s == 0
                    && paths_view(results@) == search_results(a.entry@, seq![c]))
            },
            _ => r is Nothing && unchanged(a, b),
        }
    }
}

/// The browser search after its query became `q`.
pub open spec fn entry_search_retyped(a: App, b: App, path: Vec<usize>, q: Seq<char>) -> bool {
    &&& same_session(a, b)
    &&& b.state_stack@ == a.state_stack@
    &&& b.state matches AppState::SelectBootEntrySearch { path: p, query, results, selected }
        && p == path && query@ == q && selected == 0 && paths_view(results@) == search_results(a.entry@, q)
}

/// A key in the browser search: Esc goes back, Up/Down move through the results with
/// wrap-around, Enter asks to confirm the selected result as the default, typing and
/// backspace edit the query and recompute the results.
pub open spec fn entry_search_step(a: App, b: App, key: Key, r: Effect) -> bool {
    a.state matches AppState::SelectBootEntrySearch { path, query, results, selected } ==> r is Nothing && match key {
        Key::Esc => went_back(a, b),
        Key::Up => replaced(a, b, AppState::SelectBootEntrySearch { path, query, results, selected: wrap_prev(selected, results@.len() as usize) }),
        Key::Down => replaced(a, b, AppState::SelectBootEntrySearch { path, query, results, selected: wrap_next(selected, results@.len() as usize) }),
        Key::Enter => if selected < results@.len() && node_at(a.entry@, results@[selected as int]@) is Some {
            same_session(a, b) && b.state_stack@ == a.state_stack@.push(a.state)
                && (b.state matches AppState::ConfirmSetDefaultEntry { path: p, entry_name }
                && p@ == results@[selected as int]@
                && entry_name@ == node_at(a.entry@, results@[selected as int]@)->0.name)
        } else {
            unchanged(a, b)
        },
        Key::Backspace => entry_search_retyped(a, b, path, backspaced(query@)),
        Key::Char(c) => entry_search_retyped(a, b, path, query@.push(c)),
        _ => unchanged(a, b),
    }
}

/// A key on the confirmation screen: `y` asks to store the entry as the default, Esc or `n`
/// go back.
pub open spec fn confirm_step(a: App, b: App, key: Key, r: Effect) -> bool {
    a.state matches AppState::ConfirmSetDefaultEntry { path, entry_name } ==> match key {
        Key::Esc | Key::Char('n') | Key::Char('N') => r is Nothing && went_back(a, b),
        Key::Char('y') | Key::Char('Y') => unchanged(a, b) && (r matches Effect::SetDefault { path: p } && p@ == path@),
        _ => r is Nothing && unchanged(a, b),
    }
}

/// A key on a message: Esc or Enter return to the main menu, leaving the back-stack.
pub open spec fn message_step(a: App, b: App, key: Key, r: Effect) -> bool {
    a.state is Message ==> r is Nothing && match key {
        Key::Esc | Key::Enter => replaced(a, b, AppState::MainMenu { selected: 0 }),
        _ => unchanged(a, b),
    }
}

/// The keys that dismiss a read-only screen.
pub open spec fn dismisses(s: AppState, key: Key) -> bool {
    match s {
        AppState::ViewDefaultEntry => key == Key::Esc || key == Key::Enter || key == Key::Left,
        AppState::ValidateGrub { .. } => key == Key::Esc || key == Key::Enter || key == Key::Left,
        AppState::BootTimeStats { .. } => key == Key::Esc || key == Key::Enter || key == Key::Left,
        _ => key == Key::Esc || key == Key::Left,
    }
}

/// A key on a read-only screen (default entry, kernel details, check result): its
/// dismissing keys go back.
pub open spec fn dismiss_step(a: App, b: App, key: Key, r: Effect) -> bool {
    r is Nothing && if dismisses(a.state, key) { went_back(a, b) } else { unchanged(a, b) }
}

/// A key on the kernel clean-up list: Esc/Left go back, Up/Down move with wrap-around,
/// Enter asks to delete the selected kernel unless it is running.
pub open spec fn cleanup_step(a: App, b: App, key: Key, r: Effect) -> bool {
    a.state matches AppState::CleanupKernels { kernels, selected } ==> match key {
        Key::Esc | Key::Left => r is Nothing && went_back(a, b),
        Key::Up => r is Nothing && replaced(a, b, AppState::CleanupKernels { kernels, selected: wrap_prev(selected, kernels@.len() as usize) }),
        Key::Down => r is Nothing && replaced(a, b, AppState::CleanupKernels { kernels, selected: wrap_next(selected, kernels@.len() as usize) }),
        Key::Enter => unchanged(a, b) && if selected < kernels@.len() && !kernels@[selected as int].in_use {
            r matches Effect::DeleteKernel { version } && version@ == kernels@[selected as int].version@
        } else {
            r is Nothing
        },
        _ => r is Nothing && unchanged(a, b),
    }
}

/// A key in the rename editor: Esc/Left go back, Enter asks to store the typed name,
/// typing and backspace edit it.
pub open spec fn rename_step(a: App, b: App, key: Key, r: Effect) -> bool {
    a.state matches AppState::RenameBootEntry { path, original_name, input_buffer } ==> match key {
        Key::Esc | Key::Left => r is Nothing && went_back(a, b),
        Key::Enter => unchanged(a, b) && (r matches Effect::SaveCustomName { path: p, name }
            && p@ == path@ && name@ == input_buffer@),
        Key::Backspace => r is Nothing && same_session(a, b) && b.state_stack@ == a.state_stack@
            && (b.state matches AppState::RenameBootEntry { path: p, original_name: o, input_buffer: t }
            && p == path && o == original_name && t@ == backspaced(input_buffer@)),
        Key::Char(c) => r is Nothing && same_session(a, b) && b.state_stack@ == a.state_stack@
            && (b.state matches AppState::RenameBootEntry { path: p, original_name: o, input_buffer: t }
            && p == path && o == original_name && t@ == input_buffer@.push(c)),
        _ => r is Nothing && unchanged(a, b),
    }
}

/// A key on the backup list: Esc/Left go back, Up/Down move with wrap-around, Enter asks to
/// restore the selected backup, `d` to delete it.
pub open spec fn backups_step(a: App, b: App, key: Key, r: Effect) -> bool {
    a.state matches AppState::BackupManager { backups, selected } ==> match key {
        Key::Esc | Key::Left => r is Nothing && went_back(a, b),
        Key::Up => r is Nothing && replaced(a, b, AppState::BackupManager { backups, selected: wrap_prev(selected, backups@.len() as usize) }),
        Key::Down => r is Nothing && replaced(a, b, AppState::BackupManager { backups, selected: wrap_next(selected, backups@.len() as usize) }),
        Key::Enter => unchanged(a, b) && if selected < backups@.len() {
            r matches Effect::RestoreBackup { path } && path@ == backups@[selected as int].path@
        } else {
            r is Nothing
        },
        Key::Char('d') | Key::Char('D') => unchanged(a, b) && if selected < backups@.len() {
            r matches Effect::DeleteBackup { path } && path@ == backups@[selected as int].path@
        } else {
            r is Nothing
        },
        _ => r is Nothing && unchanged(a, b),
    }
}

/// A key on the boot-time list: Esc/Left/Enter go back, Up/Down move with wrap-around.
pub open spec fn boot_times_step(a: App, b: App, key: Key, r: Effect) -> bool {
    a.state matches AppState::BootTimeStats { entries, selected } ==> r is Nothing && match key {
        Key::Esc | Key::Left | Key::Enter => went_back(a, b),
        Key::Up => replaced(a, b, AppState::BootTimeStats { entries, selected: wrap_prev(selected, entries@.len() as usize) }),
        Key::Down => replaced(a, b, AppState::BootTimeStats { entries, selected: wrap_next(selected, entries@.len() as usize) }),
        _ => unchanged(a, b),
    }
}

impl App {
    /// Handles a key on the main menu.
    pub fn key_main_menu(&mut self, key: Key) -> (r: Effect)
        requires
            old(self).state is MainMenu,
        ensures
            main_menu_step(*old(self), *final(self), key, r),
    {
        let sel = match &self.state {
            AppState::MainMenu { selected } => *selected,
            _ => 0,
        };
        match key {
            Key::Esc => Effect::Quit,
            Key::Up => {
                self.state = AppState::MainMenu { selected: prev_index(sel, 6) };
                Effect::Nothing
            },
            Key::Down => {
                self.state = AppState::MainMenu { selected: next_index(sel, 6) };
                Effect::Nothing
            },
            Key::Enter | Key::Right => self.handle_main_menu_action(sel),
            _ => Effect::Nothing,
        }
    }

    fn close_search(&mut self)
        ensures
            search_closed(*old(self), *final(self)),
    {
        self.navigate_back();
        self.search_query = String::new();
        self.search_results = Vec::new();
    }

    /// Handles a key in the main search.
    pub fn key_search_mode(&mut self, key: Key) -> (r: Effect)
        requires
            old(self).state is SearchMode,
        ensures
            search_mode_step(*old(self), *final(self), key, r),
    {
        let sel = match &self.state {
            AppState::SearchMode { selected } => *selected,
            _ => 0,
        };
        let n = self.search_results.len();
        match key {
            Key::Esc => self.close_search(),
            Key::Up => self.state = AppState::SearchMode { selected: prev_index(sel, n) },
            Key::Down => self.state = AppState::SearchMode { selected: next_index(sel, n) },
            Key::Enter => {
                if sel < n {
                    self.close_search();
                }
            },
            Key::Backspace => {
                crate::text::pop_char(&mut self.search_query);
                self.update_search_results();
                self.state = AppState::SearchMode { selected: 0 };
            },
            Key::Char(c) => {
                crate::text::push_char(&mut self.search_query, c);
                self.update_search_results();
                self.state = AppState::SearchMode { selected: 0 };
            },
            _ => {},
        }
        Effect::Nothing
    }

    /// Handles a key in the boot-entry browser.
    pub fn key_select_entry(&mut self, key: Key) -> (r: Effect)
        requires
            old(self).state is SelectBootEntry,
        ensures
            select_entry_step(*old(self), *final(self), key, r),
    {
        let st = self.take_state();
        match st {
            AppState::SelectBootEntry { mut path, selected, action } => {
                let node = try_get_entry(&self.entry, path.as_slice());
                let mut n: usize = 0;
                let mut kind = EntryType::Root;
                let mut has_child = false;
                let mut name = String::new();
                match node {
                    Some(e) => {
                        proof {
                            e.lemma_view_children();
                        }
                        n = e.children.len();
                        if selected < n {
                            has_child = true;
                            kind = e.children[selected].entry_type;
                            name = e.children[selected].name.clone();
                        }
                    },
                    None => {},
                }
                let is_entry = has_child && kind == EntryType::MenuEntry;
                match key {
                    Key::Esc => {
                        self.state = AppState::SelectBootEntry { path, selected, action };
                        self.navigate_back();
                        Effect::Nothing
                    },
                    Key::Up => {
                        self.state = AppState::SelectBootEntry { path, selected: prev_index(selected, n), action };
                        Effect::Nothing
                    },
                    Key::Down => {
                        self.state = AppState::SelectBootEntry { path, selected: next_index(selected, n), action };
                        Effect::Nothing
                    },
                    Key::Enter | Key::Right => {
                        if has_child && kind == EntryType::Submenu {
                            path.push(selected);
                            self.state = AppState::SelectBootEntry { path, selected: 0, action };
                        } else {
                            self.state = AppState::SelectBootEntry { path, selected, action };
                        }
                        Effect::Nothing
                    },
                    Key::Left => {
                        if path.len() > 0 {
                            path.pop();
                            self.state = AppState::SelectBootEntry { path, selected: 0, action };
                        } else {
                            self.state = AppState::SelectBootEntry { path, selected, action };
                            self.navigate_back();
                        }
                        Effect::Nothing
                    },
                    Key::Char(c) => {
                        if c == 'i' || c == 'I' {
                            if is_entry {
                                let mut p = path.clone();
                                assert(p@ =~= path@);
                                p.push(selected);
                                self.state = AppState::SelectBootEntry { path, selected, action };
                                Effect::ShowKernelInfo { path: p, name }
                            } else {
                                self.state = AppState::SelectBootEntry { path, selected, action };
                                Effect::Nothing
                            }
                        } else if c == 'y' || c == 'Y' {
                            if is_entry && action.is_none() {
                                let mut p = path.clone();
                                assert(p@ =~= path@);
                                p.push(selected);
                                self.state = AppState::SelectBootEntry { path, selected, action };
                                self.navigate_to(AppState::ConfirmSetDefaultEntry { path: p, entry_name: name }, true);
                            } else {
                                self.state = AppState::SelectBootEntry { path, selected, action };
                            }
                            Effect::Nothing
                        } else if c == 'e' || c == 'E' {
                            if is_entry && action.is_none() {
                                let mut p = path.clone();
                                assert(p@ =~= path@);
                                p.push(selected);
                                self.state = AppState::SelectBootEntry { path, selected, action };
                                Effect::StartRename { path: p, name }
                            } else {
                                self.state = AppState::SelectBootEntry { path, selected, action };
                                Effect::Nothing
                            }
                        } else {
                            let p = path.clone();
                            assert(p@ =~= path@);
                            self.state = AppState::SelectBootEntry { path, selected, action };
                            self.start_boot_entry_search(c, p);
                            Effect::Nothing
                        }
                    },
                    _ => {
                        self.state = AppState::SelectBootEntry { path, selected, action };
                        Effect::Nothing
                    },
                }
            },
            other => {
                self.state = other;
                Effect::Nothing
            },
        }
    }
}

impl App {
    /// Handles a key in the browser search.
    pub fn key_entry_search(&mut self, key: Key) -> (r: Effect)
        requires
            old(self).state is SelectBootEntrySearch,
        ensures
            entry_search_step(*old(self), *final(self), key, r),
    {
        let st = self.take_state();
        match st {
            AppState::SelectBootEntrySearch { path, mut query, results, selected } => {
                let n = results.len();
                match key {
                    Key::Esc => {
                        self.state = AppState::SelectBootEntrySearch { path, query, results, selected };
                        self.navigate_back();
                    },
                    Key::Up => {
                        self.state = AppState::SelectBootEntrySearch { path, query, results, selected: prev_index(selected, n) };
                    },
                    Key::Down => {
                        self.state = AppState::SelectBootEntrySearch { path, query, results, selected: next_index(selected, n) };
                    },
                    Key::Enter => {
                        if selected < n {
                            let target = results[selected].clone();
                            assert(target@ =~= results@[selected as int]@);
                            match try_get_entry(&self.entry, target.as_slice()) {
                                Some(e) => {
                                    let entry_name = e.name.clone();
                                    self.state = AppState::SelectBootEntrySearch { path, query, results, selected };
                                    self.navigate_to(AppState::ConfirmSetDefaultEntry { path: target, entry_name }, true);
                                },
                                None => {
                                    self.state = AppState::SelectBootEntrySearch { path, query, results, selected };
                                },
                            }
                        } else {
                            self.state = AppState::SelectBootEntrySearch { path, query, results, selected };
                        }
                    },
                    Key::Backspace => {
                        crate::text::pop_char(&mut query);
                        let results = self.collect_all_matches(query.as_str());
                        self.state = AppState::SelectBootEntrySearch { path, query, results, selected: 0 };
                    },
                    Key::Char(c) => {
                        crate::text::push_char(&mut query, c);
                        let results = self.collect_all_matches(query.as_str());
                        self.state = AppState::SelectBootEntrySearch { path, query, results, selected: 0 };
                    },
                    _ => {
                        self.state = AppState::SelectBootEntrySearch { path, query, results, selected };
                    },
                }
            },
            other => {
                self.state = other;
            },
        }
        Effect::Nothing
    }

    /// Handles a key on the confirmation screen.
    pub fn key_confirm(&mut self, key: Key) -> (r: Effect)
        requires
            old(self).state is ConfirmSetDefaultEntry,
        ensures
            confirm_step(*old(self), *final(self), key, r),
    {
        match key {
            Key::Esc | Key::Char('n') | Key::Char('N') => {
                self.navigate_back();
                Effect::Nothing
            },
            Key::Char('y') | Key::Char('Y') => {
                match &self.state {
                    AppState::ConfirmSetDefaultEntry { path, .. } => {
                        let p = path.clone();
                        assert(p@ =~= path@);
                        Effect::SetDefault { path: p }
                    },
                    _ => Effect::Nothing,
                }
            },
            _ => Effect::Nothing,
        }
    }

    /// Handles a key on a message.
    pub fn key_message(&mut self, key: Key) -> (r: Effect)
        requires
            old(self).state is Message,
        ensures
            message_step(*old(self), *final(self), key, r),
    {
        match key {
            Key::Esc | Key::Enter => {
                self.state = AppState::MainMenu { selected: 0 };
            },
            _ => {},
        }
        Effect::Nothing
    }

    /// Handles a key on a read-only screen.
    pub fn key_dismiss(&mut self, key: Key) -> (r: Effect)
        ensures
            dismiss_step(*old(self), *final(self), key, r),
    {
        let with_enter = match &self.state {
            AppState::ViewDefaultEntry => true,
            AppState::ValidateGrub { .. } => true,
            AppState::BootTimeStats { .. } => true,
            _ => false,
        };
        if key == Key::Esc || key == Key::Left || (with_enter && key == Key::Enter) {
            self.navigate_back();
        }
        Effect::Nothing
    }

    /// Handles a key on the kernel clean-up list.
    pub fn key_cleanup(&mut self, key: Key) -> (r: Effect)
        requires
            old(self).state is CleanupKernels,
        ensures
            cleanup_step(*old(self), *final(self), key, r),
    {
        let st = self.take_state();
        match st {
            AppState::CleanupKernels { kernels, selected } => {
                let n = kernels.len();
                match key {
                    Key::Esc | Key::Left => {
                        self.state = AppState::CleanupKernels { kernels, selected };
                        self.navigate_back();
                        Effect::Nothing
                    },
                    Key::Up => {
                        self.state = AppState::CleanupKernels { kernels, selected: prev_index(selected, n) };
                        Effect::Nothing
                    },
                    Key::Down => {
                        self.state = AppState::CleanupKernels { kernels, selected: next_index(selected, n) };
                        Effect::Nothing
                    },
                    Key::Enter => {
                        let mut r = Effect::Nothing;
                        if selected < n && !kernels[selected].in_use {
                            r = Effect::DeleteKernel { version: kernels[selected].version.clone() };
                        }
                        self.state = AppState::CleanupKernels { kernels, selected };
                        r
                    },
                    _ => {
                        self.state = AppState::CleanupKernels { kernels, selected };
                        Effect::Nothing
                    },
                }
            },
            other => {
                self.state = other;
                Effect::Nothing
            },
        }
    }

    /// Handles a key in the rename editor.
    pub fn key_rename(&mut self, key: Key) -> (r: Effect)
        requires
            old(self).state is RenameBootEntry,
        ensures
            rename_step(*old(self), *final(self), key, r),
    {
        let st = self.take_state();
        match st {
            AppState::RenameBootEntry { path, original_name, mut input_buffer } => {
                match key {
                    Key::Esc | Key::Left => {
                        self.state = AppState::RenameBootEntry { path, original_name, input_buffer };
                        self.navigate_back();
                        Effect::Nothing
                    },
                    Key::Enter => {
                        let p = path.clone();
                        assert(p@ =~= path@);
                        let name = input_buffer.clone();
                        self.state = AppState::RenameBootEntry { path, original_name, input_buffer };
                        Effect::SaveCustomName { path: p, name }
                    },
                    Key::Backspace => {
                        crate::text::pop_char(&mut input_buffer);
                        self.state = AppState::RenameBootEntry { path, original_name, input_buffer };
                        Effect::Nothing
                    },
                    Key::Char(c) => {
                        crate::text::push_char(&mut input_buffer, c);
                        self.state = AppState::RenameBootEntry { path, original_name, input_buffer };
                        Effect::Nothing
                    },
                    _ => {
                        self.state = AppState::RenameBootEntry { path, original_name, input_buffer };
                        Effect::Nothing
                    },
                }
            },
            other => {
                self.state = other;
                Effect::Nothing
            },
        }
    }

    /// Handles a key on the backup list.
    pub fn key_backups(&mut self, key: Key) -> (r: Effect)
        requires
            old(self).state is BackupManager,
        ensures
            backups_step(*old(self), *final(self), key, r),
    {
        let st = self.take_state();
        match st {
            AppState::BackupManager { backups, selected } => {
                let n = backups.len();
                match key {
                    Key::Esc | Key::Left => {
                        self.state = AppState::BackupManager { backups, selected };
                        self.navigate_back();
                        Effect::Nothing
                    },
                    Key::Up => {
                        self.state = AppState::BackupManager { backups, selected: prev_index(selected, n) };
                        Effect::Nothing
                    },
                    Key::Down => {
                        self.state = AppState::BackupManager { backups, selected: next_index(selected, n) };
                        Effect::Nothing
                    },
                    Key::Enter => {
                        let mut r = Effect::Nothing;
                        if selected < n {
                            r = Effect::RestoreBackup { path: backups[selected].path.clone() };
                        }
                        self.state = AppState::BackupManager { backups, selected };
                        r
                    },
                    Key::Char('d') | Key::Char('D') => {
                        let mut r = Effect::Nothing;
                        if selected < n {
                            r = Effect::DeleteBackup { path: backups[selected].path.clone() };
                        }
                        self.state = AppState::BackupManager { backups, selected };
                        r
                    },
                    _ => {
                        self.state = AppState::BackupManager { backups, selected };
                        Effect::Nothing
                    },
                }
            },
            other => {
                self.state = other;
                Effect::Nothing
            },
        }
    }

    /// Handles a key on the boot-time list.
    pub fn key_boot_times(&mut self, key: Key) -> (r: Effect)
        requires
            old(self).state is BootTimeStats,
        ensures
            boot_times_step(*old(self), *final(self), key, r),
    {
        match key {
            Key::Esc | Key::Left | Key::Enter => {
                self.navigate_back();
            },
            Key::Up | Key::Down => {
                let st = self.take_state();
                match st {
                    AppState::BootTimeStats { entries, selected } => {
                        let n = entries.len();
                        let s = if key == Key::Up { prev_index(selected, n) } else { next_index(selected, n) };
                        self.state = AppState::BootTimeStats { entries, selected: s };
                    },
                    other => {
                        self.state = other;
                    },
                }
            },
            _ => {},
        }
        Effect::Nothing
    }
}

/// A copy of a list of strings.
pub fn clone_texts(v: &Vec<String>) -> (r: Vec<String>)
    ensures
        texts(r@) == texts(v@),
{
    let mut r: Vec<String> = Vec::new();
    let mut i: usize = 0;
    while i < v.len()
        invariant
            0 <= i <= v@.len(),
            r@.len() == i,
            forall|j: int| 0 <= j < i ==> #[trigger] r@[j]@ == v@[j]@,
        decreases v@.len() - i,
    {
        let c = v[i].clone();
        r.push(c);
        i = i + 1;
    }
    assert(texts(r@) =~= texts(v@));
    r
}

/// The index of the last row of a parameter-list editor over `len` parameters: the
/// parameters, then "add", "delete" (only when there are parameters), "save" and "cancel".
pub open spec fn last_row(len: nat) -> int {
    if len == 0 { len as int + 2 } else { len as int + 3 }
}

/// The timeout styles that GRUB knows.
pub open spec fn known_style(s: Seq<char>) -> bool {
    ||| s == seq!['m', 'e', 'n', 'u']
    ||| s == seq!['h', 'i', 'd', 'd', 'e', 'n']
    ||| s == seq!['c', 'o', 'u', 'n', 't', 'd', 'o', 'w', 'n']
}

/// The settings screen `s` with the given selection, timeout settings, field mode and field
/// text, its command lines as in `t`.
pub open spec fn settings_as(s: AppState, t: AppState, sel: usize, timeout: Seq<char>, style: Seq<char>,
    mode: GrubConfigInputMode, buffer: Seq<char>) -> bool {
    &&& s matches AppState::ConfigureGrub { selected, linux_params, linux_default_params, timeout: tm, timeout_style, input_mode, input_buffer }
    &&& t matches AppState::ConfigureGrub { linux_params: lp0, linux_default_params: ldp0, .. }
    &&& selected == sel && linux_params == lp0 && linux_default_params == ldp0
    &&& tm@ == timeout && timeout_style@ == style && input_mode == mode && input_buffer@ == buffer
}

/// Enter or Right (`right`) on the settings screen.
pub open spec fn configure_enter(a: App, b: App, right: bool, r: Effect) -> bool {
    a.state matches AppState::ConfigureGrub { selected, linux_params, linux_default_params, timeout, timeout_style, input_mode, input_buffer } ==> {
        let kept = same_session(a, b) && b.state_stack@ == a.state_stack@;
        if input_mode == GrubConfigInputMode::Idle {
            if selected == 0 || selected == 1 {
                r is Nothing && same_session(a, b) && b.state_stack@ == a.state_stack@.push(a.state)
                    && (b.state matches AppState::EditParameterList { target, params, selected: s, input_mode: m, input_buffer: ib }
                    && target == (if selected == 0 { ParamTarget::Linux } else { ParamTarget::LinuxDefault })
                    && texts(params@) == texts(if selected == 0 { linux_params@ } else { linux_default_params@ })
                    && s == 0 && m is Idle && ib@.len() == 0)
            } else if selected == 2 {
                r is Nothing && kept && settings_as(b.state, a.state, selected, timeout@, timeout_style@, GrubConfigInputMode::EditTimeout, timeout@)
            } else if selected == 3 {
                r is Nothing && kept && settings_as(b.state, a.state, selected, timeout@, timeout_style@, GrubConfigInputMode::SelectTimeoutStyle, Seq::empty())
            } else if selected == 4 {
                r is OpenAllParams && unchanged(a, b)
            } else if selected == 5 {
                r is Validate && unchanged(a, b)
            } else if selected == 6 {
                unchanged(a, b) && (r matches Effect::SaveSettings { linux, linux_default, timeout: t, timeout_style: ts }
                    && linux@ == joined(texts(linux_params@)) && linux_default@ == joined(texts(linux_default_params@))
                    && t@ == timeout@ && ts@ == timeout_style@)
            } else if selected == 7 {
                r is Nothing && went_back(a, b)
            } else {
                r is Nothing && unchanged(a, b)
            }
        } else if input_mode == GrubConfigInputMode::EditTimeout {
            let t = trimmed(input_buffer@);
            let nt = if t.len() > 0 { t } else { timeout@ };
            r is Nothing && kept && if right {
                settings_as(b.state, a.state, 3, nt, timeout_style@, GrubConfigInputMode::SelectTimeoutStyle, Seq::empty())
            } else {
                settings_as(b.state, a.state, selected, nt, timeout_style@, GrubConfigInputMode::Idle, Seq::empty())
            }
        } else if input_mode == GrubConfigInputMode::SelectTimeoutStyle {
            let st = lower_of(trimmed(input_buffer@));
            r is Nothing && kept && settings_as(b.state, a.state, selected, timeout@,
                if known_style(st) { st } else { timeout_style@ }, GrubConfigInputMode::Idle, Seq::empty())
        } else {
            r is Nothing && unchanged(a, b)
        }
    }
}

/// A key on the settings screen: Esc/Left end the field being edited, or with none go back; Up/Down move through its eight rows with
/// wrap-around when no field is being edited; Enter/Right act on the row or commit the field
/// being edited; typing and backspace edit that field.
pub open spec fn configure_step(a: App, b: App, key: Key, r: Effect) -> bool {
    a.state matches AppState::ConfigureGrub { selected, timeout, timeout_style, input_mode, input_buffer, .. } ==> match key {
        Key::Esc | Key::Left => r is Nothing && if input_mode == GrubConfigInputMode::Idle {
            went_back(a, b)
        } else {
            same_session(a, b) && b.state_stack@ == a.state_stack@
                && settings_as(b.state, a.state, selected, timeout@, timeout_style@, GrubConfigInputMode::Idle, Seq::empty())
        },
        Key::Up => r is Nothing && same_session(a, b) && b.state_stack@ == a.state_stack@
            && settings_as(b.state, a.state, if input_mode == GrubConfigInputMode::Idle { wrap_prev(selected, 8) } else { selected },
                timeout@, timeout_style@, input_mode, input_buffer@),
        Key::Down => r is Nothing && same_session(a, b) && b.state_stack@ == a.state_stack@
            && settings_as(b.state, a.state, if input_mode == GrubConfigInputMode::Idle { wrap_next(selected, 8) } else { selected },
                timeout@, timeout_style@, input_mode, input_buffer@),
        Key::Enter => configure_enter(a, b, false, r),
        Key::Right => configure_enter(a, b, true, r),
        Key::Backspace => r is Nothing && same_session(a, b) && b.state_stack@ == a.state_stack@
            && settings_as(b.state, a.state, selected, timeout@, timeout_style@, input_mode,
                if input_mode != GrubConfigInputMode::Idle { backspaced(input_buffer@) } else { input_buffer@ }),
        Key::Char(c) => r is Nothing && same_session(a, b) && b.state_stack@ == a.state_stack@
            && settings_as(b.state, a.state, selected, timeout@, timeout_style@, input_mode,
                if input_mode != GrubConfigInputMode::Idle { input_buffer@.push(c) } else { input_buffer@ }),
        _ => r is Nothing && unchanged(a, b),
    }
}

impl App {
    /// Handles a key on the settings screen.
    pub fn key_configure(&mut self, key: Key) -> (r: Effect)
        requires
            old(self).state is ConfigureGrub,
        ensures
            configure_step(*old(self), *final(self), key, r),
    {
        let st = self.take_state();
        match st {
            AppState::ConfigureGrub { selected, linux_params, linux_default_params, mut timeout, mut timeout_style, input_mode, mut input_buffer } => {
                let idle = input_mode == GrubConfigInputMode::Idle;
                match key {
                    Key::Esc | Key::Left => {
                        if idle {
                            self.state = AppState::ConfigureGrub { selected, linux_params, linux_default_params, timeout, timeout_style, input_mode, input_buffer };
                            self.navigate_back();
                        } else {
                            self.state = AppState::ConfigureGrub { selected, linux_params, linux_default_params, timeout, timeout_style,
                                input_mode: GrubConfigInputMode::Idle, input_buffer: String::new() };
                        }
                        Effect::Nothing
                    },
                    Key::Up | Key::Down => {
                        let s = if !idle { selected } else if key == Key::Up { prev_index(selected, 8) } else { next_index(selected, 8) };
                        self.state = AppState::ConfigureGrub { selected: s, linux_params, linux_default_params, timeout, timeout_style, input_mode, input_buffer };
                        Effect::Nothing
                    },
                    Key::Enter | Key::Right => {
                        let right = key == Key::Right;
                        if idle {
                            if selected == 0 || selected == 1 {
                                let params = if selected == 0 { clone_texts(&linux_params) } else { clone_texts(&linux_default_params) };
                                let target = if selected == 0 { ParamTarget::Linux } else { ParamTarget::LinuxDefault };
                                self.state = AppState::ConfigureGrub { selected, linux_params, linux_default_params, timeout, timeout_style, input_mode, input_buffer };
                                self.navigate_to(AppState::EditParameterList {
                                    target,
                                    params,
                                    selected: 0,
                                    input_mode: InputMode::Idle,
                                    input_buffer: String::new(),
                                }, true);
                                Effect::Nothing
                            } else if selected == 2 {
                                let b = timeout.clone();
                                self.state = AppState::ConfigureGrub { selected, linux_params, linux_default_params, timeout, timeout_style,
                                    input_mode: GrubConfigInputMode::EditTimeout, input_buffer: b };
                                Effect::Nothing
                            } else if selected == 3 {
                                self.state = AppState::ConfigureGrub { selected, linux_params, linux_default_params, timeout, timeout_style,
                                    input_mode: GrubConfigInputMode::SelectTimeoutStyle, input_buffer: String::new() };
                                Effect::Nothing
                            } else if selected == 6 {
                                let linux = join_parameters(linux_params.as_slice());
                                let linux_default = join_parameters(linux_default_params.as_slice());
                                let t = timeout.clone();
                                let ts = timeout_style.clone();
                                proof {
                                    assert(linux_params@.map_values(|s: String| s@) =~= texts(linux_params@));
                                    assert(linux_default_params@.map_values(|s: String| s@) =~= texts(linux_default_params@));
                                }
                                self.state = AppState::ConfigureGrub { selected, linux_params, linux_default_params, timeout, timeout_style, input_mode, input_buffer };
                                Effect::SaveSettings { linux, linux_default, timeout: t, timeout_style: ts }
                            } else {
                                self.state = AppState::ConfigureGrub { selected, linux_params, linux_default_params, timeout, timeout_style, input_mode, input_buffer };
                                if selected == 4 {
                                    Effect::OpenAllParams
                                } else if selected == 5 {
                                    Effect::Validate
                                } else {
                                    if selected == 7 {
                                        self.navigate_back();
                                    }
                                    Effect::Nothing
                                }
                            }
                        } else if input_mode == GrubConfigInputMode::EditTimeout {
                            let t = trim_text(input_buffer.as_str());
                            if !t.as_str().is_empty() {
                                timeout = t;
                            }
                            if right {
                                self.state = AppState::ConfigureGrub { selected: 3, linux_params, linux_default_params, timeout, timeout_style,
                                    input_mode: GrubConfigInputMode::SelectTimeoutStyle, input_buffer: String::new() };
                            } else {
                                self.state = AppState::ConfigureGrub { selected, linux_params, linux_default_params, timeout, timeout_style,
                                    input_mode: GrubConfigInputMode::Idle, input_buffer: String::new() };
                            }
                            Effect::Nothing
                        } else if input_mode == GrubConfigInputMode::SelectTimeoutStyle {
                            let t = trim_text(input_buffer.as_str());
                            let style = lowercase(t.as_str());
                            proof {
                                reveal_strlit("menu");
                                reveal_strlit("hidden");
                                reveal_strlit("countdown");
                                assert("menu"@ =~= seq!['m', 'e', 'n', 'u']);
                                assert("hidden"@ =~= seq!['h', 'i', 'd', 'd', 'e', 'n']);
                                assert("countdown"@ =~= seq!['c', 'o', 'u', 'n', 't', 'd', 'o', 'w', 'n']);
                            }
                            if same_text(style.as_str(), "menu") || same_text(style.as_str(), "hidden") || same_text(style.as_str(), "countdown") {
                                timeout_style = style;
                            }
                            self.state = AppState::ConfigureGrub { selected, linux_params, linux_default_params, timeout, timeout_style,
                                input_mode: GrubConfigInputMode::Idle, input_buffer: String::new() };
                            Effect::Nothing
                        } else {
                            self.state = AppState::ConfigureGrub { selected, linux_params, linux_default_params, timeout, timeout_style, input_mode, input_buffer };
                            Effect::Nothing
                        }
                    },
                    Key::Backspace | Key::Char(_) => {
                        if !idle {
                            match key {
                                Key::Char(c) => push_char(&mut input_buffer, c),
                                _ => pop_char(&mut input_buffer),
                            }
                        }
                        self.state = AppState::ConfigureGrub { selected, linux_params, linux_default_params, timeout, timeout_style, input_mode, input_buffer };
                        Effect::Nothing
                    },
                    _ => {
                        self.state = AppState::ConfigureGrub { selected, linux_params, linux_default_params, timeout, timeout_style, input_mode, input_buffer };
                        Effect::Nothing
                    },
                }
            },
            other => {
                self.state = other;
                Effect::Nothing
            },
        }
    }
}

/// The parameter-list editor `s` over `params`, with the given selection and sub-mode test
/// and an empty field, for the same command line as `t`.
pub open spec fn param_list_as(s: AppState, t: AppState, params: Seq<Seq<char>>, sel: usize) -> bool {
    &&& s matches AppState::EditParameterList { target, params: p, selected, input_buffer, .. }
    &&& t matches AppState::EditParameterList { target: t0, .. }
    &&& target == t0 && texts(p@) == params && selected == sel && input_buffer@.len() == 0
}

/// The sub-mode of a parameter-list editor.
pub open spec fn list_mode(s: AppState) -> InputMode {
    match s {
        AppState::EditParameterList { input_mode, .. } => input_mode,
        _ => InputMode::Idle,
    }
}

/// The parameter at `idx` with its value replaced by `v`, its name kept.
pub open spec fn with_value(p: Seq<char>, v: Seq<char>) -> Seq<char> {
    parameter_text(parameter_parts(p).0, Some(v))
}

/// The editor's selection after its list went from `old_len` to `new_len` parameters: a
/// selection on a parameter row that no longer exists moves to the last parameter (or the
/// first row when none is left); one past the last row moves to the last row.
pub open spec fn selection_after_delete(sel: usize, old_len: nat, new_len: nat) -> usize {
    if sel < old_len && sel >= new_len {
        if new_len == 0 { 0 } else { (new_len - 1) as usize }
    } else if sel as int > last_row(new_len) {
        last_row(new_len) as usize
    } else {
        sel
    }
}

/// Enter or Right (`right`) in the parameter-list editor.
pub open spec fn param_list_enter(a: App, b: App, right: bool, r: Effect) -> bool {
    a.state matches AppState::EditParameterList { target, params, selected, input_mode, input_buffer } ==> {
        let ps = texts(params@);
        let len = ps.len();
        let kept = same_session(a, b) && b.state_stack@ == a.state_stack@;
        let save = unchanged(a, b) && (r matches Effect::ReturnToSettings { target: t, params: Some(p), back_on_error }
            && t == target && texts(p@) == ps && !back_on_error);
        let cancel = unchanged(a, b) && (r matches Effect::ReturnToSettings { target: t, params: None, back_on_error }
            && t == target && !back_on_error);
        match input_mode {
            InputMode::Idle => if selected < len {
                r is Nothing && kept && param_list_as(b.state, a.state, ps, selected) && list_mode(b.state) == InputMode::EditValue(selected)
            } else if selected == len {
                r is Nothing && kept && param_list_as(b.state, a.state, ps, selected) && list_mode(b.state) is AddName
            } else if selected == len + 1 {
                if len > 0 {
                    r is Nothing && kept && param_list_as(b.state, a.state, ps, selected) && list_mode(b.state) is DeleteIndex
                } else {
                    save
                }
            } else if selected == len + 2 {
                if len > 0 { save } else { cancel }
            } else if selected == len + 3 {
                cancel
            } else {
                r is Nothing && unchanged(a, b)
            },
            InputMode::EditValue(idx) => {
                let nps = if input_buffer@.len() > 0 && idx < len {
                    ps.update(idx as int, with_value(ps[idx as int], trimmed(input_buffer@)))
                } else {
                    ps
                };
                r is Nothing && kept && if right && idx + 1 < len {
                    param_list_as(b.state, a.state, nps, (idx + 1) as usize) && list_mode(b.state) == InputMode::EditValue((idx + 1) as usize)
                } else {
                    param_list_as(b.state, a.state, nps, selected) && list_mode(b.state) is Idle
                }
            },
            InputMode::AddName => {
                let t = trimmed(input_buffer@);
                r is Nothing && kept && param_list_as(b.state, a.state, ps, selected) && if t.len() > 0 {
                    list_mode(b.state) matches InputMode::AddValue(n) && n@ == t
                } else {
                    list_mode(b.state) is Idle
                }
            },
            InputMode::AddValue(name) => {
                let v = trimmed(input_buffer@);
                let added = if v.len() > 0 { parameter_text(name@, Some(v)) } else { name@ };
                r is Nothing && kept && param_list_as(b.state, a.state, ps.push(added), selected) && list_mode(b.state) is Idle
            },
            InputMode::DeleteIndex => {
                let k = parse_index(trimmed(input_buffer@));
                let nps = if k is Some && 1 <= k->0 <= len { ps.remove(k->0 - 1) } else { ps };
                r is Nothing && kept && list_mode(b.state) is Idle
                    && param_list_as(b.state, a.state, nps, selection_after_delete(selected, len, nps.len()))
            },
        }
    }
}

/// A key in the parameter-list editor: Esc/Left leave the sub-mode, or, with none, return
/// to the settings screen keeping the edits; Up/Down move through the rows with wrap-around;
/// Enter/Right act on the row or commit the sub-mode; typing and backspace edit the field.
pub open spec fn param_list_step(a: App, b: App, key: Key, r: Effect) -> bool {
    a.state matches AppState::EditParameterList { target, params, selected, input_mode, input_buffer } ==> {
        let ps = texts(params@);
        let kept = same_session(a, b) && b.state_stack@ == a.state_stack@;
        let idle = input_mode is Idle;
        let rows = last_row(ps.len());
        match key {
            Key::Esc | Key::Left => if !idle {
                r is Nothing && kept && param_list_as(b.state, a.state, ps, selected) && list_mode(b.state) is Idle
            } else {
                unchanged(a, b) && (r matches Effect::ReturnToSettings { target: t, params: Some(p), back_on_error }
                    && t == target && texts(p@) == ps && back_on_error)
            },
            Key::Up => r is Nothing && if idle && rows < usize::MAX {
                replaced(a, b, AppState::EditParameterList { target, params, selected: if selected == 0 { rows as usize } else { (selected - 1) as usize }, input_mode, input_buffer })
            } else {
                unchanged(a, b)
            },
            Key::Down => r is Nothing && if idle && rows < usize::MAX {
                replaced(a, b, AppState::EditParameterList { target, params, selected: ((selected + 1) % (rows + 1)) as usize, input_mode, input_buffer })
            } else {
                unchanged(a, b)
            },
            Key::Enter => param_list_enter(a, b, false, r),
            Key::Right => param_list_enter(a, b, true, r),
            Key::Backspace => r is Nothing && if !idle {
                kept && (b.state matches AppState::EditParameterList { target: t, params: p, selected: s, input_mode: m, input_buffer: ib }
                    && t == target && p == params && s == selected && m == input_mode && ib@ == backspaced(input_buffer@))
            } else {
                unchanged(a, b)
            },
            Key::Char(c) => r is Nothing && if !idle {
                kept && (b.state matches AppState::EditParameterList { target: t, params: p, selected: s, input_mode: m, input_buffer: ib }
                    && t == target && p == params && s == selected && m == input_mode && ib@ == input_buffer@.push(c))
            } else {
                unchanged(a, b)
            },
            _ => r is Nothing && unchanged(a, b),
        }
    }
}

impl App {
    /// Handles a key in the parameter-list editor.
    pub fn key_param_list(&mut self, key: Key) -> (r: Effect)
        requires
            old(self).state is EditParameterList,
        ensures
            param_list_step(*old(self), *final(self), key, r),
    {
        let st = self.take_state();
        match st {
            AppState::EditParameterList { target, mut params, selected, input_mode, mut input_buffer } => {
                let len = params.len();
                let idle = match &input_mode {
                    InputMode::Idle => true,
                    _ => false,
                };
                match key {
                    Key::Esc | Key::Left => {
                        if !idle {
                            self.state = AppState::EditParameterList { target, params, selected, input_mode: InputMode::Idle, input_buffer: String::new() };
                            Effect::Nothing
                        } else {
                            let p = clone_texts(&params);
                            self.state = AppState::EditParameterList { target, params, selected, input_mode, input_buffer };
                            Effect::ReturnToSettings { target, params: Some(p), back_on_error: true }
                        }
                    },
                    Key::Up | Key::Down => {
                        if idle && (len == 0 || len < usize::MAX - 3) {
                            let rows = if len == 0 { 2 } else { len + 3 };
                            let s = if key == Key::Up {
                                if selected == 0 { rows } else { selected - 1 }
                            } else {
                                let m = selected % (rows + 1);
                                let n = (m + 1) % (rows + 1);
                                assert((n as int) == (selected as int + 1) % (rows as int + 1)) by (nonlinear_arith)
                                    requires (m as int) == (selected as int) % (rows as int + 1),
                                        (n as int) == (m as int + 1) % (rows as int + 1), rows >= 0;
                                n
                            };
                            self.state = AppState::EditParameterList { target, params, selected: s, input_mode, input_buffer };
                        } else {
                            self.state = AppState::EditParameterList { target, params, selected, input_mode, input_buffer };
                        }
                        Effect::Nothing
                    },
                    Key::Enter | Key::Right => {
                        let right = key == Key::Right;
                        match input_mode {
                            InputMode::Idle => {
                                if selected < len {
                                    self.state = AppState::EditParameterList { target, params, selected,
                                        input_mode: InputMode::EditValue(selected), input_buffer: String::new() };
                                    Effect::Nothing
                                } else if selected == len {
                                    self.state = AppState::EditParameterList { target, params, selected,
                                        input_mode: InputMode::AddName, input_buffer: String::new() };
                                    Effect::Nothing
                                } else if selected - len == 1 && len > 0 {
                                    self.state = AppState::EditParameterList { target, params, selected,
                                        input_mode: InputMode::DeleteIndex, input_buffer: String::new() };
                                    Effect::Nothing
                                } else if (selected - len == 1 && len == 0) || (selected - len == 2 && len > 0) {
                                    let p = clone_texts(&params);
                                    self.state = AppState::EditParameterList { target, params, selected, input_mode: InputMode::Idle, input_buffer };
                                    Effect::ReturnToSettings { target, params: Some(p), back_on_error: false }
                                } else if (selected - len == 2 && len == 0) || selected - len == 3 {
                                    self.state = AppState::EditParameterList { target, params, selected, input_mode: InputMode::Idle, input_buffer };
                                    Effect::ReturnToSettings { target, params: None, back_on_error: false }
                                } else {
                                    self.state = AppState::EditParameterList { target, params, selected, input_mode: InputMode::Idle, input_buffer };
                                    Effect::Nothing
                                }
                            },
                            InputMode::EditValue(idx) => {
                                let ghost ps0 = texts(params@);
                                if !input_buffer.as_str().is_empty() && idx < len {
                                    let (name, _) = split_parameter(params[idx].as_str());
                                    let v = trim_text(input_buffer.as_str());
                                    let np = format_parameter(name.as_str(), Some(v.as_str()));
                                    params.remove(idx);
                                    params.insert(idx, np);
                                    assert(texts(params@) =~= ps0.update(idx as int, with_value(ps0[idx as int], trimmed(input_buffer@))));
                                }
                                if right && idx < len && idx + 1 < len {
                                    self.state = AppState::EditParameterList { target, params, selected: idx + 1,
                                        input_mode: InputMode::EditValue(idx + 1), input_buffer: String::new() };
                                } else {
                                    self.state = AppState::EditParameterList { target, params, selected,
                                        input_mode: InputMode::Idle, input_buffer: String::new() };
                                }
                                Effect::Nothing
                            },
                            InputMode::AddName => {
                                let t = trim_text(input_buffer.as_str());
                                if !t.as_str().is_empty() {
                                    self.state = AppState::EditParameterList { target, params, selected,
                                        input_mode: InputMode::AddValue(t), input_buffer: String::new() };
                                } else {
                                    self.state = AppState::EditParameterList { target, params, selected,
                                        input_mode: InputMode::Idle, input_buffer: String::new() };
                                }
                                Effect::Nothing
                            },
                            InputMode::AddValue(name) => {
                                let ghost ps0 = texts(params@);
                                let v = trim_text(input_buffer.as_str());
                                let added = if v.as_str().is_empty() {
                                    name
                                } else {
                                    format_parameter(name.as_str(), Some(v.as_str()))
                                };
                                params.push(added);
                                assert(texts(params@) =~= ps0.push(added@));
                                self.state = AppState::EditParameterList { target, params, selected,
                                    input_mode: InputMode::Idle, input_buffer: String::new() };
                                Effect::Nothing
                            },
                            InputMode::DeleteIndex => {
                                let ghost ps0 = texts(params@);
                                let t = crate::text::chars_of(trim_text(input_buffer.as_str()).as_str());
                                let k = crate::path::parse_index_range(&t, 0, t.len());
                                assert(t@.subrange(0, t@.len() as int) =~= t@);
                                match k {
                                    Some(k) => {
                                        if 1 <= k && k <= len {
                                            params.remove(k - 1);
                                            assert(texts(params@) =~= ps0.remove(k - 1));
                                        }
                                    },
                                    None => {},
                                }
                                let n = params.len();
                                let rows: usize = if n == 0 { 2 } else if n < usize::MAX - 3 { n + 3 } else { usize::MAX };
                                let s = if selected < len && selected >= n {
                                    if n == 0 { 0 } else { n - 1 }
                                } else if n < usize::MAX - 3 && selected > rows {
                                    rows
                                } else {
                                    selected
                                };
                                self.state = AppState::EditParameterList { target, params, selected: s,
                                    input_mode: InputMode::Idle, input_buffer: String::new() };
                                Effect::Nothing
                            },
                        }
                    },
                    Key::Backspace | Key::Char(_) => {
                        if !idle {
                            match key {
                                Key::Char(c) => push_char(&mut input_buffer, c),
                                _ => pop_char(&mut input_buffer),
                            }
                        }
                        self.state = AppState::EditParameterList { target, params, selected, input_mode, input_buffer };
                        Effect::Nothing
                    },
                    _ => {
                        self.state = AppState::EditParameterList { target, params, selected, input_mode, input_buffer };
                        Effect::Nothing
                    },
                }
            },
            other => {
                self.state = other;
                Effect::Nothing
            },
        }
    }
}

/// A key in the list of all settings: Esc/Left go back; Up/Down move with wrap-around when
/// no value is being edited; Enter starts editing the selected value, or stores the edited
/// one; typed characters edit the value (a backspace or delete character removes one).
pub open spec fn all_params_step(a: App, b: App, key: Key, r: Effect) -> bool {
    a.state matches AppState::EditAllGrubParams { params, selected, input_mode, input_buffer } ==> {
        let kept = same_session(a, b) && b.state_stack@ == a.state_stack@;
        let len = params@.len();
        match key {
            Key::Esc | Key::Left => r is Nothing && went_back(a, b),
            Key::Up => r is Nothing && replaced(a, b, AppState::EditAllGrubParams { params, input_mode, input_buffer,
                selected: if input_mode == GrubConfigInputMode::Idle { wrap_prev(selected, len as usize) } else { selected } }),
            Key::Down => r is Nothing && replaced(a, b, AppState::EditAllGrubParams { params, input_mode, input_buffer,
                selected: if input_mode == GrubConfigInputMode::Idle { wrap_next(selected, len as usize) } else { selected } }),
            Key::Enter => if input_mode == GrubConfigInputMode::Idle && selected < len {
                r is Nothing && kept && (b.state matches AppState::EditAllGrubParams { params: p, selected: s, input_mode: m, input_buffer: ib }
                    && p == params && s == selected && m == GrubConfigInputMode::EditTimeout && ib@ == params@[selected as int].1@)
            } else if input_mode == GrubConfigInputMode::EditTimeout && selected < len {
                kept && (r matches Effect::SaveParam { key: k, value } && k@ == params@[selected as int].0@ && value@ == input_buffer@)
                    && (b.state matches AppState::EditAllGrubParams { params: p, selected: s, input_mode: m, input_buffer: ib }
                    && p@.len() == len && s == selected && m == GrubConfigInputMode::Idle && ib@.len() == 0
                    && p@[selected as int].0 == params@[selected as int].0 && p@[selected as int].1@ == input_buffer@
                    && forall|j: int| 0 <= j < len && j != selected ==> #[trigger] p@[j] == params@[j])
            } else {
                r is Nothing && unchanged(a, b)
            },
            Key::Char(c) => r is Nothing && if input_mode == GrubConfigInputMode::EditTimeout && c != '\n' && c != '\r' {
                kept && (b.state matches AppState::EditAllGrubParams { params: p, selected: s, input_mode: m, input_buffer: ib }
                    && p == params && s == selected && m == input_mode
                    && ib@ == (if c == '\x08' || c == '\x7f' { backspaced(input_buffer@) } else { input_buffer@.push(c) }))
            } else {
                unchanged(a, b)
            },
            _ => r is Nothing && unchanged(a, b),
        }
    }
}

impl App {
    /// Handles a key in the list of all settings.
    pub fn key_all_params(&mut self, key: Key) -> (r: Effect)
        requires
            old(self).state is EditAllGrubParams,
        ensures
            all_params_step(*old(self), *final(self), key, r),
    {
        let st = self.take_state();
        match st {
            AppState::EditAllGrubParams { mut params, selected, input_mode, mut input_buffer } => {
                let len = params.len();
                let idle = input_mode == GrubConfigInputMode::Idle;
                match key {
                    Key::Esc | Key::Left => {
                        self.state = AppState::EditAllGrubParams { params, selected, input_mode, input_buffer };
                        self.navigate_back();
                        Effect::Nothing
                    },
                    Key::Up | Key::Down => {
                        let s = if !idle { selected } else if key == Key::Up { prev_index(selected, len) } else { next_index(selected, len) };
                        self.state = AppState::EditAllGrubParams { params, selected: s, input_mode, input_buffer };
                        Effect::Nothing
                    },
                    Key::Enter => {
                        if idle && selected < len {
                            let b = params[selected].1.clone();
                            self.state = AppState::EditAllGrubParams { params, selected,
                                input_mode: GrubConfigInputMode::EditTimeout, input_buffer: b };
                            Effect::Nothing
                        } else if input_mode == GrubConfigInputMode::EditTimeout && selected < len {
                            let ghost old_params = params@;
                            let (k, _) = params.remove(selected);
                            let key_copy = k.clone();
                            let value = input_buffer.clone();
                            params.insert(selected, (k, input_buffer));
                            assert forall|j: int| 0 <= j < len && j != selected implies #[trigger] params@[j] == old_params[j] by {
                                if j < selected {
                                } else {
                                }
                            }
                            self.state = AppState::EditAllGrubParams { params, selected,
                                input_mode: GrubConfigInputMode::Idle, input_buffer: String::new() };
                            Effect::SaveParam { key: key_copy, value }
                        } else {
                            self.state = AppState::EditAllGrubParams { params, selected, input_mode, input_buffer };
                            Effect::Nothing
                        }
                    },
                    Key::Char(c) => {
                        if input_mode == GrubConfigInputMode::EditTimeout && c != '\n' && c != '\r' {
                            if c == '\x08' || c == '\x7f' {
                                pop_char(&mut input_buffer);
                            } else {
                                push_char(&mut input_buffer, c);
                            }
                        }
                        self.state = AppState::EditAllGrubParams { params, selected, input_mode, input_buffer };
                        Effect::Nothing
                    },
                    _ => {
                        self.state = AppState::EditAllGrubParams { params, selected, input_mode, input_buffer };
                        Effect::Nothing
                    },
                }
            },
            other => {
                self.state = other;
                Effect::Nothing
            },
        }
    }

    /// Handles one key press on whatever screen is active and tells the caller what outside
    /// work, if any, the press asks for. The tree is never changed.
    pub fn on_key(&mut self, key: Key) -> (r: Effect)
        ensures
            final(self).entry == old(self).entry,
            main_menu_step(*old(self), *final(self), key, r),
            search_mode_step(*old(self), *final(self), key, r),
            select_entry_step(*old(self), *final(self), key, r),
            entry_search_step(*old(self), *final(self), key, r),
            configure_step(*old(self), *final(self), key, r),
            param_list_step(*old(self), *final(self), key, r),
            confirm_step(*old(self), *final(self), key, r),
            message_step(*old(self), *final(self), key, r),
            cleanup_step(*old(self), *final(self), key, r),
            rename_step(*old(self), *final(self), key, r),
            backups_step(*old(self), *final(self), key, r),
            boot_times_step(*old(self), *final(self), key, r),
            all_params_step(*old(self), *final(self), key, r),
            (old(self).state is ViewDefaultEntry || old(self).state is ViewKernelInfo || old(self).state is ValidateGrub)
                ==> dismiss_step(*old(self), *final(self), key, r),
    {
        match &self.state {
            AppState::MainMenu { .. } => self.key_main_menu(key),
            AppState::SearchMode { .. } => self.key_search_mode(key),
            AppState::SelectBootEntry { .. } => self.key_select_entry(key),
            AppState::SelectBootEntrySearch { .. } => self.key_entry_search(key),
            AppState::ConfigureGrub { .. } => self.key_configure(key),
            AppState::EditParameterList { .. } => self.key_param_list(key),
            AppState::ConfirmSetDefaultEntry { .. } => self.key_confirm(key),
            AppState::Message { .. } => self.key_message(key),
            AppState::CleanupKernels { .. } => self.key_cleanup(key),
            AppState::RenameBootEntry { .. } => self.key_rename(key),
            AppState::BackupManager { .. } => self.key_backups(key),
            AppState::BootTimeStats { .. } => self.key_boot_times(key),
            AppState::EditAllGrubParams { .. } => self.key_all_params(key),
            _ => self.key_dismiss(key),
        }
    }
}

/// In the parameter editor, deleting the last of `k` parameters while it is selected moves
/// the selection to `max(0, k - 2)`.
pub proof fn lemma_param_delete_clamping(k: usize)
    requires
        k >= 1,
    ensures
        selection_after_delete((k - 1) as usize, k as nat, (k - 1) as nat) == (if k >= 2 { (k - 2) as usize } else { 0usize }),
{
}

/// A removable-item list of `k` items with the last one selected keeps its selection inside
/// the list once that item is gone: it moves to `max(0, k - 2)`.
pub proof fn lemma_selection_clamping(k: usize)
    requires
        k >= 1,
    ensures
        clamped((k - 1) as usize, (k - 1) as usize) == (if k >= 2 { (k - 2) as usize } else { 0usize }),
{
}

proof fn lemma_backward(runs: Seq<App>, n: nat, k: nat)
    requires
        runs.len() == 2 * n + 1,
        k <= n,
        forall|j: int| 0 <= j < n ==> #[trigger] entered(runs[j], runs[j + 1], runs[j + 1].state),
        forall|j: int| n <= j < 2 * n ==> #[trigger] went_back(runs[j], runs[j + 1]),
    ensures
        runs[(n + k) as int].state == runs[(n - k) as int].state,
        runs[(n + k) as int].state_stack@ == runs[(n - k) as int].state_stack@,
        same_session(runs[(n - k) as int], runs[(n + k) as int]),
    decreases k,
{
    if k > 0 {
        lemma_backward(runs, n, (k - 1) as nat);
        let j = (n + k - 1) as int;
        let a = runs[j];
        assert(went_back(runs[j], runs[j + 1]));
        let i = (n - k) as int;
        assert(entered(runs[i], runs[i + 1], runs[i + 1].state));
        assert(a.state_stack@ == runs[(n - k) as int].state_stack@.push(runs[(n - k) as int].state));
        assert(a.state_stack@.drop_last() =~= runs[(n - k) as int].state_stack@);
    }
}

/// Entering screens `n` times and then going back `n` times restores the starting screen and
/// back-stack, whatever screens were entered.
pub proof fn lemma_navigation_stack(runs: Seq<App>, n: nat)
    requires
        runs.len() == 2 * n + 1,
        forall|k: int| 0 <= k < n ==> #[trigger] entered(runs[k], runs[k + 1], runs[k + 1].state),
        forall|k: int| n <= k < 2 * n ==> #[trigger] went_back(runs[k], runs[k + 1]),
    ensures
        runs[2 * n as int].state == runs[0].state,
        runs[2 * n as int].state_stack@ == runs[0].state_stack@,
        same_session(runs[0], runs[2 * n as int]),
{
    lemma_backward(runs, n, n);
}

} // verus!
