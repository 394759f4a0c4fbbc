//! The operator console's state machine: views, focus, the command
//! palette and search, how keys map to actions and how actions change the
//! state. What an action asks of the host comes back as an effect.
use vstd::prelude::*;
use vstd::view::View as _;
use crate::model::{EnforcementMode, RiskLevel, VerificationStatus};
use crate::text::{
    bool_text, char_len, decimal, push_bool, push_char, push_decimal, push_str, starts_with,
    str_eq, string_of,
};

verus! {

/// A screen of the console.
#[derive(Debug, Clone, Copy, PartialEq, Eq, Structural)]
pub enum View {
    Dashboard,
    Run,
    Tools,
    Policy,
    Receipts,
    AuditStream,
    Trust,
    Diagnostics,
    Settings,
}

/// The title of a view.
pub open spec fn spec_title(v: View) -> Seq<char> {
    match v {
        View::Dashboard => "Dashboard"@,
        View::Run => "Run"@,
        View::Tools => "Tools"@,
        View::Policy => "Policy"@,
        View::Receipts => "Receipts"@,
        View::AuditStream => "Audit Stream"@,
        View::Trust => "Trust"@,
        View::Diagnostics => "Diagnostics"@,
        View::Settings => "Settings"@,
    }
}

/// The views in navigation order.
pub open spec fn spec_all_views() -> Seq<View> {
    seq![
        View::Dashboard,
        View::Run,
        View::Tools,
        View::Policy,
        View::Receipts,
        View::AuditStream,
        View::Trust,
        View::Diagnostics,
        View::Settings,
    ]
}

/// The position of a view in navigation order.
pub open spec fn view_position(v: View) -> nat {
    match v {
        View::Dashboard => 0,
        View::Run => 1,
        View::Tools => 2,
        View::Policy => 3,
        View::Receipts => 4,
        View::AuditStream => 5,
        View::Trust => 6,
        View::Diagnostics => 7,
        View::Settings => 8,
    }
}

impl View {
    /// The title of the view.
    pub fn title(self) -> (res: &'static str)
        ensures
            res@ == spec_title(self),
    {
        match self {
            View::Dashboard => "Dashboard",
            View::Run => "Run",
            View::Tools => "Tools",
            View::Policy => "Policy",
            View::Receipts => "Receipts",
            View::AuditStream => "Audit Stream",
            View::Trust => "Trust",
            View::Diagnostics => "Diagnostics",
            View::Settings => "Settings",
        }
    }

    /// The views in navigation order.
    pub fn all() -> (res: [View; 9])
        ensures
            res@ == spec_all_views(),
    {
        let res = [
            View::Dashboard,
            View::Run,
            View::Tools,
            View::Policy,
            View::Receipts,
            View::AuditStream,
            View::Trust,
            View::Diagnostics,
            View::Settings,
        ];
        assert(res@ =~= spec_all_views());
        res
    }
}

/// Every view stands at its position in navigation order.
pub proof fn law_view_positions(v: View)
    ensures
        view_position(v) < 9,
        spec_all_views()[view_position(v) as int] == v,
{
}

/// The pane that keyboard focus is on.
#[derive(Debug, Clone, Copy, PartialEq, Eq, Structural)]
pub enum FocusPane {
    Nav,
    Center,
    Inspector,
}

/// The pane after `f`, cycling.
pub open spec fn spec_next(f: FocusPane) -> FocusPane {
    match f {
        FocusPane::Nav => FocusPane::Center,
        FocusPane::Center => FocusPane::Inspector,
        FocusPane::Inspector => FocusPane::Nav,
    }
}

/// The pane before `f`, cycling.
pub open spec fn spec_prev(f: FocusPane) -> FocusPane {
    match f {
        FocusPane::Nav => FocusPane::Inspector,
        FocusPane::Center => FocusPane::Nav,
        FocusPane::Inspector => FocusPane::Center,
    }
}

impl FocusPane {
    /// The pane after this one, cycling.
    pub fn next(self) -> (res: Self)
        ensures
            res == spec_next(self),
    {
        match self {
            FocusPane::Nav => FocusPane::Center,
            FocusPane::Center => FocusPane::Inspector,
            FocusPane::Inspector => FocusPane::Nav,
        }
    }

    /// The pane before this one, cycling.
    pub fn prev(self) -> (res: Self)
        ensures
            res == spec_prev(self),
    {
        match self {
            FocusPane::Nav => FocusPane::Inspector,
            FocusPane::Center => FocusPane::Nav,
            FocusPane::Inspector => FocusPane::Center,
        }
    }
}

/// Tab and Shift+Tab undo each other, and three Tabs come back round.
pub proof fn law_focus_cycle(f: FocusPane)
    ensures
        spec_prev(spec_next(f)) == f,
        spec_next(spec_prev(f)) == f,
        spec_next(spec_next(spec_next(f))) == f,
{
}

/// What the console shows and where the operator is.
#[derive(Debug, Clone)]
pub struct AppState {
    pub view: View,
    pub focus: FocusPane,
    pub nav_index: usize,
    pub center_index: usize,
    pub show_help: bool,
    pub show_palette: bool,
    pub palette_index: usize,
    pub search_mode: bool,
    pub search_query: String,
    pub pending_g: bool,
    pub status: String,
}

impl Default for AppState {
    fn default() -> (res: Self)
        ensures
            res.view == View::Dashboard,
            res.focus == FocusPane::Nav,
            res.nav_index == 0,
            res.center_index == 0,
            !res.show_help,
            !res.show_palette,
            res.palette_index == 0,
            !res.search_mode,
            res.search_query@.len() == 0,
            !res.pending_g,
            res.status@ == "Ctrl+K: palette | ?: help | q: quit"@,
    {
        AppState {
            view: View::Dashboard,
            focus: FocusPane::Nav,
            nav_index: 0,
            center_index: 0,
            show_help: false,
            show_palette: false,
            palette_index: 0,
            search_mode: false,
            search_query: String::new(),
            pending_g: false,
            status: string_of("Ctrl+K: palette | ?: help | q: quit"),
        }
    }
}

/// The console state with its texts as character sequences.
pub struct AppStateView {
    pub view: View,
    pub focus: FocusPane,
    pub nav_index: usize,
    pub center_index: usize,
    pub show_help: bool,
    pub show_palette: bool,
    pub palette_index: usize,
    pub search_mode: bool,
    pub search_query: Seq<char>,
    pub pending_g: bool,
    pub status: Seq<char>,
}

impl vstd::view::View for AppState {
    type V = AppStateView;

    open spec fn view(&self) -> AppStateView {
        AppStateView {
            view: self.view,
            focus: self.focus,
            nav_index: self.nav_index,
            center_index: self.center_index,
            show_help: self.show_help,
            show_palette: self.show_palette,
            palette_index: self.palette_index,
            search_mode: self.search_mode,
            search_query: self.search_query@,
            pending_g: self.pending_g,
            status: self.status@,
        }
    }
}

/// The indexes stay on the nine views: the navigation and palette
/// positions are below nine.
pub open spec fn state_well_formed(s: AppStateView) -> bool {
    s.nav_index < 9 && s.palette_index < 9
}

/// What the operator asked for.
#[derive(Debug, Clone)]
pub enum UiAction {
    MoveUp,
    MoveDown,
    MoveLeft,
    MoveRight,
    Tab,
    ShiftTab,
    Enter,
    ToggleHelp,
    TogglePalette,
    StartSearch,
    SearchInput(char),
    SearchBackspace,
    SearchSubmit,
    SearchCancel,
    QuickGoto(View),
    DeepVerify,
    Export,
    Refresh,
    Quit,
    Idle,
}

/// What an action asks of the host once the state has changed.
#[derive(Debug, Clone, Copy, PartialEq, Eq, Structural)]
pub enum UiEffect {
    /// Nothing.
    Nothing,
    /// Leave the console.
    Quit,
    /// Reload the listings and report their sizes in the status line.
    Refresh,
    /// Reload the listings and keep the status line.
    Reload,
    /// Run the first registered tool, then refresh.
    RunFirstTool,
    /// Explain the policy of the first registered tool.
    ExplainPolicy,
    /// Check the selected receipt in full.
    DeepVerify,
    /// Write the current view to the export file.
    Export,
}

/// The state with the view switched, the navigation on it, and the switch
/// reported.
pub open spec fn switched_to(s: AppStateView, v: View) -> AppStateView {
    AppStateView {
        view: v,
        nav_index: view_position(v) as usize,
        status: "switched to "@ + spec_title(v),
        ..s
    }
}

/// The query with its last character taken off, where it has one.
pub open spec fn without_last(q: Seq<char>) -> Seq<char> {
    if q.len() > 0 {
        q.drop_last()
    } else {
        q
    }
}

/// How an action changes the console in search mode: typing edits the
/// query, submitting leaves search mode and reloads, cancelling leaves it;
/// the status line shows the query.
pub open spec fn spec_search_step(s: AppStateView, action: UiAction) -> (AppStateView, UiEffect) {
    let s2 = match action {
        UiAction::SearchInput(ch) => AppStateView { search_query: s.search_query.push(ch), ..s },
        UiAction::SearchBackspace => AppStateView { search_query: without_last(s.search_query), ..s },
        UiAction::SearchSubmit => AppStateView { search_mode: false, ..s },
        UiAction::SearchCancel => AppStateView { search_mode: false, ..s },
        UiAction::Quit => AppStateView { search_mode: false, ..s },
        _ => s,
    };
    let effect = if action is SearchSubmit {
        UiEffect::Reload
    } else {
        UiEffect::Nothing
    };
    (AppStateView { status: "search query="@ + s2.search_query, ..s2 }, effect)
}

/// How an action changes the console while the palette is open.
pub open spec fn spec_palette_step(s: AppStateView, action: UiAction) -> (AppStateView, UiEffect) {
    match action {
        UiAction::MoveUp => (
            AppStateView {
                palette_index: if s.palette_index > 0 {
                    (s.palette_index - 1) as usize
                } else {
                    0
                },
                ..s
            },
            UiEffect::Nothing,
        ),
        UiAction::MoveDown => (
            AppStateView {
                palette_index: if s.palette_index + 1 < 8 {
                    (s.palette_index + 1) as usize
                } else {
                    8
                },
                ..s
            },
            UiEffect::Nothing,
        ),
        UiAction::Enter => (
            AppStateView {
                show_palette: false,
                ..switched_to(s, spec_all_views()[s.palette_index as int])
            },
            UiEffect::Nothing,
        ),
        UiAction::Quit => (AppStateView { show_palette: false, ..s }, UiEffect::Nothing),
        UiAction::TogglePalette => (AppStateView { show_palette: false, ..s }, UiEffect::Nothing),
        UiAction::Refresh => (s, UiEffect::Refresh),
        _ => (s, UiEffect::Nothing),
    }
}

/// Moving the selection up: in the navigation pane and the center pane the
/// index goes back one, stopping at the first.
pub open spec fn spec_move_up(s: AppStateView) -> AppStateView {
    match s.focus {
        FocusPane::Nav => AppStateView {
            nav_index: if s.nav_index > 0 {
                (s.nav_index - 1) as usize
            } else {
                0
            },
            ..s
        },
        FocusPane::Center => AppStateView {
            center_index: if s.center_index > 0 {
                (s.center_index - 1) as usize
            } else {
                0
            },
            ..s
        },
        FocusPane::Inspector => s,
    }
}

/// Moving the selection down: in the navigation pane the next view opens,
/// stopping at the last; in the center pane the index goes on one.
pub open spec fn spec_move_down(s: AppStateView) -> AppStateView {
    match s.focus {
        FocusPane::Nav => {
            let n = if s.nav_index + 1 < 8 {
                (s.nav_index + 1) as usize
            } else {
                8usize
            };
            AppStateView { nav_index: n, view: spec_all_views()[n as int], ..s }
        },
        FocusPane::Center => AppStateView { center_index: (s.center_index + 1) as usize, ..s },
        FocusPane::Inspector => s,
    }
}

/// How an action changes the console outside search and palette.
pub open spec fn spec_normal_step(s: AppStateView, action: UiAction, read_only: bool) -> (
    AppStateView,
    UiEffect,
) {
    match action {
        UiAction::Quit => if s.show_help {
            (AppStateView { show_help: false, ..s }, UiEffect::Nothing)
        } else {
            (s, UiEffect::Quit)
        },
        UiAction::ToggleHelp => (AppStateView { show_help: !s.show_help, ..s }, UiEffect::Nothing),
        UiAction::TogglePalette => (
            AppStateView { show_palette: !s.show_palette, ..s },
            UiEffect::Nothing,
        ),
        UiAction::StartSearch => (
            AppStateView {
                search_mode: true,
                status: "search mode: type to filter receipts by digest"@,
                ..s
            },
            UiEffect::Nothing,
        ),
        UiAction::MoveUp => (spec_move_up(s), UiEffect::Nothing),
        UiAction::MoveDown => (spec_move_down(s), UiEffect::Nothing),
        UiAction::Tab => (AppStateView { focus: spec_next(s.focus), ..s }, UiEffect::Nothing),
        UiAction::ShiftTab => (AppStateView { focus: spec_prev(s.focus), ..s }, UiEffect::Nothing),
        UiAction::Enter => match s.view {
            View::Run => if read_only {
                (
                    AppStateView {
                        status: "read-only mode: run execution is disabled in forensics mode"@,
                        ..s
                    },
                    UiEffect::Nothing,
                )
            } else {
                (s, UiEffect::RunFirstTool)
            },
            View::Policy => (s, UiEffect::ExplainPolicy),
            _ => (s, UiEffect::Nothing),
        },
        UiAction::QuickGoto(v) => (switched_to(s, v), UiEffect::Nothing),
        UiAction::DeepVerify => if s.view != View::Receipts {
            (
                AppStateView { status: "deep verify applies to receipts view"@, ..s },
                UiEffect::Nothing,
            )
        } else {
            (s, UiEffect::DeepVerify)
        },
        UiAction::Export => (s, UiEffect::Export),
        UiAction::Refresh => (s, UiEffect::Refresh),
        _ => (s, UiEffect::Nothing),
    }
}

/// How an action changes the console: search mode takes every key first,
/// then the open palette, then the normal bindings.
pub open spec fn spec_handle(s: AppStateView, action: UiAction, read_only: bool) -> (
    AppStateView,
    UiEffect,
) {
    if s.search_mode {
        spec_search_step(s, action)
    } else if s.show_palette {
        spec_palette_step(s, action)
    } else {
        spec_normal_step(s, action, read_only)
    }
}

fn set_view(state: &mut AppState, view: View)
    ensures
        final(state)@ == switched_to(old(state)@, view),
{
    state.view = view;
    state.nav_index = match view {
        View::Dashboard => 0,
        View::Run => 1,
        View::Tools => 2,
        View::Policy => 3,
        View::Receipts => 4,
        View::AuditStream => 5,
        View::Trust => 6,
        View::Diagnostics => 7,
        View::Settings => 8,
    };
    let mut status = string_of("switched to ");
    push_str(&mut status, view.title());
    state.status = status;
}

fn move_selection_up(state: &mut AppState)
    ensures
        final(state)@ == spec_move_up(old(state)@),
{
    match state.focus {
        FocusPane::Nav => {
            state.nav_index = if state.nav_index > 0 {
                state.nav_index - 1
            } else {
                0
            };
        },
        FocusPane::Center => {
            state.center_index = if state.center_index > 0 {
                state.center_index - 1
            } else {
                0
            };
        },
        FocusPane::Inspector => {},
    }
}

fn move_selection_down(state: &mut AppState)
    requires
        old(state).nav_index < usize::MAX,
        old(state).center_index < usize::MAX,
    ensures
        final(state)@ == spec_move_down(old(state)@),
{
    match state.focus {
        FocusPane::Nav => {
            state.nav_index = if state.nav_index + 1 < 8 {
                state.nav_index + 1
            } else {
                8
            };
            let all = View::all();
            state.view = all[state.nav_index];
        },
        FocusPane::Center => {
            state.center_index = state.center_index + 1;
        },
        FocusPane::Inspector => {},
    }
}

fn handle_search_mode(state: &mut AppState, action: UiAction) -> (res: UiEffect)
    ensures
        (final(state)@, res) == spec_search_step(old(state)@, action),
{
    let mut effect = UiEffect::Nothing;
    match action {
        UiAction::SearchInput(ch) => {
            push_char(&mut state.search_query, ch);
        },
        UiAction::SearchBackspace => {
            let n = char_len(state.search_query.as_str());
            if n > 0 {
                let shorter = string_of(state.search_query.as_str().substring_char(0, n - 1));
                state.search_query = shorter;
            }
        },
        UiAction::SearchSubmit => {
            state.search_mode = false;
            effect = UiEffect::Reload;
        },
        UiAction::SearchCancel | UiAction::Quit => {
            state.search_mode = false;
        },
        _ => {},
    }
    let mut status = string_of("search query=");
    push_str(&mut status, state.search_query.as_str());
    state.status = status;
    proof {
        let (s2, e) = spec_search_step(old(state)@, action);
        assert(state.search_query@ =~= s2.search_query);
    }
    effect
}

fn handle_palette_mode(state: &mut AppState, action: UiAction) -> (res: UiEffect)
    requires
        old(state).palette_index < 9,
    ensures
        (final(state)@, res) == spec_palette_step(old(state)@, action),
{
    match action {
        UiAction::MoveUp => {
            state.palette_index = if state.palette_index > 0 {
                state.palette_index - 1
            } else {
                0
            };
            UiEffect::Nothing
        },
        UiAction::MoveDown => {
            state.palette_index = if state.palette_index + 1 < 8 {
                state.palette_index + 1
            } else {
                8
            };
            UiEffect::Nothing
        },
        UiAction::Enter => {
            let all = View::all();
            let view = all[state.palette_index];
            set_view(state, view);
            state.show_palette = false;
            UiEffect::Nothing
        },
        UiAction::Quit | UiAction::TogglePalette => {
            state.show_palette = false;
            UiEffect::Nothing
        },
        UiAction::Refresh => UiEffect::Refresh,
        _ => UiEffect::Nothing,
    }
}

/// Applies an action to the console state and says what it asks of the
/// host.
pub fn handle(state: &mut AppState, action: UiAction, read_only: bool) -> (res: UiEffect)
    requires
        state_well_formed(old(state)@),
        old(state).center_index < usize::MAX,
    ensures
        (final(state)@, res) == spec_handle(old(state)@, action, read_only),
{
    if state.search_mode {
        return handle_search_mode(state, action);
    }
    if state.show_palette {
        return handle_palette_mode(state, action);
    }
    match action {
        UiAction::Quit => {
            if state.show_help {
                state.show_help = false;
                UiEffect::Nothing
            } else {
                UiEffect::Quit
            }
        },
        UiAction::ToggleHelp => {
            state.show_help = !state.show_help;
            UiEffect::Nothing
        },
        UiAction::TogglePalette => {
            state.show_palette = !state.show_palette;
            UiEffect::Nothing
        },
        UiAction::StartSearch => {
            state.search_mode = true;
            state.status = string_of("search mode: type to filter receipts by digest");
            UiEffect::Nothing
        },
        UiAction::MoveUp => {
            move_selection_up(state);
            UiEffect::Nothing
        },
        UiAction::MoveDown => {
            move_selection_down(state);
            UiEffect::Nothing
        },
        UiAction::Tab => {
            state.focus = state.focus.next();
            UiEffect::Nothing
        },
        UiAction::ShiftTab => {
            state.focus = state.focus.prev();
            UiEffect::Nothing
        },
        UiAction::Enter => match state.view {
            View::Run => {
                if read_only {
                    state.status = string_of(
                        "read-only mode: run execution is disabled in forensics mode",
                    );
                    UiEffect::Nothing
                } else {
                    UiEffect::RunFirstTool
                }
            },
            View::Policy => UiEffect::ExplainPolicy,
            _ => UiEffect::Nothing,
        },
        UiAction::QuickGoto(view) => {
            set_view(state, view);
            UiEffect::Nothing
        },
        UiAction::DeepVerify => {
            let on_receipts = match state.view {
                View::Receipts => true,
                _ => false,
            };
            if !on_receipts {
                state.status = string_of("deep verify applies to receipts view");
                UiEffect::Nothing
            } else {
                UiEffect::DeepVerify
            }
        },
        UiAction::Export => UiEffect::Export,
        UiAction::Refresh => UiEffect::Refresh,
        _ => UiEffect::Nothing,
    }
}

/// Every action keeps the navigation and palette positions on the nine
/// views.
pub proof fn law_handle_keeps_state_well_formed(s: AppStateView, action: UiAction, read_only: bool)
    requires
        state_well_formed(s),
        s.center_index < usize::MAX,
    ensures
        state_well_formed(spec_handle(s, action, read_only).0),
{
    law_view_positions(View::Dashboard);
    match action {
        UiAction::QuickGoto(v) => {
            law_view_positions(v);
        },
        UiAction::Enter => {
            if !s.search_mode && s.show_palette {
                law_view_positions(spec_all_views()[s.palette_index as int]);
            }
        },
        _ => {},
    }
}

/// Escape hatches: cancelling a search always leaves search mode, and in
/// the normal bindings `q` quits once no help is shown.
pub proof fn law_search_cancel_and_quit(s: AppStateView, read_only: bool)
    ensures
        s.search_mode ==> !spec_handle(s, UiAction::SearchCancel, read_only).0.search_mode,
        !s.search_mode && !s.show_palette && !s.show_help ==> spec_handle(
            s,
            UiAction::Quit,
            read_only,
        ).1 == UiEffect::Quit,
{
}

/// A key as the console reads it.
#[derive(Debug, Clone, Copy, PartialEq, Eq, Structural)]
pub enum Key {
    Char(char),
    Esc,
    Enter,
    Backspace,
    Up,
    Down,
    Left,
    Right,
    Tab,
    BackTab,
    Other,
}

/// The modifiers held with a key: none, exactly Control, exactly Shift, or
/// some other combination.
#[derive(Debug, Clone, Copy, PartialEq, Eq, Structural)]
pub enum Modifiers {
    Plain,
    ControlOnly,
    ShiftOnly,
    Other,
}

/// A key press.
#[derive(Debug, Clone, Copy, PartialEq, Eq, Structural)]
pub struct KeyPress {
    pub key: Key,
    pub modifiers: Modifiers,
}

/// The action a key press stands for, and whether a `g` prefix is pending
/// after it: after `g`, `d`, `r`, `a` and `t` jump to the dashboard,
/// receipts, audit stream and trust views; in search mode keys edit the
/// query; otherwise the normal bindings apply.
pub open spec fn spec_map_key(pending_g: bool, search_mode: bool, key: KeyPress) -> (bool, UiAction) {
    if pending_g {
        (
            false,
            match key.key {
                Key::Char('d') => UiAction::QuickGoto(View::Dashboard),
                Key::Char('r') => UiAction::QuickGoto(View::Receipts),
                Key::Char('a') => UiAction::QuickGoto(View::AuditStream),
                Key::Char('t') => UiAction::QuickGoto(View::Trust),
                _ => UiAction::Idle,
            },
        )
    } else if search_mode {
        (
            false,
            match key.key {
                Key::Esc => UiAction::SearchCancel,
                Key::Enter => UiAction::SearchSubmit,
                Key::Backspace => UiAction::SearchBackspace,
                Key::Char(ch) => UiAction::SearchInput(ch),
                _ => UiAction::Idle,
            },
        )
    } else {
        match (key.modifiers, key.key) {
            (Modifiers::ControlOnly, Key::Char('k')) => (false, UiAction::TogglePalette),
            (_, Key::Char('?')) => (false, UiAction::ToggleHelp),
            (_, Key::Char('/')) => (false, UiAction::StartSearch),
            (_, Key::Char('q')) => (false, UiAction::Quit),
            (_, Key::Char('j')) => (false, UiAction::MoveDown),
            (_, Key::Down) => (false, UiAction::MoveDown),
            (_, Key::Char('k')) => (false, UiAction::MoveUp),
            (_, Key::Up) => (false, UiAction::MoveUp),
            (_, Key::Left) => (false, UiAction::MoveLeft),
            (_, Key::Right) => (false, UiAction::MoveRight),
            (_, Key::Tab) => (false, UiAction::Tab),
            (Modifiers::ShiftOnly, Key::BackTab) => (false, UiAction::ShiftTab),
            (_, Key::Enter) => (false, UiAction::Enter),
            (_, Key::Char('g')) => (true, UiAction::Idle),
            (_, Key::Char('v')) => (false, UiAction::DeepVerify),
            (_, Key::Char('e')) => (false, UiAction::Export),
            (_, Key::Char('R')) => (false, UiAction::Refresh),
            (_, Key::Char('r')) => (false, UiAction::Refresh),
            _ => (false, UiAction::Idle),
        }
    }
}

/// The action a key press stands for; a `g` sets the pending prefix and
/// the next key clears it.
pub fn map_key(key: KeyPress, state: &mut AppState) -> (res: UiAction)
    ensures
        (final(state).pending_g, res) == spec_map_key(
            old(state).pending_g,
            old(state).search_mode,
            key,
        ),
        final(state)@ == (AppStateView { pending_g: final(state).pending_g, ..old(state)@ }),
{
    if state.pending_g {
        state.pending_g = false;
        return match key.key {
            Key::Char('d') => UiAction::QuickGoto(View::Dashboard),
            Key::Char('r') => UiAction::QuickGoto(View::Receipts),
            Key::Char('a') => UiAction::QuickGoto(View::AuditStream),
            Key::Char('t') => UiAction::QuickGoto(View::Trust),
            _ => UiAction::Idle,
        };
    }
    if state.search_mode {
        return match key.key {
            Key::Esc => UiAction::SearchCancel,
            Key::Enter => UiAction::SearchSubmit,
            Key::Backspace => UiAction::SearchBackspace,
            Key::Char(ch) => UiAction::SearchInput(ch),
            _ => UiAction::Idle,
        };
    }
    match (key.modifiers, key.key) {
        (Modifiers::ControlOnly, Key::Char('k')) => UiAction::TogglePalette,
        (_, Key::Char('?')) => UiAction::ToggleHelp,
        (_, Key::Char('/')) => UiAction::StartSearch,
        (_, Key::Char('q')) => UiAction::Quit,
        (_, Key::Char('j')) => UiAction::MoveDown,
        (_, Key::Down) => UiAction::MoveDown,
        (_, Key::Char('k')) => UiAction::MoveUp,
        (_, Key::Up) => UiAction::MoveUp,
        (_, Key::Left) => UiAction::MoveLeft,
        (_, Key::Right) => UiAction::MoveRight,
        (_, Key::Tab) => UiAction::Tab,
        (Modifiers::ShiftOnly, Key::BackTab) => UiAction::ShiftTab,
        (_, Key::Enter) => UiAction::Enter,
        (_, Key::Char('g')) => {
            state.pending_g = true;
            UiAction::Idle
        },
        (_, Key::Char('v')) => UiAction::DeepVerify,
        (_, Key::Char('e')) => UiAction::Export,
        (_, Key::Char('R')) => UiAction::Refresh,
        (_, Key::Char('r')) => UiAction::Refresh,
        _ => UiAction::Idle,
    }
}

/// The entries of the command palette: each view under its title, in
/// navigation order.
pub fn palette_items() -> (res: Vec<(&'static str, View)>)
    ensures
        res@.len() == 9,
        forall|i: int|
            0 <= i < 9 ==> (#[trigger] res@[i]).1 == spec_all_views()[i] && res@[i].0@
                == spec_title(spec_all_views()[i]),
{
    let all = View::all();
    let mut items: Vec<(&'static str, View)> = Vec::new();
    let mut i: usize = 0;
    while i < 9
        invariant
            all@ == spec_all_views(),
            i <= 9,
            items@.len() == i,
            forall|j: int|
                0 <= j < i ==> (#[trigger] items@[j]).1 == spec_all_views()[j] && items@[j].0@
                    == spec_title(spec_all_views()[j]),
        decreases 9 - i,
    {
        let v = all[i];
        items.push((v.title(), v));
        i = i + 1;
    }
    items
}

/// The hint shown for the reason of a denied or failed run.
pub open spec fn spec_remediation_hint(reason: Seq<char>) -> Seq<char> {
    if "provenance-required-check-failed"@.is_prefix_of(reason) {
        "Missing required provenance checks. Fix signer trust, signature, attestation, or verifier setup."@
    } else if "runtime-execution-failed"@.is_prefix_of(reason) {
        "Runtime failed. Verify bundle path, provenact path, and runtime limits."@
    } else if reason == "network-disabled-in-config"@ {
        "Network is disabled. Enable network or remove network capability requests."@
    } else if reason == "tainted-input-network-downgrade"@ {
        "Input is tainted. Remove taint or avoid outbound network capability."@
    } else {
        "Inspect policy explain and verification report for exact failing checks."@
    }
}

/// The hint shown for the reason of a denied or failed run.
pub fn remediation_hint(reason: &str) -> (res: &'static str)
    ensures
        res@ == spec_remediation_hint(reason@),
{
    if starts_with(reason, "provenance-required-check-failed") {
        "Missing required provenance checks. Fix signer trust, signature, attestation, or verifier setup."
    } else if starts_with(reason, "runtime-execution-failed") {
        "Runtime failed. Verify bundle path, provenact path, and runtime limits."
    } else if str_eq(reason, "network-disabled-in-config") {
        "Network is disabled. Enable network or remove network capability requests."
    } else if str_eq(reason, "tainted-input-network-downgrade") {
        "Input is tainted. Remove taint or avoid outbound network capability."
    } else {
        "Inspect policy explain and verification report for exact failing checks."
    }
}

/// The label of a verification status.
pub open spec fn spec_verification_label(status: VerificationStatus) -> Seq<char> {
    match status {
        VerificationStatus::Pass => "pass"@,
        VerificationStatus::Warn => "warn"@,
        VerificationStatus::Fail => "fail"@,
        VerificationStatus::Skipped => "skipped"@,
    }
}

/// The label of a verification status.
pub fn verification_label(status: &VerificationStatus) -> (res: &'static str)
    ensures
        res@ == spec_verification_label(*status),
{
    match status {
        VerificationStatus::Pass => "pass",
        VerificationStatus::Warn => "warn",
        VerificationStatus::Fail => "fail",
        VerificationStatus::Skipped => "skipped",
    }
}

/// The label of a risk level.
pub open spec fn spec_risk_label(risk: RiskLevel) -> Seq<char> {
    match risk {
        RiskLevel::Low => "low"@,
        RiskLevel::Medium => "medium"@,
        RiskLevel::High => "high"@,
        RiskLevel::Degraded => "degraded"@,
    }
}

/// The label of a risk level.
pub fn risk_label(risk: &RiskLevel) -> (res: &'static str)
    ensures
        res@ == spec_risk_label(*risk),
{
    match risk {
        RiskLevel::Low => "low",
        RiskLevel::Medium => "medium",
        RiskLevel::High => "high",
        RiskLevel::Degraded => "degraded",
    }
}

/// What the header line shows once diagnostics are loaded: the status of
/// the newest run, the enforcement mode and the risk.
#[derive(Debug, Clone, Copy)]
pub struct HeaderFacts {
    pub latest_provenance: Option<VerificationStatus>,
    pub enforcement_mode: EnforcementMode,
    pub risk_level: RiskLevel,
}

/// The header line.
pub open spec fn spec_header_text(facts: Option<HeaderFacts>) -> Seq<char> {
    match facts {
        None => "provenance=unknown enforcement=unknown risk=unknown"@,
        Some(f) => "provenance="@ + (match f.latest_provenance {
            Some(st) => spec_verification_label(st),
            None => "unknown"@,
        }) + " enforcement="@ + (match f.enforcement_mode {
            EnforcementMode::Warn => "warn"@,
            EnforcementMode::Enforce => "enforce"@,
        }) + " risk="@ + spec_risk_label(f.risk_level),
    }
}

/// The header line.
pub fn header_text(facts: Option<HeaderFacts>) -> (res: String)
    ensures
        res@ == spec_header_text(facts),
{
    match facts {
        None => string_of("provenance=unknown enforcement=unknown risk=unknown"),
        Some(f) => {
            let mut s = string_of("provenance=");
            match f.latest_provenance {
                Some(st) => push_str(&mut s, verification_label(&st)),
                None => push_str(&mut s, "unknown"),
            }
            push_str(&mut s, " enforcement=");
            match f.enforcement_mode {
                EnforcementMode::Warn => push_str(&mut s, "warn"),
                EnforcementMode::Enforce => push_str(&mut s, "enforce"),
            }
            push_str(&mut s, " risk=");
            push_str(&mut s, risk_label(&f.risk_level));
            s
        },
    }
}

/// The status line after the listings are reloaded.
pub fn refresh_status(view: View, tools: usize, receipts: usize, audit: usize, read_only: bool) -> (res:
    String)
    ensures
        res@ == "view="@ + spec_title(view) + " tools="@ + decimal(tools as nat) + " receipts="@
            + decimal(receipts as nat) + " audit="@ + decimal(audit as nat) + " read_only="@
            + bool_text(read_only),
{
    let mut s = string_of("view=");
    push_str(&mut s, view.title());
    push_str(&mut s, " tools=");
    push_decimal(&mut s, tools as u64);
    push_str(&mut s, " receipts=");
    push_decimal(&mut s, receipts as u64);
    push_str(&mut s, " audit=");
    push_decimal(&mut s, audit as u64);
    push_str(&mut s, " read_only=");
    push_bool(&mut s, read_only);
    s
}

/// The one-line snapshot of the console.
pub fn snapshot_text(header: &str, view: View, tools: usize, receipts: usize, audit: usize, status: &str) -> (res:
    String)
    ensures
        res@ == "header=\""@ + header@ + "\" view="@ + spec_title(view) + " tools="@ + decimal(
            tools as nat,
        ) + " receipts="@ + decimal(receipts as nat) + " audit="@ + decimal(audit as nat)
            + " status="@ + status@,
{
    let mut s = string_of("header=\"");
    push_str(&mut s, header);
    push_str(&mut s, "\" view=");
    push_str(&mut s, view.title());
    push_str(&mut s, " tools=");
    push_decimal(&mut s, tools as u64);
    push_str(&mut s, " receipts=");
    push_decimal(&mut s, receipts as u64);
    push_str(&mut s, " audit=");
    push_decimal(&mut s, audit as u64);
    push_str(&mut s, " status=");
    push_str(&mut s, status);
    s
}

/// The status line after a receipt was checked in full.
pub fn deep_verify_status(id: &str, hash_valid: bool, signature_valid: bool, chain_valid: bool) -> (res:
    String)
    ensures
        res@ == "receipt="@ + id@ + " hash="@ + bool_text(hash_valid) + " sig="@ + bool_text(
            signature_valid,
        ) + " chain="@ + bool_text(chain_valid),
{
    let mut s = string_of("receipt=");
    push_str(&mut s, id);
    push_str(&mut s, " hash=");
    push_bool(&mut s, hash_valid);
    push_str(&mut s, " sig=");
    push_bool(&mut s, signature_valid);
    push_str(&mut s, " chain=");
    push_bool(&mut s, chain_valid);
    s
}

/// The selected item of a list of `len` items: the center index wrapped
/// round the list, or none where the list is empty.
pub fn selected_index(center_index: usize, len: usize) -> (res: Option<usize>)
    ensures
        len == 0 ==> res is None,
        len > 0 ==> res == Some((center_index % len) as usize),
{
    if len == 0 {
        None
    } else {
        Some(center_index % len)
    }
}

/// The settings view's text.
pub fn settings_text(read_only: bool, search_query: &str) -> (res: String)
    ensures
        res@ == "read_only="@ + bool_text(read_only) + "\nsearch_query="@ + search_query@,
{
    let mut s = string_of("read_only=");
    push_bool(&mut s, read_only);
    push_str(&mut s, "\nsearch_query=");
    push_str(&mut s, search_query);
    s
}

/// The run view's text after a run, with the rendered output below.
pub fn run_view_text(decision: &str, reason: &str, warning_count: usize, rendered_output: &str) -> (res:
    String)
    ensures
        res@ == "Press Enter to run first tool with safe default input.\n\nLast run decision="@
            + decision@ + " reason="@ + reason@ + " warnings="@ + decimal(warning_count as nat)
            + "\nRemediation hint: "@ + spec_remediation_hint(reason@) + "\n\n"@
            + rendered_output@,
{
    let mut s = string_of("Press Enter to run first tool with safe default input.\n\nLast run decision=");
    push_str(&mut s, decision);
    push_str(&mut s, " reason=");
    push_str(&mut s, reason);
    push_str(&mut s, " warnings=");
    push_decimal(&mut s, warning_count as u64);
    push_str(&mut s, "\nRemediation hint: ");
    push_str(&mut s, remediation_hint(reason));
    push_str(&mut s, "\n\n");
    push_str(&mut s, rendered_output);
    s
}

/// Why the console stopped.
#[derive(Debug, Clone)]
pub enum TuiError {
    Io(String),
    Host(crate::host::HostError),
}

impl TuiError {
    /// The message of the error, as it is displayed.
    pub fn message(&self) -> (res: String)
        ensures
            res@ == match *self {
                TuiError::Io(m) => "io error: "@ + m@,
                TuiError::Host(h) => "host error: "@ + crate::host::host_error_text(h),
            },
    {
        match self {
            TuiError::Io(m) => {
                let mut s = string_of("io error: ");
                push_str(&mut s, m.as_str());
                s
            },
            TuiError::Host(h) => {
                let mut s = string_of("host error: ");
                let t = h.message();
                push_str(&mut s, t.as_str());
                s
            },
        }
    }
}

/// How the console is started: read-only (forensics) or not, and where a
/// one-line snapshot is written instead of running interactively.
#[derive(Debug, Clone)]
pub struct TuiOptions {
    pub read_only: bool,
    pub snapshot: Option<String>,
}

impl Default for TuiOptions {
    fn default() -> (res: Self)
        ensures
            !res.read_only,
            res.snapshot is None,
    {
        TuiOptions { read_only: false, snapshot: None }
    }
}

} // verus!
