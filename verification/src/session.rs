//! The decisions of a run of the launcher. The program talks to the window
//! manager, the menu and the file system; each step here takes what came
//! back and says what to do next.

use vstd::prelude::*;

use crate::config::{opt_view, Config};
use crate::error::QuicktermError;
use crate::expand::{command_result_matches, expand_command};
use crate::history::{history_of_text, history_text, json_text_of_strings, load_ordered_shells, offered_order, reordered, reorder_shells};
use crate::ipc::{con_id_selector, con_id_selector_spec, mark_for_shell, mark_spec, move_back_command, move_back_command_spec, MARK_QT_PATTERN};
use crate::menu::{check_menu_command, menu_choice, menu_input, menu_text, utf8_lossy};
use crate::strmap::StringMap;
use crate::terminal::{build_terminal_command, reentry_argv, term_title, term_title_spec, terminal_command_matches};
use crate::text::{compare_str, copy_str, string_views, trimmed, Cmp};

verus! {

/// What a run does.
#[derive(Debug)]
pub enum Mode {
    /// Offer the shells in a menu, then toggle the chosen one.
    Select,
    /// Show or hide the terminal of a shell.
    Toggle(String),
    /// Run a shell in the current terminal, which becomes its drop-down.
    InPlace(String),
}

/// The mode for the command line's shell and in-place flag.
pub fn run_mode(shell: Option<String>, in_place: bool) -> (m: Mode)
    ensures
        match shell {
            None => m is Select,
            Some(s) => if in_place {
                m matches Mode::InPlace(t) && t@ == s@
            } else {
                m matches Mode::Toggle(t) && t@ == s@
            },
        },
{
    match shell {
        None => Mode::Select,
        Some(s) => if in_place {
            Mode::InPlace(s)
        } else {
            Mode::Toggle(s)
        },
    }
}

/// A shell named on the command line must be configured.
pub fn check_shell(shells: &StringMap, shell: Option<&str>) -> (r: Result<(), QuicktermError>)
    ensures
        match shell {
            None => r is Ok,
            Some(s) => if shells@.contains_key(s@) {
                r is Ok
            } else {
                r matches Err(QuicktermError::UnknownShell(m)) && m@ == s@
            },
        },
{
    match shell {
        None => Ok(()),
        Some(s) => if shells.contains_key(s) {
            Ok(())
        } else {
            Err(QuicktermError::UnknownShell(copy_str(s)))
        },
    }
}

/// Where the toggling of a shell's terminal stands.
#[derive(Debug)]
pub enum ToggleState {
    /// Nothing done yet.
    Start,
    /// Waiting for the containers that carry the shell's mark.
    Searching { mark: String },
    /// Waiting for where the shell's terminal is.
    Locating { mark: String, node: i64 },
    /// Nothing more to do.
    Done,
}

/// What the program reports back while toggling.
#[derive(Debug)]
pub enum ToggleEvent {
    /// Begin.
    Begin,
    /// The ids of the containers that carry the searched mark, in tree order.
    Found(Vec<i64>),
    /// The focused workspace's name and the name of the workspace that holds
    /// the terminal (if it is on one).
    Located { current: String, node_workspace: Option<String> },
}

/// What the program does next while toggling.
#[derive(Debug)]
pub enum ToggleAction {
    /// Find the containers marked `mark` in the whole tree.
    Search { mark: String },
    /// No terminal runs the shell: replace this process with `argv`.
    Launch { argv: Vec<String> },
    /// Find the focused workspace and the workspace that holds `node`.
    Locate { node: i64 },
    /// Send `command` (hide the terminal); then, if `show_mark` is given,
    /// show the container with that mark on the focused workspace.
    Hide { command: String, show_mark: Option<String> },
    /// Stop with this error.
    Fail(QuicktermError),
    /// Nothing to do.
    Nothing,
}

/// The command that opens a new terminal running this program in place for
/// `shell`.
pub open spec fn launch_matches(
    term: Seq<char>,
    program: Seq<char>,
    env: Map<Seq<char>, Seq<char>>,
    shell: Seq<char>,
    r: Result<Vec<String>, QuicktermError>,
) -> bool {
    terminal_command_matches(
        term,
        term_title_spec(shell),
        seq![program, "--in-place"@, shell],
        env,
        r,
    )
}

/// The launch command an action carries, or the error it stops with.
pub open spec fn launch_outcome(action: ToggleAction) -> Result<Vec<String>, QuicktermError> {
    match action {
        ToggleAction::Launch { argv } => Ok(argv),
        ToggleAction::Fail(e) => Err(e),
        _ => arbitrary(),
    }
}

/// The transitions of toggling the terminal of `shell`; `program` is the
/// name this program was run by and `env` the environment placeholders.
pub open spec fn toggle_transition(
    shells: Map<Seq<char>, Seq<char>>,
    term: Seq<char>,
    program: Seq<char>,
    env: Map<Seq<char>, Seq<char>>,
    shell: Seq<char>,
    state: ToggleState,
    event: ToggleEvent,
    next: ToggleState,
    action: ToggleAction,
) -> bool {
    match (state, event) {
        (ToggleState::Start, ToggleEvent::Begin) => if shells.contains_key(shell) {
            &&& next matches ToggleState::Searching { mark } && mark@ == mark_spec(shell)
            &&& action matches ToggleAction::Search { mark } && mark@ == mark_spec(shell)
        } else {
            &&& next is Done
            &&& action matches ToggleAction::Fail(QuicktermError::UnknownShell(m)) && m@ == shell
        },
        (ToggleState::Searching { mark }, ToggleEvent::Found(nodes)) => if nodes@.len() == 0 {
            &&& next is Done
            &&& (action is Launch || action is Fail)
            &&& launch_matches(term, program, env, shell, launch_outcome(action))
        } else {
            &&& next matches ToggleState::Locating { mark: m, node } && m@ == mark@ && node
                == nodes@[0]
            &&& action matches ToggleAction::Locate { node } && node == nodes@[0]
        },
        (ToggleState::Locating { mark, node }, ToggleEvent::Located { current, node_workspace }) => {
            let ws = match node_workspace {
                Some(w) => w@,
                None => Seq::empty(),
            };
            &&& next is Done
            &&& action matches ToggleAction::Hide { command, show_mark } && command@
                == move_back_command_spec(con_id_selector_spec(node)) && (if ws != current@ {
                show_mark matches Some(m) && m@ == mark@
            } else {
                show_mark is None
            })
        },
        _ => next is Done && action is Nothing,
    }
}

/// One step of toggling the terminal of `shell`.
pub fn toggle_step(
    config: &Config,
    program: &str,
    env: &StringMap,
    shell: &str,
    state: ToggleState,
    event: ToggleEvent,
) -> (r: (ToggleState, ToggleAction))
    ensures
        toggle_transition(
            config.shells@,
            config.term@,
            program@,
            env@,
            shell@,
            state,
            event,
            r.0,
            r.1,
        ),
{
    let ghost st = state;
    let ghost ev = event;
    match (state, event) {
        (ToggleState::Start, ToggleEvent::Begin) => {
            if config.shells.contains_key(shell) {
                let mark = mark_for_shell(shell);
                let again = mark_for_shell(shell);
                (ToggleState::Searching { mark }, ToggleAction::Search { mark: again })
            } else {
                (ToggleState::Done, ToggleAction::Fail(QuicktermError::UnknownShell(copy_str(shell))))
            }
        },
        (ToggleState::Searching { mark }, ToggleEvent::Found(nodes)) => {
            if nodes.len() == 0 {
                let argv = reentry_argv(program, shell);
                let title = term_title(shell);
                let r = build_terminal_command(config.term.as_str(), title.as_str(), argv.as_slice(), env);
                assert(launch_matches(config.term@, program@, env@, shell@, r));
                match r {
                    Ok(a) => (ToggleState::Done, ToggleAction::Launch { argv: a }),
                    Err(e) => (ToggleState::Done, ToggleAction::Fail(e)),
                }
            } else {
                let node = nodes[0];
                (ToggleState::Locating { mark, node }, ToggleAction::Locate { node })
            }
        },
        (ToggleState::Locating { mark, node }, ToggleEvent::Located { current, node_workspace }) => {
            let ws = match node_workspace {
                Some(w) => w,
                None => String::new(),
            };
            let command = move_back_command(con_id_selector(node).as_str());
            let show_mark = if compare_str(ws.as_str(), current.as_str()) != Cmp::Equal {
                Some(mark)
            } else {
                None
            };
            (ToggleState::Done, ToggleAction::Hide { command, show_mark })
        },
        _ => (ToggleState::Done, ToggleAction::Nothing),
    }
}

/// Where the choice of a shell from the menu stands.
#[derive(Debug)]
pub enum SelectState {
    /// Nothing done yet.
    Start,
    /// Waiting for the drop-down terminals visible on the focused workspace.
    Probing,
    /// Waiting for the history file's text (`with_history`: one is kept).
    Loading { with_history: bool },
    /// Waiting for the menu's output; `order` is the order offered.
    Choosing { order: Vec<String>, with_history: bool },
    /// Nothing more to do.
    Done,
}

/// What the program reports back while a shell is chosen.
#[derive(Debug)]
pub enum SelectEvent {
    /// Begin.
    Begin,
    /// Ids of the containers on the focused workspace whose mark matches the
    /// searched pattern, in tree order.
    Visible(Vec<i64>),
    /// The text of the history file, `None` where there is none.
    HistoryRead(Option<String>),
    /// What the menu program printed.
    MenuOutput(Vec<u8>),
}

/// What the program does next while a shell is chosen.
#[derive(Debug)]
pub enum SelectAction {
    /// Find, on the focused workspace, the containers with a mark matching
    /// `pattern`.
    FindVisible { pattern: String },
    /// Send `command`, which hides a visible drop-down terminal.
    Hide { command: String },
    /// Open (and lock) the history file at `path`, if any, and read it.
    ReadHistory { path: Option<String> },
    /// Run the menu `argv`, writing `input` to it.
    ShowMenu { argv: Vec<String>, input: String },
    /// Store `history` in the history file (when given), then toggle `shell`.
    Choose { shell: String, history: Option<String> },
    /// Stop with this error.
    Fail(QuicktermError),
    /// Nothing to do.
    Nothing,
}

/// The menu command an action carries, or the error it stops with.
pub open spec fn menu_outcome(action: SelectAction) -> Result<Vec<String>, QuicktermError> {
    match action {
        SelectAction::ShowMenu { argv, input } => Ok(argv),
        SelectAction::Fail(e) => Err(e),
        _ => arbitrary(),
    }
}

/// The order the history offers: what the history file holds, where one is
/// kept and read.
pub open spec fn loaded_order(with_history: bool, text: Option<String>) -> Option<Seq<Seq<char>>> {
    if with_history {
        match text {
            Some(t) => history_of_text(t@),
            None => None,
        }
    } else {
        None
    }
}

/// The transitions of choosing a shell from the menu, for the configuration
/// `config` and the environment placeholders `env`.
pub open spec fn select_transition(
    config: Config,
    env: Map<Seq<char>, Seq<char>>,
    state: SelectState,
    event: SelectEvent,
    next: SelectState,
    action: SelectAction,
) -> bool {
    match (state, event) {
        (SelectState::Start, SelectEvent::Begin) => {
            &&& next is Probing
            &&& action matches SelectAction::FindVisible { pattern } && pattern@ == MARK_QT_PATTERN@
        },
        (SelectState::Probing, SelectEvent::Visible(nodes)) => if nodes@.len() > 0 {
            &&& next is Done
            &&& action matches SelectAction::Hide { command } && command@
                == move_back_command_spec(con_id_selector_spec(nodes@[0]))
        } else {
            match config.history {
                None => {
                    &&& next matches SelectState::Loading { with_history } && !with_history
                    &&& action matches SelectAction::ReadHistory { path } && path is None
                },
                Some(t) => match crate::expand::expansion(t@, env) {
                    Ok(p) => {
                        &&& next matches SelectState::Loading { with_history } && with_history
                        &&& action matches SelectAction::ReadHistory { path } && opt_view(path)
                            == Some(p)
                    },
                    Err(key) => {
                        &&& next is Done
                        &&& action matches SelectAction::Fail(QuicktermError::Expansion(m)) && m@
                            == crate::expand::missing_placeholder_message(key)
                    },
                },
            }
        },
        (SelectState::Loading { with_history }, SelectEvent::HistoryRead(text)) => {
            let order = offered_order(
                config.shells@.dom(),
                config.shells.key_list(),
                loaded_order(with_history, text),
            );
            match action {
                SelectAction::ShowMenu { argv, input } => {
                    &&& command_result_matches(config.menu@, env, Ok(argv))
                    &&& argv@.len() > 0
                    &&& input@ == menu_text(order)
                    &&& next matches SelectState::Choosing { order: o, with_history: h }
                        && string_views(o@) == order && h == with_history
                },
                SelectAction::Fail(e) => {
                    &&& next is Done
                    &&& {
                        ||| command_result_matches(config.menu@, env, Err(e))
                        ||| {
                            &&& e matches QuicktermError::Menu(m) && m@ == "empty menu command"@
                            &&& crate::expand::expansion(config.menu@, env) matches Ok(x)
                                && crate::expand::shlex_words(x) == Some(Seq::<Seq<char>>::empty())
                        }
                    }
                },
                _ => false,
            }
        },
        (SelectState::Choosing { order, with_history }, SelectEvent::MenuOutput(out)) => {
            let chosen = trimmed(utf8_lossy(out@));
            &&& next is Done
            &&& if !config.shells@.contains_key(chosen) {
                action is Nothing
            } else if with_history {
                {
                    &&& action matches SelectAction::Choose { shell, history }
                    &&& shell@ == chosen
                    &&& history matches Some(h)
                    &&& h@ == json_text_of_strings(reordered(string_views(order@), chosen))
                }
            } else {
                action matches SelectAction::Choose { shell, history } && shell@ == chosen
                    && history is None
            }
        },
        _ => next is Done && action is Nothing,
    }
}

/// One step of choosing a shell from the menu.
pub fn select_step(config: &Config, env: &StringMap, state: SelectState, event: SelectEvent) -> (r: (
    SelectState,
    SelectAction,
))
    ensures
        select_transition(*config, env@, state, event, r.0, r.1),
{
    match (state, event) {
        (SelectState::Start, SelectEvent::Begin) => (
            SelectState::Probing,
            SelectAction::FindVisible { pattern: copy_str(MARK_QT_PATTERN) },
        ),
        (SelectState::Probing, SelectEvent::Visible(nodes)) => {
            if nodes.len() > 0 {
                let command = move_back_command(con_id_selector(nodes[0]).as_str());
                (SelectState::Done, SelectAction::Hide { command })
            } else {
                match crate::config::history_path(&config.history, env) {
                    Ok(path) => {
                        let with_history = path.is_some();
                        (SelectState::Loading { with_history }, SelectAction::ReadHistory { path })
                    },
                    Err(e) => (SelectState::Done, SelectAction::Fail(e)),
                }
            }
        },
        (SelectState::Loading { with_history }, SelectEvent::HistoryRead(text)) => {
            let loaded = if with_history {
                match text {
                    Some(t) => crate::history::parse_history(t.as_str()),
                    None => None,
                }
            } else {
                None
            };
            let names = config.shells.key_set();
            let order = load_ordered_shells(&names, loaded);
            let argv = match expand_command(config.menu.as_str(), env) {
                Ok(a) => a,
                Err(e) => {
                    return (SelectState::Done, SelectAction::Fail(e));
                },
            };
            match check_menu_command(argv.as_slice()) {
                Ok(()) => {},
                Err(e) => {
                    assert(string_views(argv@) =~= Seq::<Seq<char>>::empty());
                    return (SelectState::Done, SelectAction::Fail(e));
                },
            }
            let input = menu_input(order.as_slice());
            (SelectState::Choosing { order, with_history }, SelectAction::ShowMenu { argv, input })
        },
        (SelectState::Choosing { order, with_history }, SelectEvent::MenuOutput(out)) => {
            let chosen = menu_choice(out.as_slice());
            if !config.shells.contains_key(chosen.as_str()) {
                return (SelectState::Done, SelectAction::Nothing);
            }
            if with_history {
                let again = copy_str(chosen.as_str());
                let new_order = reorder_shells(order, again.as_str());
                match history_text(new_order.as_slice()) {
                    Ok(text) => (
                        SelectState::Done,
                        SelectAction::Choose { shell: chosen, history: Some(text) },
                    ),
                    Err(e) => (SelectState::Done, SelectAction::Fail(e)),
                }
            } else {
                (SelectState::Done, SelectAction::Choose { shell: chosen, history: None })
            }
        },
        _ => (SelectState::Done, SelectAction::Nothing),
    }
}

/// What launching a shell in place sends and runs.
#[derive(Debug)]
pub struct InPlacePlan {
    /// The shell's mark.
    pub mark: String,
    /// The command that marks the focused container.
    pub mark_command: String,
    /// The command that sends the marked container to the scratchpad.
    pub hide_command: String,
    /// The shell's command, or why it cannot be run.
    pub argv: Result<Vec<String>, QuicktermError>,
}

/// The plan for running `shell` in the current terminal: mark it, send it to
/// the scratchpad, show it as a pop-up (with `mark`), then run the shell's
/// command.
pub fn launch_in_place(shells: &StringMap, shell: &str, env: &StringMap) -> (r: Result<
    InPlacePlan,
    QuicktermError,
>)
    ensures
        !shells@.contains_key(shell@) ==> (r matches Err(QuicktermError::UnknownShell(m)) && m@
            == shell@),
        shells@.contains_key(shell@) ==> (r matches Ok(plan) && {
            &&& plan.mark@ == mark_spec(shell@)
            &&& plan.mark_command@ == crate::ipc::mark_command_spec(mark_spec(shell@))
            &&& plan.hide_command@ == move_back_command_spec(
                crate::ipc::con_mark_selector_spec(mark_spec(shell@)),
            )
            &&& command_result_matches(shells@[shell@], env@, plan.argv)
        }),
{
    let command = match shells.get(shell) {
        Some(c) => c,
        None => {
            return Err(QuicktermError::UnknownShell(copy_str(shell)));
        },
    };
    let mark = mark_for_shell(shell);
    let mark_command = crate::ipc::mark_command(mark.as_str());
    let hide_command = move_back_command(crate::ipc::con_mark_selector(mark.as_str()).as_str());
    let argv = expand_command(command.as_str(), env);
    Ok(InPlacePlan { mark, mark_command, hide_command, argv })
}

/// Toggling a terminal that exists hides it, and brings it to the focused
/// workspace exactly when it is held elsewhere: the action always hides the
/// container `node` to the scratchpad, and it shows the shell's mark again
/// exactly when the name of the workspace holding the terminal (empty if
/// none, as for the scratchpad's hidden windows) differs from the focused
/// workspace's name.
pub proof fn law_toggle_shows_terminal_held_elsewhere(
    shells: Map<Seq<char>, Seq<char>>,
    term: Seq<char>,
    program: Seq<char>,
    env: Map<Seq<char>, Seq<char>>,
    shell: Seq<char>,
    mark: String,
    node: i64,
    current: String,
    node_workspace: Option<String>,
    next: ToggleState,
    action: ToggleAction,
)
    requires
        toggle_transition(
            shells,
            term,
            program,
            env,
            shell,
            ToggleState::Locating { mark, node },
            ToggleEvent::Located { current, node_workspace },
            next,
            action,
        ),
    ensures
        next is Done,
        action is Hide,
        action matches ToggleAction::Hide { command, show_mark } ==> {
            let held: Seq<char> = match node_workspace {
                Some(w) => w@,
                None => Seq::empty(),
            };
            &&& command@ == "[con_id="@ + crate::text::int_decimal(node as int)
                + "]"@ + " floating enable, move scratchpad"@
            &&& (show_mark is Some <==> held != current@)
            &&& (show_mark is None <==> held == current@)
            &&& show_mark matches Some(m) ==> m@ == mark@
        },
{
}

/// Whatever the history setting, a menu choice that names a configured
/// shell is toggled, and only then is the new order stored (where a history
/// is kept); a choice that names no configured shell does nothing.
pub proof fn law_known_choice_is_toggled(
    config: Config,
    env: Map<Seq<char>, Seq<char>>,
    order: Vec<String>,
    with_history: bool,
    out: Vec<u8>,
    next: SelectState,
    action: SelectAction,
)
    requires
        select_transition(
            config,
            env,
            SelectState::Choosing { order, with_history },
            SelectEvent::MenuOutput(out),
            next,
            action,
        ),
    ensures
        next is Done,
        config.shells@.contains_key(trimmed(utf8_lossy(out@))) ==> {
            &&& action matches SelectAction::Choose { shell, history }
            &&& shell@ == trimmed(utf8_lossy(out@))
            &&& (history is Some <==> with_history)
        },
        !config.shells@.contains_key(trimmed(utf8_lossy(out@))) ==> action is Nothing,
{
}

} // verus!
