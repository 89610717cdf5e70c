//! The keyboard controls of the video player.
use vstd::prelude::*;
use vstd::string::*;
use crate::status;
use crate::status::{Status, StatusState};
use crate::terminal_geometry::TerminalGeometry;
use crate::text;
use crate::timestamp;
use crate::timestamp::{format_time_ms, parse_timestamp_ms};

verus! {

/// The keys that the player knows apart.
#[derive(Debug, Clone, Copy, PartialEq, Eq, Structural)]
pub enum KeyCode {
    Char(char),
    Left,
    Right,
    Up,
    Down,
    Enter,
    Esc,
    Backspace,
    Other,
}

/// The modifier keys held down with a key; `other` stands for all but shift and
/// control.
#[derive(Debug, Clone, Copy, PartialEq, Eq, Structural)]
pub struct KeyModifiers {
    pub shift: bool,
    pub control: bool,
    pub other: bool,
}

impl KeyModifiers {
    pub fn none() -> (modifiers: Self)
        ensures
            modifiers == (KeyModifiers { shift: false, control: false, other: false }),
    {
        KeyModifiers { shift: false, control: false, other: false }
    }

    pub fn shift() -> (modifiers: Self)
        ensures
            modifiers == (KeyModifiers { shift: true, control: false, other: false }),
    {
        KeyModifiers { shift: true, control: false, other: false }
    }

    pub fn control() -> (modifiers: Self)
        ensures
            modifiers == (KeyModifiers { shift: false, control: true, other: false }),
    {
        KeyModifiers { shift: false, control: true, other: false }
    }
}

#[derive(Debug, Clone, Copy, PartialEq, Eq, Structural)]
pub struct KeyEvent {
    pub code: KeyCode,
    pub modifiers: KeyModifiers,
}

impl KeyEvent {
    pub fn new(code: KeyCode, modifiers: KeyModifiers) -> (event: Self)
        ensures
            event == (KeyEvent { code, modifiers }),
    {
        KeyEvent { code, modifiers }
    }
}

/// What the player is told to do. Times are in milliseconds.
#[derive(Debug, Clone, Copy, PartialEq, Eq, Structural)]
pub enum PlayerCommand {
    SeekBy(i64),
    SeekTo(u64),
    VolumeBy(i32),
    Resize(TerminalGeometry),
    Quit,
}

/// The timestamp that is being entered, while one is.
#[derive(Debug, Clone)]
pub struct ControlInputState {
    pub goto_buffer: Option<String>,
}

impl View for ControlInputState {
    type V = Option<Seq<char>>;

    open spec fn view(&self) -> Option<Seq<char>> {
        status::optional_text(self.goto_buffer)
    }
}

impl Default for ControlInputState {
    fn default() -> (state: Self)
        ensures
            state@ is None,
    {
        ControlInputState { goto_buffer: None }
    }
}

/// What came of a key: commands, a message for the status row, and whether that
/// row has to be drawn again.
#[derive(Debug, Clone)]
pub struct KeyOutcome {
    pub commands: Vec<PlayerCommand>,
    pub message: Option<String>,
    pub redraw_status: bool,
}

/// The contents of a [`KeyOutcome`].
pub struct Outcome {
    pub commands: Seq<PlayerCommand>,
    pub message: Option<Seq<char>>,
    pub redraw_status: bool,
}

impl View for KeyOutcome {
    type V = Outcome;

    open spec fn view(&self) -> Outcome {
        Outcome {
            commands: self.commands@,
            message: status::optional_text(self.message),
            redraw_status: self.redraw_status,
        }
    }
}

/// Nothing happens.
pub open spec fn no_effect() -> Outcome {
    Outcome { commands: seq![], message: None, redraw_status: false }
}

/// One command and nothing else.
pub open spec fn command_only(command: PlayerCommand) -> Outcome {
    Outcome { commands: seq![command], message: None, redraw_status: false }
}

/// The status row changes, and nothing else.
pub open spec fn status_only(message: Option<Seq<char>>) -> Outcome {
    Outcome { commands: seq![], message, redraw_status: true }
}

/// `q`, and control with `c`, end playback at any time.
pub open spec fn is_quit_key(key: KeyEvent) -> bool {
    ||| key.code == KeyCode::Char('c') && key.modifiers.control
    ||| key.code == KeyCode::Char('q')
}

/// The characters of which a timestamp is made.
pub open spec fn is_entry_char(c: char) -> bool {
    text::is_digit(c) || c == ':'
}

/// Nothing, or shift alone, is held down.
pub open spec fn allows_entry(modifiers: KeyModifiers) -> bool {
    !modifiers.control && !modifiers.other
}

/// What the message tells of a jump.
pub open spec fn goto_message(ms: nat) -> Seq<char> {
    "Goto "@ + timestamp::time_text(ms)
}

/// What a key does while a timestamp is being entered: the entry after it, and
/// what comes of it.
pub open spec fn entry_effect(key: KeyEvent, entry: Seq<char>) -> (Option<Seq<char>>, Outcome) {
    match key.code {
        KeyCode::Esc => (None, status_only(Some("Goto canceled"@))),
        KeyCode::Enter => match timestamp::timestamp_ms(entry) {
            Some(ms) => (
                None,
                Outcome {
                    commands: seq![PlayerCommand::SeekTo(ms as u64)],
                    message: Some(goto_message(ms)),
                    redraw_status: true,
                },
            ),
            None => (Some(entry), status_only(Some("Invalid timestamp"@))),
        },
        KeyCode::Backspace => (
            Some(
                if entry.len() > 0 {
                    entry.drop_last()
                } else {
                    entry
                },
            ),
            status_only(None),
        ),
        KeyCode::Char(c) => if is_entry_char(c) && allows_entry(key.modifiers) {
            (Some(entry.push(c)), status_only(None))
        } else {
            (Some(entry), no_effect())
        },
        _ => (Some(entry), no_effect()),
    }
}

/// What a key does while no timestamp is being entered.
pub open spec fn shortcut_effect(code: KeyCode) -> (Option<Seq<char>>, Outcome) {
    match code {
        KeyCode::Left => (None, command_only(PlayerCommand::SeekBy((-5_000) as i64))),
        KeyCode::Right => (None, command_only(PlayerCommand::SeekBy(5_000))),
        KeyCode::Up => (None, command_only(PlayerCommand::VolumeBy(5))),
        KeyCode::Down => (None, command_only(PlayerCommand::VolumeBy((-5) as i32))),
        KeyCode::Char(c) => if c == 'f' {
            (None, command_only(PlayerCommand::SeekBy(10_000)))
        } else if c == 'b' {
            (None, command_only(PlayerCommand::SeekBy((-10_000) as i64)))
        } else if c == 'g' {
            (Some(seq![]), status_only(Some("Enter timestamp"@)))
        } else {
            (None, no_effect())
        },
        _ => (None, no_effect()),
    }
}

/// What a key does: the entry after it, and what comes of it.
pub open spec fn key_effect(key: KeyEvent, entry: Option<Seq<char>>) -> (
    Option<Seq<char>>,
    Outcome,
) {
    if is_quit_key(key) {
        (entry, command_only(PlayerCommand::Quit))
    } else {
        match entry {
            Some(entry) => entry_effect(key, entry),
            None => shortcut_effect(key.code),
        }
    }
}

/// A timestamp whose milliseconds do not fit 64 bits must not be confirmed.
pub open spec fn key_admitted(key: KeyEvent, entry: Option<Seq<char>>) -> bool {
    key.code == KeyCode::Enter ==> (entry matches Some(entry) ==> timestamp::timestamp_fits(entry))
}

fn outcome_of(commands: Vec<PlayerCommand>, message: Option<String>, redraw_status: bool) -> (
    outcome: KeyOutcome)
    ensures
        outcome@.commands == commands@,
        outcome@.message == status::optional_text(message),
        outcome@.redraw_status == redraw_status,
{
    KeyOutcome { commands, message, redraw_status }
}

fn handle_entry_key(key: KeyEvent, mut entry: String) -> (effect: (Option<String>, KeyOutcome))
    requires
        key_admitted(key, Some(entry@)),
    ensures
        status::optional_text(effect.0) == entry_effect(key, entry@).0,
        effect.1@ == entry_effect(key, entry@).1,
{
    let ghost before = entry@;
    let mut commands: Vec<PlayerCommand> = Vec::new();
    assert(commands@ =~= seq![]);
    match key.code {
        KeyCode::Esc => (None, outcome_of(commands, Some("Goto canceled".to_owned()), true)),
        KeyCode::Enter => {
            match parse_timestamp_ms(entry.as_str()) {
                Some(timestamp_ms) => {
                    commands.push(PlayerCommand::SeekTo(timestamp_ms));
                    assert(commands@ =~= seq![PlayerCommand::SeekTo(timestamp_ms)]);
                    let mut message: String = "Goto ".to_owned();
                    message.append(format_time_ms(timestamp_ms).as_str());
                    (None, outcome_of(commands, Some(message), true))
                },
                None => {
                    (Some(entry), outcome_of(commands, Some("Invalid timestamp".to_owned()), true))
                },
            }
        },
        KeyCode::Backspace => {
            let _ = entry.pop();
            (Some(entry), outcome_of(commands, None, true))
        },
        KeyCode::Char(c) => {
            if (('0' <= c && c <= '9') || c == ':') && !key.modifiers.control
                && !key.modifiers.other {
                entry.push(c);
                (Some(entry), outcome_of(commands, None, true))
            } else {
                (Some(entry), outcome_of(commands, None, false))
            }
        },
        _ => (Some(entry), outcome_of(commands, None, false)),
    }
}

fn handle_shortcut_key(code: KeyCode) -> (effect: (Option<String>, KeyOutcome))
    ensures
        status::optional_text(effect.0) == shortcut_effect(code).0,
        effect.1@ == shortcut_effect(code).1,
{
    let command: Option<PlayerCommand> = match code {
        KeyCode::Left => Some(PlayerCommand::SeekBy(-5_000)),
        KeyCode::Right => Some(PlayerCommand::SeekBy(5_000)),
        KeyCode::Up => Some(PlayerCommand::VolumeBy(5)),
        KeyCode::Down => Some(PlayerCommand::VolumeBy(-5)),
        KeyCode::Char(c) => {
            if c == 'f' {
                Some(PlayerCommand::SeekBy(10_000))
            } else if c == 'b' {
                Some(PlayerCommand::SeekBy(-10_000))
            } else if c == 'g' {
                let commands: Vec<PlayerCommand> = Vec::new();
                assert(commands@ =~= seq![]);
                return (
                    Some(String::new()),
                    outcome_of(commands, Some("Enter timestamp".to_owned()), true),
                );
            } else {
                None
            }
        },
        _ => None,
    };
    let mut commands: Vec<PlayerCommand> = Vec::new();
    match command {
        Some(command) => {
            commands.push(command);
            assert(commands@ =~= seq![command]);
        },
        None => {
            assert(commands@ =~= seq![]);
        },
    }
    (None, outcome_of(commands, None, false))
}

/// Handles a key that was pressed.
pub fn handle_key(key: KeyEvent, state: &mut ControlInputState) -> (outcome: KeyOutcome)
    requires
        key_admitted(key, old(state)@),
    ensures
        final(state)@ == key_effect(key, old(state)@).0,
        outcome@ == key_effect(key, old(state)@).1,
{
    let quits: bool = match key.code {
        KeyCode::Char(c) => (c == 'c' && key.modifiers.control) || c == 'q',
        _ => false,
    };
    if quits {
        let mut commands: Vec<PlayerCommand> = Vec::new();
        commands.push(PlayerCommand::Quit);
        assert(commands@ =~= seq![PlayerCommand::Quit]);
        return outcome_of(commands, None, false);
    }
    let (entry, outcome) = match state.goto_buffer.take() {
        Some(entry) => handle_entry_key(key, entry),
        None => handle_shortcut_key(key.code),
    };
    state.goto_buffer = entry;
    outcome
}

/// Whether a key was pressed, is held down, or was let go.
#[derive(Debug, Clone, Copy, PartialEq, Eq, Structural)]
pub enum KeyKind {
    Press,
    Repeat,
    Release,
}

/// What the terminal reports. A resize comes with the size that the terminal has
/// now.
#[derive(Debug, Clone, Copy, PartialEq, Eq, Structural)]
pub enum InputEvent {
    Key(KeyEvent, KeyKind),
    Resize(TerminalGeometry),
    Other,
}

/// What has to be done about an input event, in order.
#[derive(Debug, Clone, Copy, PartialEq, Eq, Structural)]
pub enum InputAction {
    /// Ask for the status row to be drawn again.
    RedrawStatus,
    /// Stop playback, and tell so to the thread that draws.
    StopPlayback,
    /// Hand a command to the player.
    Command(PlayerCommand),
}

/// A command that ends playback stops it at once, before it is handed on.
pub open spec fn command_actions(commands: Seq<PlayerCommand>) -> Seq<InputAction>
    decreases commands.len(),
{
    if commands.len() == 0 {
        seq![]
    } else {
        command_actions(commands.drop_last()) + (if commands.last() == PlayerCommand::Quit {
            seq![InputAction::StopPlayback, InputAction::Command(commands.last())]
        } else {
            seq![InputAction::Command(commands.last())]
        })
    }
}

/// The status with what a key changed of it: the entry, and the message where
/// the key gives one.
pub open spec fn status_with_entry(
    status: Status,
    entry: Option<Seq<char>>,
    message: Option<Seq<char>>,
) -> Status {
    Status {
        message: match message {
            Some(message) => message,
            None => status.message,
        },
        input: entry,
        ..status
    }
}

/// What is done about a key.
pub open spec fn key_actions(outcome: Outcome) -> Seq<InputAction> {
    (if outcome.redraw_status {
        seq![InputAction::RedrawStatus]
    } else {
        seq![]
    }) + command_actions(outcome.commands)
}

/// Keys that are let go, and what is neither a key nor a resize, are passed over.
pub open spec fn is_key_down(event: InputEvent) -> bool {
    event matches InputEvent::Key(_, kind) && kind != KeyKind::Release
}

/// What is done about an event while `entry` is being entered.
pub open spec fn event_actions(event: InputEvent, entry: Option<Seq<char>>) -> Seq<InputAction> {
    match event {
        InputEvent::Key(key, kind) => if kind == KeyKind::Release {
            seq![]
        } else {
            key_actions(key_effect(key, entry).1)
        },
        InputEvent::Resize(geometry) => seq![
            InputAction::Command(PlayerCommand::Resize(geometry)),
        ],
        InputEvent::Other => seq![],
    }
}

/// Handles an event that the terminal reports: keeps the entry, tells the status
/// row about it, and says what is to be done.
pub fn handle_input_event(
    event: InputEvent,
    input: &mut ControlInputState,
    status: &mut StatusState,
) -> (actions: Vec<InputAction>)
    requires
        event matches InputEvent::Key(key, kind) ==> kind != KeyKind::Release ==> key_admitted(
            key,
            old(input)@,
        ),
    ensures
        is_key_down(event) ==> {
            let key = event->Key_0;
            let (entry, outcome) = key_effect(key, old(input)@);
            &&& final(input)@ == entry
            &&& final(status)@ == status_with_entry(old(status)@, entry, outcome.message)
            &&& actions@ == key_actions(outcome)
        },
        !is_key_down(event) ==> {
            &&& final(input)@ == old(input)@
            &&& final(status)@ == old(status)@
            &&& actions@ == (match event {
                InputEvent::Resize(geometry) => seq![
                    InputAction::Command(PlayerCommand::Resize(geometry)),
                ],
                _ => seq![],
            })
        },
        actions@ == event_actions(event, old(input)@),
{
    let mut actions: Vec<InputAction> = Vec::new();
    match event {
        InputEvent::Key(key, kind) => {
            match kind {
                KeyKind::Release => {},
                _ => {
                    let outcome: KeyOutcome = handle_key(key, input);
                    status.input_buffer = input.goto_buffer.clone();
                    match outcome.message {
                        Some(message) => {
                            status.message = message;
                        },
                        None => {},
                    }
                    if outcome.redraw_status {
                        actions.push(InputAction::RedrawStatus);
                    }
                    let ghost head = actions@;
                    let mut i: usize = 0;
                    assert(actions@ =~= head + command_actions(outcome.commands@.take(0)));
                    while i < outcome.commands.len()
                        invariant
                            i <= outcome.commands@.len(),
                            actions@ == head + command_actions(outcome.commands@.take(i as int)),
                        decreases outcome.commands.len() - i,
                    {
                        let command: PlayerCommand = outcome.commands[i];
                        assert(outcome.commands@.take(i + 1).drop_last()
                            =~= outcome.commands@.take(i as int));
                        match command {
                            PlayerCommand::Quit => actions.push(InputAction::StopPlayback),
                            _ => {},
                        }
                        actions.push(InputAction::Command(command));
                        i = i + 1;
                        assert(actions@ =~= head + command_actions(
                            outcome.commands@.take(i as int),
                        ));
                    }
                    assert(outcome.commands@.take(i as int) =~= outcome.commands@);
                    assert(actions@ =~= key_actions(key_effect(key, old(input)@).1));
                },
            }
        },
        InputEvent::Resize(geometry) => {
            actions.push(InputAction::Command(PlayerCommand::Resize(geometry)));
        },
        InputEvent::Other => {},
    }
    actions
}

/// The quit keys end playback whatever is being entered, and the entry stays.
pub proof fn quit_keys_always_quit(key: KeyEvent, entry: Option<Seq<char>>)
    requires
        is_quit_key(key),
    ensures
        key_effect(key, entry).0 == entry,
        key_effect(key, entry).1.commands == seq![PlayerCommand::Quit],
        key_actions(key_effect(key, entry).1) == seq![
            InputAction::StopPlayback,
            InputAction::Command(PlayerCommand::Quit),
        ],
{
    let commands = seq![PlayerCommand::Quit];
    reveal_with_fuel(command_actions, 2);
    assert(commands.drop_last() =~= seq![]);
    assert(command_actions(commands) =~= seq![
        InputAction::StopPlayback,
        InputAction::Command(PlayerCommand::Quit),
    ]);
    assert(key_actions(key_effect(key, entry).1) =~= command_actions(commands));
}

/// Only the quit keys end playback, and no key gives more than one command.
pub proof fn only_quit_keys_quit(key: KeyEvent, entry: Option<Seq<char>>)
    ensures
        key_effect(key, entry).1.commands.len() <= 1,
        key_effect(key, entry).1.commands.contains(PlayerCommand::Quit) ==> is_quit_key(key),
{
}

/// Everything in an entry is a digit or a colon.
pub open spec fn entry_is_clean(entry: Option<Seq<char>>) -> bool {
    entry matches Some(entry) ==> forall|i: int|
        0 <= i < entry.len() ==> is_entry_char(#[trigger] entry[i])
}

/// Whatever is typed, an entry only ever holds digits and colons.
pub proof fn entry_stays_clean(key: KeyEvent, entry: Option<Seq<char>>)
    requires
        entry_is_clean(entry),
    ensures
        entry_is_clean(key_effect(key, entry).0),
{
}

/// While a timestamp is being entered the shortcuts are off: apart from quitting,
/// the one command that can come is the jump to a valid timestamp.
pub proof fn entry_turns_shortcuts_off(key: KeyEvent, entry: Seq<char>)
    requires
        !is_quit_key(key),
    ensures
        ({
            let outcome = key_effect(key, Some(entry)).1;
            outcome.commands.len() > 0 ==> {
                &&& key.code == KeyCode::Enter
                &&& timestamp::timestamp_ms(entry) matches Some(ms)
                &&& outcome.commands == seq![PlayerCommand::SeekTo(ms as u64)]
                &&& key_effect(key, Some(entry)).0 is None
            }
        }),
{
}

/// The entry once a row of keys was pressed, from the start on.
pub open spec fn entry_after_keys(keys: Seq<KeyEvent>) -> Option<Seq<char>>
    decreases keys.len(),
{
    if keys.len() == 0 {
        None
    } else {
        key_effect(keys.last(), entry_after_keys(keys.drop_last())).0
    }
}

/// Whatever keys were pressed, the entry holds only digits and colons. It is
/// opened, empty, by `g` alone, and closed by escape or a valid timestamp alone.
/// A key gives one command at most: steps and volume while there is no entry, a
/// jump to a time out of an entry. A message is always shown.
pub proof fn entries_follow_the_keys(keys: Seq<KeyEvent>, key: KeyEvent)
    ensures
        ({
            let entry = entry_after_keys(keys);
            let (after, outcome) = key_effect(key, entry);
            &&& entry_is_clean(entry)
            &&& entry_is_clean(after)
            &&& entry is None && after is Some ==> key.code == KeyCode::Char('g') && after
                == Some(Seq::<char>::empty())
            &&& entry is Some && after is None ==> {
                ||| key.code == KeyCode::Esc
                ||| key.code == KeyCode::Enter && timestamp::timestamp_ms(entry->0) is Some
            }
            &&& outcome.commands.len() <= 1
            &&& forall|i: int|
                0 <= i < outcome.commands.len() ==> match #[trigger] outcome.commands[i] {
                    PlayerCommand::SeekBy(_) => entry is None,
                    PlayerCommand::VolumeBy(_) => entry is None,
                    PlayerCommand::SeekTo(_) => entry is Some,
                    PlayerCommand::Resize(_) => false,
                    PlayerCommand::Quit => is_quit_key(key),
                }
            &&& outcome.message is Some ==> outcome.redraw_status
        }),
    decreases keys.len(),
{
    if keys.len() > 0 {
        entries_follow_the_keys(keys.drop_last(), keys.last());
    }
    entry_stays_clean(key, entry_after_keys(keys));
}

/// Leaving an entry changes nothing but the status row, and a rejected timestamp
/// can be corrected.
pub proof fn entry_can_be_left(entry: Seq<char>, modifiers: KeyModifiers)
    ensures
        key_effect(KeyEvent { code: KeyCode::Esc, modifiers }, Some(entry)) == (
            None::<Seq<char>>,
            status_only(Some("Goto canceled"@)),
        ),
        timestamp::timestamp_ms(entry) is None ==> key_effect(
            KeyEvent { code: KeyCode::Enter, modifiers },
            Some(entry),
        ).0 == Some(entry),
{
}

/// The entry after a text was typed into it.
pub open spec fn entry_after_typing(
    entry: Option<Seq<char>>,
    typed: Seq<char>,
    modifiers: KeyModifiers,
) -> Option<Seq<char>>
    decreases typed.len(),
{
    if typed.len() == 0 {
        entry
    } else {
        key_effect(
            KeyEvent { code: KeyCode::Char(typed.last()), modifiers },
            entry_after_typing(entry, typed.drop_last(), modifiers),
        ).0
    }
}

/// Digits and colons that are typed are what the entry holds, and a backspace
/// takes the last of them away again.
pub proof fn typed_text_is_entered(entry: Seq<char>, typed: Seq<char>, modifiers: KeyModifiers)
    requires
        allows_entry(modifiers),
        forall|i: int| 0 <= i < typed.len() ==> is_entry_char(#[trigger] typed[i]),
    ensures
        entry_after_typing(Some(entry), typed, modifiers) == Some(entry + typed),
        typed.len() > 0 ==> key_effect(
            KeyEvent { code: KeyCode::Backspace, modifiers },
            Some(entry + typed),
        ).0 == Some(entry + typed.drop_last()),
    decreases typed.len(),
{
    if typed.len() == 0 {
        assert(entry + typed =~= entry);
    } else {
        typed_text_is_entered(entry, typed.drop_last(), modifiers);
        assert(is_entry_char(typed.last()));
        assert((entry + typed.drop_last()).push(typed.last()) =~= entry + typed);
        assert((entry + typed).drop_last() =~= entry + typed.drop_last());
    }
}

proof fn shown_time_is_typable(ms: nat)
    ensures
        forall|i: int|
            0 <= i < timestamp::time_text(ms).len() ==> is_entry_char(
                #[trigger] timestamp::time_text(ms)[i],
            ),
{
    let total = ms / 1000;
    text::decimal_reads_back(total / 3600);
    text::decimal_reads_back(total / 60 % 60);
    text::decimal2_reads_back(total / 60 % 60);
    text::decimal2_reads_back(total % 60);
}

/// A time as the status row shows it, typed after `g` and confirmed, makes the
/// player jump to that time.
pub proof fn shown_time_can_be_entered(ms: nat, modifiers: KeyModifiers)
    requires
        ms <= u64::MAX,
        allows_entry(modifiers),
    ensures
        ({
            let opened = key_effect(
                KeyEvent { code: KeyCode::Char('g'), modifiers },
                None,
            ).0;
            let typed = entry_after_typing(opened, timestamp::time_text(ms), modifiers);
            let confirmed = key_effect(KeyEvent { code: KeyCode::Enter, modifiers }, typed);
            &&& key_admitted(KeyEvent { code: KeyCode::Enter, modifiers }, typed)
            &&& confirmed.0 is None
            &&& confirmed.1.commands == seq![PlayerCommand::SeekTo((ms / 1000 * 1000) as u64)]
        }),
{
    shown_time_is_typable(ms);
    let none = Seq::<char>::empty();
    typed_text_is_entered(none, timestamp::time_text(ms), modifiers);
    assert(none + timestamp::time_text(ms) =~= timestamp::time_text(ms));
    timestamp::shown_time_reads_back(ms);
}

/// The quit keys are `q`, whatever is held down with it, and `c` with control; they
/// quit at any time and leave the entry alone. Without control, `c` does nothing.
pub proof fn quit_keys_are_q_and_control_c(modifiers: KeyModifiers, entry: Option<Seq<char>>)
    ensures
        ({
            let q = key_effect(KeyEvent { code: KeyCode::Char('q'), modifiers }, entry);
            let c = key_effect(KeyEvent { code: KeyCode::Char('c'), modifiers }, entry);
            &&& q.0 == entry && q.1.commands == seq![PlayerCommand::Quit]
            &&& q.1.message is None && !q.1.redraw_status
            &&& modifiers.control ==> c == q
            &&& !modifiers.control ==> c.0 == entry && c.1.commands.len() == 0
                && c.1.message is None && !c.1.redraw_status
        }),
{
}

/// While no timestamp is being entered, `f` and the right arrow step forward by ten
/// and by five seconds, `b` and the left arrow as far back; the up arrow turns the
/// volume up by five percent, and the down arrow down again; `g` asks for a timestamp.
/// What is held down with them does not matter, and no other key but those that quit
/// does anything.
pub proof fn shortcuts_do_what_they_say(code: KeyCode, modifiers: KeyModifiers)
    requires
        !is_quit_key(KeyEvent { code, modifiers }),
    ensures
        ({
            let (entry, outcome) = key_effect(KeyEvent { code, modifiers }, None);
            let commands = outcome.commands;
            &&& code == KeyCode::Char('f') ==> commands == seq![PlayerCommand::SeekBy(10_000)]
            &&& code == KeyCode::Char('b') ==> commands == seq![
                PlayerCommand::SeekBy(-10_000i64),
            ]
            &&& code == KeyCode::Right ==> commands == seq![PlayerCommand::SeekBy(5_000)]
            &&& code == KeyCode::Left ==> commands == seq![PlayerCommand::SeekBy(-5_000i64)]
            &&& code == KeyCode::Up ==> commands == seq![PlayerCommand::VolumeBy(5)]
            &&& code == KeyCode::Down ==> commands == seq![PlayerCommand::VolumeBy(-5i32)]
            &&& code == KeyCode::Char('g') <==> entry is Some
            &&& code == KeyCode::Char('g') ==> {
                &&& entry == Some(Seq::<char>::empty())
                &&& commands.len() == 0
                &&& outcome.message == Some("Enter timestamp"@)
                &&& outcome.redraw_status
            }
            &&& code != KeyCode::Char('g') ==> outcome.message is None && !outcome.redraw_status
            &&& commands.len() > 0 ==> {
                ||| code == KeyCode::Char('f') || code == KeyCode::Char('b')
                ||| code == KeyCode::Left || code == KeyCode::Right
                ||| code == KeyCode::Up || code == KeyCode::Down
            }
        }),
{
}

/// While a timestamp is being entered, escape gives it up. Enter jumps to it where it
/// is valid, and otherwise says so and keeps it. Backspace takes the last character
/// away, digits and colons are appended, unless more than shift is held down. Every
/// other key but those that quit does nothing. Whatever changes is shown.
pub proof fn entry_keys_do_what_they_say(key: KeyEvent, entry: Seq<char>)
    requires
        !is_quit_key(key),
    ensures
        ({
            let (after, outcome) = key_effect(key, Some(entry));
            let ms = timestamp::timestamp_ms(entry);
            let typed = match key.code {
                KeyCode::Char(c) => !key.modifiers.control && !key.modifiers.other && ('0' <= c
                    <= '9' || c == ':'),
                _ => false,
            };
            &&& key.code is Esc ==> after is None && outcome.commands.len() == 0
                && outcome.message == Some("Goto canceled"@)
            &&& key.code is Enter && ms is Some ==> {
                &&& after is None
                &&& outcome.commands == seq![PlayerCommand::SeekTo(ms->0 as u64)]
                &&& outcome.message == Some("Goto "@ + timestamp::time_text(ms->0))
            }
            &&& key.code is Enter && ms is None ==> {
                &&& after == Some(entry)
                &&& outcome.commands.len() == 0
                &&& outcome.message == Some("Invalid timestamp"@)
            }
            &&& key.code is Backspace ==> {
                &&& after == Some(
                    entry.take(
                        if entry.len() == 0 {
                            0
                        } else {
                            entry.len() - 1
                        },
                    ),
                )
                &&& outcome.commands.len() == 0 && outcome.message is None
            }
            &&& typed ==> {
                &&& after == Some(entry + seq![key.code->Char_0])
                &&& outcome.commands.len() == 0 && outcome.message is None
            }
            &&& outcome.redraw_status <==> {
                ||| key.code is Esc || key.code is Enter || key.code is Backspace
                ||| typed
            }
            &&& !outcome.redraw_status ==> {
                &&& after == Some(entry)
                &&& outcome.commands.len() == 0 && outcome.message is None
            }
        }),
{
    let (after, outcome) = key_effect(key, Some(entry));
    match key.code {
        KeyCode::Backspace => {
            if entry.len() == 0 {
                assert(entry.take(0) =~= entry);
            } else {
                assert(entry.take(entry.len() - 1) =~= entry.drop_last());
            }
        },
        KeyCode::Char(c) => {
            assert(entry.push(c) =~= entry + seq![c]);
        },
        _ => {},
    }
}

/// The commands that a row of actions hands to the player.
pub open spec fn handed_on(actions: Seq<InputAction>) -> Seq<PlayerCommand>
    decreases actions.len(),
{
    if actions.len() == 0 {
        seq![]
    } else {
        match actions.last() {
            InputAction::Command(command) => handed_on(actions.drop_last()).push(command),
            _ => handed_on(actions.drop_last()),
        }
    }
}

proof fn handed_on_concat(a: Seq<InputAction>, b: Seq<InputAction>)
    ensures
        handed_on(a + b) == handed_on(a) + handed_on(b),
    decreases b.len(),
{
    if b.len() == 0 {
        assert(a + b =~= a);
        assert(handed_on(a) + handed_on(b) =~= handed_on(a));
    } else {
        handed_on_concat(a, b.drop_last());
        assert((a + b).drop_last() =~= a + b.drop_last());
        assert((a + b).last() == b.last());
        assert(handed_on(a + b) =~= handed_on(a) + handed_on(b));
    }
}

proof fn commands_are_kept(commands: Seq<PlayerCommand>)
    ensures
        handed_on(command_actions(commands)) == commands,
        command_actions(commands).contains(InputAction::StopPlayback) <==> commands.contains(
            PlayerCommand::Quit,
        ),
        !command_actions(commands).contains(InputAction::RedrawStatus),
    decreases commands.len(),
{
    if commands.len() == 0 {
        assert(handed_on(command_actions(commands)) =~= commands);
    } else {
        let shorter = commands.drop_last();
        let command = commands.last();
        let before = command_actions(shorter);
        commands_are_kept(shorter);
        let own = if command == PlayerCommand::Quit {
            seq![InputAction::StopPlayback, InputAction::Command(command)]
        } else {
            seq![InputAction::Command(command)]
        };
        let all = command_actions(commands);
        assert(all == before + own);
        handed_on_concat(before, own);
        reveal_with_fuel(handed_on, 3);
        assert(handed_on(own) =~= seq![command]) by {
            if command == PlayerCommand::Quit {
                assert(own.drop_last() =~= seq![InputAction::StopPlayback]);
                assert(own.drop_last().drop_last() =~= seq![]);
            } else {
                assert(own.drop_last() =~= seq![]);
            }
        }
        assert(handed_on(all) =~= commands);
        if before.contains(InputAction::StopPlayback) {
            let i = choose|i: int| 0 <= i < before.len() && before[i] == InputAction::StopPlayback;
            assert(all[i] == InputAction::StopPlayback);
        }
        if shorter.contains(PlayerCommand::Quit) {
            let i = choose|i: int| 0 <= i < shorter.len() && shorter[i] == PlayerCommand::Quit;
            assert(commands[i] == PlayerCommand::Quit);
        }
        if command == PlayerCommand::Quit {
            assert(all[before.len() as int] == InputAction::StopPlayback);
            assert(commands[commands.len() - 1] == PlayerCommand::Quit);
        }
        if all.contains(InputAction::StopPlayback) && command != PlayerCommand::Quit {
            let i = choose|i: int| 0 <= i < all.len() && all[i] == InputAction::StopPlayback;
            assert(before[i] == InputAction::StopPlayback);
        }
        if commands.contains(PlayerCommand::Quit) && command != PlayerCommand::Quit {
            let i = choose|i: int| 0 <= i < commands.len() && commands[i] == PlayerCommand::Quit;
            assert(shorter[i] == PlayerCommand::Quit);
        }
        if all.contains(InputAction::RedrawStatus) {
            let i = choose|i: int| 0 <= i < all.len() && all[i] == InputAction::RedrawStatus;
            assert(before[i] == InputAction::RedrawStatus);
        }
    }
}

/// Every command of a key is handed to the player, in order and with nothing added.
/// Playback is stopped exactly where a command quits, and the status row is drawn
/// again, before anything else, exactly where the key changed it.
pub proof fn commands_reach_the_player(outcome: Outcome)
    ensures
        ({
            let actions = key_actions(outcome);
            &&& handed_on(actions) == outcome.commands
            &&& actions.contains(InputAction::StopPlayback) <==> outcome.commands.contains(
                PlayerCommand::Quit,
            )
            &&& actions.contains(InputAction::RedrawStatus) <==> outcome.redraw_status
            &&& outcome.redraw_status ==> actions[0] == InputAction::RedrawStatus
        }),
{
    let head = if outcome.redraw_status {
        seq![InputAction::RedrawStatus]
    } else {
        seq![]
    };
    let tail = command_actions(outcome.commands);
    let actions = key_actions(outcome);
    assert(actions == head + tail);
    commands_are_kept(outcome.commands);
    handed_on_concat(head, tail);
    reveal_with_fuel(handed_on, 2);
    assert(handed_on(head) =~= seq![]) by {
        if outcome.redraw_status {
            assert(head.drop_last() =~= seq![]);
        }
    }
    assert(handed_on(actions) =~= outcome.commands);
    if outcome.redraw_status {
        assert(actions[0] == InputAction::RedrawStatus);
    } else {
        assert(actions =~= tail);
    }
    if tail.contains(InputAction::StopPlayback) {
        let i = choose|i: int| 0 <= i < tail.len() && tail[i] == InputAction::StopPlayback;
        assert(actions[i + head.len()] == InputAction::StopPlayback);
    }
    if actions.contains(InputAction::StopPlayback) {
        let i = choose|i: int| 0 <= i < actions.len() && actions[i] == InputAction::StopPlayback;
        assert(tail[i - head.len()] == InputAction::StopPlayback);
    }
}

/// A key counts when it is pressed and while it is held down, not when it is let go.
pub proof fn keys_count_while_they_are_down(key: KeyEvent, geometry: TerminalGeometry)
    ensures
        is_key_down(InputEvent::Key(key, KeyKind::Press)),
        is_key_down(InputEvent::Key(key, KeyKind::Repeat)),
        !is_key_down(InputEvent::Key(key, KeyKind::Release)),
        !is_key_down(InputEvent::Resize(geometry)),
        !is_key_down(InputEvent::Other),
{
}

/// The status row shows the entry as it is now, and a new message where there is one;
/// a key changes nothing else in it.
pub proof fn status_shows_the_entry(
    status: Status,
    entry: Option<Seq<char>>,
    message: Option<Seq<char>>,
)
    ensures
        ({
            let after = status_with_entry(status, entry, message);
            &&& after.input == entry
            &&& message is Some ==> after.message == message->0
            &&& message is None ==> after.message == status.message
            &&& after.current_ms == status.current_ms
            &&& after.duration_ms == status.duration_ms
            &&& after.volume_percent == status.volume_percent
        }),
{
}

/// A resize is handed to the player with the size that the terminal has now; what the
/// player does about it is up to it. A key does the same whether it is pressed or held
/// down, and nothing when it is let go.
pub proof fn events_reach_the_player(
    key: KeyEvent,
    geometry: TerminalGeometry,
    entry: Option<Seq<char>>,
)
    ensures
        handed_on(event_actions(InputEvent::Resize(geometry), entry)) == seq![
            PlayerCommand::Resize(geometry),
        ],
        event_actions(InputEvent::Resize(geometry), entry).len() == 1,
        handed_on(event_actions(InputEvent::Key(key, KeyKind::Press), entry)) == key_effect(
            key,
            entry,
        ).1.commands,
        event_actions(InputEvent::Key(key, KeyKind::Repeat), entry) == event_actions(
            InputEvent::Key(key, KeyKind::Press),
            entry,
        ),
        event_actions(InputEvent::Key(key, KeyKind::Release), entry).len() == 0,
        event_actions(InputEvent::Other, entry).len() == 0,
{
    let resize = event_actions(InputEvent::Resize(geometry), entry);
    reveal_with_fuel(handed_on, 2);
    assert(resize.drop_last() =~= seq![]);
    assert(handed_on(resize) =~= seq![PlayerCommand::Resize(geometry)]);
    commands_reach_the_player(key_effect(key, entry).1);
}

} // verus!
