use vstd::prelude::*;
use std::collections::VecDeque;
use crate::browser::{name_less, name_lt};
use crate::protocol::{ClientMessage, InputFlags, PORT};
use crate::text::{
    decimal, write_decimal, all_printable, all_printable_spec, display_or_placeholder, is_blank, is_blank_spec,
    is_trim_range, pop_char, trim,
};

verus! {

/// Most chat lines that the client keeps.
pub const MAX_CHAT_LINES: usize = 8;

/// The client's screens.
#[derive(Debug, Clone, Copy, PartialEq, Eq, Hash, Structural)]
pub enum AppScreen {
    MainMenu,
    JoinByIp,
    ServerBrowser,
    Connecting,
    InGame,
    Disconnected,
}

impl Default for AppScreen {
    fn default() -> (s: AppScreen)
        ensures
            s == AppScreen::MainMenu,
    {
        AppScreen::MainMenu
    }
}

/// The coarse states of a game session.
#[derive(Debug, Clone, Copy, PartialEq, Eq, Hash, Structural)]
pub enum GameState {
    Menu,
    Connecting,
    InGame,
}

impl Default for GameState {
    fn default() -> (s: GameState)
        ensures
            s == GameState::Menu,
    {
        GameState::Menu
    }
}

/// The text field that receives typed characters.
#[derive(Debug, Clone, Copy, PartialEq, Eq, Structural)]
pub enum FocusedField {
    Unfocused,
    PlayerName,
    IpAddress,
    Chat,
}

impl Default for FocusedField {
    fn default() -> (f: FocusedField)
        ensures
            f == FocusedField::Unfocused,
    {
        FocusedField::Unfocused
    }
}

/// What a menu button does.
#[derive(Debug, Clone, Copy, PartialEq, Eq, Structural)]
pub enum UiAction {
    OpenJoinByIp,
    OpenServerBrowser,
    ConnectByIp,
    ConnectDiscovered(usize),
    BackToMenu,
    ResumeGame,
    ToggleSettings,
    Disconnect,
    Retry,
    Quit,
}

/// A pressed key, as the text fields see it.
pub enum KeyInput {
    Backspace,
    Escape,
    /// A key that produced text.
    Text(String),
    /// Any other key.
    Other,
}

/// Which in-game panels are open, and the client's input tick.
#[derive(Debug, Clone, Copy, PartialEq, Eq, Structural)]
pub struct UiState {
    pub pause_open: bool,
    pub settings_open: bool,
    pub player_list_open: bool,
    pub chat_open: bool,
    pub tick: u32,
}

impl Default for UiState {
    fn default() -> (s: UiState)
        ensures
            !s.pause_open && !s.settings_open && !s.player_list_open && !s.chat_open,
            s.tick == 0,
    {
        UiState {
            pause_open: false,
            settings_open: false,
            player_list_open: false,
            chat_open: false,
            tick: 0,
        }
    }
}

/// The menus' text fields and messages; `A` is a server address.
pub struct MenuState<A> {
    pub player_name: String,
    pub ip_address: String,
    pub focused: FocusedField,
    pub disconnect_reason: String,
    pub reconnect_target: Option<A>,
}

impl<A> MenuState<A> {
    /// Empty fields, no focus, nothing to reconnect to.
    pub fn new() -> (m: MenuState<A>)
        ensures
            m.player_name@.len() == 0,
            m.ip_address@.len() == 0,
            m.focused == FocusedField::Unfocused,
            m.disconnect_reason@.len() == 0,
            m.reconnect_target is None,
    {
        MenuState {
            player_name: String::new(),
            ip_address: String::new(),
            focused: FocusedField::Unfocused,
            disconnect_reason: String::new(),
            reconnect_target: None,
        }
    }
}

/// The chat history and the line being typed.
pub struct ChatState {
    pub lines: VecDeque<String>,
    pub current_input: String,
}

impl ChatState {
    /// No lines, nothing typed.
    pub fn new() -> (c: ChatState)
        ensures
            c.lines@.len() == 0,
            c.current_input@.len() == 0,
    {
        ChatState { lines: VecDeque::new(), current_input: String::new() }
    }
}

/// The state of the connection to a server at address type `A`.
pub struct ConnectionState<A> {
    pub current_target: Option<A>,
    pub join_sent: bool,
    pub local_client_id: Option<u64>,
    pub connected_server_name: String,
    pub motd: String,
}

impl<A> ConnectionState<A> {
    /// Not connected to anything.
    pub fn new() -> (c: ConnectionState<A>)
        ensures
            c.current_target is None,
            !c.join_sent,
            c.local_client_id is None,
            c.connected_server_name@.len() == 0,
            c.motd@.len() == 0,
    {
        ConnectionState {
            current_target: None,
            join_sent: false,
            local_client_id: None,
            connected_server_name: String::new(),
            motd: String::new(),
        }
    }
}

/// The last `MAX_CHAT_LINES` elements of `s` (all of them if there are fewer).
pub open spec fn last_lines<T>(s: Seq<T>) -> Seq<T> {
    if s.len() > 8 {
        s.subrange(s.len() - 8, s.len() as int)
    } else {
        s
    }
}

/// Appends a line to the chat history, dropping the oldest lines beyond
/// the most recent `MAX_CHAT_LINES`.
pub fn push_chat_line(chat: &mut ChatState, message: String)
    ensures
        final(chat).lines@ == last_lines(old(chat).lines@.push(message)),
        final(chat).current_input == old(chat).current_input,
{
    chat.lines.push_back(message);
    let ghost full = chat.lines@;
    while chat.lines.len() > MAX_CHAT_LINES
        invariant
            chat.lines@.len() >= 8 ==> chat.lines@ == full.subrange(
                full.len() - chat.lines@.len(),
                full.len() as int,
            ),
            chat.lines@.len() < 8 ==> chat.lines@ == full,
            full.len() > 8 ==> chat.lines@.len() >= 8,
            chat.lines@.len() <= full.len(),
            chat.current_input == old(chat).current_input,
            full == old(chat).lines@.push(message),
        decreases chat.lines@.len(),
    {
        chat.lines.pop_front();
        assert(chat.lines@ =~= full.subrange(full.len() - chat.lines@.len(), full.len() as int));
    }
    proof {
        if full.len() > 8 {
            assert(chat.lines@.len() == 8);
        } else {
            if chat.lines@.len() >= 8 {
                assert(full.subrange(0, full.len() as int) =~= full);
            }
        }
    }
}

/// What a menu action asks the caller to do besides the state changes made.
pub enum UiOutcome<A> {
    /// Nothing more.
    Stay,
    /// Switch to the screen.
    Show(AppScreen),
    /// Drop the network connection, then switch to the screen.
    Leave(AppScreen),
    /// Start connecting to the address.
    Connect(A),
    /// Parse the typed server address (see `target_address_text`), then
    /// connect to it or, when it does not parse, call `reject_address`.
    ConnectTyped,
    /// Quit the program.
    Quit,
}

/// The focus after the "join by IP" button or the Tab key: from the name
/// field to the address field, from anything else to the name field.
pub open spec fn next_join_focus(f: FocusedField) -> FocusedField {
    if f == FocusedField::PlayerName {
        FocusedField::IpAddress
    } else {
        FocusedField::PlayerName
    }
}

fn next_focus(f: FocusedField) -> (r: FocusedField)
    ensures
        r == next_join_focus(f),
{
    match f {
        FocusedField::PlayerName => FocusedField::IpAddress,
        _ => FocusedField::PlayerName,
    }
}

/// On the join screen Tab always lands on one of the two text fields, and
/// between them it alternates: from a field it moves to the other one, and
/// two presses come back to where they started.
pub proof fn lemma_tab_alternates(f: FocusedField)
    ensures
        next_join_focus(f) == FocusedField::PlayerName || next_join_focus(f) == FocusedField::IpAddress,
        f == FocusedField::PlayerName || f == FocusedField::IpAddress ==> next_join_focus(f) != f
            && next_join_focus(next_join_focus(f)) == f,
{
}

/// Handles a pressed menu button. `discovered` lists the addresses of the
/// servers shown in the browser, in display order.
pub fn handle_ui_action<A: Copy>(
    action: UiAction,
    menu: &mut MenuState<A>,
    ui: &mut UiState,
    discovered: &[A],
) -> (out: UiOutcome<A>)
    ensures
        final(menu).player_name == old(menu).player_name,
        final(menu).ip_address == old(menu).ip_address,
        final(menu).reconnect_target == old(menu).reconnect_target,
        final(ui).player_list_open == old(ui).player_list_open,
        final(ui).tick == old(ui).tick,
        action != UiAction::Disconnect ==> final(menu).disconnect_reason == old(
            menu,
        ).disconnect_reason,
        action != UiAction::OpenJoinByIp ==> final(menu).focused == old(menu).focused,
        match action {
            UiAction::OpenJoinByIp => {
                &&& final(menu).focused == next_join_focus(old(menu).focused)
                &&& *final(ui) == *old(ui)
                &&& out == UiOutcome::<A>::Show(AppScreen::JoinByIp)
            },
            UiAction::OpenServerBrowser => *final(ui) == *old(ui) && out == UiOutcome::<A>::Show(
                AppScreen::ServerBrowser,
            ),
            UiAction::ConnectByIp => *final(ui) == *old(ui) && out == UiOutcome::<A>::ConnectTyped,
            UiAction::ConnectDiscovered(i) => *final(ui) == *old(ui) && out == (if i
                < discovered@.len() {
                UiOutcome::Connect(discovered@[i as int])
            } else {
                UiOutcome::<A>::Stay
            }),
            UiAction::BackToMenu => {
                &&& !final(ui).pause_open && !final(ui).settings_open && !final(ui).chat_open
                &&& out == UiOutcome::<A>::Leave(AppScreen::MainMenu)
            },
            UiAction::ResumeGame => {
                &&& !final(ui).pause_open && !final(ui).settings_open
                &&& final(ui).chat_open == old(ui).chat_open
                &&& out == UiOutcome::<A>::Stay
            },
            UiAction::ToggleSettings => {
                &&& final(ui).settings_open == !old(ui).settings_open
                &&& final(ui).pause_open == old(ui).pause_open
                &&& final(ui).chat_open == old(ui).chat_open
                &&& out == UiOutcome::<A>::Stay
            },
            UiAction::Disconnect => {
                &&& *final(ui) == *old(ui)
                &&& final(menu).disconnect_reason@ == "Disconnected from server"@
                &&& out == UiOutcome::<A>::Leave(AppScreen::Disconnected)
            },
            UiAction::Retry => *final(ui) == *old(ui) && out == (match old(menu).reconnect_target {
                Some(t) => UiOutcome::Connect(t),
                None => UiOutcome::<A>::Stay,
            }),
            UiAction::Quit => *final(ui) == *old(ui) && out == UiOutcome::<A>::Quit,
        },
{
    match action {
        UiAction::OpenJoinByIp => {
            menu.focused = next_focus(menu.focused);
            UiOutcome::Show(AppScreen::JoinByIp)
        },
        UiAction::OpenServerBrowser => UiOutcome::Show(AppScreen::ServerBrowser),
        UiAction::ConnectByIp => UiOutcome::ConnectTyped,
        UiAction::ConnectDiscovered(index) => {
            if index < discovered.len() {
                UiOutcome::Connect(discovered[index])
            } else {
                UiOutcome::Stay
            }
        },
        UiAction::BackToMenu => {
            ui.pause_open = false;
            ui.settings_open = false;
            ui.chat_open = false;
            UiOutcome::Leave(AppScreen::MainMenu)
        },
        UiAction::ResumeGame => {
            ui.pause_open = false;
            ui.settings_open = false;
            UiOutcome::Stay
        },
        UiAction::ToggleSettings => {
            ui.settings_open = !ui.settings_open;
            UiOutcome::Stay
        },
        UiAction::Disconnect => {
            menu.disconnect_reason = String::from_str("Disconnected from server");
            UiOutcome::Leave(AppScreen::Disconnected)
        },
        UiAction::Retry => match menu.reconnect_target {
            Some(target) => UiOutcome::Connect(target),
            None => UiOutcome::Stay,
        },
        UiAction::Quit => UiOutcome::Quit,
    }
}

/// Records a connection attempt to `addr` that has been set up: the
/// connection state starts afresh with `addr` as target, `addr` becomes the
/// address to retry, and the client shows the connecting screen.
pub fn begin_connection<A: Copy>(
    menu: &mut MenuState<A>,
    connection: &mut ConnectionState<A>,
    addr: A,
) -> (screen: AppScreen)
    ensures
        screen == AppScreen::Connecting,
        final(connection).current_target == Some(addr),
        !final(connection).join_sent,
        final(connection).local_client_id is None,
        final(connection).connected_server_name@.len() == 0,
        final(connection).motd@.len() == 0,
        final(menu).reconnect_target == Some(addr),
        final(menu).player_name == old(menu).player_name,
        final(menu).ip_address == old(menu).ip_address,
        final(menu).focused == old(menu).focused,
        final(menu).disconnect_reason == old(menu).disconnect_reason,
{
    connection.current_target = Some(addr);
    connection.join_sent = false;
    connection.local_client_id = None;
    connection.connected_server_name = String::new();
    connection.motd = String::new();
    menu.reconnect_target = Some(addr);
    AppScreen::Connecting
}

/// Records that a connection could not be set up or was lost, for the given
/// reason; the client shows the disconnected screen.
pub fn fail_connection<A>(menu: &mut MenuState<A>, reason: String) -> (screen: AppScreen)
    ensures
        screen == AppScreen::Disconnected,
        final(menu).disconnect_reason == reason,
        final(menu).player_name == old(menu).player_name,
        final(menu).ip_address == old(menu).ip_address,
        final(menu).focused == old(menu).focused,
        final(menu).reconnect_target == old(menu).reconnect_target,
{
    menu.disconnect_reason = reason;
    AppScreen::Disconnected
}

/// Records that the typed server address does not parse.
pub fn reject_address<A>(menu: &mut MenuState<A>) -> (screen: AppScreen)
    ensures
        screen == AppScreen::Disconnected,
        final(menu).disconnect_reason@ == "Invalid IP address. Use host:port"@,
        final(menu).player_name == old(menu).player_name,
        final(menu).ip_address == old(menu).ip_address,
        final(menu).focused == old(menu).focused,
        final(menu).reconnect_target == old(menu).reconnect_target,
{
    fail_connection(menu, String::from_str("Invalid IP address. Use host:port"))
}

/// A text field after one pressed key: Backspace deletes the last
/// character, text made only of printable characters is appended, anything
/// else leaves the field alone.
pub open spec fn edit_text(s: Seq<char>, ev: KeyInput) -> Seq<char> {
    match ev {
        KeyInput::Backspace => if s.len() > 0 {
            s.drop_last()
        } else {
            s
        },
        KeyInput::Text(t) => if all_printable_spec(t@) {
            s + t@
        } else {
            s
        },
        _ => s,
    }
}

/// A text field after a run of pressed keys.
pub open spec fn edit_field(s: Seq<char>, events: Seq<KeyInput>) -> Seq<char>
    decreases events.len(),
{
    if events.len() == 0 {
        s
    } else {
        edit_text(edit_field(s, events.drop_last()), events.last())
    }
}

/// The chat line being typed, whether the chat is open, and the focus,
/// after a run of pressed keys: Escape closes the chat and drops the focus;
/// other keys edit the line.
pub open spec fn chat_after(
    input: Seq<char>,
    open: bool,
    focus: FocusedField,
    events: Seq<KeyInput>,
) -> (Seq<char>, bool, FocusedField)
    decreases events.len(),
{
    if events.len() == 0 {
        (input, open, focus)
    } else {
        let prev = chat_after(input, open, focus, events.drop_last());
        match events.last() {
            KeyInput::Escape => (prev.0, false, FocusedField::Unfocused),
            e => (edit_text(prev.0, e), prev.1, prev.2),
        }
    }
}

/// Applies one pressed key to a text field.
fn apply_key(field: &mut String, ev: &KeyInput)
    ensures
        final(field)@ == edit_text(old(field)@, *ev),
{
    match ev {
        KeyInput::Backspace => {
            pop_char(field);
        },
        KeyInput::Text(t) => {
            if all_printable(t.as_str()) {
                field.append(t.as_str());
            }
        },
        _ => {},
    }
}

/// Handles the in-game panel keys of one frame: Escape toggles the pause
/// menu (closing it also closes the settings), the player list shows while
/// Tab is held, and Enter either sends the typed chat line (when the chat is
/// open and the line is not blank) or opens or closes the chat. Returns the
/// chat message to send: the typed line without surrounding white space.
pub fn toggle_runtime_panels(
    ui: &mut UiState,
    focus: &mut FocusedField,
    chat: &mut ChatState,
    escape_pressed: bool,
    tab_held: bool,
    enter_pressed: bool,
) -> (sent: Option<String>)
    ensures
        final(ui).pause_open == (old(ui).pause_open != escape_pressed),
        final(ui).settings_open == (old(ui).settings_open && !(escape_pressed
            && old(ui).pause_open)),
        final(ui).player_list_open == tab_held,
        final(ui).tick == old(ui).tick,
        final(chat).lines == old(chat).lines,
        ({
            let sends = enter_pressed && old(ui).chat_open && !is_blank_spec(
                old(chat).current_input@,
            );
            &&& sends ==> {
                &&& sent matches Some(m) && exists|a: int, b: int|
                    is_trim_range(old(chat).current_input@, a, b) && m@ == old(
                        chat,
                    ).current_input@.subrange(a, b)
                &&& final(chat).current_input@.len() == 0
                &&& !final(ui).chat_open
                &&& *final(focus) == FocusedField::Unfocused
            }
            &&& !sends ==> {
                &&& sent is None
                &&& final(chat).current_input == old(chat).current_input
                &&& final(ui).chat_open == (old(ui).chat_open != enter_pressed)
                &&& *final(focus) == (if !enter_pressed {
                    *old(focus)
                } else if final(ui).chat_open {
                    FocusedField::Chat
                } else {
                    FocusedField::Unfocused
                })
            }
        }),
{
    if escape_pressed {
        ui.pause_open = !ui.pause_open;
        if !ui.pause_open {
            ui.settings_open = false;
        }
    }
    ui.player_list_open = tab_held;
    let mut sent: Option<String> = None;
    if enter_pressed {
        if ui.chat_open && !is_blank(chat.current_input.as_str()) {
            let t = trim(chat.current_input.as_str());
            sent = Some(String::from_str(t));
            chat.current_input = String::new();
            ui.chat_open = false;
            *focus = FocusedField::Unfocused;
        } else {
            ui.chat_open = !ui.chat_open;
            *focus = if ui.chat_open {
                FocusedField::Chat
            } else {
                FocusedField::Unfocused
            };
        }
    }
    sent
}

/// Applies the keys pressed while the chat is open: Backspace and text edit
/// the typed line, Escape closes the chat.
pub fn edit_chat_input(
    ui: &mut UiState,
    focus: &mut FocusedField,
    chat: &mut ChatState,
    events: &[KeyInput],
)
    ensures
        (final(chat).current_input@, final(ui).chat_open, *final(focus)) == chat_after(
            old(chat).current_input@,
            old(ui).chat_open,
            *old(focus),
            events@,
        ),
        final(chat).lines == old(chat).lines,
        final(ui).pause_open == old(ui).pause_open,
        final(ui).settings_open == old(ui).settings_open,
        final(ui).player_list_open == old(ui).player_list_open,
        final(ui).tick == old(ui).tick,
{
    let mut i: usize = 0;
    while i < events.len()
        invariant
            i <= events@.len(),
            (chat.current_input@, ui.chat_open, *focus) == chat_after(
                old(chat).current_input@,
                old(ui).chat_open,
                *old(focus),
                events@.take(i as int),
            ),
            chat.lines == old(chat).lines,
            ui.pause_open == old(ui).pause_open,
            ui.settings_open == old(ui).settings_open,
            ui.player_list_open == old(ui).player_list_open,
            ui.tick == old(ui).tick,
        decreases events@.len() - i,
    {
        proof {
            assert(events@.take(i + 1).drop_last() =~= events@.take(i as int));
            assert(events@.take(i + 1).last() == events@[i as int]);
        }
        match &events[i] {
            KeyInput::Escape => {
                ui.chat_open = false;
                *focus = FocusedField::Unfocused;
            },
            ev => {
                apply_key(&mut chat.current_input, ev);
            },
        }
        i = i + 1;
    }
    assert(events@.take(events@.len() as int) =~= events@);
}

/// Handles the Tab key on the join screen and reports whether text input
/// (IME) should be enabled: `None` off the join screen, where nothing
/// changes; otherwise Tab moves the focus between the name and address
/// fields and input is enabled while some field has the focus.
pub fn text_input_focus<A>(screen: AppScreen, tab_pressed: bool, menu: &mut MenuState<A>) -> (ime:
    Option<bool>)
    ensures
        final(menu).player_name == old(menu).player_name,
        final(menu).ip_address == old(menu).ip_address,
        final(menu).disconnect_reason == old(menu).disconnect_reason,
        final(menu).reconnect_target == old(menu).reconnect_target,
        screen != AppScreen::JoinByIp ==> ime is None && final(menu).focused == old(menu).focused,
        screen == AppScreen::JoinByIp ==> {
            &&& final(menu).focused == (if tab_pressed {
                next_join_focus(old(menu).focused)
            } else {
                old(menu).focused
            })
            &&& ime == Some(final(menu).focused != FocusedField::Unfocused)
        },
{
    if screen != AppScreen::JoinByIp {
        return None;
    }
    if tab_pressed {
        menu.focused = next_focus(menu.focused);
    }
    Some(menu.focused != FocusedField::Unfocused)
}

/// Applies pressed keys to the focused menu field (the player name or the
/// server address); with another focus nothing changes.
pub fn edit_menu_field<A>(menu: &mut MenuState<A>, events: &[KeyInput])
    ensures
        final(menu).focused == old(menu).focused,
        final(menu).disconnect_reason == old(menu).disconnect_reason,
        final(menu).reconnect_target == old(menu).reconnect_target,
        final(menu).player_name@ == (if old(menu).focused == FocusedField::PlayerName {
            edit_field(old(menu).player_name@, events@)
        } else {
            old(menu).player_name@
        }),
        final(menu).ip_address@ == (if old(menu).focused == FocusedField::IpAddress {
            edit_field(old(menu).ip_address@, events@)
        } else {
            old(menu).ip_address@
        }),
{
    if menu.focused != FocusedField::PlayerName && menu.focused != FocusedField::IpAddress {
        return;
    }
    let mut i: usize = 0;
    while i < events.len()
        invariant
            i <= events@.len(),
            menu.focused == old(menu).focused,
            menu.focused == FocusedField::PlayerName || menu.focused == FocusedField::IpAddress,
            menu.disconnect_reason == old(menu).disconnect_reason,
            menu.reconnect_target == old(menu).reconnect_target,
            menu.player_name@ == (if old(menu).focused == FocusedField::PlayerName {
                edit_field(old(menu).player_name@, events@.take(i as int))
            } else {
                old(menu).player_name@
            }),
            menu.ip_address@ == (if old(menu).focused == FocusedField::IpAddress {
                edit_field(old(menu).ip_address@, events@.take(i as int))
            } else {
                old(menu).ip_address@
            }),
        decreases events@.len() - i,
    {
        proof {
            assert(events@.take(i + 1).drop_last() =~= events@.take(i as int));
            assert(events@.take(i + 1).last() == events@[i as int]);
        }
        if menu.focused == FocusedField::PlayerName {
            apply_key(&mut menu.player_name, &events[i]);
        } else {
            apply_key(&mut menu.ip_address, &events[i]);
        }
        i = i + 1;
    }
    assert(events@.take(events@.len() as int) =~= events@);
}

/// Closes every in-game panel, as when leaving the game.
pub fn close_panels(ui: &mut UiState)
    ensures
        !final(ui).pause_open,
        !final(ui).settings_open,
        !final(ui).player_list_open,
        !final(ui).chat_open,
        final(ui).tick == old(ui).tick,
{
    ui.pause_open = false;
    ui.settings_open = false;
    ui.player_list_open = false;
    ui.chat_open = false;
}

/// The input message of one frame, unless the pause menu or the chat is
/// open: the next client tick (wrapping around) and the held keys.
pub fn next_input_message(
    ui: &mut UiState,
    forward: bool,
    backward: bool,
    left: bool,
    right: bool,
    jump: bool,
) -> (msg: Option<ClientMessage>)
    ensures
        old(ui).pause_open || old(ui).chat_open ==> msg is None && *final(ui) == *old(ui),
        !(old(ui).pause_open || old(ui).chat_open) ==> {
            &&& final(ui).tick == (if old(ui).tick == u32::MAX {
                0
            } else {
                old(ui).tick + 1
            })
            &&& final(ui).pause_open == old(ui).pause_open
            &&& final(ui).settings_open == old(ui).settings_open
            &&& final(ui).player_list_open == old(ui).player_list_open
            &&& final(ui).chat_open == old(ui).chat_open
            &&& msg == Some(
                ClientMessage::Input {
                    tick: final(ui).tick,
                    flags: InputFlags::from_keys_spec(forward, backward, left, right, jump),
                },
            )
        },
{
    if ui.pause_open || ui.chat_open {
        return None;
    }
    let flags = InputFlags::from_keys(forward, backward, left, right, jump);
    ui.tick = ui.tick.wrapping_add(1);
    Some(ClientMessage::Input { tick: ui.tick, flags })
}

/// Whether a join request is due: the connection is up and none has been
/// sent on it yet.
pub open spec fn join_due(join_sent: bool, connected: bool) -> bool {
    connected && !join_sent
}

/// How many join requests a run of polls sends, starting from `join_sent`;
/// each poll tells whether the connection was up at that moment.
pub open spec fn joins_in_run(join_sent: bool, polls: Seq<bool>) -> nat
    decreases polls.len(),
{
    if polls.len() == 0 {
        0
    } else {
        (if join_due(join_sent, polls[0]) {
            1nat
        } else {
            0nat
        }) + joins_in_run(join_sent || polls[0], polls.drop_first())
    }
}

/// When a join request is due, marks it as sent and returns the name to
/// join with: the typed player name, or `Player` when it is blank.
/// Otherwise nothing changes.
pub fn take_join_request<A>(connection: &mut ConnectionState<A>, connected: bool, player_name: &str) -> (name:
    Option<String>)
    ensures
        !join_due(old(connection).join_sent, connected) ==> name is None,
        join_due(old(connection).join_sent, connected) ==> (name matches Some(n) && n@ == (
        if is_blank_spec(player_name@) {
            "Player"@
        } else {
            player_name@
        })),
        final(connection).join_sent == (old(connection).join_sent || connected),
        final(connection).current_target == old(connection).current_target,
        final(connection).local_client_id == old(connection).local_client_id,
        final(connection).connected_server_name == old(connection).connected_server_name,
        final(connection).motd == old(connection).motd,
{
    if connected && !connection.join_sent {
        connection.join_sent = true;
        Some(String::from_str(display_or_placeholder(player_name, "Player")))
    } else {
        None
    }
}

/// Once a connection has been begun (`begin_connection` leaves no join
/// request sent), the polls that follow send exactly one join request if the
/// connection comes up at any of them and none otherwise; once one has been
/// sent, no further poll sends another.
pub proof fn lemma_one_join_per_connection(polls: Seq<bool>)
    ensures
        joins_in_run(true, polls) == 0,
        joins_in_run(false, polls) == (if exists|i: int| 0 <= i < polls.len() && #[trigger] polls[i] {
            1nat
        } else {
            0nat
        }),
    decreases polls.len(),
{
    if polls.len() > 0 {
        let t = polls.drop_first();
        lemma_one_join_per_connection(t);
        if !polls[0] {
            if exists|i: int| 0 <= i < polls.len() && #[trigger] polls[i] {
                let i = choose|i: int| 0 <= i < polls.len() && #[trigger] polls[i];
                assert(t[i - 1]);
            }
            if exists|i: int| 0 <= i < t.len() && #[trigger] t[i] {
                let i = choose|i: int| 0 <= i < t.len() && #[trigger] t[i];
                assert(polls[i + 1]);
            }
        }
    }
}

/// Records the server's welcome: the client's id, the server's name and
/// message of the day; the client enters the game.
pub fn on_welcome<A>(
    connection: &mut ConnectionState<A>,
    client_id: u64,
    server_name: String,
    motd: String,
) -> (screen: AppScreen)
    ensures
        screen == AppScreen::InGame,
        final(connection).local_client_id == Some(client_id),
        final(connection).connected_server_name == server_name,
        final(connection).motd == motd,
        final(connection).current_target == old(connection).current_target,
        final(connection).join_sent == old(connection).join_sent,
{
    connection.local_client_id = Some(client_id);
    connection.connected_server_name = server_name;
    connection.motd = motd;
    AppScreen::InGame
}

/// Text of the pause overlay.
pub fn overlay_text(ui: &UiState) -> (t: &'static str)
    ensures
        t@ == (if !ui.pause_open {
            ""@
        } else if ui.settings_open {
            "Paused\nSettings\n- LAN discovery only in this build\n- Global list placeholder kept for later\nPress Esc to close"@
        } else {
            "Paused\nEsc: Resume\nTab: Player list\nEnter: Chat"@
        }),
{
    if ui.pause_open {
        if ui.settings_open {
            "Paused\nSettings\n- LAN discovery only in this build\n- Global list placeholder kept for later\nPress Esc to close"
        } else {
            "Paused\nEsc: Resume\nTab: Player list\nEnter: Chat"
        }
    } else {
        ""
    }
}

/// Lines joined by line breaks.
pub open spec fn join_lines(ls: Seq<Seq<char>>) -> Seq<char>
    decreases ls.len(),
{
    if ls.len() == 0 {
        Seq::empty()
    } else if ls.len() == 1 {
        ls[0]
    } else {
        join_lines(ls.drop_last()) + seq!['\n'] + ls.last()
    }
}

/// The lines of the chat panel: the history and, while the chat is open,
/// the typed line after a `> ` prompt.
pub open spec fn chat_panel_lines(chat: &ChatState, chat_open: bool) -> Seq<Seq<char>> {
    let history = Seq::new(chat.lines@.len(), |i: int| chat.lines@[i]@);
    if chat_open {
        history.push(seq!['>', ' '] + chat.current_input@)
    } else {
        history
    }
}

/// Text of the chat panel: its lines joined by line breaks.
pub fn chat_text(chat: &ChatState, chat_open: bool) -> (t: String)
    ensures
        t@ == join_lines(chat_panel_lines(chat, chat_open)),
{
    let ghost all = chat_panel_lines(chat, chat_open);
    let ghost history = Seq::new(chat.lines@.len(), |i: int| chat.lines@[i]@);
    let mut t = String::new();
    let mut i: usize = 0;
    while i < chat.lines.len()
        invariant
            i <= chat.lines@.len(),
            history == Seq::new(chat.lines@.len(), |i: int| chat.lines@[i]@),
            t@ == join_lines(history.take(i as int)),
        decreases chat.lines@.len() - i,
    {
        assert(history.take(i + 1).drop_last() =~= history.take(i as int));
        if i > 0 {
            t.append("\n");
        }
        t.append(chat.lines[i].as_str());
        proof {
            reveal_strlit("\n");
            if i == 0 {
                assert(history.take(1) =~= seq![history[0]]);
            }
        }
        assert(t@ =~= join_lines(history.take(i + 1)));
        i = i + 1;
    }
    assert(history.take(chat.lines@.len() as int) =~= history);
    if chat_open {
        let n = chat.lines.len();
        if n > 0 {
            t.append("\n");
        }
        t.append("> ");
        t.append(chat.current_input.as_str());
        proof {
            reveal_strlit("\n");
            reveal_strlit("> ");
            assert(all.drop_last() =~= history);
        }
        assert(t@ =~= join_lines(all));
    }
    t
}

/// The chat line announcing a player.
pub fn connected_line(name: &str) -> (line: String)
    ensures
        line@ == name@ + " connected"@,
{
    let mut line = String::from_str(name);
    line.append(" connected");
    line
}

/// The chat line announcing that player `id` left, and why.
pub fn left_line(id: u64, reason: &str) -> (line: String)
    ensures
        line@ == "Player "@ + decimal(id as nat) + " left: "@ + reason@,
{
    let mut line = String::from_str("Player ");
    write_decimal(&mut line, id);
    line.append(" left: ");
    line.append(reason);
    line
}

/// The chat line of a message from `from`.
pub fn message_line(from: &str, message: &str) -> (line: String)
    ensures
        line@ == from@ + ": "@ + message@,
{
    let mut line = String::from_str(from);
    line.append(": ");
    line.append(message);
    line
}

/// The server address text that the join screen connects to, given what was
/// typed: with surrounding white space removed, nothing means the local
/// server on the game port, text with a `:` is taken as `host:port`, and
/// other text is a host on the game port.
pub open spec fn target_text_spec(t: Seq<char>) -> Seq<char> {
    if t.len() == 0 {
        "127.0.0.1"@ + ":"@ + decimal(PORT as nat)
    } else if t.contains(':') {
        t
    } else {
        t + ":"@ + decimal(PORT as nat)
    }
}

/// Whether `s` holds the character `c`.
fn contains_char(s: &str, c: char) -> (r: bool)
    ensures
        r == s@.contains(c),
{
    let n = s.unicode_len();
    let mut i: usize = 0;
    while i < n
        invariant
            n == s@.len(),
            i <= n,
            forall|j: int| 0 <= j < i ==> s@[j] != c,
        decreases n - i,
    {
        if s.get_char(i) == c {
            assert(s@[i as int] == c);
            return true;
        }
        i = i + 1;
    }
    false
}

/// The address text to parse for what was typed in the join screen's
/// address field (see `target_text_spec`).
pub fn target_address_text(input: &str) -> (r: String)
    ensures
        exists|a: int, b: int|
            is_trim_range(input@, a, b) && r@ == target_text_spec(input@.subrange(a, b)),
{
    let t = trim(input);
    let ghost a_b = choose|a: int, b: int| is_trim_range(input@, a, b) && t@ == input@.subrange(a, b);
    let mut r: String;
    if t.unicode_len() == 0 {
        r = String::from_str("127.0.0.1");
        r.append(":");
        write_decimal(&mut r, PORT as u64);
    } else if contains_char(t, ':') {
        r = String::from_str(t);
    } else {
        r = String::from_str(t);
        r.append(":");
        write_decimal(&mut r, PORT as u64);
    }
    assert(is_trim_range(input@, a_b.0, a_b.1) && r@ == target_text_spec(input@.subrange(a_b.0, a_b.1)));
    r
}

/// The chat history never holds more than `MAX_CHAT_LINES` lines, its last
/// line is the one just added, and nothing is dropped while there is room.
pub proof fn lemma_chat_history_bounded(history: Seq<String>, line: String)
    ensures
        last_lines(history.push(line)).len() <= MAX_CHAT_LINES,
        last_lines(history.push(line)).last() == line,
        history.len() < MAX_CHAT_LINES ==> last_lines(history.push(line)) == history.push(line),
{
}

/// The status line of the in-game HUD: server name, message of the day and
/// number of known players.
pub fn status_line(server_name: &str, motd: &str, players: usize) -> (line: String)
    ensures
        line@ == server_name@ + " | "@ + motd@ + " | Players: "@ + decimal(players as nat),
{
    let mut line = String::from_str(server_name);
    line.append(" | ");
    line.append(motd);
    line.append(" | Players: ");
    write_decimal(&mut line, players as u64);
    line
}

/// A line of the player list: the player's name and id.
pub open spec fn player_line(name: Seq<char>, id: u64) -> Seq<char> {
    name + " ("@ + decimal(id as nat) + ")"@
}

/// `e` inserted into `r` after every line that does not sort after it.
pub open spec fn insert_line(r: Seq<Seq<char>>, e: Seq<char>) -> Seq<Seq<char>>
    decreases r.len(),
{
    if r.len() == 0 {
        seq![e]
    } else if name_lt(e, r[0]) {
        seq![e] + r
    } else {
        seq![r[0]] + insert_line(r.drop_first(), e)
    }
}

/// The lines sorted (by code point order).
pub open spec fn sort_lines(s: Seq<Seq<char>>) -> Seq<Seq<char>>
    decreases s.len(),
{
    if s.len() == 0 {
        Seq::empty()
    } else {
        insert_line(sort_lines(s.drop_last()), s.last())
    }
}

proof fn lemma_insert_line_at(r: Seq<Seq<char>>, e: Seq<char>, p: int)
    requires
        0 <= p <= r.len(),
        forall|j: int| 0 <= j < p ==> !name_lt(e, #[trigger] r[j]),
        p < r.len() ==> name_lt(e, r[p]),
    ensures
        insert_line(r, e) == r.take(p) + seq![e] + r.skip(p),
    decreases r.len(),
{
    if r.len() == 0 {
        assert(r.take(p) + seq![e] + r.skip(p) =~= seq![e]);
    } else if p == 0 {
        assert(r.take(p) + seq![e] + r.skip(p) =~= seq![e] + r);
    } else {
        let t = r.drop_first();
        assert forall|j: int| 0 <= j < p - 1 implies !name_lt(e, #[trigger] t[j]) by {
            assert(t[j] == r[j + 1]);
        }
        if p < r.len() {
            assert(t[p - 1] == r[p]);
        }
        lemma_insert_line_at(t, e, p - 1);
        assert(seq![r[0]] + (t.take(p - 1) + seq![e] + t.skip(p - 1)) =~= r.take(p) + seq![e]
            + r.skip(p));
    }
}

/// The views of a list of strings.
pub open spec fn views(v: Seq<String>) -> Seq<Seq<char>> {
    Seq::new(v.len(), |i: int| v[i]@)
}

fn insert_line_sorted(v: &mut Vec<String>, e: String)
    ensures
        views(final(v)@) == insert_line(views(old(v)@), e@),
{
    let mut p: usize = 0;
    let mut found = false;
    while !found && p < v.len()
        invariant
            p <= v@.len(),
            v@ == old(v)@,
            forall|j: int| 0 <= j < p ==> !name_lt(e@, #[trigger] views(v@)[j]),
            found ==> p < v@.len() && name_lt(e@, views(v@)[p as int]),
        decreases v@.len() - p + (if found {
            0int
        } else {
            1int
        }),
    {
        if name_less(e.as_str(), v[p].as_str()) {
            found = true;
        } else {
            p = p + 1;
        }
    }
    proof {
        lemma_insert_line_at(views(v@), e@, p as int);
    }
    let ghost ev = e@;
    v.insert(p, e);
    assert(views(v@) =~= views(old(v)@).take(p as int) + seq![ev] + views(old(v)@).skip(
        p as int,
    ));
}

/// Text of the player list: one line `name (id)` per player, sorted.
pub fn player_list_text(players: &[(&str, u64)]) -> (t: String)
    ensures
        t@ == join_lines(
            sort_lines(Seq::new(players@.len(), |i: int| player_line(players@[i].0@, players@[i].1))),
        ),
{
    let ghost all = Seq::new(players@.len(), |i: int| player_line(players@[i].0@, players@[i].1));
    let mut sorted: Vec<String> = Vec::new();
    let mut i: usize = 0;
    while i < players.len()
        invariant
            i <= players@.len(),
            all == Seq::new(players@.len(), |i: int| player_line(players@[i].0@, players@[i].1)),
            views(sorted@) == sort_lines(all.take(i as int)),
        decreases players@.len() - i,
    {
        let (name, id) = players[i];
        let mut line = String::from_str(name);
        line.append(" (");
        write_decimal(&mut line, id);
        line.append(")");
        proof {
            assert(all.take(i + 1).drop_last() =~= all.take(i as int));
            assert(all.take(i + 1).last() == line@);
        }
        insert_line_sorted(&mut sorted, line);
        i = i + 1;
    }
    assert(all.take(players@.len() as int) =~= all);
    join_strings(&sorted)
}

/// The strings joined by line breaks.
fn join_strings(lines: &Vec<String>) -> (t: String)
    ensures
        t@ == join_lines(views(lines@)),
{
    let ghost ls = views(lines@);
    let mut t = String::new();
    let mut i: usize = 0;
    while i < lines.len()
        invariant
            i <= lines@.len(),
            ls == views(lines@),
            t@ == join_lines(ls.take(i as int)),
        decreases lines@.len() - i,
    {
        assert(ls.take(i + 1).drop_last() =~= ls.take(i as int));
        if i > 0 {
            t.append("\n");
        }
        t.append(lines[i].as_str());
        proof {
            reveal_strlit("\n");
            if i == 0 {
                assert(ls.take(1) =~= seq![ls[0]]);
            }
        }
        assert(t@ =~= join_lines(ls.take(i + 1)));
        i = i + 1;
    }
    assert(ls.take(lines@.len() as int) =~= ls);
    t
}

} // verus!
