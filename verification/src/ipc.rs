//! The line protocol between the launcher and the game processes, the
//! overlay windows it steers, and the registry of connections.
//!
//! A game process sends one command per line. [`parse_command`] reads a line,
//! [`IpcHub::handle_line`] applies it to the hub's record of overlay windows
//! and says what the caller has to do: register the connection, or create,
//! place or close a window. Nothing is ever answered on the connection.

use crate::text::decimal;
use crate::text::decimal_i32;
use crate::text::fields;
use crate::text::parse_i32;
use crate::text::push_decimal;
use crate::text::split;
use crate::text::trim;
use crate::text::trimmed;
use crate::text::views;
use std::collections::HashMap;
use vstd::prelude::*;
use vstd::slice::slice_subrange;
use vstd::std_specs::hash::group_hash_axioms;
use vstd::string::StringExecFns;
use vstd::string::StringSliceAdditionalSpecFns;

verus! {

broadcast use group_hash_axioms;

/// One line of the protocol, read.
#[derive(Clone, Copy, Debug, PartialEq, Eq)]
pub enum IpcCommand {
    /// `init:<pid>`: the connection belongs to the game process `pid`.
    Init { pid: i32 },
    /// `pos:<x>,<y>,<w>,<h>,<pid>`: the game window's place and size.
    Pos { x: i32, y: i32, w: i32, h: i32, pid: i32 },
    /// `show_overlay:<pid>`.
    ShowOverlay { pid: i32 },
    /// `hide_overlay:<pid>`.
    HideOverlay { pid: i32 },
    /// A known command whose fields cannot be read.
    Malformed,
    /// A line that starts with no known command.
    Unknown,
}

/// Whether `b` starts with `tag`.
pub open spec fn has_prefix(b: Seq<u8>, tag: Seq<u8>) -> bool {
    tag.len() <= b.len() && b.subrange(0, tag.len() as int) == tag
}

/// What follows the first `tag.len()` bytes of `b`.
pub open spec fn after_prefix(b: Seq<u8>, tag: Seq<u8>) -> Seq<u8> {
    b.subrange(tag.len() as int, b.len() as int)
}

/// The bytes of `init:`.
pub open spec fn init_tag() -> Seq<u8> {
    "init:".spec_bytes()
}

/// The bytes of `pos:`.
pub open spec fn pos_tag() -> Seq<u8> {
    "pos:".spec_bytes()
}

/// The bytes of `show_overlay:`.
pub open spec fn show_tag() -> Seq<u8> {
    "show_overlay:".spec_bytes()
}

/// The bytes of `hide_overlay:`.
pub open spec fn hide_tag() -> Seq<u8> {
    "hide_overlay:".spec_bytes()
}

/// `init` with the process id that `field` writes.
pub open spec fn init_of(field: Seq<u8>) -> IpcCommand {
    match decimal_i32(field) {
        Some(pid) => IpcCommand::Init { pid },
        None => IpcCommand::Malformed,
    }
}

/// `pos` with the five integers that the fields `f` write.
pub open spec fn pos_of(f: Seq<Seq<u8>>) -> IpcCommand {
    if f.len() == 5 && decimal_i32(f[0]) is Some && decimal_i32(f[1]) is Some && decimal_i32(
        f[2],
    ) is Some && decimal_i32(f[3]) is Some && decimal_i32(f[4]) is Some {
        IpcCommand::Pos {
            x: decimal_i32(f[0])->0,
            y: decimal_i32(f[1])->0,
            w: decimal_i32(f[2])->0,
            h: decimal_i32(f[3])->0,
            pid: decimal_i32(f[4])->0,
        }
    } else {
        IpcCommand::Malformed
    }
}

/// The process id in the second of the colon-separated fields `f`.
pub open spec fn second_field_pid(f: Seq<Seq<u8>>) -> Option<i32> {
    if f.len() >= 2 {
        decimal_i32(f[1])
    } else {
        None
    }
}

/// `show_overlay` for the process id in the fields `f`.
pub open spec fn show_of(f: Seq<Seq<u8>>) -> IpcCommand {
    match second_field_pid(f) {
        Some(pid) => IpcCommand::ShowOverlay { pid },
        None => IpcCommand::Malformed,
    }
}

/// `hide_overlay` for the process id in the fields `f`.
pub open spec fn hide_of(f: Seq<Seq<u8>>) -> IpcCommand {
    match second_field_pid(f) {
        Some(pid) => IpcCommand::HideOverlay { pid },
        None => IpcCommand::Malformed,
    }
}

/// The command that the line `b` writes.
///
/// The command word must open the line. `init` and `pos` drop the white space
/// around what follows the word; `pos` then takes exactly five comma-separated
/// integers. `show_overlay` and `hide_overlay` drop the white space at the end
/// of the line and read the process id between the first colon and the next
/// one, or the end of the line.
pub open spec fn command_of(b: Seq<u8>) -> IpcCommand {
    if has_prefix(b, init_tag()) {
        init_of(trimmed(after_prefix(b, init_tag())))
    } else if has_prefix(b, pos_tag()) {
        pos_of(fields(trimmed(after_prefix(b, pos_tag())), 44))
    } else if has_prefix(b, show_tag()) {
        show_of(fields(trimmed(b), 58))
    } else if has_prefix(b, hide_tag()) {
        hide_of(fields(trimmed(b), 58))
    } else {
        IpcCommand::Unknown
    }
}

fn starts_with(b: &[u8], tag: &[u8]) -> (r: bool)
    ensures
        r == has_prefix(b@, tag@),
{
    if tag.len() > b.len() {
        return false;
    }
    let mut at: usize = 0;
    while at < tag.len()
        invariant
            at <= tag@.len() <= b@.len(),
            b@.subrange(0, at as int) == tag@.subrange(0, at as int),
        decreases tag@.len() - at,
    {
        if b[at] != tag[at] {
            proof {
                assert(b@.subrange(0, tag@.len() as int)[at as int] != tag@[at as int]);
            }
            return false;
        }
        proof {
            assert(b@.subrange(0, at + 1) =~= b@.subrange(0, at as int).push(b@[at as int]));
            assert(tag@.subrange(0, at + 1) =~= tag@.subrange(0, at as int).push(
                tag@[at as int],
            ));
        }
        at = at + 1;
    }
    proof {
        assert(tag@.subrange(0, tag@.len() as int) =~= tag@);
    }
    true
}

fn second_pid(parts: &Vec<Vec<u8>>) -> (r: Option<i32>)
    ensures
        r == second_field_pid(views(parts@)),
{
    if parts.len() >= 2 {
        parse_i32(parts[1].as_slice())
    } else {
        None
    }
}

fn pos_command(parts: &Vec<Vec<u8>>) -> (c: IpcCommand)
    ensures
        c == pos_of(views(parts@)),
{
    if parts.len() != 5 {
        return IpcCommand::Malformed;
    }
    let x = parse_i32(parts[0].as_slice());
    let y = parse_i32(parts[1].as_slice());
    let w = parse_i32(parts[2].as_slice());
    let h = parse_i32(parts[3].as_slice());
    let pid = parse_i32(parts[4].as_slice());
    match (x, y, w, h, pid) {
        (Some(x), Some(y), Some(w), Some(h), Some(pid)) => IpcCommand::Pos { x, y, w, h, pid },
        _ => IpcCommand::Malformed,
    }
}

/// Reads one line of the protocol. The line may still carry its terminator.
pub fn parse_command(line: &str) -> (c: IpcCommand)
    ensures
        c == command_of(line.spec_bytes()),
{
    let b = line.as_bytes();
    let init = "init:".as_bytes();
    let pos = "pos:".as_bytes();
    let show = "show_overlay:".as_bytes();
    let hide = "hide_overlay:".as_bytes();
    if starts_with(b, init) {
        let rest = slice_subrange(b, init.len(), b.len());
        match parse_i32(trim(rest)) {
            Some(pid) => IpcCommand::Init { pid },
            None => IpcCommand::Malformed,
        }
    } else if starts_with(b, pos) {
        let rest = slice_subrange(b, pos.len(), b.len());
        let parts = split(trim(rest), 44);
        pos_command(&parts)
    } else if starts_with(b, show) {
        let parts = split(trim(b), 58);
        match second_pid(&parts) {
            Some(pid) => IpcCommand::ShowOverlay { pid },
            None => IpcCommand::Malformed,
        }
    } else if starts_with(b, hide) {
        let parts = split(trim(b), 58);
        match second_pid(&parts) {
            Some(pid) => IpcCommand::HideOverlay { pid },
            None => IpcCommand::Malformed,
        }
    } else {
        IpcCommand::Unknown
    }
}

/// An overlay window of one game process, as the hub last left it.
#[derive(Clone, Copy, Debug, PartialEq, Eq)]
pub struct OverlayWindow {
    /// The game process that the window belongs to.
    pub pid: i32,
    /// Horizontal position of the window.
    pub x: i64,
    /// Vertical position of the window.
    pub y: i64,
    /// Width and height, once a `pos` line has given them.
    pub size: Option<(i32, i32)>,
    /// The window's background lets what is behind it show through.
    pub transparent: bool,
    /// The window has a title bar and borders.
    pub decorations: bool,
    /// The window stays above all others.
    pub always_on_top: bool,
    /// The user can resize the window.
    pub resizable: bool,
    /// The window is shown.
    pub visible: bool,
    /// The window is left out of the task bar.
    pub skip_taskbar: bool,
}

/// The window that `show_overlay` creates: bare, transparent, shown, out of
/// the task bar, and placed off the screen at (-1000, -1000).
pub open spec fn created(pid: i32) -> OverlayWindow {
    OverlayWindow {
        pid,
        x: -1000i64,
        y: -1000i64,
        size: None,
        transparent: true,
        decorations: false,
        always_on_top: false,
        resizable: false,
        visible: true,
        skip_taskbar: true,
    }
}

/// `window` after a `pos` line with width `w` and height `h`: it has that
/// size and stands at (-w - 1000, -h - 1000).
pub open spec fn placed(window: OverlayWindow, w: i32, h: i32) -> OverlayWindow {
    OverlayWindow {
        x: (-(w as int) - 1000) as i64,
        y: (-(h as int) - 1000) as i64,
        size: Some((w, h)),
        ..window
    }
}

/// The label of the overlay window of process `pid`.
pub open spec fn overlay_label(pid: i32) -> Seq<char> {
    "omp_overlay_window:"@ + decimal(pid as int)
}

/// The page that the overlay window of process `pid` shows.
pub open spec fn overlay_url(pid: i32) -> Seq<char> {
    "index.html?attached_id="@ + decimal(pid as int)
}

/// What the overlay window of process `pid` is like when it is created.
pub fn create_overlay_window(pid: i32) -> (window: OverlayWindow)
    ensures
        window == created(pid),
{
    OverlayWindow {
        pid,
        x: -1000,
        y: -1000,
        size: None,
        transparent: true,
        decorations: false,
        always_on_top: false,
        resizable: false,
        visible: true,
        skip_taskbar: true,
    }
}

impl OverlayWindow {
    /// The label under which the window is found.
    pub fn label(&self) -> (label: String)
        ensures
            label@ == overlay_label(self.pid),
    {
        let mut label = String::from_str("omp_overlay_window:");
        push_decimal(&mut label, self.pid);
        label
    }

    /// The page that the window shows.
    pub fn url(&self) -> (url: String)
        ensures
            url@ == overlay_url(self.pid),
    {
        let mut url = String::from_str("index.html?attached_id=");
        push_decimal(&mut url, self.pid);
        url
    }
}

/// What the caller has to do for a line.
#[derive(Clone, Copy, Debug, PartialEq, Eq)]
pub enum IpcAction {
    /// Put the connection that sent the line into the registry, under `pid`.
    Register { pid: i32 },
    /// Create this window.
    Create(OverlayWindow),
    /// Move and resize the window of `pid` to what this says.
    Place(OverlayWindow),
    /// Close the window of `pid`.
    Close { pid: i32 },
    /// Report that there is no window of `pid` to close.
    Missing { pid: i32 },
    /// Report a line that is no command.
    Unrecognized,
    /// Nothing.
    Nothing,
}

/// The overlay windows after `command`.
pub open spec fn windows_after(windows: Map<i32, OverlayWindow>, command: IpcCommand) -> Map<
    i32,
    OverlayWindow,
> {
    match command {
        IpcCommand::ShowOverlay { pid } => if windows.contains_key(pid) {
            windows
        } else {
            windows.insert(pid, created(pid))
        },
        IpcCommand::Pos { x, y, w, h, pid } => if windows.contains_key(pid) {
            windows.insert(pid, placed(windows[pid], w, h))
        } else {
            windows
        },
        IpcCommand::HideOverlay { pid } => windows.remove(pid),
        _ => windows,
    }
}

/// What is to be done for `command`, given the overlay windows before it.
pub open spec fn action_for(windows: Map<i32, OverlayWindow>, command: IpcCommand) -> IpcAction {
    match command {
        IpcCommand::Init { pid } => IpcAction::Register { pid },
        IpcCommand::ShowOverlay { pid } => if windows.contains_key(pid) {
            IpcAction::Nothing
        } else {
            IpcAction::Create(created(pid))
        },
        IpcCommand::Pos { x, y, w, h, pid } => if windows.contains_key(pid) {
            IpcAction::Place(placed(windows[pid], w, h))
        } else {
            IpcAction::Nothing
        },
        IpcCommand::HideOverlay { pid } => if windows.contains_key(pid) {
            IpcAction::Close { pid }
        } else {
            IpcAction::Missing { pid }
        },
        IpcCommand::Malformed => IpcAction::Nothing,
        IpcCommand::Unknown => IpcAction::Unrecognized,
    }
}

/// Whether every window is filed under its own process id.
pub open spec fn filed_by_pid(windows: Map<i32, OverlayWindow>) -> bool {
    forall|pid: i32| windows.contains_key(pid) ==> (#[trigger] windows[pid]).pid == pid
}

/// Where a window stands and how large it is.
#[derive(Clone, Copy)]
struct Placement {
    x: i64,
    y: i64,
    size: Option<(i32, i32)>,
}

/// The overlay window of `pid` with the placement `p`.
spec fn window_at(pid: i32, p: Placement) -> OverlayWindow {
    OverlayWindow { x: p.x, y: p.y, size: p.size, ..created(pid) }
}

/// The hub's record of the overlay windows: at most one per game process.
pub struct IpcHub {
    windows: HashMap<i32, Placement>,
}

impl View for IpcHub {
    type V = Map<i32, OverlayWindow>;

    closed spec fn view(&self) -> Map<i32, OverlayWindow> {
        Map::new(
            |pid: i32| self.windows@.contains_key(pid),
            |pid: i32| window_at(pid, self.windows@[pid]),
        )
    }
}

impl IpcHub {
    /// A hub without windows.
    pub fn new() -> (hub: IpcHub)
        ensures
            hub@ == Map::<i32, OverlayWindow>::empty(),
    {
        let hub = IpcHub { windows: HashMap::new() };
        assert(hub@ =~= Map::<i32, OverlayWindow>::empty());
        hub
    }

    /// Every window of a hub is filed under its own process id.
    pub proof fn windows_are_filed_by_pid(&self)
        ensures
            filed_by_pid(self@),
    {
    }

    /// The overlay window of process `pid`, if there is one.
    pub fn window(&self, pid: i32) -> (found: Option<OverlayWindow>)
        ensures
            found == if self@.contains_key(pid) {
                Some(self@[pid])
            } else {
                None
            },
    {
        match self.windows.get(&pid) {
            Some(p) => Some(
                OverlayWindow { x: p.x, y: p.y, size: p.size, ..create_overlay_window(pid) },
            ),
            None => None,
        }
    }

    /// Applies `command` to the windows and says what is to be done for it.
    pub fn apply(&mut self, command: IpcCommand) -> (action: IpcAction)
        ensures
            final(self)@ == windows_after(old(self)@, command),
            action == action_for(old(self)@, command),
    {
        let action = match command {
            IpcCommand::Init { pid } => IpcAction::Register { pid },
            IpcCommand::ShowOverlay { pid } => {
                if self.windows.contains_key(&pid) {
                    IpcAction::Nothing
                } else {
                    let window = create_overlay_window(pid);
                    self.windows.insert(pid, Placement { x: -1000, y: -1000, size: None });
                    IpcAction::Create(window)
                }
            },
            IpcCommand::Pos { x, y, w, h, pid } => {
                if self.windows.contains_key(&pid) {
                    let p = Placement {
                        x: 0 - (w as i64) - 1000,
                        y: 0 - (h as i64) - 1000,
                        size: Some((w, h)),
                    };
                    self.windows.insert(pid, p);
                    IpcAction::Place(
                        OverlayWindow { x: p.x, y: p.y, size: p.size, ..create_overlay_window(pid) },
                    )
                } else {
                    IpcAction::Nothing
                }
            },
            IpcCommand::HideOverlay { pid } => {
                if self.windows.contains_key(&pid) {
                    self.windows.remove(&pid);
                    IpcAction::Close { pid }
                } else {
                    IpcAction::Missing { pid }
                }
            },
            IpcCommand::Malformed => IpcAction::Nothing,
            IpcCommand::Unknown => IpcAction::Unrecognized,
        };
        assert(self@ =~= windows_after(old(self)@, command));
        action
    }

    /// Reads `line` and applies the command it writes.
    pub fn handle_line(&mut self, line: &str) -> (action: IpcAction)
        ensures
            final(self)@ == windows_after(old(self)@, command_of(line.spec_bytes())),
            action == action_for(old(self)@, command_of(line.spec_bytes())),
    {
        let command = parse_command(line);
        self.apply(command)
    }
}

/// An overlay window lives from `show_overlay` to `hide_overlay`.
///
/// Whatever windows there were: after `show_overlay` for `pid` there is a
/// window for it; a `pos` line then gives it the size (w, h) and the position
/// (-w - 1000, -h - 1000), the coordinates of the line notwithstanding;
/// `hide_overlay` removes it, and a `pos` line after that changes nothing and
/// asks for nothing.
pub proof fn overlay_lifecycle(
    windows: Map<i32, OverlayWindow>,
    pid: i32,
    x: i32,
    y: i32,
    w: i32,
    h: i32,
)
    ensures
        ({
            let shown = windows_after(windows, IpcCommand::ShowOverlay { pid });
            let moved = windows_after(shown, IpcCommand::Pos { x, y, w, h, pid });
            let hidden = windows_after(moved, IpcCommand::HideOverlay { pid });
            &&& shown.contains_key(pid)
            &&& moved.contains_key(pid)
            &&& moved[pid].size == Some((w, h))
            &&& moved[pid].x == -(w as int) - 1000
            &&& moved[pid].y == -(h as int) - 1000
            &&& action_for(moved, IpcCommand::HideOverlay { pid }) == (IpcAction::Close { pid })
            &&& !hidden.contains_key(pid)
            &&& windows_after(hidden, IpcCommand::Pos { x, y, w, h, pid }) == hidden
            &&& action_for(hidden, IpcCommand::Pos { x, y, w, h, pid }) == IpcAction::Nothing
        }),
{
}

/// A command changes the window of no process but the one it names.
pub proof fn other_windows_are_untouched(
    windows: Map<i32, OverlayWindow>,
    command: IpcCommand,
    other: i32,
)
    requires
        match command {
            IpcCommand::ShowOverlay { pid } => pid != other,
            IpcCommand::Pos { x, y, w, h, pid } => pid != other,
            IpcCommand::HideOverlay { pid } => pid != other,
            _ => true,
        },
    ensures
        windows_after(windows, command).contains_key(other) == windows.contains_key(other),
        windows.contains_key(other) ==> windows_after(windows, command)[other] == windows[other],
{
}

/// Filing by process id survives every command.
pub proof fn filing_is_kept(windows: Map<i32, OverlayWindow>, command: IpcCommand)
    requires
        filed_by_pid(windows),
    ensures
        filed_by_pid(windows_after(windows, command)),
{
}

/// Why a message did not reach a game process.
#[derive(Clone, Debug, PartialEq, Eq)]
pub enum IpcError {
    /// No connection is registered for the process.
    NoStreamFound,
    /// Writing to the connection failed; the text says how.
    WriteFailed(String),
}

/// The text of an error.
pub open spec fn error_text(error: IpcError) -> Seq<char> {
    match error {
        IpcError::NoStreamFound => "no_stream_found"@,
        IpcError::WriteFailed(detail) => "Failed to write to stream: "@ + detail@,
    }
}

impl IpcError {
    /// The error as text.
    pub fn message(&self) -> (text: String)
        ensures
            text@ == error_text(*self),
    {
        match self {
            IpcError::NoStreamFound => String::from_str("no_stream_found"),
            IpcError::WriteFailed(detail) => {
                let mut text = String::from_str("Failed to write to stream: ");
                text.append(detail.as_str());
                text
            },
        }
    }
}

/// The connections of the game processes, by process id.
pub struct StreamRegistry<C> {
    streams: HashMap<i32, C>,
}

impl<C> View for StreamRegistry<C> {
    type V = Map<i32, C>;

    closed spec fn view(&self) -> Map<i32, C> {
        self.streams@
    }
}

/// A line to write, and the connection to write it to.
pub struct Delivery<'a, C> {
    /// The connection registered for the process.
    pub connection: &'a C,
    /// The message with its line terminator.
    pub line: Vec<u8>,
}

impl<C> StreamRegistry<C> {
    /// A registry without connections.
    pub fn new() -> (registry: StreamRegistry<C>)
        ensures
            registry@ == Map::<i32, C>::empty(),
    {
        StreamRegistry { streams: HashMap::new() }
    }

    /// Files `connection` under `pid`, in place of any that was there.
    pub fn register(&mut self, pid: i32, connection: C)
        ensures
            final(self)@ == old(self)@.insert(pid, connection),
    {
        self.streams.insert(pid, connection);
    }
}

/// The delivery of `message` to the game process `id`: the connection
/// registered for it, and the message followed by a line feed. Without such a
/// connection it is `NoStreamFound`.
pub fn send_message_to_game<'a, C>(streams: &'a StreamRegistry<C>, id: i32, message: &str) -> (r:
    Result<Delivery<'a, C>, IpcError>)
    ensures
        r is Ok <==> streams@.contains_key(id),
        r matches Ok(delivery) ==> *delivery.connection == streams@[id] && delivery.line@
            == message.spec_bytes().push(10),
        r matches Err(error) ==> error == IpcError::NoStreamFound,
{
    match streams.streams.get(&id) {
        Some(connection) => {
            let mut line = vstd::slice::slice_to_vec(message.as_bytes());
            line.push(10);
            Ok(Delivery { connection, line })
        },
        None => Err(IpcError::NoStreamFound),
    }
}

/// A message goes to the connection that was registered last for its process.
pub proof fn last_registration_wins<C>(streams: Map<i32, C>, pid: i32, first: C, second: C)
    ensures
        streams.insert(pid, first).insert(pid, second) == streams.insert(pid, second),
        streams.insert(pid, first).insert(pid, second)[pid] == second,
{
    assert(streams.insert(pid, first).insert(pid, second) =~= streams.insert(pid, second));
}

} // verus!
