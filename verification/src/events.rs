//! The event pool: what happened in a frame, waiting to be handled, and
//! what has been put off to the next frame.

use crate::commands::{DirCommand, DirCommandView, FileCommand, FileCommandView};
use crate::path::{FsPath, PathView};
use crate::utils::dir::{EntryView, FeEntry};
use vstd::prelude::*;

verus! {

/// A modifier key.
#[derive(Debug, Clone, Copy, PartialEq, Eq, Structural)]
pub enum Modifier {
    Alt,
    Ctrl,
    Shift,
    MacCmd,
    /// The command key of the platform: `Cmd` on a Mac, `Ctrl` elsewhere.
    Cmd,
}

/// A key of the keyboard that a binding can name.
#[derive(Debug, Clone, Copy, PartialEq, Eq, Structural)]
pub enum Key {
    A,
    B,
    C,
    D,
    E,
    F,
    G,
    H,
    I,
    J,
    K,
    L,
    M,
    N,
    O,
    P,
    Q,
    R,
    S,
    T,
    U,
    V,
    W,
    X,
    Y,
    Z,
    Enter,
    Escape,
    Tab,
    Space,
    Backspace,
    Delete,
}

/// A file that was dropped onto the window from outside. A drop that
/// comes without a path cannot be moved.
#[derive(Debug, PartialEq, Eq)]
pub struct DroppedFile {
    pub path: Option<FsPath>,
}

/// The paths of a list of dropped files.
pub open spec fn dropped_views(files: Seq<DroppedFile>) -> Seq<Option<PathView>> {
    Seq::new(files.len(), |i: int| files[i]@)
}

impl View for DroppedFile {
    type V = Option<PathView>;

    open spec fn view(&self) -> Option<PathView> {
        match self.path {
            Some(path) => Some(path@),
            None => None,
        }
    }
}

impl DeepView for DroppedFile {
    type V = Option<PathView>;

    open spec fn deep_view(&self) -> Option<PathView> {
        self.view()
    }
}

impl Clone for DroppedFile {
    fn clone(&self) -> (copy: Self)
        ensures
            copy@ == self@,
    {
        DroppedFile {
            path: match &self.path {
                Some(path) => Some(path.clone()),
                None => None,
            },
        }
    }
}

impl DroppedFile {
    /// Whether two dropped files have the same value.
    pub fn same_as(&self, other: &DroppedFile) -> (same: bool)
        ensures
            same == (self@ == other@),
    {
        match (&self.path, &other.path) {
            (Some(a), Some(b)) => a.same_as(b),
            (None, None) => true,
            _ => false,
        }
    }
}

/// A copy of a list of dropped files.
pub fn clone_dropped(files: &Vec<DroppedFile>) -> (copy: Vec<DroppedFile>)
    ensures
        dropped_views(copy@) == dropped_views(files@),
{
    let mut copy: Vec<DroppedFile> = Vec::new();
    let mut i: usize = 0;
    while i < files.len()
        invariant
            i <= files.len(),
            copy.len() == i,
            forall|j: int| 0 <= j < i ==> copy@[j]@ == files@[j]@,
        decreases files.len() - i,
    {
        copy.push(files[i].clone());
        i += 1;
    }
    assert(dropped_views(copy@) =~= dropped_views(files@));
    copy
}

/// Whether two lists of dropped files have the same value.
pub fn same_dropped(a: &Vec<DroppedFile>, b: &Vec<DroppedFile>) -> (same: bool)
    ensures
        same == (dropped_views(a@) == dropped_views(b@)),
{
    if a.len() != b.len() {
        assert(dropped_views(a@).len() != dropped_views(b@).len());
        return false;
    }
    let mut i: usize = 0;
    while i < a.len()
        invariant
            a.len() == b.len(),
            i <= a.len(),
            forall|j: int| 0 <= j < i ==> a@[j]@ == b@[j]@,
        decreases a.len() - i,
    {
        if !a[i].same_as(&b[i]) {
            assert(dropped_views(a@)[i as int] != dropped_views(b@)[i as int]);
            return false;
        }
        i += 1;
    }
    assert(dropped_views(a@) =~= dropped_views(b@));
    true
}

/// Something that happened and that the explorer is to act on.
#[derive(Debug, PartialEq, Eq)]
pub enum EventType {
    FocusPathBar,
    FocusSearchBar,
    DirGoBack,
    FavoriteCurrentPath,
    NewFile,
    OpenTerminal,
    SetPath(FsPath),
    DeleteFile(FeEntry),
    Exec(FsPath),
    RunDirCmd(DirCommand),
    RunFileCmd(FileCommand, FsPath),
    /// Files were dropped onto the window; the number counts the frames
    /// that the move has been put off.
    MoveFile(u8, Vec<DroppedFile>),
    ReloadDir,
    StartDragEntry(FeEntry),
    EndDragEntry,
    Quit,
}

/// The mathematical value of an [`EventType`].
pub enum EventView {
    FocusPathBar,
    FocusSearchBar,
    DirGoBack,
    FavoriteCurrentPath,
    NewFile,
    OpenTerminal,
    SetPath(PathView),
    DeleteFile(EntryView),
    Exec(PathView),
    RunDirCmd(DirCommandView),
    RunFileCmd(FileCommandView, PathView),
    MoveFile(u8, Seq<Option<PathView>>),
    ReloadDir,
    StartDragEntry(EntryView),
    EndDragEntry,
    Quit,
}

impl View for EventType {
    type V = EventView;

    open spec fn view(&self) -> EventView {
        match self {
            EventType::FocusPathBar => EventView::FocusPathBar,
            EventType::FocusSearchBar => EventView::FocusSearchBar,
            EventType::DirGoBack => EventView::DirGoBack,
            EventType::FavoriteCurrentPath => EventView::FavoriteCurrentPath,
            EventType::NewFile => EventView::NewFile,
            EventType::OpenTerminal => EventView::OpenTerminal,
            EventType::SetPath(path) => EventView::SetPath(path@),
            EventType::DeleteFile(entry) => EventView::DeleteFile(entry@),
            EventType::Exec(path) => EventView::Exec(path@),
            EventType::RunDirCmd(command) => EventView::RunDirCmd(command@),
            EventType::RunFileCmd(command, path) => EventView::RunFileCmd(command@, path@),
            EventType::MoveFile(count, files) => EventView::MoveFile(*count, dropped_views(files@)),
            EventType::ReloadDir => EventView::ReloadDir,
            EventType::StartDragEntry(entry) => EventView::StartDragEntry(entry@),
            EventType::EndDragEntry => EventView::EndDragEntry,
            EventType::Quit => EventView::Quit,
        }
    }
}

impl DeepView for EventType {
    type V = EventView;

    open spec fn deep_view(&self) -> EventView {
        self.view()
    }
}

impl Clone for EventType {
    fn clone(&self) -> (copy: Self)
        ensures
            copy@ == self@,
    {
        match self {
            EventType::FocusPathBar => EventType::FocusPathBar,
            EventType::FocusSearchBar => EventType::FocusSearchBar,
            EventType::DirGoBack => EventType::DirGoBack,
            EventType::FavoriteCurrentPath => EventType::FavoriteCurrentPath,
            EventType::NewFile => EventType::NewFile,
            EventType::OpenTerminal => EventType::OpenTerminal,
            EventType::SetPath(path) => EventType::SetPath(path.clone()),
            EventType::DeleteFile(entry) => EventType::DeleteFile(entry.clone()),
            EventType::Exec(path) => EventType::Exec(path.clone()),
            EventType::RunDirCmd(command) => EventType::RunDirCmd(command.clone()),
            EventType::RunFileCmd(command, path) => EventType::RunFileCmd(
                command.clone(),
                path.clone(),
            ),
            EventType::MoveFile(count, files) => EventType::MoveFile(*count, clone_dropped(files)),
            EventType::ReloadDir => EventType::ReloadDir,
            EventType::StartDragEntry(entry) => EventType::StartDragEntry(entry.clone()),
            EventType::EndDragEntry => EventType::EndDragEntry,
            EventType::Quit => EventType::Quit,
        }
    }
}

impl EventType {
    /// Whether two events have the same value.
    pub fn same_as(&self, other: &EventType) -> (same: bool)
        ensures
            same == (self@ == other@),
    {
        match (self, other) {
            (EventType::FocusPathBar, EventType::FocusPathBar) => true,
            (EventType::FocusSearchBar, EventType::FocusSearchBar) => true,
            (EventType::DirGoBack, EventType::DirGoBack) => true,
            (EventType::FavoriteCurrentPath, EventType::FavoriteCurrentPath) => true,
            (EventType::NewFile, EventType::NewFile) => true,
            (EventType::OpenTerminal, EventType::OpenTerminal) => true,
            (EventType::SetPath(a), EventType::SetPath(b)) => a.same_as(b),
            (EventType::DeleteFile(a), EventType::DeleteFile(b)) => a.same_as(b),
            (EventType::Exec(a), EventType::Exec(b)) => a.same_as(b),
            (EventType::RunDirCmd(a), EventType::RunDirCmd(b)) => a.same_as(b),
            (EventType::RunFileCmd(a, p), EventType::RunFileCmd(b, q)) => a.same_as(b)
                && p.same_as(q),
            (EventType::MoveFile(m, a), EventType::MoveFile(n, b)) => *m == *n && same_dropped(
                a,
                b,
            ),
            (EventType::ReloadDir, EventType::ReloadDir) => true,
            (EventType::StartDragEntry(a), EventType::StartDragEntry(b)) => a.same_as(b),
            (EventType::EndDragEntry, EventType::EndDragEntry) => true,
            (EventType::Quit, EventType::Quit) => true,
            _ => false,
        }
    }
}

/// The value of an optional event.
pub open spec fn opt_event_view(event: Option<EventType>) -> Option<EventView> {
    match event {
        Some(event) => Some(event@),
        None => None,
    }
}

/// The values of the events that a vector holds, in order.
pub open spec fn event_views(events: Seq<EventType>) -> Seq<EventView> {
    Seq::new(events.len(), |i: int| events[i]@)
}

/// A copy of a list of events.
pub fn clone_events(events: &Vec<EventType>) -> (copy: Vec<EventType>)
    ensures
        event_views(copy@) == event_views(events@),
{
    let mut copy: Vec<EventType> = Vec::new();
    let mut i: usize = 0;
    while i < events.len()
        invariant
            i <= events.len(),
            copy.len() == i,
            forall|j: int| 0 <= j < i ==> copy@[j]@ == events@[j]@,
        decreases events.len() - i,
    {
        copy.push(events[i].clone());
        i += 1;
    }
    assert(event_views(copy@) =~= event_views(events@));
    copy
}

/// What the keyboard holds in a frame, and what else came in with it.
#[derive(Debug, PartialEq, Eq)]
pub struct InputSnapshot {
    /// The keys that went down in this frame.
    pub keys_pressed: Vec<Key>,
    pub alt: bool,
    pub ctrl: bool,
    pub shift: bool,
    pub mac_cmd: bool,
    pub command: bool,
    /// The files that were dropped onto the window in this frame.
    pub dropped_files: Vec<DroppedFile>,
    /// Whether a pointer button was released in this frame.
    pub pointer_released: bool,
}

/// The mathematical value of an [`InputSnapshot`].
pub struct InputView {
    pub keys_pressed: Seq<Key>,
    pub alt: bool,
    pub ctrl: bool,
    pub shift: bool,
    pub mac_cmd: bool,
    pub command: bool,
    pub dropped_files: Seq<Option<PathView>>,
    pub pointer_released: bool,
}

impl View for InputSnapshot {
    type V = InputView;

    open spec fn view(&self) -> InputView {
        InputView {
            keys_pressed: self.keys_pressed@,
            alt: self.alt,
            ctrl: self.ctrl,
            shift: self.shift,
            mac_cmd: self.mac_cmd,
            command: self.command,
            dropped_files: dropped_views(self.dropped_files@),
            pointer_released: self.pointer_released,
        }
    }
}

impl InputView {
    /// Whether the modifier `modifier` is held.
    pub open spec fn holds(self, modifier: Modifier) -> bool {
        match modifier {
            Modifier::Alt => self.alt,
            Modifier::Ctrl => self.ctrl,
            Modifier::Shift => self.shift,
            Modifier::MacCmd => self.mac_cmd,
            Modifier::Cmd => self.command,
        }
    }
}

impl InputSnapshot {
    /// Whether `key` went down in this frame.
    pub fn key_pressed(&self, key: Key) -> (pressed: bool)
        ensures
            pressed == self@.keys_pressed.contains(key),
    {
        let mut i: usize = 0;
        while i < self.keys_pressed.len()
            invariant
                i <= self.keys_pressed.len(),
                forall|j: int| 0 <= j < i ==> self.keys_pressed@[j] != key,
            decreases self.keys_pressed.len() - i,
        {
            if self.keys_pressed[i] == key {
                return true;
            }
            i += 1;
        }
        false
    }

    /// Whether the modifier `modifier` is held.
    pub fn modifier_held(&self, modifier: Modifier) -> (held: bool)
        ensures
            held == self@.holds(modifier),
    {
        match modifier {
            Modifier::Alt => self.alt,
            Modifier::Ctrl => self.ctrl,
            Modifier::Shift => self.shift,
            Modifier::MacCmd => self.mac_cmd,
            Modifier::Cmd => self.command,
        }
    }
}

/// A key binding: the event that it stands for, and the modifiers and
/// keys that bring it about.
#[derive(Debug, PartialEq, Eq)]
pub struct Event {
    pub event: EventType,
    pub modifiers: Vec<Modifier>,
    pub key: Vec<Key>,
}

/// The mathematical value of an [`Event`].
pub struct BindingView {
    pub event: EventView,
    pub modifiers: Seq<Modifier>,
    pub key: Seq<Key>,
}

impl View for Event {
    type V = BindingView;

    open spec fn view(&self) -> BindingView {
        BindingView { event: self.event@, modifiers: self.modifiers@, key: self.key@ }
    }
}

impl BindingView {
    /// Whether the binding fires on `input`: every one of its keys went
    /// down and every one of its modifiers is held.
    pub open spec fn fires(self, input: InputView) -> bool {
        &&& forall|i: int|
            0 <= i < self.key.len() ==> input.keys_pressed.contains(#[trigger] self.key[i])
        &&& forall|i: int|
            0 <= i < self.modifiers.len() ==> input.holds(#[trigger] self.modifiers[i])
    }
}

impl Event {
    /// The binding of `key`, with the command modifier, to `event`.
    pub fn with_command_key(event: EventType, key: Key) -> (binding: Event)
        ensures
            binding@ == command_binding(event@, key),
    {
        let mut modifiers: Vec<Modifier> = Vec::new();
        modifiers.push(Modifier::Cmd);
        let mut keys: Vec<Key> = Vec::new();
        keys.push(key);
        assert(modifiers@ =~= seq![Modifier::Cmd]);
        assert(keys@ =~= seq![key]);
        Event { event, modifiers, key: keys }
    }

    /// Whether the binding fires on `input`.
    pub fn fires(&self, input: &InputSnapshot) -> (fired: bool)
        ensures
            fired == self@.fires(input@),
    {
        let mut i: usize = 0;
        while i < self.key.len()
            invariant
                i <= self.key.len(),
                forall|j: int| 0 <= j < i ==> input@.keys_pressed.contains(#[trigger] self.key@[j]),
            decreases self.key.len() - i,
        {
            if !input.key_pressed(self.key[i]) {
                assert(!input@.keys_pressed.contains(self@.key[i as int]));
                return false;
            }
            i += 1;
        }
        let mut k: usize = 0;
        while k < self.modifiers.len()
            invariant
                k <= self.modifiers.len(),
                forall|j: int|
                    0 <= j < self.key.len() ==> input@.keys_pressed.contains(
                        #[trigger] self.key@[j],
                    ),
                forall|j: int| 0 <= j < k ==> input@.holds(#[trigger] self.modifiers@[j]),
            decreases self.modifiers.len() - k,
        {
            if !input.modifier_held(self.modifiers[k]) {
                assert(!input@.holds(self@.modifiers[k as int]));
                return false;
            }
            k += 1;
        }
        true
    }
}

/// The values of the bindings that a vector holds, in order.
pub open spec fn binding_views(bindings: Seq<Event>) -> Seq<BindingView> {
    Seq::new(bindings.len(), |i: int| bindings[i]@)
}

/// The binding of `key`, with the command modifier, to `event`.
pub open spec fn command_binding(event: EventView, key: Key) -> BindingView {
    BindingView { event, modifiers: seq![Modifier::Cmd], key: seq![key] }
}

/// The bindings that a new pool has.
pub open spec fn default_bindings() -> Seq<BindingView> {
    seq![
        command_binding(EventView::FocusPathBar, Key::L),
        command_binding(EventView::FocusSearchBar, Key::F),
        command_binding(EventView::DirGoBack, Key::O),
        command_binding(EventView::FavoriteCurrentPath, Key::B),
        command_binding(EventView::NewFile, Key::N),
        command_binding(EventView::ReloadDir, Key::R),
    ]
}

/// The events of the bindings that fire on `input`, in the order of the
/// table.
pub open spec fn fired_events(bindings: Seq<BindingView>, input: InputView) -> Seq<EventView> {
    bindings.filter(|binding: BindingView| binding.fires(input)).map_values(
        |binding: BindingView| binding.event,
    )
}

/// The events of a frame. `emit_event` adds to the events that are
/// handled in this frame; `schedule_event` adds to those that wait for
/// the next one; `flush_events`, at the end of a frame, lets the waiting
/// events in.
pub struct EventPool {
    commands: Vec<Event>,
    events: Vec<EventType>,
    next_frame_events: Vec<EventType>,
}

/// The mathematical value of an [`EventPool`].
pub struct PoolView {
    pub bindings: Seq<BindingView>,
    /// The events that are to be handled in this frame, oldest first.
    pub current: Seq<EventView>,
    /// The events that wait for the next frame, oldest first.
    pub pending: Seq<EventView>,
}

impl PoolView {
    /// The pool after `event` was emitted.
    pub open spec fn emit(self, event: EventView) -> PoolView {
        PoolView { current: self.current.push(event), ..self }
    }

    /// The pool after `event` was scheduled.
    pub open spec fn schedule(self, event: EventView) -> PoolView {
        PoolView { pending: self.pending.push(event), ..self }
    }

    /// The pool after its events were taken out to be handled.
    pub open spec fn drained(self) -> PoolView {
        PoolView { current: Seq::empty(), ..self }
    }

    /// The pool after the end of a frame.
    pub open spec fn flushed(self) -> PoolView {
        PoolView { current: self.pending, pending: Seq::empty(), ..self }
    }

    /// The pool after the bindings were held against `input`.
    pub open spec fn ingest(self, input: InputView) -> PoolView {
        PoolView { current: self.current + fired_events(self.bindings, input), ..self }
    }
}

impl View for EventPool {
    type V = PoolView;

    closed spec fn view(&self) -> PoolView {
        PoolView {
            bindings: binding_views(self.commands@),
            current: event_views(self.events@),
            pending: event_views(self.next_frame_events@),
        }
    }
}

impl EventPool {
    /// A pool with the default bindings and no events.
    pub fn new() -> (pool: EventPool)
        ensures
            pool@ == (PoolView {
                bindings: default_bindings(),
                current: Seq::empty(),
                pending: Seq::empty(),
            }),
    {
        let mut commands: Vec<Event> = Vec::new();
        commands.push(Event::with_command_key(EventType::FocusPathBar, Key::L));
        commands.push(Event::with_command_key(EventType::FocusSearchBar, Key::F));
        commands.push(Event::with_command_key(EventType::DirGoBack, Key::O));
        commands.push(Event::with_command_key(EventType::FavoriteCurrentPath, Key::B));
        commands.push(Event::with_command_key(EventType::NewFile, Key::N));
        commands.push(Event::with_command_key(EventType::ReloadDir, Key::R));
        let pool = EventPool { commands, events: Vec::new(), next_frame_events: Vec::new() };
        assert(binding_views(pool.commands@) =~= default_bindings());
        assert(event_views(pool.events@) =~= Seq::empty());
        assert(event_views(pool.next_frame_events@) =~= Seq::empty());
        pool
    }

    /// A pool with the given bindings and no events.
    pub fn with_bindings(bindings: Vec<Event>) -> (pool: EventPool)
        ensures
            pool@ == (PoolView {
                bindings: binding_views(bindings@),
                current: Seq::empty(),
                pending: Seq::empty(),
            }),
    {
        let pool = EventPool {
            commands: bindings,
            events: Vec::new(),
            next_frame_events: Vec::new(),
        };
        assert(event_views(pool.events@) =~= Seq::empty());
        assert(event_views(pool.next_frame_events@) =~= Seq::empty());
        pool
    }

    /// Ends a frame: the events that were scheduled become the events of
    /// the next frame, and what was left of this frame's events is gone.
    pub fn flush_events(&mut self)
        ensures
            final(self)@ == old(self)@.flushed(),
    {
        let mut waiting: Vec<EventType> = Vec::new();
        std::mem::swap(&mut waiting, &mut self.next_frame_events);
        self.events = waiting;
        assert(event_views(self.next_frame_events@) =~= Seq::empty());
    }

    /// Holds the bindings against the input of the frame and emits the
    /// event of each binding that fires, in the order of the table.
    pub fn emit_input_events(&mut self, input: &InputSnapshot)
        ensures
            final(self)@ == old(self)@.ingest(input@),
    {
        let ghost before = event_views(self.events@);
        let ghost table = binding_views(self.commands@);
        let ghost fire = |binding: BindingView| binding.fires(input@);
        let ghost event_of = |binding: BindingView| binding.event;
        let mut i: usize = 0;
        proof {
            reveal(Seq::filter);
            assert(table.take(0) =~= Seq::empty());
            assert(event_views(self.events@) =~= before + table.take(0).filter(fire).map_values(
                event_of,
            ));
        }
        while i < self.commands.len()
            invariant
                i <= self.commands.len(),
                table == binding_views(self.commands@),
                self.commands == old(self).commands,
                self.next_frame_events == old(self).next_frame_events,
                fire == |binding: BindingView| binding.fires(input@),
                event_of == |binding: BindingView| binding.event,
                event_views(self.events@) == before + table.take(i as int).filter(fire).map_values(
                    event_of,
                ),
            decreases self.commands.len() - i,
        {
            let ghost so_far = table.take(i as int);
            let ghost events_before = event_views(self.events@);
            proof {
                assert(table.take(i + 1) =~= so_far.push(table[i as int]));
                so_far.lemma_filter_push(table[i as int], fire);
            }
            if self.commands[i].fires(input) {
                let event = self.commands[i].event.clone();
                self.events.push(event);
                proof {
                    assert(event_views(self.events@) =~= events_before.push(table[i as int].event));
                    assert(so_far.filter(fire).push(table[i as int]).map_values(event_of)
                        =~= so_far.filter(fire).map_values(event_of).push(table[i as int].event));
                    assert(events_before.push(table[i as int].event) =~= before + so_far.filter(
                        fire,
                    ).map_values(event_of).push(table[i as int].event));
                }
            }
            i += 1;
        }
        assert(table.take(i as int) =~= table);
    }

    /// Whether `event` is among the events of this frame.
    pub fn get_event(&self, event: &EventType) -> (found: bool)
        ensures
            found == self@.current.contains(event@),
    {
        let ghost current = event_views(self.events@);
        let mut i: usize = 0;
        while i < self.events.len()
            invariant
                i <= self.events.len(),
                current == event_views(self.events@),
                forall|j: int| 0 <= j < i ==> current[j] != event@,
            decreases self.events.len() - i,
        {
            if self.events[i].same_as(event) {
                assert(current[i as int] == event@);
                return true;
            }
            i += 1;
        }
        false
    }

    /// The events of this frame, oldest first. The pool keeps them.
    pub fn get_events(&self) -> (events: Vec<EventType>)
        ensures
            event_views(events@) == self@.current,
    {
        clone_events(&self.events)
    }

    /// Takes the events of this frame out of the pool, oldest first.
    pub fn drain(&mut self) -> (events: Vec<EventType>)
        ensures
            event_views(events@) == old(self)@.current,
            final(self)@ == old(self)@.drained(),
    {
        let mut events: Vec<EventType> = Vec::new();
        std::mem::swap(&mut events, &mut self.events);
        assert(event_views(self.events@) =~= Seq::empty());
        events
    }

    /// Adds `event` to the events of this frame.
    pub fn emit_event(&mut self, event: EventType)
        ensures
            final(self)@ == old(self)@.emit(event@),
    {
        let ghost before = event_views(self.events@);
        self.events.push(event);
        assert(event_views(self.events@) =~= before.push(event@));
    }

    /// Adds `event` to the events that wait for the next frame.
    pub fn schedule_event(&mut self, event: EventType)
        ensures
            final(self)@ == old(self)@.schedule(event@),
    {
        let ghost before = event_views(self.next_frame_events@);
        self.next_frame_events.push(event);
        assert(event_views(self.next_frame_events@) =~= before.push(event@));
    }
}

/// An event that is scheduled stays out of the events of the frame in
/// which it is scheduled: taking them out gives what it would have given
/// without it. After the frame has ended it is among the events of the
/// next frame, behind those that were scheduled before it.
pub proof fn lemma_scheduled_event_waits_a_frame(pool: PoolView, event: EventView)
    ensures
        pool.schedule(event).current == pool.current,
        !pool.current.contains(event) ==> !pool.schedule(event).current.contains(event),
        pool.schedule(event).drained().flushed().current == pool.pending.push(event),
        pool.schedule(event).drained().flushed().current.contains(event),
        pool.schedule(event).drained().flushed().pending == Seq::<EventView>::empty(),
{
    let next = pool.schedule(event).drained().flushed().current;
    assert(next[next.len() - 1] == event);
}

/// An event that is emitted is among the events of the frame at once,
/// behind those that were emitted before it.
pub proof fn lemma_emitted_event_is_current(pool: PoolView, event: EventView)
    ensures
        pool.emit(event).current == pool.current.push(event),
        pool.emit(event).current.contains(event),
        pool.emit(event).pending == pool.pending,
{
    let now = pool.emit(event).current;
    assert(now[now.len() - 1] == event);
}

/// A binding with several keys or modifiers does not fire while one of
/// them is missing.
pub proof fn lemma_partial_match_does_not_fire(binding: BindingView, input: InputView)
    requires
        (exists|i: int| 0 <= i < binding.key.len() && !input.keys_pressed.contains(binding.key[i]))
            || (exists|i: int|
            0 <= i < binding.modifiers.len() && !input.holds(binding.modifiers[i])),
    ensures
        !binding.fires(input),
{
}

} // verus!
