//! The event coordinator: what each event of the two input streams, the
//! results of the scan and the actions of the user, does to the screen, and
//! what it asks of the caller.

use crate::accounting::{event_size, stream_size};
use crate::computer::{ComputationEvent, EventRecord, ScanError};
use crate::file_info::{FileInfo, FileRecord};
use crate::screen::{scanning, ScanStatus, Screen, ScreenView};
use crate::stream::only_records;
use vstd::arithmetic::div_mod::{lemma_add_mod_noop, lemma_small_mod};
use vstd::prelude::*;

verus! {

/// What the user can ask for.
#[derive(Clone, Copy, Debug, PartialEq, Eq, Structural)]
pub enum UserAction {
    /// Open the selected row.
    Enter,
    /// Scan the shown directory again.
    Refresh,
    /// Drop the selection, or go to the parent directory where nothing is
    /// selected.
    Escape,
    Home,
    End,
    PageUp,
    PageDown,
    Up,
    Down,
    /// The mouse wheel, by a number of lines.
    Wheel(i32),
    Quit,
    /// Any other input.
    Other,
}

/// A key of the keyboard, as far as the explorer tells keys apart.
#[derive(Clone, Copy, Debug, PartialEq, Eq, Structural)]
pub enum Key {
    Enter,
    Esc,
    Home,
    End,
    PageUp,
    PageDown,
    Up,
    Down,
    /// A function key, by its number.
    F(u8),
    /// A key that gives a character.
    Char(char),
    /// Any other key.
    Other,
}

/// The modifier keys held down with a key.
#[derive(Clone, Copy, Debug, PartialEq, Eq, Structural)]
pub struct Modifiers {
    pub shift: bool,
    pub control: bool,
    pub alt: bool,
}

/// What the terminal reports of the user.
#[derive(Clone, Copy, Debug, PartialEq, Eq, Structural)]
pub enum Input {
    /// A key was pressed, with these modifiers held down.
    Key(Key, Modifiers),
    /// The mouse wheel turned by a number of lines.
    Wheel(i32),
    /// Anything else: a click, a change of size.
    Other,
}

/// No modifier key is held down.
pub open spec fn is_plain(modifiers: Modifiers) -> bool {
    !modifiers.shift && !modifiers.control && !modifiers.alt
}

/// The control key is held down, and no other modifier key.
pub open spec fn is_control(modifiers: Modifiers) -> bool {
    !modifiers.shift && modifiers.control && !modifiers.alt
}

/// The action that an input stands for. The keys are taken without
/// modifiers, except `q`, which quits with the control key; the fifth
/// function key refreshes.
pub open spec fn input_action(input: Input) -> UserAction {
    match input {
        Input::Key(key, modifiers) => if is_plain(modifiers) {
            match key {
                Key::Enter => UserAction::Enter,
                Key::Esc => UserAction::Escape,
                Key::Home => UserAction::Home,
                Key::End => UserAction::End,
                Key::PageUp => UserAction::PageUp,
                Key::PageDown => UserAction::PageDown,
                Key::Up => UserAction::Up,
                Key::Down => UserAction::Down,
                Key::F(n) => if n == 5 {
                    UserAction::Refresh
                } else {
                    UserAction::Other
                },
                Key::Char(_) => UserAction::Other,
                Key::Other => UserAction::Other,
            }
        } else if is_control(modifiers) && key == Key::Char('q') {
            UserAction::Quit
        } else {
            UserAction::Other
        },
        Input::Wheel(lines) => UserAction::Wheel(lines),
        Input::Other => UserAction::Other,
    }
}

/// Names the action that an input stands for.
pub fn decode(input: Input) -> (action: UserAction)
    ensures
        action == input_action(input),
{
    match input {
        Input::Key(key, modifiers) => {
            let held = modifiers.shift || modifiers.control || modifiers.alt;
            if !held {
                match key {
                    Key::Enter => UserAction::Enter,
                    Key::Esc => UserAction::Escape,
                    Key::Home => UserAction::Home,
                    Key::End => UserAction::End,
                    Key::PageUp => UserAction::PageUp,
                    Key::PageDown => UserAction::PageDown,
                    Key::Up => UserAction::Up,
                    Key::Down => UserAction::Down,
                    Key::F(n) => {
                        if n == 5 {
                            UserAction::Refresh
                        } else {
                            UserAction::Other
                        }
                    },
                    _ => UserAction::Other,
                }
            } else if modifiers.control && !modifiers.shift && !modifiers.alt {
                match key {
                    Key::Char(c) => {
                        if c == 'q' {
                            UserAction::Quit
                        } else {
                            UserAction::Other
                        }
                    },
                    _ => UserAction::Other,
                }
            } else {
                UserAction::Other
            }
        },
        Input::Wheel(lines) => UserAction::Wheel(lines),
        Input::Other => UserAction::Other,
    }
}

/// What the coordinator asks of the caller after an event.
#[derive(Clone, Debug, PartialEq, Eq)]
pub enum Effect {
    /// Nothing.
    Nothing,
    /// Clear the rows and start a scan of this directory.
    StartScan(String),
    /// Hand this file to the program that the system opens it with.
    OpenFile(String),
    /// Show one more row.
    AddRow(FileInfo),
    /// Drop the selection.
    Unselect,
    SelectFirst,
    SelectLast,
    /// Scroll by a number of pages, up if negative.
    ScrollPages(i32),
    /// Move the selection by one row, up if `true`.
    SelectNext(bool),
    /// Scroll by a number of lines.
    ScrollLines(i32),
    /// Leave the event loop.
    Quit,
    /// Leave the event loop and report a failure: the result stream was
    /// closed, which a running program never does.
    Abort,
}

/// The mathematical content of an [`Effect`].
pub enum EffectView {
    Nothing,
    StartScan(Seq<char>),
    OpenFile(Seq<char>),
    AddRow(FileRecord),
    Unselect,
    SelectFirst,
    SelectLast,
    ScrollPages(int),
    SelectNext(bool),
    ScrollLines(int),
    Quit,
    Abort,
}

impl View for Effect {
    type V = EffectView;

    open spec fn view(&self) -> EffectView {
        match self {
            Effect::Nothing => EffectView::Nothing,
            Effect::StartScan(path) => EffectView::StartScan(path@),
            Effect::OpenFile(path) => EffectView::OpenFile(path@),
            Effect::AddRow(info) => EffectView::AddRow(info@),
            Effect::Unselect => EffectView::Unselect,
            Effect::SelectFirst => EffectView::SelectFirst,
            Effect::SelectLast => EffectView::SelectLast,
            Effect::ScrollPages(pages) => EffectView::ScrollPages(*pages as int),
            Effect::SelectNext(up) => EffectView::SelectNext(*up),
            Effect::ScrollLines(lines) => EffectView::ScrollLines(*lines as int),
            Effect::Quit => EffectView::Quit,
            Effect::Abort => EffectView::Abort,
        }
    }
}

/// What an event of the result stream does. A record is added to the rows
/// and its size to the running total; the marker completes a scan that was
/// computing.
pub open spec fn result_outcome(screen: ScreenView, event: EventRecord) -> (
    ScreenView,
    EffectView,
) {
    match event {
        EventRecord::FileInfo(record) => (
            ScreenView {
                total_size: ((screen.total_size + record.size) % 0x1_0000_0000_0000_0000) as u64,
                ..screen
            },
            EffectView::AddRow(record),
        ),
        EventRecord::Finished => (
            ScreenView {
                status: if screen.status == ScanStatus::Computing {
                    ScanStatus::Complete
                } else {
                    screen.status
                },
                ..screen
            },
            EffectView::Nothing,
        ),
    }
}

/// What receiving from the result stream does: the outcome of the event
/// where there is one, and a failure where the stream was found closed.
pub open spec fn received_outcome(screen: ScreenView, received: Option<EventRecord>) -> (
    ScreenView,
    EffectView,
) {
    match received {
        Some(event) => result_outcome(screen, event),
        None => (screen, EffectView::Abort),
    }
}

/// The content of what was received from the result stream.
pub open spec fn received_view(received: Option<ComputationEvent>) -> Option<EventRecord> {
    match received {
        Some(event) => Some(event@),
        None => None,
    }
}

/// The screen after the events of `stream`, taken in order.
pub open spec fn consume(screen: ScreenView, stream: Seq<EventRecord>) -> ScreenView
    decreases stream.len(),
{
    if stream.len() == 0 {
        screen
    } else {
        result_outcome(consume(screen, stream.drop_last()), stream.last()).0
    }
}

/// What an action of the user does, given the selected row, if any, and
/// the parent of the shown directory, if it has one.
///
/// Entering a directory, refreshing, and escaping to the parent start a
/// scan. Entering a file opens it. Escaping drops the selection where there
/// is one, and leaves the loop where there is neither a selection nor a
/// parent. Everything else moves the selection or the view and leaves the
/// scan alone.
pub open spec fn user_outcome(
    screen: ScreenView,
    action: UserAction,
    selection: Option<FileRecord>,
    parent: Option<Seq<char>>,
) -> (ScreenView, EffectView) {
    match action {
        UserAction::Enter => match selection {
            Some(row) => if row.is_dir {
                (scanning(screen, row.path), EffectView::StartScan(row.path))
            } else {
                (screen, EffectView::OpenFile(row.path))
            },
            None => (screen, EffectView::Nothing),
        },
        UserAction::Refresh => (scanning(screen, screen.root), EffectView::StartScan(screen.root)),
        UserAction::Escape => if selection is Some {
            (screen, EffectView::Unselect)
        } else {
            match parent {
                Some(path) => (scanning(screen, path), EffectView::StartScan(path)),
                None => (screen, EffectView::Quit),
            }
        },
        UserAction::Home => (screen, EffectView::SelectFirst),
        UserAction::End => (screen, EffectView::SelectLast),
        UserAction::PageUp => (screen, EffectView::ScrollPages(-1)),
        UserAction::PageDown => (screen, EffectView::ScrollPages(1)),
        UserAction::Up => (screen, EffectView::SelectNext(true)),
        UserAction::Down => (screen, EffectView::SelectNext(false)),
        UserAction::Wheel(lines) => (screen, EffectView::ScrollLines(lines as int)),
        UserAction::Quit => (screen, EffectView::Quit),
        UserAction::Other => (screen, EffectView::Nothing),
    }
}

/// The content of an optional row.
pub open spec fn row_view(selection: Option<&FileInfo>) -> Option<FileRecord> {
    match selection {
        Some(row) => Some(row@),
        None => None,
    }
}

/// The content of an optional path.
pub open spec fn path_view(path: Option<String>) -> Option<Seq<char>> {
    match path {
        Some(p) => Some(p@),
        None => None,
    }
}

/// The parent of a path, as `std::path::Path::parent` gives it: the path
/// without its last component, or `None` where the path ends in a root or
/// is empty.
pub uninterp spec fn path_parent(path: Seq<char>) -> Option<Seq<char>>;

/// Calls `std::path::Path::parent` on a path that is text and gives the
/// result as text. The contract claims only that the result is what that
/// function returns for this path, which [`path_parent`] names.
#[verifier::external_body]
fn parent_of(path: &str) -> (parent: Option<String>)
    ensures
        path_view(parent) == path_parent(path@),
{
    match std::path::Path::new(path).parent() {
        Some(dir) => Some(dir.to_string_lossy().into_owned()),
        None => None,
    }
}

impl Screen {
    /// Takes one event of the result stream.
    pub fn on_computation(&mut self, event: ComputationEvent) -> (effect: Effect)
        ensures
            (final(self)@, effect@) == result_outcome(old(self)@, event@),
    {
        match event {
            ComputationEvent::FileInfo(info) => {
                self.add_to_total_size(info.size);
                Effect::AddRow(info)
            },
            ComputationEvent::Finished => {
                self.set_finished();
                Effect::Nothing
            },
        }
    }

    /// Takes the outcome of starting the scan that [`Effect::StartScan`]
    /// asked for: a scan that could not start shows as unreadable, so that
    /// the screen does not wait for records that will never come.
    pub fn on_started(&mut self, failure: Option<ScanError>)
        ensures
            final(self)@ == (match failure {
                Some(_) => ScreenView { status: ScanStatus::Unreadable, ..old(self)@ },
                None => old(self)@,
            }),
    {
        if failure.is_some() {
            self.set_unreadable();
        }
    }

    /// Takes what was received from the result stream: an event, or `None`
    /// where the stream was found closed.
    pub fn on_received(&mut self, received: Option<ComputationEvent>) -> (effect: Effect)
        ensures
            (final(self)@, effect@) == received_outcome(old(self)@, received_view(received)),
    {
        match received {
            Some(event) => self.on_computation(event),
            None => Effect::Abort,
        }
    }

    /// Takes one action of the user, where the caller knows the parent of
    /// the shown directory.
    pub fn apply(
        &mut self,
        action: UserAction,
        selection: Option<&FileInfo>,
        parent: Option<String>,
    ) -> (effect: Effect)
        ensures
            (final(self)@, effect@) == user_outcome(
                old(self)@,
                action,
                row_view(selection),
                path_view(parent),
            ),
    {
        match action {
            UserAction::Enter => match selection {
                Some(row) => {
                    if row.is_dir {
                        self.set_new_root(row.path.clone());
                        Effect::StartScan(row.path.clone())
                    } else {
                        Effect::OpenFile(row.path.clone())
                    }
                },
                None => Effect::Nothing,
            },
            UserAction::Refresh => {
                let root = self.get_root().clone();
                self.set_new_root(root.clone());
                Effect::StartScan(root)
            },
            UserAction::Escape => {
                if selection.is_some() {
                    Effect::Unselect
                } else {
                    match parent {
                        Some(path) => {
                            self.set_new_root(path.clone());
                            Effect::StartScan(path)
                        },
                        None => Effect::Quit,
                    }
                }
            },
            UserAction::Home => Effect::SelectFirst,
            UserAction::End => Effect::SelectLast,
            UserAction::PageUp => Effect::ScrollPages(-1),
            UserAction::PageDown => Effect::ScrollPages(1),
            UserAction::Up => Effect::SelectNext(true),
            UserAction::Down => Effect::SelectNext(false),
            UserAction::Wheel(lines) => Effect::ScrollLines(lines),
            UserAction::Quit => Effect::Quit,
            UserAction::Other => Effect::Nothing,
        }
    }

    /// Takes one action of the user, looking up the parent of the shown
    /// directory.
    pub fn on_user(&mut self, action: UserAction, selection: Option<&FileInfo>) -> (effect: Effect)
        ensures
            (final(self)@, effect@) == user_outcome(
                old(self)@,
                action,
                row_view(selection),
                path_parent(old(self)@.root),
            ),
    {
        let parent = parent_of(self.get_root().as_str());
        self.apply(action, selection, parent)
    }
}

/// The events of a stream leave the root and the layout alone, add the sizes
/// of its records to the running total, modulo 2 to the power 64, and a
/// stream without a marker leaves the status alone.
pub proof fn lemma_consume(screen: ScreenView, stream: Seq<EventRecord>)
    ensures
        consume(screen, stream).root == screen.root,
        consume(screen, stream).dimensions == screen.dimensions,
        consume(screen, stream).list_area == screen.list_area,
        consume(screen, stream).total_size == (screen.total_size + stream_size(stream))
            % 0x1_0000_0000_0000_0000,
        only_records(stream) ==> consume(screen, stream).status == screen.status,
    decreases stream.len(),
{
    if stream.len() > 0 {
        let front = stream.drop_last();
        lemma_consume(screen, front);
        lemma_add_mod_noop(
            screen.total_size + stream_size(front),
            event_size(stream.last()) as int,
            0x1_0000_0000_0000_0000,
        );
        lemma_small_mod(consume(screen, front).total_size as nat, 0x1_0000_0000_0000_0000);
        if only_records(stream) {
            assert forall|i: int| 0 <= i < front.len() implies #[trigger] front[i] is FileInfo by {
                assert(front[i] == stream[i]);
            }
        }
    }
}

/// A screen that is computing and takes the whole stream of a completed
/// scan, records first and the marker last, ends complete, and its running
/// total is what it was plus the sizes of the records, modulo 2 to the
/// power 64.
pub proof fn completed_stream_completes_the_screen(screen: ScreenView, stream: Seq<EventRecord>)
    requires
        screen.status == ScanStatus::Computing,
        stream.len() > 0,
        stream.last() == EventRecord::Finished,
        only_records(stream.drop_last()),
    ensures
        consume(screen, stream).status == ScanStatus::Complete,
        consume(screen, stream).root == screen.root,
        consume(screen, stream).total_size == (screen.total_size + stream_size(stream))
            % 0x1_0000_0000_0000_0000,
{
    lemma_consume(screen, stream);
    lemma_consume(screen, stream.drop_last());
}

} // verus!
