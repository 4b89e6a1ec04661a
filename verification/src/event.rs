//! The registry as a machine: what happened goes in, what to do next comes
//! out.
//!
//! The machine reads no file. Where a file has to be looked at it answers
//! with the stat or the read that is needed, and whoever drives it performs
//! that and reports what came of it as the next event.

use vstd::prelude::*;
use crate::error::{FileError, ReadFault};
use crate::file::{read_view, FileView, OpenedFile};
use crate::registry::{AppView, MicronApp};
use crate::window::ReadRequest;

verus! {

/// Something that happened: a wish of the user, or the result of a stat or a
/// read that an [`Action`] asked for.
#[derive(Debug, PartialEq, Eq)]
pub enum Event {
    /// The user wants the file at `path` opened and shown.
    Open { path: String },
    /// The stat of [`Action::Stat`] for `path` gave `size`.
    Sized { path: String, size: Result<u64, ReadFault> },
    /// The read of [`Action::Load`] for `path` gave `read`.
    Loaded { path: String, total_length: u64, read: Result<Vec<u8>, ReadFault> },
    /// The user picked the opened file at `path`.
    Select { path: String },
    /// The user closed the file at `path`.
    Close { path: String },
    /// The user closed every file.
    CloseAll,
    /// The user moved the cursor of the active file to `new_cursor`.
    Seek { new_cursor: u64 },
    /// The read of [`Action::Fetch`] for `path` gave `read`.
    Fetched { path: String, new_cursor: u64, read: Result<Vec<u8>, ReadFault> },
    /// The user edited the text of the active file, which is now `bytes`.
    Edit { bytes: Vec<u8> },
}

/// What an [`Event`] stands for.
pub enum EventView {
    Open { path: Seq<char> },
    Sized { path: Seq<char>, size: Result<u64, ReadFault> },
    Loaded { path: Seq<char>, total_length: u64, read: Result<Seq<u8>, ReadFault> },
    Select { path: Seq<char> },
    Close { path: Seq<char> },
    CloseAll,
    Seek { new_cursor: u64 },
    Fetched { path: Seq<char>, new_cursor: u64, read: Result<Seq<u8>, ReadFault> },
    Edit { bytes: Seq<u8> },
}

impl View for Event {
    type V = EventView;

    open spec fn view(&self) -> EventView {
        match *self {
            Event::Open { path } => EventView::Open { path: path@ },
            Event::Sized { path, size } => EventView::Sized { path: path@, size },
            Event::Loaded { path, total_length, read } => EventView::Loaded {
                path: path@,
                total_length,
                read: read_view(read),
            },
            Event::Select { path } => EventView::Select { path: path@ },
            Event::Close { path } => EventView::Close { path: path@ },
            Event::CloseAll => EventView::CloseAll,
            Event::Seek { new_cursor } => EventView::Seek { new_cursor },
            Event::Fetched { path, new_cursor, read } => EventView::Fetched {
                path: path@,
                new_cursor,
                read: read_view(read),
            },
            Event::Edit { bytes } => EventView::Edit { bytes: bytes@ },
        }
    }
}

/// What is to be done after an [`Event`].
#[derive(Debug, PartialEq, Eq)]
pub enum Action {
    /// Nothing: the event is dealt with.
    Done,
    /// Find out the length of the file at `path` and report it as
    /// [`Event::Sized`].
    Stat { path: String },
    /// Perform `request` on the file at `path` and report what it delivered
    /// as [`Event::Loaded`], with this `total_length`.
    Load { path: String, total_length: u64, request: ReadRequest },
    /// Perform `request` on the file at `path` and report what it delivered
    /// as [`Event::Fetched`], with this `new_cursor`.
    Fetch { path: String, new_cursor: u64, request: ReadRequest },
    /// Tell the user that the event failed with `error`.
    Report { error: FileError },
}

/// What an [`Action`] stands for.
pub enum ActionView {
    Done,
    Stat { path: Seq<char> },
    Load { path: Seq<char>, total_length: u64, request: ReadRequest },
    Fetch { path: Seq<char>, new_cursor: u64, request: ReadRequest },
    Report { error: FileError },
}

impl View for Action {
    type V = ActionView;

    open spec fn view(&self) -> ActionView {
        match *self {
            Action::Done => ActionView::Done,
            Action::Stat { path } => ActionView::Stat { path: path@ },
            Action::Load { path, total_length, request } => ActionView::Load {
                path: path@,
                total_length,
                request,
            },
            Action::Fetch { path, new_cursor, request } => ActionView::Fetch {
                path: path@,
                new_cursor,
                request,
            },
            Action::Report { error } => ActionView::Report { error },
        }
    }
}

/// The action that closes an event which came out as `result`.
pub open spec fn settle(result: Result<(), FileError>) -> ActionView {
    match result {
        Ok(()) => ActionView::Done,
        Err(error) => ActionView::Report { error },
    }
}

impl AppView {
    /// The events that make sense in this state: a cursor may not be moved
    /// beyond the length of its file.
    pub open spec fn admits(self, event: EventView) -> bool {
        match event {
            EventView::Seek { new_cursor } => self.active matches Some(path)
                ==> new_cursor <= self.files[path].total_length,
            EventView::Fetched { path, new_cursor, read } => self.files.contains_key(path)
                ==> new_cursor <= self.files[path].total_length,
            _ => true,
        }
    }

    /// The action that answers `event` in this state, and the state after it.
    pub open spec fn step(self, event: EventView) -> (ActionView, AppView) {
        match event {
            EventView::Open { path } => if self.files.contains_key(path) {
                (ActionView::Done, AppView { active: Some(path), ..self })
            } else {
                (ActionView::Stat { path }, self)
            },
            EventView::Sized { path, size } => match size {
                Ok(total_length) => (
                    ActionView::Load {
                        path,
                        total_length,
                        request: self.config.open_request(total_length as nat),
                    },
                    self,
                ),
                Err(fault) => (ActionView::Report { error: fault.open_error() }, self),
            },
            EventView::Loaded { path, total_length, read } => match FileView::open_outcome(
                self.config,
                path,
                total_length as nat,
                read,
            ) {
                Ok(file) => (ActionView::Done, self.with_file(file).select_outcome(path).1),
                Err(error) => (ActionView::Report { error }, self),
            },
            EventView::Select { path } => (
                settle(self.select_outcome(path).0),
                self.select_outcome(path).1,
            ),
            EventView::Close { path } => (ActionView::Done, self.without(path)),
            EventView::CloseAll => (ActionView::Done, self.without_all()),
            EventView::Seek { new_cursor } => match self.active {
                Some(path) => if self.files[path].is_partial {
                    (
                        ActionView::Fetch {
                            path,
                            new_cursor,
                            request: self.config.window_request(
                                self.files[path].total_length,
                                new_cursor as nat,
                            ),
                        },
                        self,
                    )
                } else {
                    (ActionView::Done, self)
                },
                None => (ActionView::Report { error: FileError::NotOpen }, self),
            },
            EventView::Fetched { path, new_cursor, read } => (
                settle(self.seek_outcome(path, new_cursor as nat, read).0),
                self.seek_outcome(path, new_cursor as nat, read).1,
            ),
            EventView::Edit { bytes } => match self.active {
                Some(path) => (ActionView::Done, self.edit_outcome(path, bytes).1),
                None => (ActionView::Report { error: FileError::NotOpen }, self),
            },
        }
    }
}

impl MicronApp {
    /// Whether `event` makes sense in this state, so that [`MicronApp::update`]
    /// may be given it.
    pub fn admits(&self, event: &Event) -> (admitted: bool)
        requires
            self.wf(),
        ensures
            admitted == self@.admits(event@),
    {
        match event {
            Event::Seek { new_cursor } => match self.active_file() {
                Some(file) => *new_cursor <= file.total_length(),
                None => true,
            },
            Event::Fetched { path, new_cursor, read: _ } => match self.get(path) {
                Some(file) => *new_cursor <= file.total_length(),
                None => true,
            },
            _ => true,
        }
    }

    /// Takes in `event` and answers with what is to be done next.
    ///
    /// Opening goes in three steps. [`Event::Open`] is answered with
    /// [`Action::Stat`]; for a file that is open already it reads nothing and
    /// only makes that file the active one. [`Event::Sized`] is answered with
    /// [`Action::Load`], and [`Event::Loaded`] stores the file, unless one
    /// was stored under its path meanwhile, and makes it the active one.
    ///
    /// A seek goes in two steps. [`Event::Seek`] is answered with
    /// [`Action::Fetch`], or is done at once where the active file is held
    /// whole; [`Event::Fetched`] moves the window.
    ///
    /// Every failure is answered with [`Action::Report`] and leaves the
    /// registry as it was.
    pub fn update(&mut self, event: Event) -> (action: Action)
        requires
            old(self).wf(),
            old(self)@.admits(event@),
        ensures
            final(self).wf(),
            (action@, final(self)@) == old(self)@.step(event@),
    {
        match event {
            Event::Open { path } => {
                match self.set_active(&path) {
                    Ok(()) => Action::Done,
                    Err(_) => Action::Stat { path },
                }
            },
            Event::Sized { path, size } => {
                match size {
                    Ok(total_length) => {
                        let request = self.config().plan_open(total_length);
                        Action::Load { path, total_length, request }
                    },
                    Err(fault) => Action::Report { error: fault.to_open_error() },
                }
            },
            Event::Loaded { path, total_length, read } => {
                let config = self.config();
                match OpenedFile::open(&config, path.clone(), total_length, read) {
                    Ok(file) => {
                        self.open_or_get(file);
                        let _ = self.set_active(&path);
                        Action::Done
                    },
                    Err(error) => Action::Report { error },
                }
            },
            Event::Select { path } => {
                match self.set_active(&path) {
                    Ok(()) => Action::Done,
                    Err(error) => Action::Report { error },
                }
            },
            Event::Close { path } => {
                self.close(&path);
                Action::Done
            },
            Event::CloseAll => {
                self.close_all();
                Action::Done
            },
            Event::Seek { new_cursor } => {
                let config = self.config();
                match self.active_file() {
                    Some(file) => {
                        proof {
                            self.lemma_valid();
                        }
                        match file.seek_request(&config, new_cursor) {
                            Some(request) => Action::Fetch {
                                path: file.path().clone(),
                                new_cursor,
                                request,
                            },
                            None => Action::Done,
                        }
                    },
                    None => Action::Report { error: FileError::NotOpen },
                }
            },
            Event::Fetched { path, new_cursor, read } => {
                match self.seek(&path, new_cursor, read) {
                    Ok(()) => Action::Done,
                    Err(error) => Action::Report { error },
                }
            },
            Event::Edit { bytes } => {
                let active = match self.active() {
                    Some(path) => Some(path.clone()),
                    None => None,
                };
                match active {
                    Some(path) => {
                        proof {
                            self.lemma_valid();
                        }
                        let _ = self.commit_edit(&path, bytes);
                        Action::Done
                    },
                    None => Action::Report { error: FileError::NotOpen },
                }
            },
        }
    }
}

} // verus!
