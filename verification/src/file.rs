//! One opened file: its path, its length when it was opened, and the bytes of
//! it that are in memory.
//!
//! Edits replace the bytes in memory and go no further. The edits of a window
//! are not written to the file: the next seek, or closing the file, discards
//! them.

use vstd::prelude::*;
use crate::error::{FileError, ReadFault};
use crate::window::{window_len, ReadRequest, ReaderConfig};

verus! {

/// What an [`OpenedFile`] stands for.
pub struct FileView {
    /// The path the file was opened under; it identifies the file.
    pub path: Seq<char>,
    /// The length of the file in bytes when it was opened.
    pub total_length: nat,
    /// The offset in the file of the first byte in memory.
    pub cursor: nat,
    /// The bytes in memory.
    pub buffer: Seq<u8>,
    /// Whether the bytes in memory are a window and not the whole file.
    pub is_partial: bool,
}

/// What a read delivered, with the bytes as a sequence.
pub open spec fn read_view(read: Result<Vec<u8>, ReadFault>) -> Result<Seq<u8>, ReadFault> {
    match read {
        Ok(bytes) => Ok(bytes@),
        Err(fault) => Err(fault),
    }
}

impl FileView {
    /// The cursor lies within the file, and a file held whole has it at 0.
    pub open spec fn valid(self) -> bool {
        &&& self.cursor <= self.total_length
        &&& !self.is_partial ==> self.cursor == 0
    }

    /// The bytes in memory are as many as a read leaves there: the whole
    /// file, or the window at the cursor. An edit may end this; the next
    /// successful seek of a window restores it.
    pub open spec fn fresh(self, window: nat) -> bool {
        self.buffer.len() == if self.is_partial {
            window_len(window, self.total_length, self.cursor)
        } else {
            self.total_length
        }
    }

    /// The file just opened, from the `bytes` that the opening read delivered.
    pub open spec fn opened(
        config: ReaderConfig,
        path: Seq<char>,
        total: nat,
        bytes: Seq<u8>,
    ) -> FileView {
        FileView {
            path,
            total_length: total,
            cursor: 0,
            buffer: bytes,
            is_partial: !config.is_small(total),
        }
    }

    /// What opening yields for each thing the opening read can deliver. A
    /// fault is passed on as the error it stands for; bytes are accepted only
    /// in the number asked for.
    pub open spec fn open_outcome(
        config: ReaderConfig,
        path: Seq<char>,
        total: nat,
        read: Result<Seq<u8>, ReadFault>,
    ) -> Result<FileView, FileError> {
        match read {
            Err(fault) => Err(fault.open_error()),
            Ok(bytes) => if bytes.len() == config.open_len(total) {
                Ok(FileView::opened(config, path, total, bytes))
            } else {
                Err(FileError::IoFailure)
            },
        }
    }

    /// The file with its window moved to `new_cursor` and filled with `bytes`.
    pub open spec fn sought(self, new_cursor: nat, bytes: Seq<u8>) -> FileView {
        FileView { cursor: new_cursor, buffer: bytes, ..self }
    }

    /// What a seek to `new_cursor` reports and leaves behind for each thing
    /// the read can deliver. A file held whole stays as it is. A window moves
    /// only if the read delivered exactly the bytes between the new cursor
    /// and the window's end; otherwise the file stays as it is.
    pub open spec fn seek_outcome(
        self,
        window: nat,
        new_cursor: nat,
        read: Result<Seq<u8>, ReadFault>,
    ) -> (Result<(), FileError>, FileView) {
        if !self.is_partial {
            (Ok(()), self)
        } else {
            match read {
                Ok(bytes) if bytes.len() == window_len(window, self.total_length, new_cursor) => (
                    Ok(()),
                    self.sought(new_cursor, bytes),
                ),
                _ => (Err(FileError::IoFailure), self),
            }
        }
    }

    /// The file with the bytes in memory replaced by `bytes`.
    pub open spec fn edited(self, bytes: Seq<u8>) -> FileView {
        FileView { buffer: bytes, ..self }
    }
}

/// An opened file.
#[derive(Debug)]
pub struct OpenedFile {
    cursor: u64,
    buffer: Vec<u8>,
    partial: bool,
    path: String,
    len: u64,
}

impl View for OpenedFile {
    type V = FileView;

    closed spec fn view(&self) -> FileView {
        FileView {
            path: self.path@,
            total_length: self.len as nat,
            cursor: self.cursor as nat,
            buffer: self.buffer@,
            is_partial: self.partial,
        }
    }
}

impl OpenedFile {
    /// The invariant of an opened file.
    pub open spec fn wf(&self) -> bool {
        self@.valid()
    }

    /// Opens the file at `path`, whose length is `total_length`, from what the
    /// read of [`ReaderConfig::plan_open`] delivered.
    ///
    /// A file shorter than the threshold is held whole; any other through its
    /// first window. Nothing is returned for a read that failed or that
    /// delivered another number of bytes than was asked for.
    pub fn open(
        config: &ReaderConfig,
        path: String,
        total_length: u64,
        read: Result<Vec<u8>, ReadFault>,
    ) -> (r: Result<OpenedFile, FileError>)
        ensures
            match FileView::open_outcome(*config, path@, total_length as nat, read_view(read)) {
                Ok(view) => r is Ok && r->Ok_0@ == view && r->Ok_0.wf() && view.fresh(
                    config.window_size as nat,
                ),
                Err(error) => r is Err && r->Err_0 == error,
            },
    {
        match read {
            Err(fault) => Err(fault.to_open_error()),
            Ok(bytes) => {
                let request = config.plan_open(total_length);
                if bytes.len() as u64 == request.len {
                    Ok(
                        OpenedFile {
                            cursor: 0,
                            buffer: bytes,
                            partial: total_length >= config.small_file_threshold,
                            path,
                            len: total_length,
                        },
                    )
                } else {
                    Err(FileError::IoFailure)
                }
            },
        }
    }

    /// The read that a seek to `new_cursor` needs: none for a file held
    /// whole, the window at `new_cursor` otherwise.
    pub fn seek_request(&self, config: &ReaderConfig, new_cursor: u64) -> (request: Option<
        ReadRequest,
    >)
        requires
            self.wf(),
            new_cursor <= self@.total_length,
        ensures
            request == if self@.is_partial {
                Some(config.window_request(self@.total_length, new_cursor as nat))
            } else {
                None
            },
            request matches Some(r) ==> r.offset == new_cursor && r.len == window_len(
                config.window_size as nat,
                self@.total_length,
                new_cursor as nat,
            ),
    {
        if self.partial {
            Some(config.plan_window(self.len, new_cursor))
        } else {
            None
        }
    }

    /// Moves the window to `new_cursor`, given what the read of
    /// [`OpenedFile::seek_request`] delivered.
    ///
    /// On a file held whole this does nothing and succeeds. On failure the
    /// cursor and the bytes in memory stay as they were.
    pub fn seek(
        &mut self,
        config: &ReaderConfig,
        new_cursor: u64,
        read: Result<Vec<u8>, ReadFault>,
    ) -> (r: Result<(), FileError>)
        requires
            old(self).wf(),
            new_cursor <= old(self)@.total_length,
        ensures
            final(self).wf(),
            (r, final(self)@) == old(self)@.seek_outcome(
                config.window_size as nat,
                new_cursor as nat,
                read_view(read),
            ),
            r is Ok && old(self)@.is_partial ==> final(self)@.cursor == new_cursor
                && final(self)@.fresh(config.window_size as nat),
    {
        if !self.partial {
            return Ok(());
        }
        match read {
            Err(_) => Err(FileError::IoFailure),
            Ok(bytes) => {
                let request = config.plan_window(self.len, new_cursor);
                if bytes.len() as u64 == request.len {
                    self.buffer = bytes;
                    self.cursor = new_cursor;
                    Ok(())
                } else {
                    Err(FileError::IoFailure)
                }
            },
        }
    }

    /// Replaces the bytes in memory by `bytes`, the edited text. Nothing else
    /// changes, and nothing is written to the file.
    pub fn commit_edit(&mut self, bytes: Vec<u8>)
        requires
            old(self).wf(),
        ensures
            final(self).wf(),
            final(self)@ == old(self)@.edited(bytes@),
    {
        self.buffer = bytes;
    }

    /// The path the file was opened under.
    pub fn path(&self) -> (path: &String)
        ensures
            path@ == self@.path,
    {
        &self.path
    }

    /// The length of the file in bytes when it was opened.
    pub fn total_length(&self) -> (len: u64)
        ensures
            len == self@.total_length,
    {
        self.len
    }

    /// The offset in the file of the first byte in memory.
    pub fn cursor(&self) -> (cursor: u64)
        ensures
            cursor == self@.cursor,
    {
        self.cursor
    }

    /// The bytes in memory.
    pub fn buffer(&self) -> (buffer: &Vec<u8>)
        ensures
            buffer@ == self@.buffer,
    {
        &self.buffer
    }

    /// Whether the bytes in memory are a window and not the whole file.
    pub fn is_partial(&self) -> (partial: bool)
        ensures
            partial == self@.is_partial,
    {
        self.partial
    }
}

} // verus!
