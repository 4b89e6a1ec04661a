//! Window arithmetic: how many bytes a read is asked for, and which bytes of
//! a file it covers.

use vstd::prelude::*;

verus! {

/// Files shorter than this many bytes are held whole, unless configured
/// otherwise.
pub const SMALL_FILE_THRESHOLD: u64 = 5_000_000;

/// The number of bytes in a full window, unless configured otherwise.
pub const WINDOW_SIZE: u64 = 10_000;

/// The length of the window that starts at `cursor` in a file of `total`
/// bytes: `window` bytes, or what is left of the file if that is less.
pub open spec fn window_len(window: nat, total: nat, cursor: nat) -> nat {
    if cursor >= total {
        0
    } else if total - cursor < window {
        (total - cursor) as nat
    } else {
        window
    }
}

/// The bytes that a read of `len` bytes at `offset` delivers from a file that
/// holds `content`: the read stops at the end of the file.
pub open spec fn file_window(content: Seq<u8>, offset: nat, len: nat) -> Seq<u8> {
    content.subrange(offset as int, offset as int + window_len(len, content.len(), offset) as int)
}

/// One bounded read at an offset, for the caller to perform.
#[derive(Clone, Copy, Debug, PartialEq, Eq, Structural)]
pub struct ReadRequest {
    /// The offset in the file of the first byte to read.
    pub offset: u64,
    /// The number of bytes to read.
    pub len: u64,
}

/// The two sizes that decide how a file is held.
#[derive(Clone, Copy, Debug, PartialEq, Eq, Structural)]
pub struct ReaderConfig {
    /// A file at least this long is held through a window.
    pub small_file_threshold: u64,
    /// The number of bytes in a full window.
    pub window_size: u64,
}

impl ReaderConfig {
    /// Whether a file of `total` bytes is held whole.
    pub open spec fn is_small(self, total: nat) -> bool {
        total < self.small_file_threshold
    }

    /// The number of bytes that opening a file of `total` bytes reads: all of
    /// a small file, the first window of a large one.
    pub open spec fn open_len(self, total: nat) -> nat {
        if self.is_small(total) {
            total
        } else {
            window_len(self.window_size as nat, total, 0)
        }
    }

    /// The configuration of [`SMALL_FILE_THRESHOLD`] and [`WINDOW_SIZE`].
    pub open spec fn default_sizes() -> ReaderConfig {
        ReaderConfig { small_file_threshold: SMALL_FILE_THRESHOLD, window_size: WINDOW_SIZE }
    }

    /// A configuration with the given sizes.
    pub fn new(small_file_threshold: u64, window_size: u64) -> (config: ReaderConfig)
        ensures
            config.small_file_threshold == small_file_threshold,
            config.window_size == window_size,
    {
        ReaderConfig { small_file_threshold, window_size }
    }

    /// The read that opens a file of `total` bytes.
    pub open spec fn open_request(self, total: nat) -> ReadRequest {
        ReadRequest { offset: 0, len: self.open_len(total) as u64 }
    }

    /// The read that fetches the window at `cursor` of a file of `total`
    /// bytes.
    pub open spec fn window_request(self, total: nat, cursor: nat) -> ReadRequest {
        ReadRequest {
            offset: cursor as u64,
            len: window_len(self.window_size as nat, total, cursor) as u64,
        }
    }

    /// The read that opens a file of `total_length` bytes.
    pub fn plan_open(&self, total_length: u64) -> (request: ReadRequest)
        ensures
            request == self.open_request(total_length as nat),
            request.offset == 0,
            request.len == self.open_len(total_length as nat),
    {
        if total_length < self.small_file_threshold {
            ReadRequest { offset: 0, len: total_length }
        } else {
            self.plan_window(total_length, 0)
        }
    }

    /// The read that fetches the window at `cursor` of a file of
    /// `total_length` bytes.
    pub fn plan_window(&self, total_length: u64, cursor: u64) -> (request: ReadRequest)
        requires
            cursor <= total_length,
        ensures
            request == self.window_request(total_length as nat, cursor as nat),
            request.offset == cursor,
            request.len == window_len(self.window_size as nat, total_length as nat, cursor as nat),
    {
        let rest: u64 = total_length - cursor;
        if rest < self.window_size {
            ReadRequest { offset: cursor, len: rest }
        } else {
            ReadRequest { offset: cursor, len: self.window_size }
        }
    }
}

impl Default for ReaderConfig {
    /// The configuration of [`SMALL_FILE_THRESHOLD`] and [`WINDOW_SIZE`].
    fn default() -> (config: ReaderConfig)
        ensures
            config == ReaderConfig::default_sizes(),
    {
        ReaderConfig { small_file_threshold: SMALL_FILE_THRESHOLD, window_size: WINDOW_SIZE }
    }
}

} // verus!
