//! What holds of the core whatever the files hold and whatever the reads
//! deliver, stated over the views of its types.
//!
//! A file is taken here as the sequence of bytes it holds, and a read that
//! goes well as one that delivers [`file_window`] of them.

use vstd::prelude::*;
use crate::error::{FileError, ReadFault};
use crate::event::{ActionView, EventView};
use crate::file::FileView;
use crate::registry::AppView;
use crate::window::{file_window, window_len, ReaderConfig};

verus! {

/// A file shorter than the threshold opens whole: the read asked for covers
/// all of it, and the handle holds every byte, at cursor 0, not partial.
pub proof fn lemma_small_file_opens_whole(config: ReaderConfig, path: Seq<char>, content: Seq<u8>)
    requires
        content.len() < config.small_file_threshold,
    ensures
        ({
            let request = config.open_request(content.len());
            let read = file_window(content, request.offset as nat, request.len as nat);
            let opened = FileView::open_outcome(config, path, content.len(), Ok(read));
            &&& read == content
            &&& opened is Ok
            &&& !opened->Ok_0.is_partial
            &&& opened->Ok_0.buffer == content
            &&& opened->Ok_0.buffer.len() == content.len()
            &&& opened->Ok_0.cursor == 0
            &&& opened->Ok_0.total_length == content.len()
            &&& opened->Ok_0.path == path
            &&& opened->Ok_0.valid()
        }),
{
    let request = config.open_request(content.len());
    let read = file_window(content, request.offset as nat, request.len as nat);
    assert(read =~= content);
}

/// A file at least as long as the threshold opens through its first window:
/// the handle is partial, at cursor 0, and holds the first `window_size`
/// bytes of the file, or all of them if the file has fewer.
pub proof fn lemma_large_file_opens_window(config: ReaderConfig, path: Seq<char>, content: Seq<u8>)
    requires
        config.small_file_threshold <= content.len(),
    ensures
        ({
            let request = config.open_request(content.len());
            let read = file_window(content, request.offset as nat, request.len as nat);
            let opened = FileView::open_outcome(config, path, content.len(), Ok(read));
            let held = window_len(config.window_size as nat, content.len(), 0);
            &&& opened is Ok
            &&& opened->Ok_0.is_partial
            &&& opened->Ok_0.buffer.len() == held
            &&& held == if config.window_size <= content.len() {
                config.window_size as nat
            } else {
                content.len()
            }
            &&& opened->Ok_0.buffer == content.subrange(0, held as int)
            &&& opened->Ok_0.cursor == 0
            &&& opened->Ok_0.total_length == content.len()
            &&& opened->Ok_0.path == path
            &&& opened->Ok_0.valid()
        }),
{
}

/// A seek within a partial file whose read goes well moves the cursor there
/// and leaves in memory the bytes of the file from the cursor on, `window`
/// of them or as many as the file still has.
pub proof fn lemma_seek_moves_window(
    file: FileView,
    config: ReaderConfig,
    new_cursor: nat,
    content: Seq<u8>,
)
    requires
        file.valid(),
        file.is_partial,
        content.len() == file.total_length,
        file.total_length <= u64::MAX,
        new_cursor <= file.total_length,
    ensures
        ({
            let request = config.window_request(file.total_length, new_cursor);
            let read = file_window(content, request.offset as nat, request.len as nat);
            let (result, after) = file.seek_outcome(config.window_size as nat, new_cursor, Ok(read));
            let held = window_len(config.window_size as nat, file.total_length, new_cursor);
            &&& result is Ok
            &&& after.cursor == new_cursor
            &&& after.buffer.len() == held
            &&& held == if config.window_size <= file.total_length - new_cursor {
                config.window_size as nat
            } else {
                (file.total_length - new_cursor) as nat
            }
            &&& after.buffer == content.subrange(new_cursor as int, new_cursor as int + held as int)
            &&& after.total_length == file.total_length
            &&& after.is_partial
            &&& after.path == file.path
            &&& after.valid()
            &&& after.fresh(config.window_size as nat)
        }),
{
}

/// Whatever the read delivers, a seek either moves the window to the new
/// cursor, with as many bytes as the window there has, or reports
/// [`FileError::IoFailure`] and leaves the file as it was. A file held whole
/// is never touched. The file stays valid either way.
pub proof fn lemma_seek_all_or_nothing(
    file: FileView,
    window: nat,
    new_cursor: nat,
    read: Result<Seq<u8>, ReadFault>,
)
    requires
        file.valid(),
        new_cursor <= file.total_length,
    ensures
        ({
            let (result, after) = file.seek_outcome(window, new_cursor, read);
            &&& after.valid()
            &&& after.path == file.path
            &&& after.total_length == file.total_length
            &&& after.is_partial == file.is_partial
            &&& !file.is_partial ==> result is Ok && after == file
            &&& result is Err ==> result == Err::<(), FileError>(FileError::IoFailure) && after
                == file
            &&& result is Ok && file.is_partial ==> after.cursor == new_cursor && after.fresh(
                window,
            ) && read == Ok::<Seq<u8>, ReadFault>(after.buffer)
        }),
{
}

/// A file that is offered to the registry a second time changes nothing:
/// the registry is as after the first time, and the handle under the path
/// is the one stored then, with its bytes and its cursor.
pub proof fn lemma_open_or_get_idempotent(app: AppView, first: FileView, second: FileView)
    requires
        first.path == second.path,
    ensures
        app.with_file(first).with_file(second) == app.with_file(first),
        app.with_file(first).files.contains_key(first.path),
        app.with_file(first).with_file(second).files[second.path] == app.with_file(
            first,
        ).files[first.path],
{
}

/// To ask for a file that is open already reads nothing: the answer is
/// [`ActionView::Done`], neither a stat nor a read, and the opened files are
/// untouched; the file is now the active one.
pub proof fn lemma_reopen_reads_nothing(app: AppView, path: Seq<char>)
    requires
        app.files.contains_key(path),
    ensures
        app.step(EventView::Open { path }).0 == ActionView::Done,
        app.step(EventView::Open { path }).1.files == app.files,
        app.step(EventView::Open { path }).1.active == Some(path),
        app.step(EventView::Open { path }).1.config == app.config,
{
}

/// Once a file has been loaded, asking for it again reads nothing and
/// changes nothing at all.
pub proof fn lemma_open_twice_reads_once(
    app: AppView,
    path: Seq<char>,
    total_length: u64,
    read: Result<Seq<u8>, ReadFault>,
)
    requires
        app.step(EventView::Loaded { path, total_length, read }).0 == ActionView::Done,
    ensures
        ({
            let loaded = app.step(EventView::Loaded { path, total_length, read }).1;
            &&& loaded.files.contains_key(path)
            &&& loaded.active == Some(path)
            &&& loaded.step(EventView::Open { path }) == (ActionView::Done, loaded)
        }),
{
}

/// After an edit is committed the bytes in memory are exactly the committed
/// ones; the cursor, the length of the file, its path and whether it is
/// partial are as before.
pub proof fn lemma_edit_replaces_buffer_only(file: FileView, bytes: Seq<u8>)
    ensures
        file.edited(bytes).buffer == bytes,
        file.edited(bytes).cursor == file.cursor,
        file.edited(bytes).is_partial == file.is_partial,
        file.edited(bytes).total_length == file.total_length,
        file.edited(bytes).path == file.path,
        file.valid() ==> file.edited(bytes).valid(),
{
}

/// A closed path is gone: it is not among the opened files, it is not the
/// active path, every other file and the active path if it was another stay,
/// and making it active afterwards reports [`FileError::NotOpen`].
pub proof fn lemma_close_removes(app: AppView, path: Seq<char>)
    requires
        app.valid(),
    ensures
        !app.without(path).files.contains_key(path),
        app.without(path).active != Some(path),
        app.active == Some(path) ==> app.without(path).active is None,
        app.active != Some(path) ==> app.without(path).active == app.active,
        forall|other: Seq<char>|
            other != path ==> (app.without(path).files.contains_key(other)
                <==> app.files.contains_key(other)),
        forall|other: Seq<char>|
            other != path && app.files.contains_key(other) ==> app.without(path).files[other]
                == app.files[other],
        app.without(path).select_outcome(path) == (
            Err::<(), FileError>(FileError::NotOpen),
            app.without(path),
        ),
        app.without(path).valid(),
{
}

/// After every file is closed none is open and none is active.
pub proof fn lemma_close_all_empties(app: AppView)
    ensures
        app.without_all().valid(),
        app.without_all().active is None,
        forall|path: Seq<char>| !app.without_all().files.contains_key(path),
{
}

/// No event that the state admits leads out of the valid states: each file
/// stays under its own path with its cursor within it, and the active path
/// stays that of an opened file.
pub proof fn lemma_step_keeps_valid(app: AppView, event: EventView)
    requires
        app.valid(),
        app.admits(event),
    ensures
        app.step(event).1.valid(),
        app.step(event).1.config == app.config,
{
    match event {
        EventView::Fetched { path, new_cursor, read } => {
            if app.files.contains_key(path) {
                lemma_seek_all_or_nothing(
                    app.files[path],
                    app.config.window_size as nat,
                    new_cursor as nat,
                    read,
                );
            }
        },
        _ => {},
    }
}

/// An event that is answered with a report has changed nothing.
pub proof fn lemma_report_changes_nothing(app: AppView, event: EventView)
    requires
        app.step(event).0 is Report,
    ensures
        app.step(event).1 == app,
{
    match event {
        EventView::Fetched { path, new_cursor, read } => {
            if app.files.contains_key(path) {
                assert(app.files.insert(path, app.files[path]) =~= app.files);
            }
        },
        _ => {},
    }
}

} // verus!
