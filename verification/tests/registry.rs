use micron::error::{FileError, ReadFault};
use micron::file::OpenedFile;
use micron::registry::MicronApp;
use micron::window::{ReadRequest, ReaderConfig};

fn small(path: &str, bytes: &[u8]) -> OpenedFile {
    let config = ReaderConfig::default();
    OpenedFile::open(&config, path.to_string(), bytes.len() as u64, Ok(bytes.to_vec())).unwrap()
}

/// A partial file of 1 000 bytes under the sizes (100, 10), at cursor 0.
fn windowed(path: &str, fill: u8) -> OpenedFile {
    let config = ReaderConfig::new(100, 10);
    OpenedFile::open(&config, path.to_string(), 1_000, Ok(vec![fill; 10])).unwrap()
}

fn key(path: &str) -> String {
    path.to_string()
}

#[test]
fn new_registry_is_empty() {
    let app = MicronApp::new();
    assert_eq!(app.len(), 0);
    assert!(app.active().is_none());
    assert!(app.active_file().is_none());
    assert!(app.paths().is_empty());
    assert!(!app.contains(&key("a")));
    assert!(app.get(&key("a")).is_none());
    assert_eq!(app.config(), ReaderConfig::default());
}

#[test]
fn default_registry_is_the_new_one() {
    let app = MicronApp::default();
    assert_eq!(app.len(), 0);
    assert!(app.active().is_none());
    assert_eq!(app.config(), ReaderConfig::new(5_000_000, 10_000));
}

#[test]
fn with_config_keeps_the_sizes() {
    let app = MicronApp::with_config(ReaderConfig::new(100, 10));
    assert_eq!(app.config(), ReaderConfig::new(100, 10));
    assert_eq!(app.len(), 0);
}

#[test]
fn open_or_get_stores_a_new_file() {
    let mut app = MicronApp::new();
    {
        let handle = app.open_or_get(small("a", b"alpha"));
        assert_eq!(handle.path(), "a");
        assert_eq!(handle.buffer(), b"alpha");
    }
    assert_eq!(app.len(), 1);
    assert!(app.contains(&key("a")));
    assert_eq!(app.get(&key("a")).unwrap().buffer(), b"alpha");
    assert!(app.active().is_none());
}

#[test]
fn open_or_get_twice_keeps_the_first_handle() {
    let mut app = MicronApp::with_config(ReaderConfig::new(100, 10));
    app.open_or_get(windowed("big", 1));
    assert_eq!(app.seek(&key("big"), 500, Ok(vec![7; 10])), Ok(()));

    let (cursor, buffer) = {
        let again = app.open_or_get(windowed("big", 2));
        (again.cursor(), again.buffer().clone())
    };
    assert_eq!(cursor, 500);
    assert_eq!(buffer, vec![7; 10]);
    assert_eq!(app.len(), 1);
    let held = app.get(&key("big")).unwrap();
    assert_eq!(held.cursor(), 500);
    assert_eq!(held.buffer(), &vec![7; 10]);
}

#[test]
fn files_under_different_paths_stand_side_by_side() {
    let mut app = MicronApp::new();
    app.open_or_get(small("a", b"alpha"));
    app.open_or_get(small("b", b"beta"));
    app.open_or_get(small("c", b"gamma"));
    assert_eq!(app.len(), 3);
    assert_eq!(app.get(&key("a")).unwrap().buffer(), b"alpha");
    assert_eq!(app.get(&key("b")).unwrap().buffer(), b"beta");
    assert_eq!(app.get(&key("c")).unwrap().buffer(), b"gamma");
    let mut paths = app.paths();
    paths.sort();
    assert_eq!(paths, vec![key("a"), key("b"), key("c")]);
}

#[test]
fn set_active_on_an_open_path() {
    let mut app = MicronApp::new();
    app.open_or_get(small("a", b"alpha"));
    app.open_or_get(small("b", b"beta"));
    assert_eq!(app.set_active(&key("b")), Ok(()));
    assert_eq!(app.active(), Some(&key("b")));
    assert_eq!(app.active_file().unwrap().buffer(), b"beta");
    assert_eq!(app.set_active(&key("a")), Ok(()));
    assert_eq!(app.active(), Some(&key("a")));
}

#[test]
fn set_active_on_a_path_that_is_not_open() {
    let mut app = MicronApp::new();
    assert_eq!(app.set_active(&key("a")), Err(FileError::NotOpen));
    assert!(app.active().is_none());
    app.open_or_get(small("a", b"alpha"));
    assert_eq!(app.set_active(&key("a")), Ok(()));
    assert_eq!(app.set_active(&key("zzz")), Err(FileError::NotOpen));
    assert_eq!(app.active(), Some(&key("a")));
}

#[test]
fn close_of_the_active_file_leaves_none_active() {
    let mut app = MicronApp::new();
    app.open_or_get(small("a", b"alpha"));
    app.open_or_get(small("b", b"beta"));
    assert_eq!(app.set_active(&key("a")), Ok(()));
    app.close(&key("a"));
    assert!(!app.contains(&key("a")));
    assert!(app.get(&key("a")).is_none());
    assert!(app.active().is_none());
    assert!(app.active_file().is_none());
    assert_eq!(app.len(), 1);
    assert_eq!(app.set_active(&key("a")), Err(FileError::NotOpen));
    assert_eq!(app.get(&key("b")).unwrap().buffer(), b"beta");
}

#[test]
fn close_of_another_file_keeps_the_active_one() {
    let mut app = MicronApp::new();
    app.open_or_get(small("a", b"alpha"));
    app.open_or_get(small("b", b"beta"));
    app.open_or_get(small("c", b"gamma"));
    assert_eq!(app.set_active(&key("c")), Ok(()));
    app.close(&key("a"));
    assert_eq!(app.active(), Some(&key("c")));
    assert_eq!(app.active_file().unwrap().buffer(), b"gamma");
    app.close(&key("b"));
    assert_eq!(app.active(), Some(&key("c")));
    assert_eq!(app.len(), 1);

    let mut other = MicronApp::new();
    other.open_or_get(small("a", b"alpha"));
    other.open_or_get(small("b", b"beta"));
    assert_eq!(other.set_active(&key("a")), Ok(()));
    other.close(&key("b"));
    assert_eq!(other.active(), Some(&key("a")));
    assert_eq!(other.active_file().unwrap().buffer(), b"alpha");
}

#[test]
fn close_of_a_path_that_is_not_open_changes_nothing() {
    let mut app = MicronApp::new();
    app.open_or_get(small("a", b"alpha"));
    assert_eq!(app.set_active(&key("a")), Ok(()));
    app.close(&key("nothing"));
    assert_eq!(app.len(), 1);
    assert_eq!(app.active(), Some(&key("a")));
}

#[test]
fn closed_file_can_be_opened_anew() {
    let mut app = MicronApp::new();
    app.open_or_get(small("a", b"old"));
    app.close(&key("a"));
    app.open_or_get(small("a", b"new"));
    assert_eq!(app.get(&key("a")).unwrap().buffer(), b"new");
    assert_eq!(app.len(), 1);
}

#[test]
fn close_all_empties_the_registry() {
    let mut app = MicronApp::new();
    app.open_or_get(small("a", b"alpha"));
    app.open_or_get(small("b", b"beta"));
    assert_eq!(app.set_active(&key("b")), Ok(()));
    app.close_all();
    assert_eq!(app.len(), 0);
    assert!(app.active().is_none());
    assert!(!app.contains(&key("a")));
    assert!(!app.contains(&key("b")));
    assert!(app.paths().is_empty());
    assert_eq!(app.set_active(&key("b")), Err(FileError::NotOpen));
}

#[test]
fn seek_through_the_registry() {
    let mut app = MicronApp::with_config(ReaderConfig::new(100, 10));
    app.open_or_get(windowed("big", 1));
    app.open_or_get(small("tiny", b"xy"));
    assert_eq!(
        app.seek_request(&key("big"), 995),
        Ok(Some(ReadRequest { offset: 995, len: 5 }))
    );
    assert_eq!(app.seek(&key("big"), 995, Ok(vec![3; 5])), Ok(()));
    let big = app.get(&key("big")).unwrap();
    assert_eq!(big.cursor(), 995);
    assert_eq!(big.buffer(), &vec![3; 5]);
    assert_eq!(app.get(&key("tiny")).unwrap().buffer(), b"xy");
}

#[test]
fn seek_in_a_whole_file_through_the_registry_does_nothing() {
    let mut app = MicronApp::new();
    app.open_or_get(small("tiny", b"xy"));
    assert_eq!(app.seek_request(&key("tiny"), 1), Ok(None));
    assert_eq!(app.seek(&key("tiny"), 1, Ok(vec![9])), Ok(()));
    let tiny = app.get(&key("tiny")).unwrap();
    assert_eq!(tiny.cursor(), 0);
    assert_eq!(tiny.buffer(), b"xy");
}

#[test]
fn seek_in_a_path_that_is_not_open() {
    let mut app = MicronApp::new();
    assert_eq!(app.seek_request(&key("a"), 0), Err(FileError::NotOpen));
    assert_eq!(app.seek(&key("a"), 0, Ok(Vec::new())), Err(FileError::NotOpen));
    assert_eq!(app.len(), 0);
}

#[test]
fn failed_seek_through_the_registry_keeps_the_window() {
    let mut app = MicronApp::with_config(ReaderConfig::new(100, 10));
    app.open_or_get(windowed("big", 1));
    assert_eq!(app.set_active(&key("big")), Ok(()));
    assert_eq!(app.seek(&key("big"), 40, Err(ReadFault::Other)), Err(FileError::IoFailure));
    assert_eq!(app.seek(&key("big"), 40, Ok(vec![0; 3])), Err(FileError::IoFailure));
    let big = app.get(&key("big")).unwrap();
    assert_eq!(big.cursor(), 0);
    assert_eq!(big.buffer(), &vec![1; 10]);
    assert_eq!(app.active(), Some(&key("big")));
}

#[test]
fn commit_edit_through_the_registry() {
    let mut app = MicronApp::new();
    app.open_or_get(small("a", b"alpha"));
    app.open_or_get(small("b", b"beta"));
    assert_eq!(app.commit_edit(&key("a"), b"ALPHA!".to_vec()), Ok(()));
    let a = app.get(&key("a")).unwrap();
    assert_eq!(a.buffer(), b"ALPHA!");
    assert_eq!(a.total_length(), 5);
    assert_eq!(a.cursor(), 0);
    assert!(!a.is_partial());
    assert_eq!(app.get(&key("b")).unwrap().buffer(), b"beta");
    assert_eq!(app.commit_edit(&key("c"), Vec::new()), Err(FileError::NotOpen));
    assert_eq!(app.len(), 2);
}
