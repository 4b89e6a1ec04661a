//! The registry of opened files: one handle for each path, and at most one
//! of them active.

use vstd::prelude::*;
use crate::error::{FileError, ReadFault};
use crate::file::{read_view, FileView, OpenedFile};
use crate::window::{ReadRequest, ReaderConfig};

verus! {

/// What a [`MicronApp`] stands for.
pub struct AppView {
    /// The opened files, each under its path.
    pub files: Map<Seq<char>, FileView>,
    /// The path of the active file, if there is one.
    pub active: Option<Seq<char>>,
    /// The sizes by which files are opened and windows are fetched.
    pub config: ReaderConfig,
}

impl AppView {
    /// Each file stands under its own path and is valid, and the active path,
    /// if there is one, is that of an opened file.
    pub open spec fn valid(self) -> bool {
        &&& self.files.dom().finite()
        &&& forall|p: Seq<char>| #[trigger]
            self.files.contains_key(p) ==> self.files[p].path == p && self.files[p].valid()
        &&& self.active matches Some(p) ==> self.files.contains_key(p)
    }

    /// The registry with no file opened.
    pub open spec fn start(config: ReaderConfig) -> AppView {
        AppView { files: Map::empty(), active: None, config }
    }

    /// The registry after `file` was offered to it: stored, unless a file was
    /// open under that path already, which then stays.
    pub open spec fn with_file(self, file: FileView) -> AppView {
        if self.files.contains_key(file.path) {
            self
        } else {
            AppView { files: self.files.insert(file.path, file), ..self }
        }
    }

    /// The registry after `path` was closed. If it was the active path, no
    /// file is active.
    pub open spec fn without(self, path: Seq<char>) -> AppView {
        AppView {
            files: self.files.remove(path),
            active: if self.active == Some(path) {
                None
            } else {
                self.active
            },
            ..self
        }
    }

    /// The registry after every file was closed.
    pub open spec fn without_all(self) -> AppView {
        AppView { files: Map::empty(), active: None, ..self }
    }

    /// What making `path` active reports and leaves behind.
    pub open spec fn select_outcome(self, path: Seq<char>) -> (Result<(), FileError>, AppView) {
        if self.files.contains_key(path) {
            (Ok(()), AppView { active: Some(path), ..self })
        } else {
            (Err(FileError::NotOpen), self)
        }
    }

    /// The read that a seek to `new_cursor` in the file at `path` needs: none
    /// for a file held whole, the window at `new_cursor` for any other.
    pub open spec fn seek_plan(self, path: Seq<char>, new_cursor: nat) -> Result<
        Option<ReadRequest>,
        FileError,
    > {
        if !self.files.contains_key(path) {
            Err(FileError::NotOpen)
        } else if self.files[path].is_partial {
            Ok(Some(self.config.window_request(self.files[path].total_length, new_cursor)))
        } else {
            Ok(None)
        }
    }

    /// What a seek in the file at `path` reports and leaves behind, for each
    /// thing the read can deliver.
    pub open spec fn seek_outcome(
        self,
        path: Seq<char>,
        new_cursor: nat,
        read: Result<Seq<u8>, ReadFault>,
    ) -> (Result<(), FileError>, AppView) {
        if self.files.contains_key(path) {
            let (result, file) = self.files[path].seek_outcome(
                self.config.window_size as nat,
                new_cursor,
                read,
            );
            (result, AppView { files: self.files.insert(path, file), ..self })
        } else {
            (Err(FileError::NotOpen), self)
        }
    }

    /// What committing `bytes` as the edited text of the file at `path`
    /// reports and leaves behind.
    pub open spec fn edit_outcome(self, path: Seq<char>, bytes: Seq<u8>) -> (
        Result<(), FileError>,
        AppView,
    ) {
        if self.files.contains_key(path) {
            (
                Ok(()),
                AppView { files: self.files.insert(path, self.files[path].edited(bytes)), ..self },
            )
        } else {
            (Err(FileError::NotOpen), self)
        }
    }
}

/// Whether one of `files` was opened under `path`.
spec fn holds(files: Seq<OpenedFile>, path: Seq<char>) -> bool {
    exists|i: int| 0 <= i < files.len() && (#[trigger] files[i])@.path == path
}

/// The place in `files` of the one opened under `path`.
spec fn place_of(files: Seq<OpenedFile>, path: Seq<char>) -> int {
    choose|i: int| 0 <= i < files.len() && (#[trigger] files[i])@.path == path
}

/// No two of `files` were opened under one path.
spec fn distinct(files: Seq<OpenedFile>) -> bool {
    forall|i: int, j: int|
        0 <= i < j < files.len() ==> (#[trigger] files[i])@.path != (#[trigger] files[j])@.path
}

/// The map from each path in `files` to the file opened under it.
spec fn by_path(files: Seq<OpenedFile>) -> Map<Seq<char>, FileView> {
    Map::new(|p: Seq<char>| holds(files, p), |p: Seq<char>| files[place_of(files, p)]@)
}

proof fn lemma_entry(files: Seq<OpenedFile>, i: int)
    requires
        distinct(files),
        0 <= i < files.len(),
    ensures
        by_path(files).contains_key(files[i]@.path),
        by_path(files)[files[i]@.path] == files[i]@,
        place_of(files, files[i]@.path) == i,
{
    let k = place_of(files, files[i]@.path);
    if k < i {
        assert(files[k]@.path != files[i]@.path);
    } else if i < k {
        assert(files[i]@.path != files[k]@.path);
    }
}

proof fn lemma_push(files: Seq<OpenedFile>, file: OpenedFile)
    requires
        distinct(files),
        !holds(files, file@.path),
    ensures
        distinct(files.push(file)),
        by_path(files.push(file)) == by_path(files).insert(file@.path, file@),
{
    let more = files.push(file);
    assert(distinct(more)) by {
        assert forall|i: int, j: int| 0 <= i < j < more.len() implies (#[trigger] more[i])@.path
            != (#[trigger] more[j])@.path by {
            if j < files.len() {
                assert(files[i]@.path != files[j]@.path);
            } else {
                assert(files[i]@.path != file@.path);
            }
        }
    }
    assert forall|p: Seq<char>| holds(more, p) <==> (holds(files, p) || p == file@.path) by {
        if holds(more, p) {
            let k = place_of(more, p);
            if k < files.len() {
                assert(files[k]@.path == p);
            }
        }
        if holds(files, p) {
            let k = place_of(files, p);
            assert(more[k]@.path == p);
        }
        if p == file@.path {
            assert(more[files.len() as int]@.path == p);
        }
    }
    assert forall|p: Seq<char>| holds(more, p) implies #[trigger] by_path(more)[p] == by_path(
        files,
    ).insert(file@.path, file@)[p] by {
        let k = place_of(more, p);
        lemma_entry(more, k);
        if k < files.len() {
            lemma_entry(files, k);
            assert(files[k]@.path == p);
        }
    }
    assert(by_path(more) =~= by_path(files).insert(file@.path, file@));
}

proof fn lemma_remove(files: Seq<OpenedFile>, at: int)
    requires
        distinct(files),
        0 <= at < files.len(),
    ensures
        distinct(files.remove(at)),
        by_path(files.remove(at)) == by_path(files).remove(files[at]@.path),
{
    let fewer = files.remove(at);
    let gone = files[at]@.path;
    assert forall|i: int| 0 <= i < fewer.len() implies #[trigger] fewer[i] == files[if i < at {
        i
    } else {
        i + 1
    }] by {}
    assert(distinct(fewer)) by {
        assert forall|i: int, j: int| 0 <= i < j < fewer.len() implies (#[trigger] fewer[i])@.path
            != (#[trigger] fewer[j])@.path by {
            let a = if i < at { i } else { i + 1 };
            let b = if j < at { j } else { j + 1 };
            assert(files[a]@.path != files[b]@.path);
        }
    }
    assert forall|p: Seq<char>| holds(fewer, p) <==> (holds(files, p) && p != gone) by {
        if holds(fewer, p) {
            let k = place_of(fewer, p);
            let a = if k < at { k } else { k + 1 };
            assert(files[a]@.path == p);
            lemma_entry(files, a);
            lemma_entry(files, at);
        }
        if holds(files, p) && p != gone {
            let k = place_of(files, p);
            let a = if k < at { k } else { k - 1 };
            assert(fewer[a]@.path == p);
        }
    }
    assert forall|p: Seq<char>| holds(fewer, p) implies #[trigger] by_path(fewer)[p] == by_path(
        files,
    )[p] by {
        let k = place_of(fewer, p);
        let a = if k < at { k } else { k + 1 };
        lemma_entry(fewer, k);
        lemma_entry(files, a);
    }
    assert(by_path(fewer) =~= by_path(files).remove(gone));
}

proof fn lemma_update(files: Seq<OpenedFile>, at: int, file: OpenedFile)
    requires
        distinct(files),
        0 <= at < files.len(),
        file@.path == files[at]@.path,
    ensures
        distinct(files.update(at, file)),
        by_path(files.update(at, file)) == by_path(files).insert(file@.path, file@),
{
    let changed = files.update(at, file);
    assert(distinct(changed)) by {
        assert forall|i: int, j: int| 0 <= i < j < changed.len() implies (
        #[trigger] changed[i])@.path != (#[trigger] changed[j])@.path by {
            assert(files[i]@.path != files[j]@.path);
        }
    }
    assert forall|p: Seq<char>| holds(changed, p) <==> holds(files, p) by {
        if holds(changed, p) {
            let k = place_of(changed, p);
            assert(files[k]@.path == p);
        }
        if holds(files, p) {
            let k = place_of(files, p);
            assert(changed[k]@.path == p);
        }
    }
    assert(holds(files, file@.path)) by {
        assert(files[at]@.path == file@.path);
    }
    assert forall|p: Seq<char>| holds(changed, p) implies #[trigger] by_path(changed)[p]
        == by_path(files).insert(file@.path, file@)[p] by {
        let k = place_of(changed, p);
        lemma_entry(changed, k);
        lemma_entry(files, k);
    }
    assert(by_path(changed) =~= by_path(files).insert(file@.path, file@));
}

proof fn lemma_count(files: Seq<OpenedFile>)
    requires
        distinct(files),
    ensures
        by_path(files).dom().finite(),
        by_path(files).dom().len() == files.len(),
    decreases files.len(),
{
    if files.len() == 0 {
        assert(by_path(files).dom() =~= Set::<Seq<char>>::empty());
    } else {
        let front = files.drop_last();
        let last = files.last();
        assert(distinct(front)) by {
            assert forall|i: int, j: int| 0 <= i < j < front.len() implies (
            #[trigger] front[i])@.path != (#[trigger] front[j])@.path by {
                assert(files[i]@.path != files[j]@.path);
            }
        }
        assert(!holds(front, last@.path)) by {
            if holds(front, last@.path) {
                let k = place_of(front, last@.path);
                assert(files[k]@.path != files[files.len() - 1]@.path);
            }
        }
        lemma_count(front);
        lemma_push(front, last);
        assert(front.push(last) =~= files);
    }
}

/// The opened files and the active one.
#[derive(Debug)]
pub struct MicronApp {
    open_files: Vec<OpenedFile>,
    active_file: Option<usize>,
    config: ReaderConfig,
}

impl View for MicronApp {
    type V = AppView;

    closed spec fn view(&self) -> AppView {
        AppView {
            files: by_path(self.open_files@),
            active: match self.active_file {
                Some(at) => Some(self.open_files[at as int]@.path),
                None => None,
            },
            config: self.config,
        }
    }
}

impl MicronApp {
    /// The invariant of the registry.
    pub closed spec fn wf(&self) -> bool {
        &&& distinct(self.open_files@)
        &&& forall|i: int| 0 <= i < self.open_files.len() ==> (#[trigger] self.open_files[i]).wf()
        &&& self.active_file matches Some(at) ==> at < self.open_files.len()
    }

    /// A well-formed registry stands for a valid one.
    pub proof fn lemma_valid(&self)
        requires
            self.wf(),
        ensures
            self@.valid(),
    {
        let files = self.open_files@;
        lemma_count(files);
        assert forall|p: Seq<char>| #[trigger] self@.files.contains_key(p) implies self@.files[p].path
            == p && self@.files[p].valid() by {
            let k = place_of(files, p);
            assert(files[k].wf());
        }
        if let Some(at) = self.active_file {
            lemma_entry(files, at as int);
        }
    }

    /// A registry with no file opened and the default sizes.
    pub fn new() -> (app: MicronApp)
        ensures
            app.wf(),
            app@ == AppView::start(ReaderConfig::default_sizes()),
    {
        MicronApp::with_config(ReaderConfig::default())
    }

    /// A registry with no file opened and the sizes of `config`.
    pub fn with_config(config: ReaderConfig) -> (app: MicronApp)
        ensures
            app.wf(),
            app@ == AppView::start(config),
    {
        let app = MicronApp { open_files: Vec::new(), active_file: None, config };
        proof {
            assert(app@.files =~= Map::<Seq<char>, FileView>::empty());
        }
        app
    }

    /// The sizes by which files are opened and windows are fetched.
    pub fn config(&self) -> (config: ReaderConfig)
        ensures
            config == self@.config,
    {
        self.config
    }

    /// The number of opened files.
    pub fn len(&self) -> (n: usize)
        requires
            self.wf(),
        ensures
            n == self@.files.len(),
    {
        proof {
            lemma_count(self.open_files@);
        }
        self.open_files.len()
    }

    /// The place of the file opened under `path`, if there is one.
    fn position(&self, path: &String) -> (place: Option<usize>)
        requires
            self.wf(),
        ensures
            match place {
                Some(at) => at < self.open_files.len() && self.open_files[at as int]@.path
                    == path@,
                None => !holds(self.open_files@, path@),
            },
    {
        let mut at: usize = 0;
        while at < self.open_files.len()
            invariant
                at <= self.open_files.len(),
                forall|i: int| 0 <= i < at ==> (#[trigger] self.open_files[i])@.path != path@,
            decreases self.open_files.len() - at,
        {
            if *self.open_files[at].path() == *path {
                return Some(at);
            }
            at += 1;
        }
        None
    }

    /// Whether a file is open under `path`.
    pub fn contains(&self, path: &String) -> (open: bool)
        requires
            self.wf(),
        ensures
            open == self@.files.contains_key(path@),
    {
        self.position(path).is_some()
    }

    /// The file opened under `path`, if there is one.
    pub fn get(&self, path: &String) -> (file: Option<&OpenedFile>)
        requires
            self.wf(),
        ensures
            match file {
                Some(f) => self@.files.contains_key(path@) && f@ == self@.files[path@] && f.wf(),
                None => !self@.files.contains_key(path@),
            },
    {
        match self.position(path) {
            Some(at) => {
                proof {
                    lemma_entry(self.open_files@, at as int);
                }
                Some(&self.open_files[at])
            },
            None => None,
        }
    }

    /// The path of the active file, if there is one.
    pub fn active(&self) -> (path: Option<&String>)
        requires
            self.wf(),
        ensures
            match path {
                Some(p) => self@.active == Some(p@),
                None => self@.active is None,
            },
    {
        match self.active_file {
            Some(at) => Some(self.open_files[at].path()),
            None => None,
        }
    }

    /// The active file, if there is one.
    pub fn active_file(&self) -> (file: Option<&OpenedFile>)
        requires
            self.wf(),
        ensures
            match file {
                Some(f) => self@.active == Some(f@.path) && f@ == self@.files[f@.path] && f.wf(),
                None => self@.active is None,
            },
    {
        match self.active_file {
            Some(at) => {
                proof {
                    lemma_entry(self.open_files@, at as int);
                }
                Some(&self.open_files[at])
            },
            None => None,
        }
    }

    /// The paths of the opened files, each once.
    pub fn paths(&self) -> (paths: Vec<String>)
        requires
            self.wf(),
        ensures
            paths.len() == self@.files.len(),
            forall|i: int| 0 <= i < paths.len() ==> self@.files.contains_key(#[trigger] paths[i]@),
            forall|i: int, j: int| 0 <= i < j < paths.len() ==> paths[i]@ != paths[j]@,
            forall|p: Seq<char>|
                self@.files.contains_key(p) ==> exists|i: int|
                    0 <= i < paths.len() && #[trigger] paths[i]@ == p,
    {
        let mut paths: Vec<String> = Vec::new();
        let mut at: usize = 0;
        while at < self.open_files.len()
            invariant
                at <= self.open_files.len(),
                paths.len() == at,
                forall|i: int| 0 <= i < at ==> (#[trigger] paths[i])@ == self.open_files[i]@.path,
            decreases self.open_files.len() - at,
        {
            paths.push(self.open_files[at].path().clone());
            at += 1;
        }
        proof {
            let files = self.open_files@;
            lemma_count(files);
            assert forall|i: int| 0 <= i < paths.len() implies self@.files.contains_key(
                #[trigger] paths[i]@,
            ) by {
                lemma_entry(files, i);
            }
            assert forall|i: int, j: int| 0 <= i < j < paths.len() implies paths[i]@
                != paths[j]@ by {
                assert(files[i]@.path != files[j]@.path);
            }
            assert forall|p: Seq<char>| self@.files.contains_key(p) implies exists|i: int|
                0 <= i < paths.len() && #[trigger] paths[i]@ == p by {
                let k = place_of(files, p);
                assert(paths[k]@ == p);
            }
        }
        paths
    }

    /// Offers a file just opened to the registry and returns the handle that
    /// the registry holds for its path: the one that was open already, if
    /// there was one, else `file`.
    pub fn open_or_get(&mut self, file: OpenedFile) -> (handle: &OpenedFile)
        requires
            old(self).wf(),
            file.wf(),
        ensures
            final(self).wf(),
            final(self)@ == old(self)@.with_file(file@),
            final(self)@.files.contains_key(file@.path),
            handle@ == final(self)@.files[file@.path],
            handle.wf(),
    {
        let at = match self.position(file.path()) {
            Some(at) => at,
            None => {
                proof {
                    lemma_push(self.open_files@, file);
                    if let Some(active) = self.active_file {
                        assert(self.open_files@.push(file)[active as int]
                            == self.open_files@[active as int]);
                    }
                }
                let at = self.open_files.len();
                self.open_files.push(file);
                at
            },
        };
        proof {
            lemma_entry(self.open_files@, at as int);
        }
        &self.open_files[at]
    }

    /// Closes the file at `path`. If it was the active file, no file is
    /// active afterwards. Nothing happens if no file is open under `path`.
    pub fn close(&mut self, path: &String)
        requires
            old(self).wf(),
        ensures
            final(self).wf(),
            final(self)@ == old(self)@.without(path@),
    {
        match self.position(path) {
            Some(at) => {
                proof {
                    lemma_remove(self.open_files@, at as int);
                    if let Some(active) = self.active_file {
                        lemma_entry(self.open_files@, active as int);
                        lemma_entry(self.open_files@, at as int);
                    }
                }
                self.active_file =
                match self.active_file {
                    Some(active) => if active == at {
                        None
                    } else if active > at {
                        Some(active - 1)
                    } else {
                        Some(active)
                    },
                    None => None,
                };
                self.open_files.remove(at);
            },
            None => {
                proof {
                    assert(self@.files.remove(path@) =~= self@.files);
                    if let Some(active) = self.active_file {
                        lemma_entry(self.open_files@, active as int);
                    }
                }
            },
        }
    }

    /// Closes every file; no file is active afterwards.
    pub fn close_all(&mut self)
        requires
            old(self).wf(),
        ensures
            final(self).wf(),
            final(self)@ == old(self)@.without_all(),
    {
        self.active_file = None;
        self.open_files.clear();
        proof {
            assert(self@.files =~= Map::<Seq<char>, FileView>::empty());
        }
    }

    /// Makes the file at `path` the active one; reports
    /// [`FileError::NotOpen`] and changes nothing if no file is open under
    /// `path`.
    pub fn set_active(&mut self, path: &String) -> (r: Result<(), FileError>)
        requires
            old(self).wf(),
        ensures
            final(self).wf(),
            (r, final(self)@) == old(self)@.select_outcome(path@),
    {
        match self.position(path) {
            Some(at) => {
                proof {
                    lemma_entry(self.open_files@, at as int);
                }
                self.active_file = Some(at);
                Ok(())
            },
            None => Err(FileError::NotOpen),
        }
    }

    /// The read that a seek to `new_cursor` in the file at `path` needs:
    /// none for a file held whole.
    pub fn seek_request(&self, path: &String, new_cursor: u64) -> (r: Result<
        Option<ReadRequest>,
        FileError,
    >)
        requires
            self.wf(),
            self@.files.contains_key(path@) ==> new_cursor <= self@.files[path@].total_length,
        ensures
            r == self@.seek_plan(path@, new_cursor as nat),
    {
        match self.position(path) {
            Some(at) => {
                proof {
                    lemma_entry(self.open_files@, at as int);
                }
                Ok(self.open_files[at].seek_request(&self.config, new_cursor))
            },
            None => Err(FileError::NotOpen),
        }
    }

    /// Moves the window of the file at `path` to `new_cursor`, given what the
    /// read of [`MicronApp::seek_request`] delivered. On failure nothing
    /// changes.
    pub fn seek(&mut self, path: &String, new_cursor: u64, read: Result<Vec<u8>, ReadFault>) -> (r:
        Result<(), FileError>)
        requires
            old(self).wf(),
            old(self)@.files.contains_key(path@) ==> new_cursor <= old(self)@.files[path@].total_length,
        ensures
            final(self).wf(),
            (r, final(self)@) == old(self)@.seek_outcome(path@, new_cursor as nat, read_view(read)),
    {
        match self.position(path) {
            Some(at) => {
                proof {
                    lemma_entry(self.open_files@, at as int);
                    if let Some(active) = self.active_file {
                        lemma_entry(self.open_files@, active as int);
                    }
                }
                let config = self.config;
                let r = self.open_files[at].seek(&config, new_cursor, read);
                proof {
                    lemma_update(old(self).open_files@, at as int, self.open_files@[at as int]);
                    assert(self.open_files@ =~= old(self).open_files@.update(
                        at as int,
                        self.open_files@[at as int],
                    ));
                }
                r
            },
            None => Err(FileError::NotOpen),
        }
    }

    /// Replaces the bytes in memory of the file at `path` by `bytes`, the
    /// edited text.
    pub fn commit_edit(&mut self, path: &String, bytes: Vec<u8>) -> (r: Result<(), FileError>)
        requires
            old(self).wf(),
        ensures
            final(self).wf(),
            (r, final(self)@) == old(self)@.edit_outcome(path@, bytes@),
    {
        match self.position(path) {
            Some(at) => {
                proof {
                    lemma_entry(self.open_files@, at as int);
                    if let Some(active) = self.active_file {
                        lemma_entry(self.open_files@, active as int);
                    }
                }
                self.open_files[at].commit_edit(bytes);
                proof {
                    lemma_update(old(self).open_files@, at as int, self.open_files@[at as int]);
                    assert(self.open_files@ =~= old(self).open_files@.update(
                        at as int,
                        self.open_files@[at as int],
                    ));
                }
                Ok(())
            },
            None => Err(FileError::NotOpen),
        }
    }
}

impl Default for MicronApp {
    /// A registry with no file opened and the default sizes.
    fn default() -> (app: MicronApp)
        ensures
            app.wf(),
            app@ == AppView::start(ReaderConfig::default_sizes()),
    {
        MicronApp::new()
    }
}

} // verus!
