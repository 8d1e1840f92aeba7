//! Filesystem-change handling: normalized change events, the filename rules
//! that drop editor and OS noise, and the table of watched repositories.
//! The raw watching itself is I/O and lives with the application shell,
//! which hands normalized values in.

use vstd::prelude::*;
use vstd::string::StringExecFns;
use crate::clock;
use crate::json::{fields_view, JsonVal, JsonValue};
use crate::strutil;

verus! {

/// The normalized kind of a filesystem change. `Renamed` belongs to the
/// published vocabulary although watchers report renames as create/delete
/// pairs.
#[derive(Clone, Copy, Debug, PartialEq)]
pub enum FileChangeType {
    Created,
    Modified,
    Deleted,
    Renamed,
}

/// The wire name of a change kind.
pub open spec fn spec_change_name(t: FileChangeType) -> Seq<char> {
    match t {
        FileChangeType::Created => "Created"@,
        FileChangeType::Modified => "Modified"@,
        FileChangeType::Deleted => "Deleted"@,
        FileChangeType::Renamed => "Renamed"@,
    }
}

impl FileChangeType {
    /// The name this kind serializes to.
    pub fn as_str(&self) -> (r: &str)
        ensures
            r@ == spec_change_name(*self),
    {
        match self {
            FileChangeType::Created => "Created",
            FileChangeType::Modified => "Modified",
            FileChangeType::Deleted => "Deleted",
            FileChangeType::Renamed => "Renamed",
        }
    }
}

/// One normalized change: the repository it belongs to, the touched path,
/// the kind of change, and when it was observed.
pub struct FileChangeEvent {
    pub repository_id: String,
    pub file_path: String,
    pub change_type: FileChangeType,
    pub timestamp: String,
}

pub ghost struct FileChangeEventView {
    pub repository_id: Seq<char>,
    pub file_path: Seq<char>,
    pub change_type: FileChangeType,
    pub timestamp: Seq<char>,
}

impl View for FileChangeEvent {
    type V = FileChangeEventView;

    open spec fn view(&self) -> FileChangeEventView {
        FileChangeEventView {
            repository_id: self.repository_id@,
            file_path: self.file_path@,
            change_type: self.change_type,
            timestamp: self.timestamp@,
        }
    }
}

impl Clone for FileChangeEvent {
    fn clone(&self) -> (r: Self)
        ensures
            r@ == self@,
    {
        FileChangeEvent {
            repository_id: self.repository_id.clone(),
            file_path: self.file_path.clone(),
            change_type: self.change_type,
            timestamp: self.timestamp.clone(),
        }
    }
}

/// The JSON shape an event is delivered in.
pub open spec fn spec_event_json(e: FileChangeEventView) -> JsonVal {
    JsonVal::Obj(
        seq![
            ("repository_id"@, JsonVal::Str(e.repository_id)),
            ("file_path"@, JsonVal::Str(e.file_path)),
            ("change_type"@, JsonVal::Str(spec_change_name(e.change_type))),
            ("timestamp"@, JsonVal::Str(e.timestamp)),
        ],
    )
}

impl FileChangeEvent {
    /// This event as the JSON object it is delivered as.
    pub fn to_json(&self) -> (r: JsonValue)
        ensures
            r@ == spec_event_json(self@),
    {
        let mut f: Vec<(String, JsonValue)> = Vec::new();
        f.push(("repository_id".to_owned(), JsonValue::Str(self.repository_id.clone())));
        f.push(("file_path".to_owned(), JsonValue::Str(self.file_path.clone())));
        f.push(("change_type".to_owned(), JsonValue::Str(self.change_type.as_str().to_owned())));
        f.push(("timestamp".to_owned(), JsonValue::Str(self.timestamp.clone())));
        let r = JsonValue::Obj(f);
        proof {
            crate::json::lemma_fields_view(f@);
            assert(fields_view(f@) =~= spec_event_json(self@)->Obj_0);
        }
        r
    }
}

/// Whether a file name is noise: hidden files, editor backup and swap
/// conventions, and OS metadata files.
pub open spec fn spec_ignored_name(name: Seq<char>) -> bool {
    ||| strutil::spec_starts_with(name, "."@)
    ||| strutil::spec_starts_with(name, "~"@)
    ||| strutil::spec_ends_with(name, "~"@)
    ||| strutil::spec_ends_with(name, ".tmp"@)
    ||| strutil::spec_ends_with(name, ".swp"@)
    ||| strutil::spec_ends_with(name, ".bak"@)
    ||| strutil::spec_contains(name, ".DS_Store"@)
}

/// The file name a path designates: the component after the last separator,
/// trailing separators ignored. Empty, `.` and `..` components name no file.
pub open spec fn spec_file_name(path: Seq<char>) -> Option<Seq<char>> {
    let name = strutil::spec_after_last_slash(strutil::spec_trim_trailing_slashes(path));
    if name.len() == 0 || name == "."@ || name == ".."@ {
        None
    } else {
        Some(name)
    }
}

/// Whether the path designates a file whose name is noise per
/// `spec_ignored_name`; a path with no file name is never ignored.
pub open spec fn spec_should_ignore(path: Seq<char>) -> bool {
    match spec_file_name(path) {
        Some(name) => spec_ignored_name(name),
        None => false,
    }
}

/// The table of repositories under an active filesystem watch. The
/// application shell keeps the raw watch handles; this table is the decision
/// state: which ids are watched.
pub struct FileWatcherManager {
    watched: Vec<String>,
}

impl View for FileWatcherManager {
    type V = Seq<Seq<char>>;

    closed spec fn view(&self) -> Seq<Seq<char>> {
        self.watched@.map_values(|s: String| s@)
    }
}

/// `s` with every occurrence of `id` removed, order kept.
pub open spec fn spec_without(s: Seq<Seq<char>>, id: Seq<char>) -> Seq<Seq<char>>
    decreases s.len(),
{
    if s.len() == 0 {
        Seq::empty()
    } else {
        let rest = spec_without(s.drop_last(), id);
        if s.last() == id {
            rest
        } else {
            rest.push(s.last())
        }
    }
}

impl FileWatcherManager {
    /// A table with nothing watched.
    pub fn new() -> (r: Self)
        ensures
            r@ == Seq::<Seq<char>>::empty(),
    {
        let r = FileWatcherManager { watched: Vec::new() };
        proof {
            assert(r@ =~= Seq::<Seq<char>>::empty());
        }
        r
    }

    /// Starts watching `repository_id`, replacing any prior watch for the
    /// same id; fails when the repository has no library subdirectory.
    #[verifier::loop_isolation(false)]
    pub fn watch_repository(
        &mut self,
        repository_id: String,
        repository_path: &str,
        agent_library_exists: bool,
    ) -> (r: Result<(), String>)
        ensures
            !agent_library_exists ==> (r matches Err(m) && m@
                == "Agent library directory not found: "@ + crate::parser::spec_lib_path(
                repository_path@,
            ) && final(self)@ == old(self)@),
            agent_library_exists ==> r is Ok && final(self)@ == spec_without(
                old(self)@,
                repository_id@,
            ).push(repository_id@),
    {
        if !agent_library_exists {
            return Err(
                String::from_str("Agent library directory not found: ").concat(
                    crate::parser::lib_path_of(repository_path).as_str(),
                ),
            );
        }
        let ghost idv = repository_id@;
        self.remove_watch(repository_id.as_str());
        let ghost mid = self@;
        self.watched.push(repository_id);
        proof {
            assert(self@ =~= mid.push(idv));
        }
        Ok(())
    }

    /// Removes every watch entry for `repository_id`.
    #[verifier::loop_isolation(false)]
    fn remove_watch(&mut self, repository_id: &str)
        ensures
            final(self)@ == spec_without(old(self)@, repository_id@),
    {
        let ghost pre = self.watched@;
        let mut kept: Vec<String> = Vec::new();
        let n = self.watched.len();
        let mut i: usize = 0;
        proof {
            assert(pre.take(0).map_values(|s: String| s@) =~= Seq::<Seq<char>>::empty());
            assert(kept@.map_values(|s: String| s@) =~= spec_without(
                pre.take(0).map_values(|s: String| s@),
                repository_id@,
            ));
        }
        while i < n
            invariant
                i <= n,
                n == self.watched@.len(),
                self.watched@ == pre,
                kept@.map_values(|s: String| s@) == spec_without(
                    pre.take(i as int).map_values(|s: String| s@),
                    repository_id@,
                ),
            decreases n - i,
        {
            let keep = !strutil::str_eq(self.watched[i].as_str(), repository_id);
            if keep {
                kept.push(self.watched[i].clone());
            }
            proof {
                let prefix = pre.take(i as int).map_values(|s: String| s@);
                let prefix1 = pre.take(i + 1).map_values(|s: String| s@);
                assert(prefix1.drop_last() =~= prefix);
                assert(prefix1.last() == pre[i as int]@);
                if keep {
                    assert(kept@.map_values(|s: String| s@) =~= spec_without(
                        prefix1,
                        repository_id@,
                    ));
                } else {
                    assert(kept@.map_values(|s: String| s@) =~= spec_without(
                        prefix1,
                        repository_id@,
                    ));
                }
            }
            i = i + 1;
        }
        proof {
            assert(pre.take(n as int) =~= pre);
        }
        self.watched = kept;
    }

    /// Stops watching `repository_id`; unknown ids are quietly ignored.
    pub fn stop_watching(&mut self, repository_id: &str)
        ensures
            final(self)@ == spec_without(old(self)@, repository_id@),
    {
        self.remove_watch(repository_id);
    }

    /// Stops every watch.
    pub fn stop_all_watching(&mut self)
        ensures
            final(self)@ == Seq::<Seq<char>>::empty(),
    {
        self.watched.clear();
        proof {
            assert(self@ =~= Seq::<Seq<char>>::empty());
        }
    }

    /// The ids currently watched, in watch order.
    #[verifier::loop_isolation(false)]
    pub fn get_watched_repositories(&self) -> (r: Vec<String>)
        ensures
            r@.map_values(|s: String| s@) == self@,
    {
        let mut out: Vec<String> = Vec::new();
        let n = self.watched.len();
        let mut i: usize = 0;
        proof {
            assert(out@.map_values(|s: String| s@) =~= self@.take(0));
        }
        while i < n
            invariant
                i <= n,
                out@.map_values(|s: String| s@) == self@.take(i as int),
            decreases n - i,
        {
            out.push(self.watched[i].clone());
            proof {
                assert(out@.map_values(|s: String| s@) =~= self@.take(i + 1));
            }
            i = i + 1;
        }
        proof {
            assert(self@.take(n as int) =~= self@);
        }
        out
    }

    /// Normalizes one raw watcher report into a change event: dropped when
    /// the watcher gave no usable kind, no path, a path outside the library
    /// subdirectory, or a noise file; otherwise stamped with the current
    /// clock reading.
    pub fn process_notify_event(
        repository_id: String,
        kind: Option<FileChangeType>,
        file_paths: &Vec<String>,
    ) -> (r: Option<FileChangeEvent>)
        ensures
            match r {
                Some(ev) => {
                    &&& kind is Some
                    &&& file_paths@.len() > 0
                    &&& strutil::spec_contains(file_paths@[0]@, ".agent_library"@)
                    &&& !spec_should_ignore(file_paths@[0]@)
                    &&& ev.repository_id@ == repository_id@
                    &&& ev.file_path@ == file_paths@[0]@
                    &&& ev.change_type == kind->0
                },
                None => {
                    ||| kind is None
                    ||| file_paths@.len() == 0
                    ||| !strutil::spec_contains(file_paths@[0]@, ".agent_library"@)
                    ||| spec_should_ignore(file_paths@[0]@)
                },
            },
    {
        let change_type = match kind {
            Some(t) => t,
            None => {
                return None;
            },
        };
        if file_paths.len() == 0 {
            return None;
        }
        let path = &file_paths[0];
        if !strutil::contains_str(path.as_str(), ".agent_library") {
            return None;
        }
        if Self::should_ignore_file(path.as_str()) {
            return None;
        }
        Some(
            FileChangeEvent {
                repository_id,
                file_path: path.clone(),
                change_type,
                timestamp: clock::now_rfc3339(),
            },
        )
    }

    /// Whether the path designates a hidden, temporary, swap, backup, or OS
    /// metadata file that watching should ignore; a path that names no file
    /// (empty, `.` or `..` final component) is never ignored.
    pub fn should_ignore_file(path: &str) -> (r: bool)
        ensures
            r == spec_should_ignore(path@),
    {
        let name = strutil::after_last_slash(strutil::trim_trailing_slashes(path));
        if name.is_empty() || strutil::str_eq(name, ".") || strutil::str_eq(name, "..") {
            return false;
        }
        if strutil::starts_with_str(name, ".") {
            return true;
        }
        if strutil::starts_with_str(name, "~") {
            return true;
        }
        if strutil::ends_with_str(name, "~") {
            return true;
        }
        if strutil::ends_with_str(name, ".tmp") {
            return true;
        }
        if strutil::ends_with_str(name, ".swp") {
            return true;
        }
        if strutil::ends_with_str(name, ".bak") {
            return true;
        }
        if strutil::contains_str(name, ".DS_Store") {
            return true;
        }
        false
    }
}

} // verus!
