//! The persisted application configuration: repository records with their
//! activity flag and server status, and the operations the application
//! performs on them. Reading and writing the configuration file is I/O and
//! stays with the application shell.

use vstd::prelude::*;
use crate::clock;
use crate::strutil;
use crate::types::view_opt_str;

verus! {

/// The recorded server of a repository: its port and a status word.
pub struct McpServerConfig {
    pub port: u16,
    pub status: String,
}

pub ghost struct McpServerConfigView {
    pub port: u16,
    pub status: Seq<char>,
}

impl View for McpServerConfig {
    type V = McpServerConfigView;

    open spec fn view(&self) -> McpServerConfigView {
        McpServerConfigView { port: self.port, status: self.status@ }
    }
}

impl Clone for McpServerConfig {
    fn clone(&self) -> (r: Self)
        ensures
            r@ == self@,
    {
        McpServerConfig { port: self.port, status: self.status.clone() }
    }
}

/// One configured repository: identifier, display name, path, activity flag,
/// last-updated timestamp, and its recorded server, if any.
pub struct RepositoryConfig {
    pub id: String,
    pub name: String,
    pub path: String,
    pub is_active: bool,
    pub last_updated: String,
    pub mcp_server: Option<McpServerConfig>,
}

pub ghost struct RepositoryConfigView {
    pub id: Seq<char>,
    pub name: Seq<char>,
    pub path: Seq<char>,
    pub is_active: bool,
    pub last_updated: Seq<char>,
    pub mcp_server: Option<McpServerConfigView>,
}

impl View for RepositoryConfig {
    type V = RepositoryConfigView;

    open spec fn view(&self) -> RepositoryConfigView {
        RepositoryConfigView {
            id: self.id@,
            name: self.name@,
            path: self.path@,
            is_active: self.is_active,
            last_updated: self.last_updated@,
            mcp_server: match self.mcp_server {
                Some(m) => Some(m@),
                None => None,
            },
        }
    }
}

impl Clone for RepositoryConfig {
    fn clone(&self) -> (r: Self)
        ensures
            r@ == self@,
    {
        RepositoryConfig {
            id: self.id.clone(),
            name: self.name.clone(),
            path: self.path.clone(),
            is_active: self.is_active,
            last_updated: self.last_updated.clone(),
            mcp_server: match &self.mcp_server {
                Some(m) => Some(m.clone()),
                None => None,
            },
        }
    }
}

impl RepositoryConfig {
    /// A fresh record: active, stamped with the current time, no server.
    pub fn new(id: String, name: String, path: String) -> (r: Self)
        ensures
            r.id@ == id@,
            r.name@ == name@,
            r.path@ == path@,
            r.is_active == true,
            r.mcp_server is None,
    {
        RepositoryConfig {
            id,
            name,
            path,
            is_active: true,
            last_updated: clock::now_rfc3339(),
            mcp_server: None,
        }
    }

    /// This record with its server set to `port` and `status`.
    pub fn with_mcp_server(self, port: u16, status: String) -> (r: Self)
        ensures
            r@ == (RepositoryConfigView {
                mcp_server: Some(McpServerConfigView { port: port, status: status@ }),
                ..self@
            }),
    {
        RepositoryConfig { mcp_server: Some(McpServerConfig { port, status }), ..self }
    }

    /// Stamps the record with the current time; every other field is kept.
    pub fn update_last_updated(&mut self)
        ensures
            final(self).id == old(self).id,
            final(self).name == old(self).name,
            final(self).path == old(self).path,
            final(self).is_active == old(self).is_active,
            final(self).mcp_server == old(self).mcp_server,
    {
        self.last_updated = clock::now_rfc3339();
    }
}

/// The whole persisted configuration.
pub struct AppConfig {
    pub repositories: Vec<RepositoryConfig>,
    pub last_opened_repository: Option<String>,
    pub theme: String,
    pub auto_start_servers: bool,
}

pub ghost struct AppConfigView {
    pub repositories: Seq<RepositoryConfigView>,
    pub last_opened_repository: Option<Seq<char>>,
    pub theme: Seq<char>,
    pub auto_start_servers: bool,
}

impl View for AppConfig {
    type V = AppConfigView;

    open spec fn view(&self) -> AppConfigView {
        AppConfigView {
            repositories: self.repositories@.map_values(|r: RepositoryConfig| r@),
            last_opened_repository: view_opt_str(self.last_opened_repository),
            theme: self.theme@,
            auto_start_servers: self.auto_start_servers,
        }
    }
}

impl Default for AppConfig {
    /// No repositories, light theme, servers auto-started.
    fn default() -> (r: Self)
        ensures
            r@.repositories.len() == 0,
            r@.last_opened_repository is None,
            r@.theme == "light"@,
            r@.auto_start_servers == true,
    {
        let r = AppConfig {
            repositories: Vec::new(),
            last_opened_repository: None,
            theme: "light".to_owned(),
            auto_start_servers: true,
        };
        proof {
            assert(r@.repositories =~= Seq::<RepositoryConfigView>::empty());
        }
        r
    }
}

/// Index of the first record carrying this id.
pub open spec fn spec_repo_index(s: Seq<RepositoryConfig>, id: Seq<char>) -> Option<int>
    decreases s.len(),
{
    if s.len() == 0 {
        None
    } else if s.first().id@ == id {
        Some(0)
    } else {
        match spec_repo_index(s.drop_first(), id) {
            Some(j) => Some(j + 1),
            None => None,
        }
    }
}

/// Whether some record carries this id.
pub open spec fn spec_has_repo(s: Seq<RepositoryConfig>, id: Seq<char>) -> bool {
    exists|i: int| 0 <= i < s.len() && #[trigger] s[i].id@ == id
}

/// `s` with every record carrying `id` removed, order kept.
pub open spec fn spec_repos_without(s: Seq<RepositoryConfig>, id: Seq<char>) -> Seq<
    RepositoryConfig,
>
    decreases s.len(),
{
    if s.len() == 0 {
        Seq::empty()
    } else {
        let rest = spec_repos_without(s.drop_last(), id);
        if s.last().id@ == id {
            rest
        } else {
            rest.push(s.last())
        }
    }
}

/// The active records of `s`, order kept.
pub open spec fn spec_active_repos(s: Seq<RepositoryConfig>) -> Seq<RepositoryConfig>
    decreases s.len(),
{
    if s.len() == 0 {
        Seq::empty()
    } else {
        let rest = spec_active_repos(s.drop_last());
        if s.last().is_active {
            rest.push(s.last())
        } else {
            rest
        }
    }
}

/// The records of `s` whose recorded server status is `"running"`, order
/// kept.
pub open spec fn spec_running_repos(s: Seq<RepositoryConfig>) -> Seq<RepositoryConfig>
    decreases s.len(),
{
    if s.len() == 0 {
        Seq::empty()
    } else {
        let rest = spec_running_repos(s.drop_last());
        if spec_is_running(s.last()) {
            rest.push(s.last())
        } else {
            rest
        }
    }
}

/// Whether a record's server is recorded as running.
pub open spec fn spec_is_running(r: RepositoryConfig) -> bool {
    match r.mcp_server {
        Some(m) => m.status@ == "running"@,
        None => false,
    }
}

/// `post` is `pre` with record `i` replaced by a result of `f` on it.
pub open spec fn spec_updated_at<F: FnOnce(RepositoryConfig) -> RepositoryConfig>(
    pre: Seq<RepositoryConfig>,
    post: Seq<RepositoryConfig>,
    i: int,
    f: F,
) -> bool {
    exists|updated: RepositoryConfig|
        f.ensures((pre[i],), updated) && post == #[trigger] pre.update(i, updated)
}

impl AppConfig {
    /// Adds `repository`, replacing the first record with the same id when
    /// one exists and appending otherwise.
    #[verifier::loop_isolation(false)]
    pub fn add_repository(&mut self, repository: RepositoryConfig)
        ensures
            match spec_repo_index(old(self).repositories@, repository.id@) {
                Some(i) => final(self).repositories@ == old(self).repositories@.update(
                    i,
                    repository,
                ),
                None => final(self).repositories@ == old(self).repositories@.push(repository),
            },
            final(self).last_opened_repository == old(self).last_opened_repository,
            final(self).theme == old(self).theme,
            final(self).auto_start_servers == old(self).auto_start_servers,
    {
        let ghost pre = self.repositories@;
        let n = self.repositories.len();
        let mut i: usize = 0;
        proof {
            assert(pre.skip(0) =~= pre);
        }
        while i < n
            invariant
                i <= n,
                n == self.repositories@.len(),
                self.repositories@ == pre,
                self.last_opened_repository == old(self).last_opened_repository,
                self.theme == old(self).theme,
                self.auto_start_servers == old(self).auto_start_servers,
                spec_repo_index(pre, repository.id@) == match spec_repo_index(
                    pre.skip(i as int),
                    repository.id@,
                ) {
                    Some(k) => Some(k + i),
                    None => None,
                },
            decreases n - i,
        {
            proof {
                assert(pre.skip(i as int).first() == pre[i as int]);
                assert(pre.skip(i as int).drop_first() =~= pre.skip(i + 1));
            }
            if strutil::str_eq(self.repositories[i].id.as_str(), repository.id.as_str()) {
                self.repositories.set(i, repository);
                return ;
            }
            i = i + 1;
        }
        proof {
            assert(pre.skip(n as int) =~= Seq::<RepositoryConfig>::empty());
        }
        self.repositories.push(repository);
    }

    /// Removes every record carrying `repository_id`; reports whether any
    /// was present.
    #[verifier::loop_isolation(false)]
    pub fn remove_repository(&mut self, repository_id: &str) -> (r: bool)
        ensures
            r == spec_has_repo(old(self).repositories@, repository_id@),
            final(self).repositories@ == spec_repos_without(
                old(self).repositories@,
                repository_id@,
            ),
            final(self).last_opened_repository == old(self).last_opened_repository,
            final(self).theme == old(self).theme,
            final(self).auto_start_servers == old(self).auto_start_servers,
    {
        let ghost pre = self.repositories@;
        let mut remaining: Vec<RepositoryConfig> = Vec::new();
        core::mem::swap(&mut remaining, &mut self.repositories);
        let mut kept: Vec<RepositoryConfig> = Vec::new();
        let mut found = false;
        let n = remaining.len();
        let mut i: usize = 0;
        proof {
            assert(kept@ =~= spec_repos_without(pre.take(0), repository_id@));
        }
        while i < n
            invariant
                i <= n,
                n == pre.len(),
                remaining@ == pre.skip(i as int),
                kept@ == spec_repos_without(pre.take(i as int), repository_id@),
                found == exists|j: int| 0 <= j < i && #[trigger] pre[j].id@ == repository_id@,
            decreases n - i,
        {
            let current = remaining.remove(0);
            proof {
                assert(pre.skip(i as int)[0] == pre[i as int]);
                assert(pre.skip(i as int).remove(0) =~= pre.skip(i + 1));
                assert(pre.take(i + 1).drop_last() =~= pre.take(i as int));
                assert(pre.take(i + 1).last() == pre[i as int]);
            }
            if strutil::str_eq(current.id.as_str(), repository_id) {
                found = true;
            } else {
                kept.push(current);
            }
            proof {
                assert(kept@ =~= spec_repos_without(pre.take(i + 1), repository_id@));
            }
            i = i + 1;
        }
        proof {
            assert(pre.take(n as int) =~= pre);
        }
        self.repositories = kept;
        found
    }

    /// The first record carrying `repository_id`, when one exists.
    #[verifier::loop_isolation(false)]
    pub fn get_repository(&self, repository_id: &str) -> (r: Option<&RepositoryConfig>)
        ensures
            match r {
                Some(c) => (spec_repo_index(self.repositories@, repository_id@) matches Some(i)
                    && *c == self.repositories@[i]),
                None => spec_repo_index(self.repositories@, repository_id@) is None,
            },
    {
        let ghost pre = self.repositories@;
        let n = self.repositories.len();
        let mut i: usize = 0;
        proof {
            assert(pre.skip(0) =~= pre);
        }
        while i < n
            invariant
                i <= n,
                spec_repo_index(pre, repository_id@) == match spec_repo_index(
                    pre.skip(i as int),
                    repository_id@,
                ) {
                    Some(k) => Some(k + i),
                    None => None,
                },
            decreases n - i,
        {
            proof {
                assert(pre.skip(i as int).first() == pre[i as int]);
                assert(pre.skip(i as int).drop_first() =~= pre.skip(i + 1));
            }
            if strutil::str_eq(self.repositories[i].id.as_str(), repository_id) {
                return Some(&self.repositories[i]);
            }
            i = i + 1;
        }
        proof {
            assert(pre.skip(n as int) =~= Seq::<RepositoryConfig>::empty());
        }
        None
    }

    /// Applies `update_fn` to the first record carrying `repository_id`;
    /// reports whether one was found. Nothing else changes.
    #[verifier::loop_isolation(false)]
    pub fn update_repository<F: FnOnce(RepositoryConfig) -> RepositoryConfig>(
        &mut self,
        repository_id: &str,
        update_fn: F,
    ) -> (r: bool)
        requires
            forall|c: RepositoryConfig| #[trigger] update_fn.requires((c,)),
        ensures
            match spec_repo_index(old(self).repositories@, repository_id@) {
                Some(i) => r && spec_updated_at(
                    old(self).repositories@,
                    final(self).repositories@,
                    i,
                    update_fn,
                ),
                None => !r && final(self).repositories@ == old(self).repositories@,
            },
            final(self).last_opened_repository == old(self).last_opened_repository,
            final(self).theme == old(self).theme,
            final(self).auto_start_servers == old(self).auto_start_servers,
    {
        let ghost pre = self.repositories@;
        let n = self.repositories.len();
        let mut i: usize = 0;
        proof {
            assert(pre.skip(0) =~= pre);
        }
        while i < n
            invariant
                i <= n,
                n == self.repositories@.len(),
                self.repositories@ == pre,
                self.last_opened_repository == old(self).last_opened_repository,
                self.theme == old(self).theme,
                self.auto_start_servers == old(self).auto_start_servers,
                forall|c: RepositoryConfig| #[trigger] update_fn.requires((c,)),
                spec_repo_index(pre, repository_id@) == match spec_repo_index(
                    pre.skip(i as int),
                    repository_id@,
                ) {
                    Some(k) => Some(k + i),
                    None => None,
                },
            decreases n - i,
        {
            proof {
                assert(pre.skip(i as int).first() == pre[i as int]);
                assert(pre.skip(i as int).drop_first() =~= pre.skip(i + 1));
            }
            if strutil::str_eq(self.repositories[i].id.as_str(), repository_id) {
                let ghost current_spec = pre[i as int];
                let current = self.repositories.remove(i);
                let updated = update_fn(current);
                self.repositories.insert(i, updated);
                proof {
                    assert(spec_repo_index(pre, repository_id@) == Some(i as int));
                    assert(update_fn.ensures((current_spec,), updated));
                    assert(self.repositories@ =~= pre.update(i as int, updated));
                    assert(spec_updated_at(pre, self.repositories@, i as int, update_fn));
                }
                return true;
            }
            i = i + 1;
        }
        proof {
            assert(pre.skip(n as int) =~= Seq::<RepositoryConfig>::empty());
        }
        false
    }

    /// The active records, in configuration order.
    #[verifier::loop_isolation(false)]
    pub fn get_active_repositories(&self) -> (r: Vec<&RepositoryConfig>)
        ensures
            r@.map_values(|c: &RepositoryConfig| *c) == spec_active_repos(self.repositories@),
    {
        let ghost pre = self.repositories@;
        let mut out: Vec<&RepositoryConfig> = Vec::new();
        let n = self.repositories.len();
        let mut i: usize = 0;
        proof {
            assert(out@.map_values(|c: &RepositoryConfig| *c) =~= spec_active_repos(pre.take(0)));
        }
        while i < n
            invariant
                i <= n,
                out@.map_values(|c: &RepositoryConfig| *c) == spec_active_repos(
                    pre.take(i as int),
                ),
            decreases n - i,
        {
            proof {
                assert(pre.take(i + 1).drop_last() =~= pre.take(i as int));
                assert(pre.take(i + 1).last() == pre[i as int]);
            }
            if self.repositories[i].is_active {
                out.push(&self.repositories[i]);
            }
            proof {
                assert(out@.map_values(|c: &RepositoryConfig| *c) =~= spec_active_repos(
                    pre.take(i + 1),
                ));
            }
            i = i + 1;
        }
        proof {
            assert(pre.take(n as int) =~= pre);
        }
        out
    }

    /// The records whose recorded server is running, in configuration order.
    #[verifier::loop_isolation(false)]
    pub fn get_running_servers(&self) -> (r: Vec<&RepositoryConfig>)
        ensures
            r@.map_values(|c: &RepositoryConfig| *c) == spec_running_repos(self.repositories@),
    {
        let ghost pre = self.repositories@;
        let mut out: Vec<&RepositoryConfig> = Vec::new();
        let n = self.repositories.len();
        let mut i: usize = 0;
        proof {
            assert(out@.map_values(|c: &RepositoryConfig| *c) =~= spec_running_repos(pre.take(0)));
        }
        while i < n
            invariant
                i <= n,
                out@.map_values(|c: &RepositoryConfig| *c) == spec_running_repos(
                    pre.take(i as int),
                ),
            decreases n - i,
        {
            proof {
                assert(pre.take(i + 1).drop_last() =~= pre.take(i as int));
                assert(pre.take(i + 1).last() == pre[i as int]);
            }
            let running = match &self.repositories[i].mcp_server {
                Some(m) => strutil::str_eq(m.status.as_str(), "running"),
                None => false,
            };
            if running {
                out.push(&self.repositories[i]);
            }
            proof {
                assert(out@.map_values(|c: &RepositoryConfig| *c) =~= spec_running_repos(
                    pre.take(i + 1),
                ));
            }
            i = i + 1;
        }
        proof {
            assert(pre.take(n as int) =~= pre);
        }
        out
    }
}

} // verus!
