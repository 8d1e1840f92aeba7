//! The in-memory application configuration handed to the user interface:
//! a repository list and the port the shell serves on.

use vstd::prelude::*;

verus! {

/// One repository as the interface configures it.
pub struct RepositoryConfig {
    pub id: String,
    pub name: String,
    pub path: String,
    pub enabled: bool,
}

pub ghost struct RepositoryConfigView {
    pub id: Seq<char>,
    pub name: Seq<char>,
    pub path: Seq<char>,
    pub enabled: bool,
}

impl View for RepositoryConfig {
    type V = RepositoryConfigView;

    open spec fn view(&self) -> RepositoryConfigView {
        RepositoryConfigView {
            id: self.id@,
            name: self.name@,
            path: self.path@,
            enabled: self.enabled,
        }
    }
}

impl Clone for RepositoryConfig {
    fn clone(&self) -> (r: Self)
        ensures
            r@ == self@,
    {
        RepositoryConfig {
            id: self.id.clone(),
            name: self.name.clone(),
            path: self.path.clone(),
            enabled: self.enabled,
        }
    }
}

/// The interface configuration: repositories and the shell's server port.
pub struct AppConfig {
    pub repositories: Vec<RepositoryConfig>,
    pub server_port: u16,
}

pub ghost struct AppConfigView {
    pub repositories: Seq<RepositoryConfigView>,
    pub server_port: u16,
}

impl View for AppConfig {
    type V = AppConfigView;

    open spec fn view(&self) -> AppConfigView {
        AppConfigView {
            repositories: self.repositories@.map_values(|r: RepositoryConfig| r@),
            server_port: self.server_port,
        }
    }
}

impl Default for AppConfig {
    /// No repositories, serving on port 3000.
    fn default() -> (r: Self)
        ensures
            r@.repositories.len() == 0,
            r@.server_port == 3000,
    {
        let r = AppConfig { repositories: Vec::new(), server_port: 3000 };
        proof {
            assert(r@.repositories =~= Seq::<RepositoryConfigView>::empty());
        }
        r
    }
}

} // verus!
