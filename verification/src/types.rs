//! Data model of an agent library: the declarative index, its endpoints, the
//! materialized prompts, and the aggregate library value, each with a
//! mathematical view used by the contracts.

use vstd::prelude::*;
use vstd::string::StringExecFns;
use crate::strutil;

verus! {

/// Largest payload accepted for a prompt content write-back.
pub const MAX_PROMPT_CONTENT_BYTES: usize = 1024 * 1024;

/// Spec-level image of an `Option<String>`.
pub open spec fn view_opt_str(o: Option<String>) -> Option<Seq<char>> {
    match o {
        Some(s) => Some(s@),
        None => None,
    }
}

/// One advertised capability of a library's index.
#[derive(Debug)]
pub struct McpEndpoint {
    pub id: String,
    pub label: String,
    pub description: String,
    pub prompt_file: String,
    pub trigger: Option<String>,
    pub category: Option<String>,
}

pub ghost struct McpEndpointView {
    pub id: Seq<char>,
    pub label: Seq<char>,
    pub description: Seq<char>,
    pub prompt_file: Seq<char>,
    pub trigger: Option<Seq<char>>,
    pub category: Option<Seq<char>>,
}

impl View for McpEndpoint {
    type V = McpEndpointView;

    open spec fn view(&self) -> McpEndpointView {
        McpEndpointView {
            id: self.id@,
            label: self.label@,
            description: self.description@,
            prompt_file: self.prompt_file@,
            trigger: view_opt_str(self.trigger),
            category: view_opt_str(self.category),
        }
    }
}

impl Clone for McpEndpoint {
    fn clone(&self) -> (r: Self)
        ensures
            r@ == self@,
    {
        McpEndpoint {
            id: self.id.clone(),
            label: self.label.clone(),
            description: self.description.clone(),
            prompt_file: self.prompt_file.clone(),
            trigger: self.trigger.clone(),
            category: self.category.clone(),
        }
    }
}

/// The declarative manifest of a library: an ordered endpoint list.
#[derive(Debug)]
pub struct AgentIndex {
    pub mcp_endpoints: Vec<McpEndpoint>,
}

pub ghost struct AgentIndexView {
    pub mcp_endpoints: Seq<McpEndpointView>,
}

impl View for AgentIndex {
    type V = AgentIndexView;

    open spec fn view(&self) -> AgentIndexView {
        AgentIndexView { mcp_endpoints: self.mcp_endpoints@.map_values(|e: McpEndpoint| e@) }
    }
}

impl Clone for AgentIndex {
    fn clone(&self) -> (r: Self)
        ensures
            r@ == self@,
    {
        let eps = self.mcp_endpoints.clone();
        proof {
            assert(eps@.map_values(|e: McpEndpoint| e@) =~= self.mcp_endpoints@.map_values(
                |e: McpEndpoint| e@,
            ));
        }
        AgentIndex { mcp_endpoints: eps }
    }
}

/// Materialized content for one endpoint.
#[derive(Debug)]
pub struct Prompt {
    pub id: String,
    pub title: String,
    pub description: String,
    pub content: String,
    pub file_path: String,
}

pub ghost struct PromptView {
    pub id: Seq<char>,
    pub title: Seq<char>,
    pub description: Seq<char>,
    pub content: Seq<char>,
    pub file_path: Seq<char>,
}

impl View for Prompt {
    type V = PromptView;

    open spec fn view(&self) -> PromptView {
        PromptView {
            id: self.id@,
            title: self.title@,
            description: self.description@,
            content: self.content@,
            file_path: self.file_path@,
        }
    }
}

impl Clone for Prompt {
    fn clone(&self) -> (r: Self)
        ensures
            r@ == self@,
    {
        Prompt {
            id: self.id.clone(),
            title: self.title.clone(),
            description: self.description.clone(),
            content: self.content.clone(),
            file_path: self.file_path.clone(),
        }
    }
}

/// The aggregate of one index, its base directory, and the resolved prompts.
#[derive(Debug)]
pub struct AgentLibrary {
    pub index: AgentIndex,
    pub base_path: String,
    pub prompts: Vec<Prompt>,
}

pub ghost struct AgentLibraryView {
    pub index: AgentIndexView,
    pub base_path: Seq<char>,
    pub prompts: Seq<PromptView>,
}

impl View for AgentLibrary {
    type V = AgentLibraryView;

    open spec fn view(&self) -> AgentLibraryView {
        AgentLibraryView {
            index: self.index@,
            base_path: self.base_path@,
            prompts: self.prompts@.map_values(|p: Prompt| p@),
        }
    }
}

impl Clone for AgentLibrary {
    fn clone(&self) -> (r: Self)
        ensures
            r@ == self@,
    {
        let ps = self.prompts.clone();
        proof {
            assert(ps@.map_values(|p: Prompt| p@) =~= self.prompts@.map_values(|p: Prompt| p@));
        }
        AgentLibrary { index: self.index.clone(), base_path: self.base_path.clone(), prompts: ps }
    }
}

/// First prompt of `prompts` whose id is `id`.
pub open spec fn spec_find_prompt(prompts: Seq<PromptView>, id: Seq<char>) -> Option<PromptView>
    decreases prompts.len(),
{
    if prompts.len() == 0 {
        None
    } else if prompts.first().id == id {
        Some(prompts.first())
    } else {
        spec_find_prompt(prompts.drop_first(), id)
    }
}

impl AgentLibrary {
    /// First prompt with the given id, in insertion order.
    pub fn find_prompt(&self, id: &str) -> (r: Option<&Prompt>)
        ensures
            match r {
                Some(p) => spec_find_prompt(self@.prompts, id@) == Some(p@),
                None => spec_find_prompt(self@.prompts, id@) is None,
            },
    {
        find_prompt_in(&self.prompts, id)
    }

    /// The on-disk target of a content write-back for the named prompt.
    ///
    /// Rejects payloads over `MAX_PROMPT_CONTENT_BYTES` and unknown prompt
    /// ids; otherwise returns the prompt's recorded source file path.
    pub fn resolve_prompt_save(&self, prompt_id: &str, content_len: usize) -> (r: Result<
        String,
        String,
    >)
        ensures
            content_len > MAX_PROMPT_CONTENT_BYTES ==> (r matches Err(m) && m@
                == "Content size exceeds maximum limit (1MB)"@),
            content_len <= MAX_PROMPT_CONTENT_BYTES ==> match spec_find_prompt(
                self@.prompts,
                prompt_id@,
            ) {
                Some(p) => (r matches Ok(path) && path@ == p.file_path),
                None => (r matches Err(m) && m@ == "Prompt with ID '"@ + prompt_id@
                    + "' not found"@),
            },
    {
        if content_len > MAX_PROMPT_CONTENT_BYTES {
            return Err("Content size exceeds maximum limit (1MB)".to_owned());
        }
        match self.find_prompt(prompt_id) {
            Some(p) => Ok(p.file_path.clone()),
            None => Err(
                String::from_str("Prompt with ID '").concat(prompt_id).concat("' not found"),
            ),
        }
    }
}

/// First prompt of the vector whose id is `id`.
pub fn find_prompt_in<'a>(prompts: &'a Vec<Prompt>, id: &str) -> (r: Option<&'a Prompt>)
    ensures
        match r {
            Some(p) => spec_find_prompt(prompts@.map_values(|q: Prompt| q@), id@) == Some(p@),
            None => spec_find_prompt(prompts@.map_values(|q: Prompt| q@), id@) is None,
        },
{
    let ghost pv = prompts@.map_values(|q: Prompt| q@);
    let n = prompts.len();
    let mut i: usize = 0;
    proof {
        assert(pv.skip(0) =~= pv);
    }
    while i < n
        invariant
            n == prompts@.len(),
            i <= n,
            pv == prompts@.map_values(|q: Prompt| q@),
            spec_find_prompt(pv, id@) == spec_find_prompt(pv.skip(i as int), id@),
        decreases n - i,
    {
        proof {
            assert(pv.skip(i as int).first() == pv[i as int]);
            assert(pv.skip(i as int).drop_first() =~= pv.skip(i + 1));
        }
        if strutil::str_eq(prompts[i].id.as_str(), id) {
            return Some(&prompts[i]);
        }
        i = i + 1;
    }
    proof {
        assert(pv.skip(n as int) =~= Seq::empty());
    }
    None
}

/// A repository as presented to the application shell: an identifier, a
/// display name, a filesystem path, and the library parsed from it, if any.
pub struct Repository {
    pub id: String,
    pub name: String,
    pub path: String,
    pub agent_library: Option<AgentLibrary>,
}

} // verus!
