//! The library loader: parses the declarative index out of manifest text,
//! materializes prompts from the files that exist, and caches parsed
//! libraries by directory modification time.

use vstd::prelude::*;
use vstd::pervasive::VecAdditionalExecFns;
use vstd::string::{StrSliceExecFns, StringExecFns};
use crate::strutil;
use crate::types::{
    view_opt_str, AgentIndex, AgentLibrary, AgentLibraryView, McpEndpoint, McpEndpointView,
    Prompt, PromptView,
};

verus! {

/// Deepest directory level at which a library marker is recognized.
pub const MAX_SCAN_DEPTH: usize = 3;

/// Why a library failed to load.
#[derive(Debug)]
pub enum LibraryError {
    /// A required directory or file is absent.
    NotFound(String),
    /// The manifest does not match the expected schema.
    ParseError(String),
}

pub ghost enum LibraryErrorView {
    NotFound(Seq<char>),
    ParseError(Seq<char>),
}

impl View for LibraryError {
    type V = LibraryErrorView;

    open spec fn view(&self) -> LibraryErrorView {
        match self {
            LibraryError::NotFound(m) => LibraryErrorView::NotFound(m@),
            LibraryError::ParseError(m) => LibraryErrorView::ParseError(m@),
        }
    }
}

/// The message of either error.
pub open spec fn spec_error_message(e: LibraryErrorView) -> Seq<char> {
    match e {
        LibraryErrorView::NotFound(m) => m,
        LibraryErrorView::ParseError(m) => m,
    }
}

impl LibraryError {
    /// The human-readable message.
    pub fn message(&self) -> (r: &String)
        ensures
            r@ == spec_error_message(self@),
    {
        match self {
            LibraryError::NotFound(m) => m,
            LibraryError::ParseError(m) => m,
        }
    }
}

/// A plain YAML document node, the library's image of a parsed manifest:
/// null, strings, sequences and mappings carried structure for structure;
/// scalars of any other kind and tagged values collapse to `Other`.
#[derive(Debug)]
pub enum YamlNode {
    Null,
    Str(String),
    Sequence(Vec<YamlNode>),
    Mapping(Vec<(YamlNode, YamlNode)>),
    Other,
}

/// Mathematical image of a `YamlNode`.
#[verifier::ext_equal]
pub ghost enum YamlNodeView {
    Null,
    Str(Seq<char>),
    Sequence(Seq<YamlNodeView>),
    Mapping(Seq<(YamlNodeView, YamlNodeView)>),
    Other,
}

/// Mathematical image of a `YamlNode`, structure for structure.
pub open spec fn yaml_node_view(n: YamlNode) -> YamlNodeView
    decreases n,
{
    match n {
        YamlNode::Null => YamlNodeView::Null,
        YamlNode::Str(s) => YamlNodeView::Str(s@),
        YamlNode::Sequence(items) => {
            proof {
                assert(decreases_to!(n => n->Sequence_0));
                assert(decreases_to!(n->Sequence_0 => n->Sequence_0@));
            }
            YamlNodeView::Sequence(yaml_nodes_view(items@))
        },
        YamlNode::Mapping(pairs) => {
            proof {
                assert(decreases_to!(n => n->Mapping_0));
                assert(decreases_to!(n->Mapping_0 => n->Mapping_0@));
            }
            YamlNodeView::Mapping(yaml_pairs_view(pairs@))
        },
        YamlNode::Other => YamlNodeView::Other,
    }
}

/// Elementwise image of a sequence of nodes.
pub open spec fn yaml_nodes_view(s: Seq<YamlNode>) -> Seq<YamlNodeView>
    decreases s,
{
    if s.len() == 0 {
        Seq::empty()
    } else {
        proof {
            assert(decreases_to!(s => s.drop_last())) by {
                vstd::seq::axiom_seq_len_decreases(s, s.drop_last());
            }
            assert(decreases_to!(s => s.last()));
        }
        yaml_nodes_view(s.drop_last()).push(yaml_node_view(s.last()))
    }
}

/// Elementwise image of a mapping's pair list.
pub open spec fn yaml_pairs_view(s: Seq<(YamlNode, YamlNode)>) -> Seq<(YamlNodeView, YamlNodeView)>
    decreases s,
{
    if s.len() == 0 {
        Seq::empty()
    } else {
        proof {
            assert(decreases_to!(s => s.drop_last())) by {
                vstd::seq::axiom_seq_len_decreases(s, s.drop_last());
            }
            assert(decreases_to!(s => s.last()));
            assert(decreases_to!(s.last() => s.last().0));
            assert(decreases_to!(s.last() => s.last().1));
        }
        yaml_pairs_view(s.drop_last()).push(
            (yaml_node_view(s.last().0), yaml_node_view(s.last().1)),
        )
    }
}

/// `yaml_nodes_view` maps the sequence pointwise.
pub proof fn lemma_yaml_nodes_view(s: Seq<YamlNode>)
    ensures
        yaml_nodes_view(s).len() == s.len(),
        forall|i: int| 0 <= i < s.len() ==> yaml_nodes_view(s)[i] == yaml_node_view(s[i]),
    decreases s.len(),
{
    if s.len() > 0 {
        lemma_yaml_nodes_view(s.drop_last());
    }
}

/// `yaml_pairs_view` maps the pair list pointwise.
pub proof fn lemma_yaml_pairs_view(s: Seq<(YamlNode, YamlNode)>)
    ensures
        yaml_pairs_view(s).len() == s.len(),
        forall|i: int| 0 <= i < s.len() ==> yaml_pairs_view(s)[i] == (
            yaml_node_view(s[i].0),
            yaml_node_view(s[i].1),
        ),
    decreases s.len(),
{
    if s.len() > 0 {
        lemma_yaml_pairs_view(s.drop_last());
    }
}

impl View for YamlNode {
    type V = YamlNodeView;

    open spec fn view(&self) -> YamlNodeView {
        yaml_node_view(*self)
    }
}

/// The document a YAML text denotes, as a `YamlNodeView`, or nothing when
/// the text is not valid YAML. The parse is a function of the text alone.
pub uninterp spec fn spec_yaml_doc(text: Seq<char>) -> Option<YamlNodeView>;

#[verifier::external_type_specification]
#[verifier::external_body]
pub struct ExYamlValue(serde_yaml::Value);

/// Relies on `serde_yaml::Value`'s variants: carries a parsed document over
/// into the library's node type, variant for variant; booleans, numbers and
/// tagged values become `Other`. Called only beneath `yaml_parse`.
#[verifier::external_body]
fn yaml_to_node(v: &serde_yaml::Value) -> (r: YamlNode) {
    match v {
        serde_yaml::Value::Null => YamlNode::Null,
        serde_yaml::Value::String(s) => YamlNode::Str(s.clone()),
        serde_yaml::Value::Sequence(items) => YamlNode::Sequence(
            items.iter().map(yaml_to_node).collect(),
        ),
        serde_yaml::Value::Mapping(pairs) => YamlNode::Mapping(
            pairs.iter().map(|(k, w)| (yaml_to_node(k), yaml_to_node(w))).collect(),
        ),
        _ => YamlNode::Other,
    }
}

/// Relies on `serde_yaml::from_str::<serde_yaml::Value>`: parses YAML text
/// and hands the document over as the library's node type via
/// `yaml_to_node`; `None` when the text is not valid YAML. The result is
/// named `spec_yaml_doc` because it depends on the text alone.
#[verifier::external_body]
fn yaml_parse(text: &str) -> (r: Option<YamlNode>)
    ensures
        r matches Some(n) ==> spec_yaml_doc(text@) == Some(n@),
        r is None ==> spec_yaml_doc(text@) is None,
{
    serde_yaml::from_str::<serde_yaml::Value>(text).ok().map(|v| yaml_to_node(&v))
}

/// First value bound to the string key `key` in a mapping's pair list.
pub open spec fn spec_pairs_get(
    pairs: Seq<(YamlNodeView, YamlNodeView)>,
    key: Seq<char>,
) -> Option<YamlNodeView>
    decreases pairs.len(),
{
    if pairs.len() == 0 {
        None
    } else if pairs.first().0 == YamlNodeView::Str(key) {
        Some(pairs.first().1)
    } else {
        spec_pairs_get(pairs.drop_first(), key)
    }
}

/// Member lookup with a string key: a value only on mappings that bind the
/// key, mirroring `serde_yaml::Value::get` with a string index.
pub open spec fn spec_doc_get(n: YamlNodeView, key: Seq<char>) -> Option<YamlNodeView> {
    match n {
        YamlNodeView::Mapping(pairs) => spec_pairs_get(pairs, key),
        _ => None,
    }
}

/// The string a required endpoint field denotes, if the field is present and
/// a string.
pub open spec fn spec_required_str(item: YamlNodeView, key: Seq<char>) -> Option<Seq<char>> {
    match spec_doc_get(item, key) {
        Some(YamlNodeView::Str(s)) => Some(s),
        _ => None,
    }
}

/// What an optional endpoint field denotes: absent or null is a well-formed
/// `None`, a string is well-formed `Some`, and anything else (`None` outside)
/// is a schema error.
pub open spec fn spec_optional_str(item: YamlNodeView, key: Seq<char>) -> Option<
    Option<Seq<char>>,
> {
    match spec_doc_get(item, key) {
        None => Some(None),
        Some(YamlNodeView::Null) => Some(None),
        Some(YamlNodeView::Str(s)) => Some(Some(s)),
        Some(_) => None,
    }
}

/// The endpoint an index entry denotes: a mapping with the required string
/// fields `id`, `label`, `description` and `prompt_file` and well-formed
/// optional `trigger` and `category`; nothing otherwise.
pub open spec fn spec_endpoint_of(item: YamlNodeView) -> Option<McpEndpointView> {
    match (
        spec_required_str(item, "id"@),
        spec_required_str(item, "label"@),
        spec_required_str(item, "description"@),
        spec_required_str(item, "prompt_file"@),
        spec_optional_str(item, "trigger"@),
        spec_optional_str(item, "category"@),
    ) {
        (
            Some(id),
            Some(label),
            Some(description),
            Some(prompt_file),
            Some(trigger),
            Some(category),
        ) => Some(
            McpEndpointView { id, label, description, prompt_file, trigger, category },
        ),
        _ => None,
    }
}

/// The endpoints an entry sequence denotes, in order; nothing when any entry
/// is not a well-formed endpoint.
pub open spec fn spec_endpoints_of(items: Seq<YamlNodeView>) -> Option<Seq<McpEndpointView>>
    decreases items.len(),
{
    if items.len() == 0 {
        Some(Seq::empty())
    } else {
        match spec_endpoint_of(items.first()) {
            Some(e) => match spec_endpoints_of(items.drop_first()) {
                Some(rest) => Some(seq![e] + rest),
                None => None,
            },
            None => None,
        }
    }
}

/// Pairwise-distinct endpoint ids.
pub open spec fn spec_ids_distinct(eps: Seq<McpEndpointView>) -> bool {
    forall|i: int, j: int| 0 <= i < j < eps.len() ==> eps[i].id != eps[j].id
}

/// The endpoint list a manifest document denotes, if any: the document must
/// be a mapping binding `mcp_endpoints` to a sequence of well-formed
/// endpoint entries whose ids are pairwise distinct (each id is the prompt's
/// protocol identifier, unique within a library); anything else is a schema
/// error.
pub open spec fn spec_index_of_doc(doc: Option<YamlNodeView>) -> Option<Seq<McpEndpointView>> {
    match doc {
        Some(d) => match spec_doc_get(d, "mcp_endpoints"@) {
            Some(YamlNodeView::Sequence(items)) => match spec_endpoints_of(items) {
                Some(eps) => if spec_ids_distinct(eps) {
                    Some(eps)
                } else {
                    None
                },
                None => None,
            },
            _ => None,
        },
        None => None,
    }
}

impl YamlNode {
    /// The value under the string key `key` when this node is a mapping that
    /// binds it.
    #[verifier::loop_isolation(false)]
    fn get_key<'a>(&'a self, key: &str) -> (r: Option<&'a YamlNode>)
        ensures
            match r {
                Some(v) => spec_doc_get(self@, key@) == Some(v@),
                None => spec_doc_get(self@, key@) is None,
            },
    {
        match self {
            YamlNode::Mapping(pairs) => {
                let ghost pv = yaml_pairs_view(pairs@);
                proof {
                    lemma_yaml_pairs_view(pairs@);
                    assert(pv.skip(0) =~= pv);
                }
                let n = pairs.len();
                let mut i: usize = 0;
                while i < n
                    invariant
                        i <= n,
                        spec_pairs_get(pv, key@) == spec_pairs_get(pv.skip(i as int), key@),
                    decreases n - i,
                {
                    proof {
                        assert(pv.skip(i as int).first() == pv[i as int]);
                        assert(pv.skip(i as int).drop_first() =~= pv.skip(i + 1));
                    }
                    let matched = match &pairs[i].0 {
                        YamlNode::Str(s) => strutil::str_eq(s.as_str(), key),
                        _ => false,
                    };
                    if matched {
                        return Some(&pairs[i].1);
                    }
                    i = i + 1;
                }
                proof {
                    assert(pv.skip(n as int) =~= Seq::<(YamlNodeView, YamlNodeView)>::empty());
                }
                None
            },
            _ => None,
        }
    }
}

/// A required string field of an endpoint mapping.
fn required_str(item: &YamlNode, key: &str) -> (r: Result<String, LibraryError>)
    ensures
        match spec_required_str(item@, key@) {
            Some(s) => (r matches Ok(v) && v@ == s),
            None => (r matches Err(e) && e@ matches LibraryErrorView::ParseError(_)),
        },
{
    match item.get_key(key) {
        Some(v) => match v {
            YamlNode::Str(s) => Ok(s.clone()),
            _ => Err(
                LibraryError::ParseError(
                    String::from_str("endpoint field '").concat(key).concat("' must be a string"),
                ),
            ),
        },
        None => Err(
            LibraryError::ParseError(
                String::from_str("endpoint field '").concat(key).concat("' is required"),
            ),
        ),
    }
}

/// An optional string field of an endpoint mapping: absent or null is `None`;
/// any other non-string value is a schema error.
fn optional_str(item: &YamlNode, key: &str) -> (r: Result<Option<String>, LibraryError>)
    ensures
        match spec_optional_str(item@, key@) {
            Some(t) => (r matches Ok(v) && view_opt_str(v) == t),
            None => (r matches Err(e) && e@ matches LibraryErrorView::ParseError(_)),
        },
{
    match item.get_key(key) {
        Some(v) => match v {
            YamlNode::Null => Ok(None),
            YamlNode::Str(s) => Ok(Some(s.clone())),
            _ => Err(
                LibraryError::ParseError(
                    String::from_str("endpoint field '").concat(key).concat(
                        "' must be a string",
                    ),
                ),
            ),
        },
        None => Ok(None),
    }
}

/// One endpoint from its manifest entry.
fn endpoint_from_node(item: &YamlNode) -> (r: Result<McpEndpoint, LibraryError>)
    ensures
        match spec_endpoint_of(item@) {
            Some(e) => (r matches Ok(ep) && ep@ == e),
            None => (r matches Err(e) && e@ matches LibraryErrorView::ParseError(_)),
        },
{
    let id = match required_str(item, "id") {
        Ok(s) => s,
        Err(e) => {
            return Err(e);
        },
    };
    let label = match required_str(item, "label") {
        Ok(s) => s,
        Err(e) => {
            return Err(e);
        },
    };
    let description = match required_str(item, "description") {
        Ok(s) => s,
        Err(e) => {
            return Err(e);
        },
    };
    let prompt_file = match required_str(item, "prompt_file") {
        Ok(s) => s,
        Err(e) => {
            return Err(e);
        },
    };
    let trigger = match optional_str(item, "trigger") {
        Ok(t) => t,
        Err(e) => {
            return Err(e);
        },
    };
    let category = match optional_str(item, "category") {
        Ok(t) => t,
        Err(e) => {
            return Err(e);
        },
    };
    Ok(McpEndpoint { id, label, description, prompt_file, trigger, category })
}

/// Whether two endpoints share an id.
#[verifier::loop_isolation(false)]
fn has_duplicate_ids(endpoints: &Vec<McpEndpoint>) -> (r: bool)
    ensures
        r == !spec_ids_distinct(endpoints@.map_values(|e: McpEndpoint| e@)),
{
    let ghost ev = endpoints@.map_values(|e: McpEndpoint| e@);
    let n = endpoints.len();
    let mut i: usize = 0;
    while i < n
        invariant
            i <= n,
            forall|a: int, b: int| 0 <= a < b < ev.len() && a < i ==> ev[a].id != ev[b].id,
        decreases n - i,
    {
        let mut j: usize = i + 1;
        while j < n
            invariant
                i < j <= n,
                forall|b: int| i < b < j ==> ev[i as int].id != #[trigger] ev[b].id,
            decreases n - j,
        {
            if strutil::str_eq(endpoints[i].id.as_str(), endpoints[j].id.as_str()) {
                proof {
                    assert(ev[i as int].id == ev[j as int].id);
                    assert(!spec_ids_distinct(ev));
                }
                return true;
            }
            j = j + 1;
        }
        i = i + 1;
    }
    false
}

/// The unit under which the loader's operations are grouped.
pub struct AgentLibraryParser;

impl AgentLibraryParser {
    /// The manifest's endpoint list: `Ok` exactly when the text denotes a
    /// document with a well-formed `mcp_endpoints` sequence of distinct-id
    /// endpoint entries (per `spec_index_of` over the named parse
    /// `spec_yaml_doc`), and then exactly those endpoints, in order;
    /// a schema error otherwise.
    #[verifier::loop_isolation(false)]
    pub fn parse_index_text(text: &str) -> (r: Result<AgentIndex, LibraryError>)
        ensures
            match spec_index_of_doc(spec_yaml_doc(text@)) {
                Some(eps) => (r matches Ok(idx) && idx@.mcp_endpoints == eps),
                None => (r matches Err(e) && e@ matches LibraryErrorView::ParseError(_)),
            },
    {
        let doc = match yaml_parse(text) {
            Some(d) => d,
            None => {
                return Err(LibraryError::ParseError("invalid YAML in manifest".to_owned()));
            },
        };
        let eps_value = match doc.get_key("mcp_endpoints") {
            Some(v) => v,
            None => {
                return Err(
                    LibraryError::ParseError("manifest field 'mcp_endpoints' is required".to_owned()),
                );
            },
        };
        let items = match eps_value {
            YamlNode::Sequence(items) => items,
            _ => {
                return Err(
                    LibraryError::ParseError(
                        "manifest field 'mcp_endpoints' must be a sequence".to_owned(),
                    ),
                );
            },
        };
        let ghost itemsv = yaml_nodes_view(items@);
        proof {
            lemma_yaml_nodes_view(items@);
            assert(itemsv.skip(0) =~= itemsv);
        }
        let mut endpoints: Vec<McpEndpoint> = Vec::new();
        let n = items.len();
        let mut i: usize = 0;
        while i < n
            invariant
                i <= n,
                endpoints@.len() == i,
                spec_endpoints_of(itemsv) == match spec_endpoints_of(itemsv.skip(i as int)) {
                    Some(rest) => Some(endpoints@.map_values(|e: McpEndpoint| e@) + rest),
                    None => None::<Seq<McpEndpointView>>,
                },
            decreases n - i,
        {
            proof {
                assert(itemsv.skip(i as int).first() == itemsv[i as int]);
                assert(itemsv.skip(i as int).drop_first() =~= itemsv.skip(i + 1));
            }
            let ghost pre = endpoints@.map_values(|e: McpEndpoint| e@);
            match endpoint_from_node(&items[i]) {
                Ok(e) => {
                    let ghost ev = e@;
                    endpoints.push(e);
                    proof {
                        assert(endpoints@.map_values(|e: McpEndpoint| e@) =~= pre.push(ev));
                        match spec_endpoints_of(itemsv.skip(i + 1)) {
                            Some(rest2) => {
                                assert(pre + (seq![ev] + rest2) =~= pre.push(ev) + rest2);
                            },
                            None => {},
                        }
                    }
                },
                Err(e) => {
                    return Err(e);
                },
            }
            i = i + 1;
        }
        proof {
            assert(itemsv.skip(n as int) =~= Seq::<YamlNodeView>::empty());
            assert(endpoints@.map_values(|e: McpEndpoint| e@) + Seq::<McpEndpointView>::empty()
                =~= endpoints@.map_values(|e: McpEndpoint| e@));
        }
        if has_duplicate_ids(&endpoints) {
            return Err(
                LibraryError::ParseError("duplicate endpoint id in manifest".to_owned()),
            );
        }
        Ok(AgentIndex { mcp_endpoints: endpoints })
    }
}

/// The prompts materialized from an endpoint list and the content found for
/// each endpoint's file: endpoints whose file was missing are skipped, the
/// others yield a prompt carrying the endpoint's metadata, the content, and
/// the resolved file path.
pub open spec fn spec_resolved_prompts(
    eps: Seq<McpEndpointView>,
    contents: Seq<Option<Seq<char>>>,
    base: Seq<char>,
) -> Seq<PromptView>
    decreases eps.len(),
{
    if eps.len() == 0 {
        Seq::empty()
    } else {
        let rest = spec_resolved_prompts(eps.drop_last(), contents.drop_last(), base);
        let e = eps.last();
        match contents.last() {
            Some(c) => rest.push(
                PromptView {
                    id: e.id,
                    title: e.label,
                    description: e.description,
                    content: c,
                    file_path: base + "/"@ + e.prompt_file,
                },
            ),
            None => rest,
        }
    }
}

impl AgentLibraryParser {
    /// The library assembled from a parsed index and the content found on
    /// disk for each endpoint, in endpoint order; a `None` content means the
    /// file was absent and the endpoint gets no prompt.
    #[verifier::loop_isolation(false)]
    pub fn assemble_library(
        base_path: String,
        index: AgentIndex,
        contents: Vec<Option<String>>,
    ) -> (lib: AgentLibrary)
        requires
            contents@.len() == index.mcp_endpoints@.len(),
        ensures
            lib@.index == index@,
            lib@.base_path == base_path@,
            lib@.prompts == spec_resolved_prompts(
                index@.mcp_endpoints,
                contents@.map_values(|c: Option<String>| view_opt_str(c)),
                base_path@,
            ),
    {
        let ghost epsv = index@.mcp_endpoints;
        let ghost ctsv = contents@.map_values(|c: Option<String>| view_opt_str(c));
        let mut prompts: Vec<Prompt> = Vec::new();
        let n = index.mcp_endpoints.len();
        let mut i: usize = 0;
        proof {
            assert(epsv.take(0) =~= Seq::empty());
            assert(spec_resolved_prompts(epsv.take(0), ctsv.take(0), base_path@) =~= prompts@
                .map_values(|p: Prompt| p@));
        }
        while i < n
            invariant
                i <= n,
                prompts@.map_values(|p: Prompt| p@) == spec_resolved_prompts(
                    epsv.take(i as int),
                    ctsv.take(i as int),
                    base_path@,
                ),
            decreases n - i,
        {
            let ghost prev = prompts@;
            let ep = &index.mcp_endpoints[i];
            match &contents[i] {
                Some(content) => {
                    let file_path = String::from_str(base_path.as_str()).concat("/").concat(
                        ep.prompt_file.as_str(),
                    );
                    prompts.push(
                        Prompt {
                            id: ep.id.clone(),
                            title: ep.label.clone(),
                            description: ep.description.clone(),
                            content: content.clone(),
                            file_path,
                        },
                    );
                },
                None => {},
            }
            proof {
                assert(epsv.take(i + 1).drop_last() =~= epsv.take(i as int));
                assert(ctsv.take(i + 1).drop_last() =~= ctsv.take(i as int));
                assert(epsv.take(i + 1).last() == epsv[i as int]);
                assert(ctsv.take(i + 1).last() == ctsv[i as int]);
                assert(prompts@.map_values(|p: Prompt| p@) =~= spec_resolved_prompts(
                    epsv.take(i + 1),
                    ctsv.take(i + 1),
                    base_path@,
                ));
            }
            i = i + 1;
        }
        proof {
            assert(epsv.take(n as int) =~= epsv);
            assert(ctsv.take(n as int) =~= ctsv);
        }
        let lib = AgentLibrary { index, base_path, prompts };
        lib
    }
}

/// Prompt `j` of the resolved list takes its id from some endpoint whose
/// content was present.
pub open spec fn prompt_source_ok(
    eps: Seq<McpEndpointView>,
    contents: Seq<Option<Seq<char>>>,
    base: Seq<char>,
    j: int,
) -> bool {
    exists|i: int|
        0 <= i < eps.len() && spec_resolved_prompts(eps, contents, base)[j].id
            == #[trigger] eps[i].id && contents[i] is Some
}

/// Every resolved prompt takes its id from an endpoint whose content was
/// present.
pub proof fn lemma_resolved_ids_from_endpoints(
    eps: Seq<McpEndpointView>,
    contents: Seq<Option<Seq<char>>>,
    base: Seq<char>,
)
    requires
        eps.len() == contents.len(),
    ensures
        forall|j: int|
            0 <= j < spec_resolved_prompts(eps, contents, base).len() ==> #[trigger] prompt_source_ok(
                eps,
                contents,
                base,
                j,
            ),
    decreases eps.len(),
{
    if eps.len() > 0 {
        lemma_resolved_ids_from_endpoints(eps.drop_last(), contents.drop_last(), base);
        let res = spec_resolved_prompts(eps, contents, base);
        let rest = spec_resolved_prompts(eps.drop_last(), contents.drop_last(), base);
        assert forall|j: int| 0 <= j < res.len() implies #[trigger] prompt_source_ok(
            eps,
            contents,
            base,
            j,
        ) by {
            if j < rest.len() {
                assert(res[j] == rest[j]);
                assert(prompt_source_ok(eps.drop_last(), contents.drop_last(), base, j));
                let i = choose|i: int|
                    0 <= i < eps.drop_last().len() && rest[j].id == #[trigger] eps.drop_last()[i].id
                        && contents.drop_last()[i] is Some;
                assert(eps.drop_last()[i] == eps[i]);
                assert(contents.drop_last()[i] == contents[i]);
                assert(0 <= i < eps.len() && res[j].id == eps[i].id && contents[i] is Some);
            } else {
                let i = eps.len() - 1;
                assert(contents.last() is Some);
                assert(0 <= i < eps.len() && res[j].id == eps[i].id && contents[i] is Some);
            }
        }
    }
}

/// A manifest entry whose prompt file is gone yields no prompt on reload,
/// while the endpoint itself remains in the index. Stated for indices with
/// distinct endpoint ids.
pub proof fn lemma_missing_file_omits_prompt(
    eps: Seq<McpEndpointView>,
    contents: Seq<Option<Seq<char>>>,
    base: Seq<char>,
    k: int,
)
    requires
        eps.len() == contents.len(),
        0 <= k < eps.len(),
        contents[k] is None,
        forall|i: int, j: int| 0 <= i < j < eps.len() ==> eps[i].id != eps[j].id,
    ensures
        forall|j: int|
            0 <= j < spec_resolved_prompts(eps, contents, base).len()
                ==> #[trigger] spec_resolved_prompts(eps, contents, base)[j].id != eps[k].id,
{
    lemma_resolved_ids_from_endpoints(eps, contents, base);
    let res = spec_resolved_prompts(eps, contents, base);
    assert forall|j: int| 0 <= j < res.len() implies res[j].id != eps[k].id by {
        assert(prompt_source_ok(eps, contents, base, j));
        let i = choose|i: int|
            0 <= i < eps.len() && res[j].id == #[trigger] eps[i].id && contents[i] is Some;
        if i == k {
            assert(false);
        } else if i < k {
            assert(eps[i].id != eps[k].id);
        } else {
            assert(eps[k].id != eps[i].id);
        }
    }
}

/// Distinct endpoint ids yield distinct prompt ids: the resolved prompt
/// list of an index whose ids are pairwise distinct repeats no id, so every
/// prompt id is unique within the assembled library.
pub proof fn lemma_resolved_ids_distinct(
    eps: Seq<McpEndpointView>,
    contents: Seq<Option<Seq<char>>>,
    base: Seq<char>,
)
    requires
        eps.len() == contents.len(),
        spec_ids_distinct(eps),
    ensures
        forall|i: int, j: int|
            0 <= i < j < spec_resolved_prompts(eps, contents, base).len()
                ==> #[trigger] spec_resolved_prompts(eps, contents, base)[i].id
                != #[trigger] spec_resolved_prompts(eps, contents, base)[j].id,
    decreases eps.len(),
{
    if eps.len() > 0 {
        assert forall|a: int, b: int| 0 <= a < b < eps.drop_last().len() implies eps.drop_last()[a].id
            != eps.drop_last()[b].id by {
            assert(eps.drop_last()[a] == eps[a]);
            assert(eps.drop_last()[b] == eps[b]);
        }
        lemma_resolved_ids_distinct(eps.drop_last(), contents.drop_last(), base);
        lemma_resolved_ids_from_endpoints(eps.drop_last(), contents.drop_last(), base);
        let res = spec_resolved_prompts(eps, contents, base);
        let rest = spec_resolved_prompts(eps.drop_last(), contents.drop_last(), base);
        assert forall|i: int, j: int| 0 <= i < j < res.len() implies #[trigger] res[i].id
            != #[trigger] res[j].id by {
            match contents.last() {
                Some(c) => {
                    if j < rest.len() {
                        assert(res[i] == rest[i] && res[j] == rest[j]);
                    } else {
                        assert(res[i] == rest[i]);
                        assert(res[j].id == eps.last().id);
                        assert(prompt_source_ok(eps.drop_last(), contents.drop_last(), base, i));
                        let k = choose|k: int|
                            0 <= k < eps.drop_last().len() && rest[i].id == #[trigger] eps
                                .drop_last()[k].id && contents.drop_last()[k] is Some;
                        assert(eps.drop_last()[k] == eps[k]);
                        assert(eps[k].id != eps[eps.len() - 1].id);
                    }
                },
                None => {
                    assert(res[i] == rest[i] && res[j] == rest[j]);
                },
            }
        }
    }
}

/// The cache key of a repository: its library subdirectory.
pub open spec fn spec_lib_path(repo_path: Seq<char>) -> Seq<char> {
    repo_path + "/.agent_library"@
}

/// The library subdirectory of a repository path.
pub fn lib_path_of(repo_path: &str) -> (r: String)
    ensures
        r@ == spec_lib_path(repo_path@),
{
    String::from_str(repo_path).concat("/.agent_library")
}

/// One cached parse: the library directory, its parsed value, and the
/// directory modification time the value was parsed at.
pub struct StoreEntry {
    pub path: String,
    pub library: AgentLibrary,
    pub mtime_ms: u64,
}

pub ghost struct StoreEntryView {
    pub path: Seq<char>,
    pub library: AgentLibraryView,
    pub mtime_ms: u64,
}

impl View for StoreEntry {
    type V = StoreEntryView;

    open spec fn view(&self) -> StoreEntryView {
        StoreEntryView { path: self.path@, library: self.library@, mtime_ms: self.mtime_ms }
    }
}

/// The parsed-library cache, keyed by library directory.
pub struct LibraryStore {
    entries: Vec<StoreEntry>,
}

impl View for LibraryStore {
    type V = Seq<StoreEntryView>;

    closed spec fn view(&self) -> Seq<StoreEntryView> {
        self.entries@.map_values(|e: StoreEntry| e@)
    }
}

/// First cache entry stored under `path`.
pub open spec fn spec_store_find(s: Seq<StoreEntryView>, path: Seq<char>) -> Option<StoreEntryView>
    decreases s.len(),
{
    if s.len() == 0 {
        None
    } else if s.first().path == path {
        Some(s.first())
    } else {
        spec_store_find(s.drop_first(), path)
    }
}

/// What the cache serves for a directory whose on-disk modification time is
/// `dir_mtime_ms`: the entry under that path, provided the on-disk time is
/// not newer than the cached one.
pub open spec fn spec_store_lookup(
    s: Seq<StoreEntryView>,
    path: Seq<char>,
    dir_mtime_ms: u64,
) -> Option<AgentLibraryView> {
    match spec_store_find(s, path) {
        Some(e) => if dir_mtime_ms <= e.mtime_ms {
            Some(e.library)
        } else {
            None
        },
        None => None,
    }
}

/// Replacing the first entry under a path: that path now maps to the new
/// entry; every other path is untouched.
proof fn lemma_store_find_update(s: Seq<StoreEntryView>, i: int, e: StoreEntryView)
    requires
        0 <= i < s.len(),
        s[i].path == e.path,
        forall|j: int| 0 <= j < i ==> s[j].path != e.path,
    ensures
        spec_store_find(s.update(i, e), e.path) == Some(e),
        forall|k: Seq<char>| k != e.path ==> spec_store_find(s.update(i, e), k)
            == spec_store_find(s, k),
    decreases s.len(),
{
    reveal_with_fuel(spec_store_find, 2);
    let t = s.update(i, e);
    if i == 0 {
        assert(t.first() == e);
        assert(t.drop_first() =~= s.drop_first());
        assert forall|k: Seq<char>| k != e.path implies spec_store_find(t, k) == spec_store_find(
            s,
            k,
        ) by {}
    } else {
        assert(t.first() == s.first());
        assert(t.drop_first() =~= s.drop_first().update(i - 1, e));
        lemma_store_find_update(s.drop_first(), i - 1, e);
        assert(spec_store_find(t, e.path) == Some(e));
        assert forall|k: Seq<char>| k != e.path implies spec_store_find(t, k) == spec_store_find(
            s,
            k,
        ) by {
            if s.first().path == k {
            } else {
                assert(spec_store_find(t, k) == spec_store_find(t.drop_first(), k));
                assert(spec_store_find(s, k) == spec_store_find(s.drop_first(), k));
            }
        }
    }
}

/// Appending an entry under a new path: that path now maps to it; every
/// other path is untouched.
proof fn lemma_store_find_push(s: Seq<StoreEntryView>, e: StoreEntryView)
    requires
        forall|j: int| 0 <= j < s.len() ==> s[j].path != e.path,
    ensures
        spec_store_find(s.push(e), e.path) == Some(e),
        forall|k: Seq<char>| k != e.path ==> spec_store_find(s.push(e), k) == spec_store_find(
            s,
            k,
        ),
    decreases s.len(),
{
    reveal_with_fuel(spec_store_find, 2);
    let t = s.push(e);
    if s.len() == 0 {
        assert(t.first() == e);
        assert(t.drop_first() =~= Seq::<StoreEntryView>::empty());
        assert forall|k: Seq<char>| k != e.path implies spec_store_find(t, k) == spec_store_find(
            s,
            k,
        ) by {}
    } else {
        assert(t.first() == s.first());
        assert(t.drop_first() =~= s.drop_first().push(e));
        assert(forall|j: int| 0 <= j < s.drop_first().len() ==> s.drop_first()[j].path != e.path);
        lemma_store_find_push(s.drop_first(), e);
        assert(s.first().path != e.path);
        assert(spec_store_find(t, e.path) == Some(e));
        assert forall|k: Seq<char>| k != e.path implies spec_store_find(t, k) == spec_store_find(
            s,
            k,
        ) by {
            if s.first().path == k {
            } else {
                assert(spec_store_find(t, k) == spec_store_find(t.drop_first(), k));
                assert(spec_store_find(s, k) == spec_store_find(s.drop_first(), k));
            }
        }
    }
}

/// What consulting the cache before any file read concludes.
pub enum CheckOutcome {
    /// The library subdirectory is absent; loading fails.
    Missing(LibraryError),
    /// The cache serves this library; nothing is read or parsed.
    Hit(AgentLibrary),
    /// The caller must read the manifest and prompt files and parse afresh.
    MissNeedsParse,
}

impl LibraryStore {
    /// An empty cache.
    pub fn new() -> (r: Self)
        ensures
            r@ == Seq::<StoreEntryView>::empty(),
    {
        let r = LibraryStore { entries: Vec::new() };
        proof {
            assert(r@ =~= Seq::<StoreEntryView>::empty());
        }
        r
    }

    /// A copy of the library cached for `path`, served only if the on-disk
    /// modification time is not newer than the cached one.
    #[verifier::loop_isolation(false)]
    pub fn lookup(&self, path: &str, dir_mtime_ms: u64) -> (r: Option<AgentLibrary>)
        ensures
            match r {
                Some(l) => spec_store_lookup(self@, path@, dir_mtime_ms) == Some(l@),
                None => spec_store_lookup(self@, path@, dir_mtime_ms) is None,
            },
    {
        let ghost cv = self@;
        let n = self.entries.len();
        let mut i: usize = 0;
        proof {
            assert(cv.skip(0) =~= cv);
        }
        while i < n
            invariant
                i <= n,
                spec_store_find(cv, path@) == spec_store_find(cv.skip(i as int), path@),
            decreases n - i,
        {
            proof {
                assert(cv.skip(i as int).first() == cv[i as int]);
                assert(cv.skip(i as int).drop_first() =~= cv.skip(i + 1));
            }
            let e = &self.entries[i];
            if strutil::str_eq(e.path.as_str(), path) {
                if dir_mtime_ms <= e.mtime_ms {
                    return Some(e.library.clone());
                } else {
                    return None;
                }
            }
            i = i + 1;
        }
        proof {
            assert(cv.skip(n as int) =~= Seq::<StoreEntryView>::empty());
        }
        None
    }

    /// Stores a parsed library under `path` with the directory modification
    /// time it was parsed at, replacing any earlier entry for the same path
    /// and touching no other path.
    #[verifier::loop_isolation(false)]
    pub fn store(&mut self, path: String, library: AgentLibrary, mtime_ms: u64)
        ensures
            spec_store_find(final(self)@, path@) == Some(
                StoreEntryView { path: path@, library: library@, mtime_ms: mtime_ms },
            ),
            forall|k: Seq<char>| k != path@ ==> spec_store_find(final(self)@, k)
                == spec_store_find(old(self)@, k),
    {
        let ghost cv = self@;
        let ghost ev = StoreEntryView { path: path@, library: library@, mtime_ms: mtime_ms };
        let n = self.entries.len();
        let mut i: usize = 0;
        while i < n
            invariant
                i <= n,
                n == self.entries@.len(),
                self@ == cv,
                forall|j: int| 0 <= j < i ==> cv[j].path != path@,
            decreases n - i,
        {
            if strutil::str_eq(self.entries[i].path.as_str(), path.as_str()) {
                self.entries.set(i, StoreEntry { path, library, mtime_ms });
                proof {
                    assert(self@ =~= cv.update(i as int, ev));
                    lemma_store_find_update(cv, i as int, ev);
                }
                return ;
            }
            i = i + 1;
        }
        self.entries.push(StoreEntry { path, library, mtime_ms });
        proof {
            assert(self@ =~= cv.push(ev));
            lemma_store_find_push(cv, ev);
        }
    }

    /// The first step of loading `repo_path`: fail when its library
    /// subdirectory is absent, serve the cached parse when the directory is
    /// not newer than it, and ask for a fresh parse otherwise. Serving from
    /// cache needs no file contents at all: nothing is re-read on a hit.
    pub fn check(&self, repo_path: &str, dir_exists: bool, dir_mtime_ms: u64) -> (r: CheckOutcome)
        ensures
            !dir_exists ==> (r matches CheckOutcome::Missing(e) && e@
                == LibraryErrorView::NotFound(
                ".agent_library directory not found in "@ + repo_path@,
            )),
            dir_exists ==> match spec_store_lookup(
                self@,
                spec_lib_path(repo_path@),
                dir_mtime_ms,
            ) {
                Some(lv) => r matches CheckOutcome::Hit(l) && l@ == lv,
                None => r is MissNeedsParse,
            },
    {
        if !dir_exists {
            return CheckOutcome::Missing(
                LibraryError::NotFound(
                    String::from_str(".agent_library directory not found in ").concat(repo_path),
                ),
            );
        }
        let lib_path = lib_path_of(repo_path);
        match self.lookup(lib_path.as_str(), dir_mtime_ms) {
            Some(l) => CheckOutcome::Hit(l),
            None => CheckOutcome::MissNeedsParse,
        }
    }
}

/// First file of the listing named `name`.
pub open spec fn spec_file_find(
    files: Seq<(Seq<char>, Seq<char>)>,
    name: Seq<char>,
) -> Option<Seq<char>>
    decreases files.len(),
{
    if files.len() == 0 {
        None
    } else if files.first().0 == name {
        Some(files.first().1)
    } else {
        spec_file_find(files.drop_first(), name)
    }
}

/// Spec-level image of a name-to-content file listing.
pub open spec fn files_list_view(files: Seq<(String, String)>) -> Seq<(Seq<char>, Seq<char>)> {
    files.map_values(|f: (String, String)| (f.0@, f.1@))
}

/// The content found for each endpoint's prompt file in a file listing.
pub open spec fn spec_contents_of(
    files: Seq<(Seq<char>, Seq<char>)>,
    eps: Seq<McpEndpointView>,
) -> Seq<Option<Seq<char>>> {
    eps.map_values(|e: McpEndpointView| spec_file_find(files, e.prompt_file))
}

/// The content of the first file named `name`, when one is listed.
#[verifier::loop_isolation(false)]
fn file_find<'a>(files: &'a Vec<(String, String)>, name: &str) -> (r: Option<&'a String>)
    ensures
        match r {
            Some(c) => spec_file_find(files_list_view(files@), name@) == Some(c@),
            None => spec_file_find(files_list_view(files@), name@) is None,
        },
{
    let ghost fv = files_list_view(files@);
    let n = files.len();
    let mut i: usize = 0;
    proof {
        assert(fv.skip(0) =~= fv);
    }
    while i < n
        invariant
            i <= n,
            spec_file_find(fv, name@) == spec_file_find(fv.skip(i as int), name@),
        decreases n - i,
    {
        proof {
            assert(fv.skip(i as int).first() == fv[i as int]);
            assert(fv.skip(i as int).drop_first() =~= fv.skip(i + 1));
        }
        if strutil::str_eq(files[i].0.as_str(), name) {
            return Some(&files[i].1);
        }
        i = i + 1;
    }
    proof {
        assert(fv.skip(n as int) =~= Seq::<StoreEntryView>::empty().map_values(
            |e: StoreEntryView| (e.path, e.path),
        ));
        assert(fv.skip(n as int) =~= Seq::<(Seq<char>, Seq<char>)>::empty());
    }
    None
}

impl LibraryStore {
    /// The second step of loading: parses the manifest text, materializes a
    /// prompt for each endpoint whose file appears in `files` (name-to-content,
    /// relative to the library directory), stores the result in the cache
    /// under the library directory with `dir_mtime_ms`, and returns it.
    /// Fails without touching the cache when the manifest is absent or does
    /// not parse.
    #[verifier::loop_isolation(false)]
    pub fn load_parsed(
        &mut self,
        repo_path: &str,
        dir_mtime_ms: u64,
        index_text: Option<&str>,
        files: &Vec<(String, String)>,
    ) -> (r: Result<AgentLibrary, LibraryError>)
        ensures
            index_text is None ==> (r matches Err(e) && e@ == LibraryErrorView::NotFound(
                "agent_index.yml not found in "@ + spec_lib_path(repo_path@),
            )),
            index_text matches Some(t) ==> match spec_index_of_doc(spec_yaml_doc(t@)) {
                Some(eps) => (r matches Ok(lib) && {
                    &&& lib@.index.mcp_endpoints == eps
                    &&& lib@.base_path == spec_lib_path(repo_path@)
                    &&& lib@.prompts == spec_resolved_prompts(
                        eps,
                        spec_contents_of(files_list_view(files@), eps),
                        spec_lib_path(repo_path@),
                    )
                    &&& spec_ids_distinct(eps)
                    &&& (forall|i: int, j: int|
                        0 <= i < j < lib@.prompts.len() ==> lib@.prompts[i].id
                            != lib@.prompts[j].id)
                    &&& spec_store_find(final(self)@, spec_lib_path(repo_path@)) == Some(
                        StoreEntryView {
                            path: spec_lib_path(repo_path@),
                            library: lib@,
                            mtime_ms: dir_mtime_ms,
                        },
                    )
                    &&& forall|k: Seq<char>| k != spec_lib_path(repo_path@) ==> spec_store_find(
                        final(self)@,
                        k,
                    ) == spec_store_find(old(self)@, k)
                }),
                None => (r matches Err(e) && e@ matches LibraryErrorView::ParseError(_)),
            },
            r matches Err(_) ==> final(self)@ == old(self)@,
    {
        let lib_path = lib_path_of(repo_path);
        let text = match index_text {
            Some(t) => t,
            None => {
                return Err(
                    LibraryError::NotFound(
                        String::from_str("agent_index.yml not found in ").concat(
                            lib_path.as_str(),
                        ),
                    ),
                );
            },
        };
        let index = match AgentLibraryParser::parse_index_text(text) {
            Ok(idx) => idx,
            Err(e) => {
                return Err(e);
            },
        };
        let ghost epsv = index@.mcp_endpoints;
        let ghost filesv = files_list_view(files@);
        let mut contents: Vec<Option<String>> = Vec::new();
        let n = index.mcp_endpoints.len();
        let mut i: usize = 0;
        while i < n
            invariant
                i <= n,
                contents@.len() == i,
                forall|j: int| 0 <= j < i ==> view_opt_str(contents@[j]) == spec_file_find(
                    filesv,
                    epsv[j].prompt_file,
                ),
            decreases n - i,
        {
            match file_find(files, index.mcp_endpoints[i].prompt_file.as_str()) {
                Some(c) => contents.push(Some(c.clone())),
                None => contents.push(None),
            }
            i = i + 1;
        }
        proof {
            assert(contents@.map_values(|c: Option<String>| view_opt_str(c)) =~= spec_contents_of(
                filesv,
                epsv,
            ));
        }
        let library = AgentLibraryParser::assemble_library(lib_path.clone(), index, contents);
        proof {
            lemma_resolved_ids_distinct(
                library@.index.mcp_endpoints,
                spec_contents_of(files_list_view(files@), library@.index.mcp_endpoints),
                lib_path@,
            );
        }
        self.store(lib_path, library.clone(), dir_mtime_ms);
        Ok(library)
    }
}

/// Parsing a library, storing it, and looking it up again while the directory
/// modification time has not advanced serves the stored library verbatim: a
/// cache hit with content identical to what was parsed, reached without any
/// file contents being read.
pub proof fn lemma_store_then_lookup_hit(
    cache: Seq<StoreEntryView>,
    path: Seq<char>,
    library: AgentLibraryView,
    stored_mtime_ms: u64,
    later_mtime_ms: u64,
)
    requires
        spec_store_find(cache, path) == Some(
            StoreEntryView { path: path, library: library, mtime_ms: stored_mtime_ms },
        ),
        later_mtime_ms <= stored_mtime_ms,
    ensures
        spec_store_lookup(cache, path, later_mtime_ms) == Some(library),
{
}

/// Once the directory modification time has advanced past the cached one,
/// the cache declines to serve and the caller must parse afresh.
pub proof fn lemma_newer_directory_misses(
    cache: Seq<StoreEntryView>,
    path: Seq<char>,
    library: AgentLibraryView,
    stored_mtime_ms: u64,
    later_mtime_ms: u64,
)
    requires
        spec_store_find(cache, path) == Some(
            StoreEntryView { path: path, library: library, mtime_ms: stored_mtime_ms },
        ),
        later_mtime_ms > stored_mtime_ms,
    ensures
        spec_store_lookup(cache, path, later_mtime_ms) is None,
{
}

/// One entry met while scanning a search root: its path, its final path
/// component, whether it is a directory, and its depth below the root.
pub struct ScanEntry {
    pub path: String,
    pub name: String,
    pub is_dir: bool,
    pub depth: usize,
}

pub ghost struct ScanEntryView {
    pub path: Seq<char>,
    pub name: Seq<char>,
    pub is_dir: bool,
    pub depth: usize,
}

impl View for ScanEntry {
    type V = ScanEntryView;

    open spec fn view(&self) -> ScanEntryView {
        ScanEntryView {
            path: self.path@,
            name: self.name@,
            is_dir: self.is_dir,
            depth: self.depth,
        }
    }
}

/// The parent of a `'/'`-separated path: everything before the final
/// component; empty when there is no separator.
pub open spec fn spec_parent_dir(p: Seq<char>) -> Seq<char> {
    if strutil::spec_after_last_slash(p).len() < p.len() {
        p.take(p.len() - strutil::spec_after_last_slash(p).len() - 1)
    } else {
        Seq::empty()
    }
}

/// The parent directory of a `'/'`-separated path.
pub fn parent_dir(path: &str) -> (r: String)
    ensures
        r@ == spec_parent_dir(path@),
{
    let name = strutil::after_last_slash(path);
    let ls = path.unicode_len();
    let ln = name.unicode_len();
    if ln < ls {
        path.substring_char(0, ls - ln - 1).to_owned()
    } else {
        String::new()
    }
}

/// The repositories selected from a scan: the parent of every directory named
/// for the library marker within the depth bound, in scan order.
pub open spec fn spec_selected(entries: Seq<ScanEntryView>) -> Seq<Seq<char>>
    decreases entries.len(),
{
    if entries.len() == 0 {
        Seq::empty()
    } else {
        let rest = spec_selected(entries.drop_last());
        let e = entries.last();
        if e.is_dir && e.depth <= MAX_SCAN_DEPTH && e.name == ".agent_library"@ {
            rest.push(spec_parent_dir(e.path))
        } else {
            rest
        }
    }
}

impl AgentLibraryParser {
    /// The repository directories found in a scan: the parent of each
    /// directory literally named `.agent_library`, no deeper than
    /// `MAX_SCAN_DEPTH` below a search root, in scan order.
    #[verifier::loop_isolation(false)]
    pub fn select_repositories(entries: &Vec<ScanEntry>) -> (r: Vec<String>)
        ensures
            r@.map_values(|s: String| s@) == spec_selected(
                entries@.map_values(|e: ScanEntry| e@),
            ),
    {
        let ghost ev = entries@.map_values(|e: ScanEntry| e@);
        let mut out: Vec<String> = Vec::new();
        let n = entries.len();
        let mut i: usize = 0;
        proof {
            assert(ev.take(0) =~= Seq::empty());
            assert(out@.map_values(|s: String| s@) =~= spec_selected(ev.take(0)));
        }
        while i < n
            invariant
                i <= n,
                out@.map_values(|s: String| s@) == spec_selected(ev.take(i as int)),
            decreases n - i,
        {
            let e = &entries[i];
            if e.is_dir && e.depth <= MAX_SCAN_DEPTH && strutil::str_eq(
                e.name.as_str(),
                ".agent_library",
            ) {
                out.push(parent_dir(e.path.as_str()));
            }
            proof {
                assert(ev.take(i + 1).drop_last() =~= ev.take(i as int));
                assert(ev.take(i + 1).last() == ev[i as int]);
                assert(out@.map_values(|s: String| s@) =~= spec_selected(ev.take(i + 1)));
            }
            i = i + 1;
        }
        proof {
            assert(ev.take(n as int) =~= ev);
        }
        out
    }
}

} // verus!
