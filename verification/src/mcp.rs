//! The JSON-RPC protocol layer: request and response shapes, the stateless
//! method dispatcher, and the short-TTL response cache of a server instance.

use vstd::prelude::*;
use vstd::pervasive::VecAdditionalExecFns;
use vstd::string::StringExecFns;
use crate::json::{fields_view, lemma_vals_view_push, spec_get, vals_view, JsonVal, JsonValue};
use crate::json;
use crate::strutil;
use crate::types::{AgentLibrary, AgentLibraryView, PromptView};

verus! {

/// One JSON-RPC request, already decoded from the wire.
pub struct JsonRpcRequest {
    pub jsonrpc: String,
    pub id: Option<JsonValue>,
    pub method: String,
    pub params: Option<JsonValue>,
}

/// A JSON-RPC error object.
pub struct JsonRpcError {
    pub code: i64,
    pub message: String,
    pub data: Option<JsonValue>,
}

/// One JSON-RPC response; exactly one of `result` / `error` is present.
pub struct JsonRpcResponse {
    pub jsonrpc: String,
    pub id: Option<JsonValue>,
    pub result: Option<JsonValue>,
    pub error: Option<JsonRpcError>,
}

/// Spec-level image of an optional JSON value.
pub open spec fn view_opt_json(o: Option<JsonValue>) -> Option<JsonVal> {
    match o {
        Some(v) => Some(v@),
        None => None,
    }
}

pub ghost struct JsonRpcErrorView {
    pub code: int,
    pub message: Seq<char>,
    pub data: Option<JsonVal>,
}

impl View for JsonRpcError {
    type V = JsonRpcErrorView;

    open spec fn view(&self) -> JsonRpcErrorView {
        JsonRpcErrorView {
            code: self.code as int,
            message: self.message@,
            data: view_opt_json(self.data),
        }
    }
}

pub ghost struct JsonRpcResponseView {
    pub jsonrpc: Seq<char>,
    pub id: Option<JsonVal>,
    pub result: Option<JsonVal>,
    pub error: Option<JsonRpcErrorView>,
}

impl View for JsonRpcResponse {
    type V = JsonRpcResponseView;

    open spec fn view(&self) -> JsonRpcResponseView {
        JsonRpcResponseView {
            jsonrpc: self.jsonrpc@,
            id: view_opt_json(self.id),
            result: match self.result {
                Some(v) => Some(v@),
                None => None,
            },
            error: match self.error {
                Some(e) => Some(e@),
                None => None,
            },
        }
    }
}

/// The successful response carrying `result`, tagged `"2.0"`, echoing `id`.
pub open spec fn resp_ok(id: Option<JsonVal>, result: JsonVal) -> JsonRpcResponseView {
    JsonRpcResponseView { jsonrpc: "2.0"@, id: id, result: Some(result), error: None }
}

/// The error response with `code` and `message`, tagged `"2.0"`, echoing `id`.
pub open spec fn resp_err(id: Option<JsonVal>, code: int, message: Seq<char>)
    -> JsonRpcResponseView {
    JsonRpcResponseView {
        jsonrpc: "2.0"@,
        id: id,
        result: None,
        error: Some(JsonRpcErrorView { code: code, message: message, data: None }),
    }
}

/// A successful response value carrying `result`.
fn make_ok(id: Option<JsonValue>, result: JsonValue) -> (r: JsonRpcResponse)
    ensures
        r@ == resp_ok(view_opt_json(id), result@),
{
    JsonRpcResponse { jsonrpc: "2.0".to_owned(), id, result: Some(result), error: None }
}

/// An error response value with `code` and `message`.
fn make_err(id: Option<JsonValue>, code: i64, message: String) -> (r: JsonRpcResponse)
    ensures
        r@ == resp_err(view_opt_json(id), code as int, message@),
{
    JsonRpcResponse {
        jsonrpc: "2.0".to_owned(),
        id,
        result: None,
        error: Some(JsonRpcError { code, message, data: None }),
    }
}

/// The fixed result of `initialize`: protocol version, capabilities, and
/// server metadata.
pub open spec fn spec_initialize_result() -> JsonVal {
    JsonVal::Obj(
        seq![
            ("protocolVersion"@, JsonVal::Str("2025-06-18"@)),
            (
                "capabilities"@,
                JsonVal::Obj(
                    seq![
                        ("prompts"@, JsonVal::Obj(Seq::empty())),
                        ("resources"@, JsonVal::Obj(Seq::empty())),
                    ],
                ),
            ),
            (
                "serverInfo"@,
                JsonVal::Obj(
                    seq![
                        ("name"@, JsonVal::Str("librarian"@)),
                        ("version"@, JsonVal::Str("0.1.0"@)),
                    ],
                ),
            ),
        ],
    )
}

/// Handles `initialize`: fixed protocol metadata, request params ignored.
pub fn handle_initialize(id: Option<JsonValue>) -> (r: JsonRpcResponse)
    ensures
        r@ == resp_ok(view_opt_json(id), spec_initialize_result()),
{
    let mut caps: Vec<(String, JsonValue)> = Vec::new();
    caps.push(("prompts".to_owned(), json::empty_object()));
    caps.push(("resources".to_owned(), json::empty_object()));
    let mut info: Vec<(String, JsonValue)> = Vec::new();
    info.push(("name".to_owned(), json::jstr("librarian")));
    info.push(("version".to_owned(), json::jstr("0.1.0")));
    let mut fields: Vec<(String, JsonValue)> = Vec::new();
    fields.push(("protocolVersion".to_owned(), json::jstr("2025-06-18")));
    fields.push(("capabilities".to_owned(), JsonValue::Obj(caps)));
    fields.push(("serverInfo".to_owned(), JsonValue::Obj(info)));
    let result = JsonValue::Obj(fields);
    proof {
        crate::json::lemma_fields_view(caps@);
        crate::json::lemma_fields_view(info@);
        crate::json::lemma_fields_view(fields@);
        assert(result@ == spec_initialize_result()) by {
            assert(fields_view(caps@) =~= spec_initialize_result()->Obj_0[1].1->Obj_0);
            assert(fields_view(info@) =~= spec_initialize_result()->Obj_0[2].1->Obj_0);
            assert(fields_view(fields@) =~= spec_initialize_result()->Obj_0);
        }
    }
    make_ok(id, result)
}

/// Spec-level image of a library list.
pub open spec fn libs_view(s: Seq<AgentLibrary>) -> Seq<AgentLibraryView> {
    s.map_values(|l: AgentLibrary| l@)
}

/// Every prompt of every library, in library order then prompt order.
pub open spec fn all_prompts(libs: Seq<AgentLibraryView>) -> Seq<PromptView>
    decreases libs.len(),
{
    if libs.len() == 0 {
        Seq::empty()
    } else {
        all_prompts(libs.drop_last()) + libs.last().prompts
    }
}

/// Extending the library list appends its prompts to the flattened list.
pub proof fn lemma_all_prompts_snoc(libs: Seq<AgentLibraryView>, i: int)
    requires
        0 <= i < libs.len(),
    ensures
        all_prompts(libs.take(i + 1)) == all_prompts(libs.take(i)) + libs[i].prompts,
{
    assert(libs.take(i + 1).drop_last() =~= libs.take(i));
    assert(libs.take(i + 1).last() == libs[i]);
}

/// The listing entry advertised for one prompt.
pub open spec fn spec_listing_entry(p: PromptView) -> JsonVal {
    JsonVal::Obj(
        seq![
            ("name"@, JsonVal::Str(p.id)),
            ("title"@, JsonVal::Str(p.title)),
            ("description"@, JsonVal::Str(p.description)),
            ("arguments"@, JsonVal::Arr(Seq::empty())),
        ],
    )
}

/// Listing entries for a prompt list.
pub open spec fn mapped_entries(ps: Seq<PromptView>) -> Seq<JsonVal> {
    ps.map_values(|p: PromptView| spec_listing_entry(p))
}

/// The result of `prompts/list` over a library set.
pub open spec fn spec_listing_value(libs: Seq<AgentLibraryView>) -> JsonVal {
    JsonVal::Obj(seq![("prompts"@, JsonVal::Arr(mapped_entries(all_prompts(libs))))])
}

/// The listing entry for one prompt.
fn listing_entry(p: &crate::types::Prompt) -> (r: JsonValue)
    ensures
        r@ == spec_listing_entry(p@),
{
    let mut f: Vec<(String, JsonValue)> = Vec::new();
    f.push(("name".to_owned(), JsonValue::Str(p.id.clone())));
    f.push(("title".to_owned(), JsonValue::Str(p.title.clone())));
    f.push(("description".to_owned(), JsonValue::Str(p.description.clone())));
    f.push(("arguments".to_owned(), JsonValue::Arr(Vec::new())));
    let r = JsonValue::Obj(f);
    proof {
        crate::json::lemma_fields_view(f@);
        assert(fields_view(f@) =~= spec_listing_entry(p@)->Obj_0);
    }
    r
}

/// Handles `prompts/list`: the concatenated listing across all libraries, in
/// library order then prompt order.
#[verifier::loop_isolation(false)]
pub fn handle_prompts_list(libraries: &Vec<AgentLibrary>, id: Option<JsonValue>) -> (r:
    JsonRpcResponse)
    ensures
        r@ == resp_ok(view_opt_json(id), spec_listing_value(libs_view(libraries@))),
{
    let ghost lv = libs_view(libraries@);
    let mut entries: Vec<JsonValue> = Vec::new();
    proof {
        assert(lv.take(0) =~= Seq::empty());
        assert(mapped_entries(all_prompts(lv.take(0))) =~= vals_view(entries@));
    }
    let n = libraries.len();
    let mut li: usize = 0;
    while li < n
        invariant
            vals_view(entries@) == mapped_entries(all_prompts(lv.take(li as int))),
            li <= n,
        decreases n - li,
    {
        let pn = libraries[li].prompts.len();
        let mut pi: usize = 0;
        proof {
            assert(lv[li as int].prompts.take(0) =~= Seq::empty());
            assert(mapped_entries(all_prompts(lv.take(li as int)) + lv[li as int].prompts.take(0))
                =~= mapped_entries(all_prompts(lv.take(li as int))));
        }
        while pi < pn
            invariant
                li < n,
                pn == lv[li as int].prompts.len(),
                pi <= pn,
                vals_view(entries@) == mapped_entries(
                    all_prompts(lv.take(li as int)) + lv[li as int].prompts.take(pi as int),
                ),
            decreases pn - pi,
        {
            let ghost prev = entries@;
            let e = listing_entry(&libraries[li].prompts[pi]);
            entries.push(e);
            proof {
                lemma_vals_view_push(prev, e);
                assert(lv[li as int].prompts.take(pi as int).push(lv[li as int].prompts[pi as int])
                    =~= lv[li as int].prompts.take(pi + 1));
                assert(mapped_entries(
                    all_prompts(lv.take(li as int)) + lv[li as int].prompts.take(pi + 1),
                ) =~= vals_view(entries@));
            }
            pi = pi + 1;
        }
        proof {
            lemma_all_prompts_snoc(lv, li as int);
            assert(lv[li as int].prompts.take(pn as int) =~= lv[li as int].prompts);
        }
        li = li + 1;
    }
    proof {
        assert(lv.take(n as int) =~= lv);
    }
    let arr = JsonValue::Arr(entries);
    let mut fields: Vec<(String, JsonValue)> = Vec::new();
    fields.push(("prompts".to_owned(), arr));
    let result = JsonValue::Obj(fields);
    proof {
        crate::json::lemma_fields_view(fields@);
        assert(fields_view(fields@) =~= spec_listing_value(lv)->Obj_0);
    }
    make_ok(id, result)
}

/// Handles `initialized`: acknowledges the handshake with an empty result.
pub fn handle_initialized(id: Option<JsonValue>) -> (r: JsonRpcResponse)
    ensures
        r@ == resp_ok(view_opt_json(id), JsonVal::Obj(Seq::empty())),
{
    make_ok(id, json::empty_object())
}

/// The string under `key` in the request params, when present.
pub open spec fn spec_param_str(params: Option<JsonVal>, key: Seq<char>) -> Option<Seq<char>> {
    match params {
        Some(p) => match spec_get(p, key) {
            Some(JsonVal::Str(s)) => Some(s),
            _ => None,
        },
        None => None,
    }
}

/// First prompt named `name`, searching libraries in order.
pub open spec fn spec_find_in_libs(libs: Seq<AgentLibraryView>, name: Seq<char>) -> Option<
    PromptView,
>
    decreases libs.len(),
{
    if libs.len() == 0 {
        None
    } else {
        match crate::types::spec_find_prompt(libs.first().prompts, name) {
            Some(p) => Some(p),
            None => spec_find_in_libs(libs.drop_first(), name),
        }
    }
}

/// The result of `prompts/get`: one user message carrying the content.
pub open spec fn spec_message_result(content: Seq<char>) -> JsonVal {
    JsonVal::Obj(
        seq![
            (
                "messages"@,
                JsonVal::Arr(
                    seq![
                        JsonVal::Obj(
                            seq![
                                ("role"@, JsonVal::Str("user"@)),
                                (
                                    "content"@,
                                    JsonVal::Obj(
                                        seq![
                                            ("type"@, JsonVal::Str("text"@)),
                                            ("text"@, JsonVal::Str(content)),
                                        ],
                                    ),
                                ),
                            ],
                        ),
                    ],
                ),
            ),
        ],
    )
}

/// The full response of `prompts/get` for the given params.
pub open spec fn spec_prompts_get_response(
    libs: Seq<AgentLibraryView>,
    id: Option<JsonVal>,
    params: Option<JsonVal>,
) -> JsonRpcResponseView {
    match spec_param_str(params, "name"@) {
        None => resp_err(id, -32602, "Invalid params: name required"@),
        Some(name) => match spec_find_in_libs(libs, name) {
            Some(p) => resp_ok(id, spec_message_result(p.content)),
            None => resp_err(id, -32602, "Prompt '"@ + name + "' not found"@),
        },
    }
}

/// First prompt named `name` across the libraries, in order.
#[verifier::loop_isolation(false)]
fn find_in_libraries<'a>(libraries: &'a Vec<AgentLibrary>, name: &str) -> (r: Option<
    &'a crate::types::Prompt,
>)
    ensures
        match r {
            Some(p) => spec_find_in_libs(libs_view(libraries@), name@) == Some(p@),
            None => spec_find_in_libs(libs_view(libraries@), name@) is None,
        },
{
    let ghost lv = libs_view(libraries@);
    let n = libraries.len();
    let mut i: usize = 0;
    proof {
        assert(lv.skip(0) =~= lv);
    }
    while i < n
        invariant
            i <= n,
            spec_find_in_libs(lv, name@) == spec_find_in_libs(lv.skip(i as int), name@),
        decreases n - i,
    {
        proof {
            assert(lv.skip(i as int).first() == lv[i as int]);
            assert(lv.skip(i as int).drop_first() =~= lv.skip(i + 1));
        }
        let found = crate::types::find_prompt_in(&libraries[i].prompts, name);
        match found {
            Some(p) => {
                return Some(p);
            },
            None => {},
        }
        i = i + 1;
    }
    None
}

/// Handles `prompts/get`: requires `params.name`; first matching prompt wins;
/// replies with one `"user"` message holding the prompt's content.
pub fn handle_prompts_get(
    libraries: &Vec<AgentLibrary>,
    id: Option<JsonValue>,
    params: &Option<JsonValue>,
) -> (r: JsonRpcResponse)
    ensures
        r@ == spec_prompts_get_response(
            libs_view(libraries@),
            view_opt_json(id),
            view_opt_json(*params),
        ),
{
    let name_opt: Option<&String> = match params {
        Some(p) => match p.get("name") {
            Some(v) => v.as_str(),
            None => None,
        },
        None => None,
    };
    match name_opt {
        None => make_err(id, -32602, "Invalid params: name required".to_owned()),
        Some(name) => {
            match find_in_libraries(libraries, name.as_str()) {
                Some(p) => {
                    let mut content_f: Vec<(String, JsonValue)> = Vec::new();
                    content_f.push(("type".to_owned(), json::jstr("text")));
                    content_f.push(("text".to_owned(), JsonValue::Str(p.content.clone())));
                    let mut msg_f: Vec<(String, JsonValue)> = Vec::new();
                    msg_f.push(("role".to_owned(), json::jstr("user")));
                    msg_f.push(("content".to_owned(), JsonValue::Obj(content_f)));
                    let mut arr: Vec<JsonValue> = Vec::new();
                    arr.push(JsonValue::Obj(msg_f));
                    let mut top: Vec<(String, JsonValue)> = Vec::new();
                    top.push(("messages".to_owned(), JsonValue::Arr(arr)));
                    let result = JsonValue::Obj(top);
                    proof {
                        crate::json::lemma_fields_view(content_f@);
                        crate::json::lemma_fields_view(msg_f@);
                        crate::json::lemma_vals_view(arr@);
                        crate::json::lemma_fields_view(top@);
                        let expected = spec_message_result(p@.content);
                        assert(result@ == expected) by {
                            assert(fields_view(content_f@)
                                =~= expected->Obj_0[0].1->Arr_0[0]->Obj_0[1].1->Obj_0);
                            assert(fields_view(msg_f@) =~= expected->Obj_0[0].1->Arr_0[0]->Obj_0);
                            assert(vals_view(arr@) =~= expected->Obj_0[0].1->Arr_0);
                            assert(fields_view(top@) =~= expected->Obj_0);
                        }
                    }
                    make_ok(id, result)
                },
                None => make_err(
                    id,
                    -32602,
                    String::from_str("Prompt '").concat(name.as_str()).concat("' not found"),
                ),
            }
        },
    }
}

/// The resource descriptor advertised for one prompt.
pub open spec fn spec_resource_entry(p: PromptView) -> JsonVal {
    JsonVal::Obj(
        seq![
            ("uri"@, JsonVal::Str("agent_library://"@ + p.id)),
            ("name"@, JsonVal::Str(p.id)),
            ("title"@, JsonVal::Str(p.title)),
            ("description"@, JsonVal::Str(p.description)),
            ("mimeType"@, JsonVal::Str("text/markdown"@)),
        ],
    )
}

/// Resource descriptors for a prompt list.
pub open spec fn mapped_resources(ps: Seq<PromptView>) -> Seq<JsonVal> {
    ps.map_values(|p: PromptView| spec_resource_entry(p))
}

/// The result of `resources/list` over a library set.
pub open spec fn spec_resources_value(libs: Seq<AgentLibraryView>) -> JsonVal {
    JsonVal::Obj(seq![("resources"@, JsonVal::Arr(mapped_resources(all_prompts(libs))))])
}

/// The resource descriptor for one prompt.
fn resource_entry(p: &crate::types::Prompt) -> (r: JsonValue)
    ensures
        r@ == spec_resource_entry(p@),
{
    let uri = String::from_str("agent_library://").concat(p.id.as_str());
    let mut f: Vec<(String, JsonValue)> = Vec::new();
    f.push(("uri".to_owned(), JsonValue::Str(uri)));
    f.push(("name".to_owned(), JsonValue::Str(p.id.clone())));
    f.push(("title".to_owned(), JsonValue::Str(p.title.clone())));
    f.push(("description".to_owned(), JsonValue::Str(p.description.clone())));
    f.push(("mimeType".to_owned(), json::jstr("text/markdown")));
    let r = JsonValue::Obj(f);
    proof {
        crate::json::lemma_fields_view(f@);
        assert(fields_view(f@) =~= spec_resource_entry(p@)->Obj_0);
    }
    r
}

/// Handles `resources/list`: one descriptor per prompt per library.
#[verifier::loop_isolation(false)]
pub fn handle_resources_list(libraries: &Vec<AgentLibrary>, id: Option<JsonValue>) -> (r:
    JsonRpcResponse)
    ensures
        r@ == resp_ok(view_opt_json(id), spec_resources_value(libs_view(libraries@))),
{
    let ghost lv = libs_view(libraries@);
    let mut entries: Vec<JsonValue> = Vec::new();
    proof {
        assert(lv.take(0) =~= Seq::empty());
        assert(mapped_resources(all_prompts(lv.take(0))) =~= vals_view(entries@));
    }
    let n = libraries.len();
    let mut li: usize = 0;
    while li < n
        invariant
            vals_view(entries@) == mapped_resources(all_prompts(lv.take(li as int))),
            li <= n,
        decreases n - li,
    {
        let pn = libraries[li].prompts.len();
        let mut pi: usize = 0;
        proof {
            assert(lv[li as int].prompts.take(0) =~= Seq::empty());
            assert(mapped_resources(
                all_prompts(lv.take(li as int)) + lv[li as int].prompts.take(0),
            ) =~= mapped_resources(all_prompts(lv.take(li as int))));
        }
        while pi < pn
            invariant
                li < n,
                pn == lv[li as int].prompts.len(),
                pi <= pn,
                vals_view(entries@) == mapped_resources(
                    all_prompts(lv.take(li as int)) + lv[li as int].prompts.take(pi as int),
                ),
            decreases pn - pi,
        {
            let ghost prev = entries@;
            let e = resource_entry(&libraries[li].prompts[pi]);
            entries.push(e);
            proof {
                lemma_vals_view_push(prev, e);
                assert(lv[li as int].prompts.take(pi as int).push(lv[li as int].prompts[pi as int])
                    =~= lv[li as int].prompts.take(pi + 1));
                assert(mapped_resources(
                    all_prompts(lv.take(li as int)) + lv[li as int].prompts.take(pi + 1),
                ) =~= vals_view(entries@));
            }
            pi = pi + 1;
        }
        proof {
            lemma_all_prompts_snoc(lv, li as int);
            assert(lv[li as int].prompts.take(pn as int) =~= lv[li as int].prompts);
        }
        li = li + 1;
    }
    proof {
        assert(lv.take(n as int) =~= lv);
    }
    let arr = JsonValue::Arr(entries);
    let mut fields: Vec<(String, JsonValue)> = Vec::new();
    fields.push(("resources".to_owned(), arr));
    let result = JsonValue::Obj(fields);
    proof {
        crate::json::lemma_fields_view(fields@);
        assert(fields_view(fields@) =~= spec_resources_value(lv)->Obj_0);
    }
    make_ok(id, result)
}

/// The result of `resources/read`: the content under the requested URI.
pub open spec fn spec_contents_result(uri: Seq<char>, content: Seq<char>) -> JsonVal {
    JsonVal::Obj(
        seq![
            (
                "contents"@,
                JsonVal::Arr(
                    seq![
                        JsonVal::Obj(
                            seq![
                                ("uri"@, JsonVal::Str(uri)),
                                ("mimeType"@, JsonVal::Str("text/markdown"@)),
                                ("text"@, JsonVal::Str(content)),
                            ],
                        ),
                    ],
                ),
            ),
        ],
    )
}

/// The full response of `resources/read` for the given params.
pub open spec fn spec_resources_read_response(
    libs: Seq<AgentLibraryView>,
    id: Option<JsonVal>,
    params: Option<JsonVal>,
) -> JsonRpcResponseView {
    match spec_param_str(params, "uri"@) {
        None => resp_err(id, -32602, "Invalid params: uri required"@),
        Some(uri) => if strutil::spec_starts_with(uri, "agent_library://"@) {
            match spec_find_in_libs(
                libs,
                uri.subrange("agent_library://"@.len() as int, uri.len() as int),
            ) {
                Some(p) => resp_ok(id, spec_contents_result(uri, p.content)),
                None => resp_err(id, -32602, "Resource '"@ + uri + "' not found"@),
            }
        } else {
            resp_err(id, -32602, "Resource '"@ + uri + "' not found"@)
        },
    }
}

/// Handles `resources/read`: requires `params.uri` with the library scheme;
/// returns the matching prompt's content under that URI.
pub fn handle_resources_read(
    libraries: &Vec<AgentLibrary>,
    id: Option<JsonValue>,
    params: &Option<JsonValue>,
) -> (r: JsonRpcResponse)
    ensures
        r@ == spec_resources_read_response(
            libs_view(libraries@),
            view_opt_json(id),
            view_opt_json(*params),
        ),
{
    let uri_opt: Option<&String> = match params {
        Some(p) => match p.get("uri") {
            Some(v) => v.as_str(),
            None => None,
        },
        None => None,
    };
    match uri_opt {
        None => make_err(id, -32602, "Invalid params: uri required".to_owned()),
        Some(uri) => {
            let stripped = strutil::strip_prefix_str(uri.as_str(), "agent_library://");
            match stripped {
                Some(prompt_id) => {
                    match find_in_libraries(libraries, prompt_id) {
                        Some(p) => {
                            let mut entry_f: Vec<(String, JsonValue)> = Vec::new();
                            entry_f.push(("uri".to_owned(), JsonValue::Str(uri.clone())));
                            entry_f.push(("mimeType".to_owned(), json::jstr("text/markdown")));
                            entry_f.push(("text".to_owned(), JsonValue::Str(p.content.clone())));
                            let mut arr: Vec<JsonValue> = Vec::new();
                            arr.push(JsonValue::Obj(entry_f));
                            let mut top: Vec<(String, JsonValue)> = Vec::new();
                            top.push(("contents".to_owned(), JsonValue::Arr(arr)));
                            let result = JsonValue::Obj(top);
                            proof {
                                crate::json::lemma_fields_view(entry_f@);
                                crate::json::lemma_vals_view(arr@);
                                crate::json::lemma_fields_view(top@);
                                let expected = spec_contents_result(uri@, p@.content);
                                assert(result@ == expected) by {
                                    assert(fields_view(entry_f@)
                                        =~= expected->Obj_0[0].1->Arr_0[0]->Obj_0);
                                    assert(vals_view(arr@) =~= expected->Obj_0[0].1->Arr_0);
                                    assert(fields_view(top@) =~= expected->Obj_0);
                                }
                            }
                            make_ok(id, result)
                        },
                        None => make_err(
                            id,
                            -32602,
                            String::from_str("Resource '").concat(uri.as_str()).concat(
                                "' not found",
                            ),
                        ),
                    }
                },
                None => make_err(
                    id,
                    -32602,
                    String::from_str("Resource '").concat(uri.as_str()).concat("' not found"),
                ),
            }
        },
    }
}

/// The response of the dispatcher for any method, over the method table.
pub open spec fn spec_dispatch(
    libs: Seq<AgentLibraryView>,
    method: Seq<char>,
    id: Option<JsonVal>,
    params: Option<JsonVal>,
) -> JsonRpcResponseView {
    if method == "initialize"@ {
        resp_ok(id, spec_initialize_result())
    } else if method == "initialized"@ {
        resp_ok(id, JsonVal::Obj(Seq::empty()))
    } else if method == "prompts/list"@ {
        resp_ok(id, spec_listing_value(libs))
    } else if method == "prompts/get"@ {
        spec_prompts_get_response(libs, id, params)
    } else if method == "resources/list"@ {
        resp_ok(id, spec_resources_value(libs))
    } else if method == "resources/read"@ {
        spec_resources_read_response(libs, id, params)
    } else {
        resp_err(id, -32601, "Method not found"@)
    }
}

/// Routes one request to its handler against the given library snapshot.
/// Stateless; unknown methods get error `-32601` and no result.
pub fn dispatch(
    libraries: &Vec<AgentLibrary>,
    method: &str,
    id: Option<JsonValue>,
    params: &Option<JsonValue>,
) -> (r: JsonRpcResponse)
    ensures
        r@ == spec_dispatch(
            libs_view(libraries@),
            method@,
            view_opt_json(id),
            view_opt_json(*params),
        ),
{
    if strutil::str_eq(method, "initialize") {
        handle_initialize(id)
    } else if strutil::str_eq(method, "initialized") {
        handle_initialized(id)
    } else if strutil::str_eq(method, "prompts/list") {
        handle_prompts_list(libraries, id)
    } else if strutil::str_eq(method, "prompts/get") {
        handle_prompts_get(libraries, id, params)
    } else if strutil::str_eq(method, "resources/list") {
        handle_resources_list(libraries, id)
    } else if strutil::str_eq(method, "resources/read") {
        handle_resources_read(libraries, id, params)
    } else {
        make_err(id, -32601, "Method not found".to_owned())
    }
}

/// One memoized response: key, value, and creation time in clock
/// milliseconds.
pub struct CacheEntry {
    pub key: String,
    pub value: JsonValue,
    pub created_at_ms: u64,
}

pub ghost struct CacheEntryView {
    pub key: Seq<char>,
    pub value: JsonVal,
    pub created_at_ms: u64,
}

impl View for CacheEntry {
    type V = CacheEntryView;

    open spec fn view(&self) -> CacheEntryView {
        CacheEntryView { key: self.key@, value: self.value@, created_at_ms: self.created_at_ms }
    }
}

/// Short-TTL memoization of dispatcher outputs, keyed by method name.
pub struct ResponseCache {
    entries: Vec<CacheEntry>,
}

impl View for ResponseCache {
    type V = Seq<CacheEntryView>;

    closed spec fn view(&self) -> Seq<CacheEntryView> {
        self.entries@.map_values(|e: CacheEntry| e@)
    }
}

/// First entry stored under `key`.
pub open spec fn spec_cache_find(s: Seq<CacheEntryView>, key: Seq<char>) -> Option<CacheEntryView>
    decreases s.len(),
{
    if s.len() == 0 {
        None
    } else if s.first().key == key {
        Some(s.first())
    } else {
        spec_cache_find(s.drop_first(), key)
    }
}

/// Whether an entry is still valid at `now_ms` under `ttl_ms`.
pub open spec fn spec_fresh(e: CacheEntryView, now_ms: u64, ttl_ms: u64) -> bool {
    e.created_at_ms <= now_ms < e.created_at_ms + ttl_ms
}

/// The value served from cache at `now_ms`, if any: the entry under `key`
/// when it exists and has not expired.
pub open spec fn spec_fresh_value(
    s: Seq<CacheEntryView>,
    key: Seq<char>,
    now_ms: u64,
    ttl_ms: u64,
) -> Option<JsonVal> {
    match spec_cache_find(s, key) {
        Some(e) => if spec_fresh(e, now_ms, ttl_ms) {
            Some(e.value)
        } else {
            None
        },
        None => None,
    }
}

/// Replacing the first entry under a key: that key now maps to the new
/// entry; every other key is untouched.
proof fn lemma_cache_find_update(s: Seq<CacheEntryView>, i: int, e: CacheEntryView)
    requires
        0 <= i < s.len(),
        s[i].key == e.key,
        forall|j: int| 0 <= j < i ==> s[j].key != e.key,
    ensures
        spec_cache_find(s.update(i, e), e.key) == Some(e),
        forall|k: Seq<char>| k != e.key ==> spec_cache_find(s.update(i, e), k)
            == spec_cache_find(s, k),
    decreases s.len(),
{
    reveal_with_fuel(spec_cache_find, 2);
    let t = s.update(i, e);
    if i == 0 {
        assert(t.first() == e);
        assert(t.drop_first() =~= s.drop_first());
        assert forall|k: Seq<char>| k != e.key implies spec_cache_find(t, k) == spec_cache_find(
            s,
            k,
        ) by {}
    } else {
        assert(t.first() == s.first());
        assert(t.drop_first() =~= s.drop_first().update(i - 1, e));
        lemma_cache_find_update(s.drop_first(), i - 1, e);
        assert(spec_cache_find(t, e.key) == Some(e));
        assert forall|k: Seq<char>| k != e.key implies spec_cache_find(t, k) == spec_cache_find(
            s,
            k,
        ) by {
            if s.first().key == k {
            } else {
                assert(spec_cache_find(t, k) == spec_cache_find(t.drop_first(), k));
                assert(spec_cache_find(s, k) == spec_cache_find(s.drop_first(), k));
            }
        }
    }
}

/// Appending an entry under a new key: that key now maps to it; every other
/// key is untouched.
proof fn lemma_cache_find_push(s: Seq<CacheEntryView>, e: CacheEntryView)
    requires
        forall|j: int| 0 <= j < s.len() ==> s[j].key != e.key,
    ensures
        spec_cache_find(s.push(e), e.key) == Some(e),
        forall|k: Seq<char>| k != e.key ==> spec_cache_find(s.push(e), k) == spec_cache_find(s, k),
    decreases s.len(),
{
    reveal_with_fuel(spec_cache_find, 2);
    let t = s.push(e);
    if s.len() == 0 {
        assert(t.first() == e);
        assert(t.drop_first() =~= Seq::<CacheEntryView>::empty());
        assert forall|k: Seq<char>| k != e.key implies spec_cache_find(t, k) == spec_cache_find(
            s,
            k,
        ) by {}
    } else {
        assert(t.first() == s.first());
        assert(t.drop_first() =~= s.drop_first().push(e));
        assert(forall|j: int| 0 <= j < s.drop_first().len() ==> s.drop_first()[j].key != e.key);
        lemma_cache_find_push(s.drop_first(), e);
        assert(s.first().key != e.key);
        assert(spec_cache_find(t, e.key) == Some(e));
        assert forall|k: Seq<char>| k != e.key implies spec_cache_find(t, k) == spec_cache_find(
            s,
            k,
        ) by {
            if s.first().key == k {
            } else {
                assert(spec_cache_find(t, k) == spec_cache_find(t.drop_first(), k));
                assert(spec_cache_find(s, k) == spec_cache_find(s.drop_first(), k));
            }
        }
    }
}

impl ResponseCache {
    /// An empty cache.
    pub fn new() -> (r: Self)
        ensures
            r@ == Seq::<CacheEntryView>::empty(),
    {
        let r = ResponseCache { entries: Vec::new() };
        proof {
            assert(r@ =~= Seq::<CacheEntryView>::empty());
        }
        r
    }

    /// A copy of the value under `key`, when present and not expired.
    #[verifier::loop_isolation(false)]
    pub fn get_fresh(&self, key: &str, now_ms: u64, ttl_ms: u64) -> (r: Option<JsonValue>)
        ensures
            match r {
                Some(v) => spec_fresh_value(self@, key@, now_ms, ttl_ms) == Some(v@),
                None => spec_fresh_value(self@, key@, now_ms, ttl_ms) is None,
            },
    {
        let ghost cv = self@;
        let n = self.entries.len();
        let mut i: usize = 0;
        proof {
            assert(cv.skip(0) =~= cv);
        }
        while i < n
            invariant
                i <= n,
                spec_cache_find(cv, key@) == spec_cache_find(cv.skip(i as int), key@),
            decreases n - i,
        {
            proof {
                assert(cv.skip(i as int).first() == cv[i as int]);
                assert(cv.skip(i as int).drop_first() =~= cv.skip(i + 1));
            }
            let e = &self.entries[i];
            if strutil::str_eq(e.key.as_str(), key) {
                if e.created_at_ms <= now_ms && now_ms - e.created_at_ms < ttl_ms {
                    return Some(e.value.clone());
                } else {
                    return None;
                }
            }
            i = i + 1;
        }
        proof {
            assert(cv.skip(n as int) =~= Seq::<CacheEntryView>::empty());
        }
        None
    }

    /// Stores `value` under `key` with creation time `now_ms`, replacing any
    /// earlier entry for the same key and touching no other key.
    #[verifier::loop_isolation(false)]
    pub fn store(&mut self, key: String, value: JsonValue, now_ms: u64)
        ensures
            spec_cache_find(final(self)@, key@) == Some(
                CacheEntryView { key: key@, value: value@, created_at_ms: now_ms },
            ),
            forall|k: Seq<char>| k != key@ ==> spec_cache_find(final(self)@, k)
                == spec_cache_find(old(self)@, k),
    {
        let ghost cv = self@;
        let ghost ev = CacheEntryView { key: key@, value: value@, created_at_ms: now_ms };
        let n = self.entries.len();
        let mut i: usize = 0;
        while i < n
            invariant
                i <= n,
                n == self.entries@.len(),
                self@ == cv,
                forall|j: int| 0 <= j < i ==> cv[j].key != key@,
            decreases n - i,
        {
            if strutil::str_eq(self.entries[i].key.as_str(), key.as_str()) {
                self.entries.set(i, CacheEntry { key, value, created_at_ms: now_ms });
                proof {
                    assert(self@ =~= cv.update(i as int, ev));
                    lemma_cache_find_update(cv, i as int, ev);
                }
                return ;
            }
            i = i + 1;
        }
        self.entries.push(CacheEntry { key, value, created_at_ms: now_ms });
        proof {
            assert(self@ =~= cv.push(ev));
            lemma_cache_find_push(cv, ev);
        }
    }
}

/// The state one protocol server instance serves from: its library set and
/// its private response cache.
pub struct McpServerState {
    pub agent_libraries: Vec<AgentLibrary>,
    pub response_cache: ResponseCache,
}

impl McpServerState {
    /// A state with no libraries and an empty cache.
    pub fn new() -> (r: Self)
        ensures
            r.agent_libraries@.len() == 0,
            r.response_cache@.len() == 0,
    {
        McpServerState { agent_libraries: Vec::new(), response_cache: ResponseCache::new() }
    }
}

impl Default for McpServerState {
    fn default() -> (r: Self)
        ensures
            r.agent_libraries@.len() == 0,
            r.response_cache@.len() == 0,
    {
        McpServerState::new()
    }
}

/// How long a `prompts/list` response may be served from cache.
pub const PROMPTS_LIST_TTL_MS: u64 = 30000;

/// What serving `prompts/list` through the cache at `now_ms` does: a fresh
/// cached value is returned unchanged and the state is untouched; otherwise
/// the listing is recomputed from the current libraries, returned, and stored
/// under the listing key with creation time `now_ms`.
pub open spec fn spec_cached_list_post(
    pre: McpServerState,
    post: McpServerState,
    id: Option<JsonVal>,
    now_ms: u64,
    r: JsonRpcResponseView,
) -> bool {
    &&& post.agent_libraries == pre.agent_libraries
    &&& match spec_fresh_value(pre.response_cache@, "prompts_list"@, now_ms, PROMPTS_LIST_TTL_MS) {
        Some(v) => r == resp_ok(id, v) && post.response_cache@ == pre.response_cache@,
        None => {
            let fresh = spec_listing_value(libs_view(pre.agent_libraries@));
            &&& r == resp_ok(id, fresh)
            &&& spec_cache_find(post.response_cache@, "prompts_list"@) == Some(
                CacheEntryView { key: "prompts_list"@, value: fresh, created_at_ms: now_ms },
            )
            &&& forall|k: Seq<char>| k != "prompts_list"@ ==> spec_cache_find(
                post.response_cache@,
                k,
            ) == spec_cache_find(pre.response_cache@, k)
        },
    }
}

/// Handles `prompts/list` through the instance's response cache.
pub fn handle_prompts_list_cached(
    state: &mut McpServerState,
    id: Option<JsonValue>,
    now_ms: u64,
) -> (r: JsonRpcResponse)
    ensures
        spec_cached_list_post(*old(state), *final(state), view_opt_json(id), now_ms, r@),
{
    let cached = state.response_cache.get_fresh("prompts_list", now_ms, PROMPTS_LIST_TTL_MS);
    match cached {
        Some(v) => make_ok(id, v),
        None => {
            let resp = handle_prompts_list(&state.agent_libraries, id);
            match &resp.result {
                Some(v) => {
                    let copy = v.clone();
                    state.response_cache.store("prompts_list".to_owned(), copy, now_ms);
                },
                None => {
                    proof {
                        assert(false);
                    }
                },
            }
            resp
        },
    }
}

/// Handles one request at clock reading `now_ms`: `prompts/list` goes through
/// the response cache; every other method is dispatched statelessly.
pub fn handle_request(state: &mut McpServerState, request: JsonRpcRequest, now_ms: u64) -> (r:
    JsonRpcResponse)
    ensures
        request.method@ == "prompts/list"@ ==> spec_cached_list_post(
            *old(state),
            *final(state),
            view_opt_json(request.id),
            now_ms,
            r@,
        ),
        request.method@ != "prompts/list"@ ==> *final(state) == *old(state) && r@ == spec_dispatch(
            libs_view(old(state).agent_libraries@),
            request.method@,
            view_opt_json(request.id),
            view_opt_json(request.params),
        ),
{
    if strutil::str_eq(request.method.as_str(), "prompts/list") {
        handle_prompts_list_cached(state, request.id, now_ms)
    } else {
        dispatch(&state.agent_libraries, request.method.as_str(), request.id, &request.params)
    }
}

/// Handles one request at the current clock reading.
pub fn handle_request_now(state: &mut McpServerState, request: JsonRpcRequest) -> (r:
    JsonRpcResponse)
    ensures
        request.method@ == "prompts/list"@ ==> exists|now_ms: u64| spec_cached_list_post(
            *old(state),
            *final(state),
            view_opt_json(request.id),
            now_ms,
            r@,
        ),
        request.method@ != "prompts/list"@ ==> *final(state) == *old(state) && r@ == spec_dispatch(
            libs_view(old(state).agent_libraries@),
            request.method@,
            view_opt_json(request.id),
            view_opt_json(request.params),
        ),
{
    let now_ms = crate::clock::now_millis();
    let r = handle_request(state, request, now_ms);
    r
}

/// A value served from cache within its TTL is exactly the value that was
/// stored: its content is identical to the freshly computed response it
/// memoized.
pub proof fn lemma_cache_hit_within_ttl(
    cache: Seq<CacheEntryView>,
    v: JsonVal,
    stored_at_ms: u64,
    now_ms: u64,
)
    requires
        spec_cache_find(cache, "prompts_list"@) == Some(
            CacheEntryView { key: "prompts_list"@, value: v, created_at_ms: stored_at_ms },
        ),
        stored_at_ms <= now_ms < stored_at_ms + PROMPTS_LIST_TTL_MS,
    ensures
        spec_fresh_value(cache, "prompts_list"@, now_ms, PROMPTS_LIST_TTL_MS) == Some(v),
{
}

/// Once the TTL has passed, the cache serves nothing for the listing key, so
/// the next cached call recomputes from the then-current library set.
pub proof fn lemma_cache_expired_recomputes(
    cache: Seq<CacheEntryView>,
    v: JsonVal,
    stored_at_ms: u64,
    now_ms: u64,
)
    requires
        spec_cache_find(cache, "prompts_list"@) == Some(
            CacheEntryView { key: "prompts_list"@, value: v, created_at_ms: stored_at_ms },
        ),
        now_ms >= stored_at_ms + PROMPTS_LIST_TTL_MS,
    ensures
        spec_fresh_value(cache, "prompts_list"@, now_ms, PROMPTS_LIST_TTL_MS) is None,
{
}

} // verus!
