//! Hosted tools of an inbound request: which are run locally, and how the request
//! declares and chooses them towards a third party.

use crate::json;
use crate::json::{Json, JsonValue};
use crate::text;
use vstd::prelude::*;

verus! {

/// The header that marks a request of the local hosted tool loop.
pub const HOSTED_TOOL_LOOP_HEADER: &'static str = "x-cc-switch-hosted-tool-loop";

/// The number of rounds that a local hosted tool loop may take.
pub const MAX_HOSTED_TOOL_ITERATIONS: usize = 3;

/// The function that stands for the hosted web search.
pub const WEB_SEARCH_FUNCTION_NAME: &'static str = "web_search";

/// The function that stands for the hosted image generation.
pub const IMAGE_GENERATION_FUNCTION_NAME: &'static str = "generate_image";

/// How a hosted web search is run: the declaration that the request gave of it.
#[derive(Debug, Clone, PartialEq, Eq)]
pub struct HostedWebSearchConfig {
    pub declaration: JsonValue,
}

/// How a hosted image generation is run: the declaration that the request gave
/// of it.
#[derive(Debug, Clone, PartialEq, Eq)]
pub struct HostedImageGenerationConfig {
    pub declaration: JsonValue,
}

/// Which hosted tools of a request are run locally.
#[derive(Debug, Clone, PartialEq, Eq)]
pub struct HostedToolLoopConfig {
    pub web_search: Option<HostedWebSearchConfig>,
    pub image_generation: Option<HostedImageGenerationConfig>,
}

impl Default for HostedWebSearchConfig {
    fn default() -> (r: Self)
        ensures
            r.declaration@ == Json::Null,
    {
        HostedWebSearchConfig { declaration: JsonValue::null() }
    }
}

impl Default for HostedImageGenerationConfig {
    fn default() -> (r: Self)
        ensures
            r.declaration@ == Json::Null,
    {
        HostedImageGenerationConfig { declaration: JsonValue::null() }
    }
}

impl Default for HostedToolLoopConfig {
    fn default() -> (r: Self)
        ensures
            r.web_search is None,
            r.image_generation is None,
    {
        HostedToolLoopConfig { web_search: None, image_generation: None }
    }
}

impl HostedToolLoopConfig {
    /// Whether no hosted tool is run locally.
    pub fn is_empty(&self) -> (r: bool)
        ensures
            r == (self.web_search is None && self.image_generation is None),
    {
        self.web_search.is_none() && self.image_generation.is_none()
    }
}

/// A hosted tool that can be run locally.
#[derive(Debug, Clone, Copy, PartialEq, Eq, Structural)]
pub enum HostedToolCallKind {
    WebSearch,
    ImageGeneration,
}

/// The hosted tool that a function stands for.
pub open spec fn kind_of(name: Seq<char>) -> Option<HostedToolCallKind> {
    if name == WEB_SEARCH_FUNCTION_NAME@ {
        Some(HostedToolCallKind::WebSearch)
    } else if name == IMAGE_GENERATION_FUNCTION_NAME@ {
        Some(HostedToolCallKind::ImageGeneration)
    } else {
        None
    }
}

/// Whether a hosted tool is run locally.
pub open spec fn runs(config: HostedToolLoopConfig, kind: HostedToolCallKind) -> bool {
    match kind {
        HostedToolCallKind::WebSearch => config.web_search is Some,
        HostedToolCallKind::ImageGeneration => config.image_generation is Some,
    }
}

/// Whether a function stands for a hosted tool that is run locally.
pub open spec fn is_hosted(config: HostedToolLoopConfig, name: Seq<char>) -> bool {
    kind_of(name) matches Some(kind) && runs(config, kind)
}

impl HostedToolCallKind {
    /// The hosted tool that a function stands for.
    pub fn from_function_name(name: &str) -> (r: Option<Self>)
        ensures
            r == kind_of(name@),
    {
        if text::same(name, WEB_SEARCH_FUNCTION_NAME) {
            Some(HostedToolCallKind::WebSearch)
        } else if text::same(name, IMAGE_GENERATION_FUNCTION_NAME) {
            Some(HostedToolCallKind::ImageGeneration)
        } else {
            None
        }
    }

    /// The function that stands for the hosted tool.
    pub fn function_name(self) -> (r: &'static str)
        ensures
            kind_of(r@) == Some(self),
            r@ == match self {
                HostedToolCallKind::WebSearch => WEB_SEARCH_FUNCTION_NAME@,
                HostedToolCallKind::ImageGeneration => IMAGE_GENERATION_FUNCTION_NAME@,
            },
    {
        proof {
            reveal_strlit("web_search");
            reveal_strlit("generate_image");
            assert("web_search"@.len() == 10);
            assert("generate_image"@.len() == 14);
        }
        match self {
            HostedToolCallKind::WebSearch => WEB_SEARCH_FUNCTION_NAME,
            HostedToolCallKind::ImageGeneration => IMAGE_GENERATION_FUNCTION_NAME,
        }
    }
}

/// Whether a function stands for a hosted tool that is run locally.
pub fn hosted_function_is_enabled(name: &str, config: &HostedToolLoopConfig) -> (r: bool)
    ensures
        r == is_hosted(*config, name@),
{
    match HostedToolCallKind::from_function_name(name) {
        Some(HostedToolCallKind::WebSearch) => config.web_search.is_some(),
        Some(HostedToolCallKind::ImageGeneration) => config.image_generation.is_some(),
        None => false,
    }
}

// ---------------------------------------------------------------------------
// Declarations

/// Whether a tool of a request is of this type.
pub open spec fn has_type(tool: Json, kind: Seq<char>) -> bool {
    tool.text_field("type"@) == Some(kind)
}

/// Whether some tool is of this type.
pub open spec fn any_of_type(tools: Seq<Json>, kind: Seq<char>) -> bool {
    exists|i: int| 0 <= i < tools.len() && has_type(#[trigger] tools[i], kind)
}

/// The last tool of this type.
pub open spec fn last_of_type(tools: Seq<Json>, kind: Seq<char>) -> Option<Json>
    decreases tools.len(),
{
    if tools.len() == 0 {
        None
    } else if has_type(tools.last(), kind) {
        Some(tools.last())
    } else {
        last_of_type(tools.drop_last(), kind)
    }
}

/// The tools that a third party is told of: a hosted web search becomes the
/// function that stands for it, where it is run locally; other hosted tools are
/// left out.
pub open spec fn projected_tools(tools: Seq<Json>, enabled: bool, definition: Json) -> Seq<Json>
    decreases tools.len(),
{
    if tools.len() == 0 {
        Seq::empty()
    } else {
        let before = projected_tools(tools.drop_last(), enabled, definition);
        if has_type(tools.last(), "web_search"@) {
            if enabled {
                before.push(definition)
            } else {
                before
            }
        } else if has_type(tools.last(), "image_generation"@) {
            before
        } else {
            before.push(tools.last())
        }
    }
}

/// The choice of the function that stands for the web search.
pub open spec fn web_search_choice() -> Json {
    Json::empty_object().with("type"@, Json::Text("function"@)).with(
        "name"@,
        Json::Text(WEB_SEARCH_FUNCTION_NAME@),
    )
}

/// The tools that may be chosen, told to a third party.
pub open spec fn projected_allowed(
    allowed: Seq<Json>,
    projected: bool,
    saw_web_search: bool,
    saw_image_generation: bool,
) -> Seq<Json>
    decreases allowed.len(),
{
    if allowed.len() == 0 {
        Seq::empty()
    } else {
        let before = projected_allowed(
            allowed.drop_last(),
            projected,
            saw_web_search,
            saw_image_generation,
        );
        if has_type(allowed.last(), "web_search"@) && saw_web_search {
            if projected {
                before.push(web_search_choice())
            } else {
                before
            }
        } else if has_type(allowed.last(), "image_generation"@) && saw_image_generation {
            before
        } else {
            before.push(allowed.last())
        }
    }
}

/// The tool choice, told to a third party. A choice of a hosted tool that was
/// left out becomes automatic, and so does a choice among no tools.
pub open spec fn projected_choice(
    choice: Json,
    projected: bool,
    saw_web_search: bool,
    saw_image_generation: bool,
) -> Json {
    if has_type(choice, "web_search"@) && saw_web_search {
        if projected {
            web_search_choice()
        } else {
            Json::Text("auto"@)
        }
    } else if has_type(choice, "image_generation"@) && saw_image_generation {
        Json::Text("auto"@)
    } else if has_type(choice, "allowed_tools"@) {
        match choice.items_field("tools"@) {
            Some(allowed) => {
                let kept = projected_allowed(
                    allowed,
                    projected,
                    saw_web_search,
                    saw_image_generation,
                );
                if kept.len() == 0 {
                    Json::Text("auto"@)
                } else {
                    choice.with("tools"@, Json::Array(kept))
                }
            },
            None => choice,
        }
    } else {
        choice
    }
}

/// A request with its tool choice told to a third party.
pub open spec fn with_projected_choice(
    request: Json,
    projected: bool,
    saw_web_search: bool,
    saw_image_generation: bool,
) -> Json {
    match request.field("tool_choice"@) {
        Some(choice) => request.with(
            "tool_choice"@,
            projected_choice(choice, projected, saw_web_search, saw_image_generation),
        ),
        None => request,
    }
}

/// A request without a list of tools, where that list is empty.
pub open spec fn without_empty_tools(request: Json) -> Json {
    match request.items_field("tools"@) {
        Some(tools) => if tools.len() == 0 {
            request.without("tools"@)
        } else {
            request
        },
        None => request,
    }
}

/// A request with its hosted tools told to a third party.
pub open spec fn projected_request(request: Json, enabled: bool, definition: Json) -> Json {
    match request.items_field("tools"@) {
        Some(tools) => without_empty_tools(
            with_projected_choice(
                request.with("tools"@, Json::Array(projected_tools(tools, enabled, definition))),
                enabled && any_of_type(tools, "web_search"@),
                any_of_type(tools, "web_search"@),
                any_of_type(tools, "image_generation"@),
            ),
        ),
        None => with_projected_choice(request, false, false, false),
    }
}

/// The declaration by which the hosted web search of a request is run locally.
pub open spec fn web_search_declaration(request: Json, enabled: bool) -> Option<Json> {
    match request.items_field("tools"@) {
        Some(tools) => if enabled {
            last_of_type(tools, "web_search"@)
        } else {
            None
        },
        None => None,
    }
}

/// The choice of the function that stands for the web search.
fn make_web_search_choice() -> (r: JsonValue)
    ensures
        r@ == web_search_choice(),
{
    JsonValue::empty_object().with("type", JsonValue::text("function")).with(
        "name",
        JsonValue::text(WEB_SEARCH_FUNCTION_NAME),
    )
}

/// What the tools of a request become.
struct ProjectedTools {
    tools: Vec<JsonValue>,
    web_search: Option<HostedWebSearchConfig>,
    saw_web_search: bool,
    saw_image_generation: bool,
}

/// Tells the tools of a request to a third party.
fn project_tools(tools: &Vec<JsonValue>, enabled: bool, definition: &JsonValue) -> (r:
    ProjectedTools)
    ensures
        ({
            let views = json::values_view(tools@);
            &&& json::values_view(r.tools@) == projected_tools(views, enabled, definition@)
            &&& r.saw_web_search == any_of_type(views, "web_search"@)
            &&& r.saw_image_generation == any_of_type(views, "image_generation"@)
            &&& r.web_search is Some == (enabled && any_of_type(views, "web_search"@))
            &&& r.web_search matches Some(config) ==> last_of_type(views, "web_search"@) == Some(
                config.declaration@,
            )
            &&& r.web_search is None ==> !enabled || last_of_type(views, "web_search"@) is None
        }),
{
    let ghost views = json::values_view(tools@);
    let mut projected: Vec<JsonValue> = Vec::new();
    let mut web_search: Option<HostedWebSearchConfig> = None;
    let mut saw_web_search = false;
    let mut saw_image_generation = false;
    let mut i: usize = 0;
    assert(json::values_view(projected@) =~= projected_tools(views.take(0), enabled, definition@));
    while i < tools.len()
        invariant
            i <= tools@.len(),
            views == json::values_view(tools@),
            json::values_view(projected@) == projected_tools(
                views.take(i as int),
                enabled,
                definition@,
            ),
            saw_web_search == any_of_type(views.take(i as int), "web_search"@),
            saw_image_generation == any_of_type(views.take(i as int), "image_generation"@),
            web_search is Some == (enabled && saw_web_search),
            !saw_web_search ==> last_of_type(views.take(i as int), "web_search"@) is None,
            web_search matches Some(config) ==> last_of_type(views.take(i as int), "web_search"@)
                == Some(config.declaration@),
        decreases tools@.len() - i,
    {
        let tool = &tools[i];
        let ghost before = views.take(i as int);
        let ghost after = views.take(i + 1);
        let ghost old_projected = json::values_view(projected@);
        proof {
            assert(after.drop_last() =~= before);
            assert(after.last() == tool@);
            lemma_any_of_type_step(before, tool@, "web_search"@);
            lemma_any_of_type_step(before, tool@, "image_generation"@);
            assert(after =~= before.push(tool@));
        }
        if tool.field_is("type", "web_search") {
            saw_web_search = true;
            if enabled {
                web_search = Some(HostedWebSearchConfig { declaration: tool.copy() });
                projected.push(definition.copy());
                assert(json::values_view(projected@) =~= old_projected.push(definition@));
            }
            proof {
                lemma_types_differ(tool@);
            }
        } else if tool.field_is("type", "image_generation") {
            saw_image_generation = true;
        } else {
            projected.push(tool.copy());
            assert(json::values_view(projected@) =~= old_projected.push(tool@));
        }
        i = i + 1;
    }
    assert(views.take(i as int) =~= views);
    ProjectedTools { tools: projected, web_search, saw_web_search, saw_image_generation }
}

/// A tool of one type is not of the other.
proof fn lemma_types_differ(tool: Json)
    ensures
        !(has_type(tool, "web_search"@) && has_type(tool, "image_generation"@)),
{
    reveal_strlit("web_search");
    reveal_strlit("image_generation");
    assert("web_search"@.len() == 10);
    assert("image_generation"@.len() == 16);
}

/// One more tool of a type, or of another.
proof fn lemma_any_of_type_step(tools: Seq<Json>, tool: Json, kind: Seq<char>)
    ensures
        any_of_type(tools.push(tool), kind) == (any_of_type(tools, kind) || has_type(tool, kind)),
{
    let more = tools.push(tool);
    if any_of_type(tools, kind) {
        let i = choose|i: int| 0 <= i < tools.len() && has_type(#[trigger] tools[i], kind);
        assert(has_type(more[i], kind));
    }
    if has_type(tool, kind) {
        assert(has_type(more[tools.len() as int], kind));
    }
    if any_of_type(more, kind) {
        let i = choose|i: int| 0 <= i < more.len() && has_type(#[trigger] more[i], kind);
        if i < tools.len() {
            assert(has_type(tools[i], kind));
        }
    }
}

/// Tells the tools that may be chosen to a third party.
fn project_allowed(
    allowed: &Vec<JsonValue>,
    projected: bool,
    saw_web_search: bool,
    saw_image_generation: bool,
) -> (r: Vec<JsonValue>)
    ensures
        json::values_view(r@) == projected_allowed(
            json::values_view(allowed@),
            projected,
            saw_web_search,
            saw_image_generation,
        ),
{
    let ghost views = json::values_view(allowed@);
    let mut rewritten: Vec<JsonValue> = Vec::new();
    let mut i: usize = 0;
    assert(json::values_view(rewritten@) =~= projected_allowed(
        views.take(0),
        projected,
        saw_web_search,
        saw_image_generation,
    ));
    while i < allowed.len()
        invariant
            i <= allowed@.len(),
            views == json::values_view(allowed@),
            json::values_view(rewritten@) == projected_allowed(
                views.take(i as int),
                projected,
                saw_web_search,
                saw_image_generation,
            ),
        decreases allowed@.len() - i,
    {
        let tool = &allowed[i];
        let ghost before = json::values_view(rewritten@);
        assert(views.take(i + 1).drop_last() =~= views.take(i as int));
        assert(views.take(i + 1).last() == tool@);
        if tool.field_is("type", "web_search") && saw_web_search {
            if projected {
                let choice = make_web_search_choice();
                rewritten.push(choice);
                assert(json::values_view(rewritten@) =~= before.push(choice@));
            }
        } else if tool.field_is("type", "image_generation") && saw_image_generation {
        } else {
            rewritten.push(tool.copy());
            assert(json::values_view(rewritten@) =~= before.push(tool@));
        }
        i = i + 1;
    }
    assert(views.take(i as int) =~= views);
    rewritten
}

/// Tells the tool choice of a request to a third party.
pub fn rewrite_responses_hosted_tool_choice(
    request: &mut JsonValue,
    web_search_projected: bool,
    saw_hosted_web_search: bool,
    saw_hosted_image_generation: bool,
)
    ensures
        final(request)@ == with_projected_choice(
            old(request)@,
            web_search_projected,
            saw_hosted_web_search,
            saw_hosted_image_generation,
        ),
{
    let choice = match request.get("tool_choice") {
        Some(choice) => choice,
        None => return,
    };
    let next = if choice.field_is("type", "web_search") && saw_hosted_web_search {
        if web_search_projected {
            make_web_search_choice()
        } else {
            JsonValue::text("auto")
        }
    } else if choice.field_is("type", "image_generation") && saw_hosted_image_generation {
        JsonValue::text("auto")
    } else if choice.field_is("type", "allowed_tools") {
        match choice.array_field("tools") {
            Some(allowed) => {
                let kept = project_allowed(
                    allowed,
                    web_search_projected,
                    saw_hosted_web_search,
                    saw_hosted_image_generation,
                );
                if kept.len() == 0 {
                    JsonValue::text("auto")
                } else {
                    choice.copy().with("tools", JsonValue::array(kept))
                }
            },
            None => choice.copy(),
        }
    } else {
        choice.copy()
    };
    request.set_field("tool_choice", next);
}

/// Drops the list of tools of a request where it is empty.
fn drop_empty_tools(request: &mut JsonValue)
    ensures
        final(request)@ == without_empty_tools(old(request)@),
{
    let empty = match request.array_field("tools") {
        Some(tools) => tools.len() == 0,
        None => false,
    };
    if empty {
        let _tools = request.drop_field("tools");
    }
}

/// Tells the hosted tools of a request to a third party, and says which of them
/// are run locally. `definition` declares the function that stands for the web
/// search.
pub fn project_hosted_tools_for_responses_request(
    request: &mut JsonValue,
    web_search_enabled: bool,
    definition: &JsonValue,
) -> (r: HostedToolLoopConfig)
    ensures
        final(request)@ == projected_request(old(request)@, web_search_enabled, definition@),
        r.image_generation is None,
        match web_search_declaration(old(request)@, web_search_enabled) {
            Some(declaration) => r.web_search matches Some(config) && config.declaration@
                == declaration,
            None => r.web_search is None,
        },
{
    match request.take_array_field("tools") {
        Some(tools) => {
            let ghost views = json::values_view(tools@);
            let ghost before = request@;
            let projection = project_tools(&tools, web_search_enabled, definition);
            let projected = projection.web_search.is_some();
            request.set_field("tools", JsonValue::array(projection.tools));
            rewrite_responses_hosted_tool_choice(
                request,
                projected,
                projection.saw_web_search,
                projection.saw_image_generation,
            );
            drop_empty_tools(request);
            HostedToolLoopConfig { web_search: projection.web_search, image_generation: None }
        },
        None => {
            rewrite_responses_hosted_tool_choice(request, false, false, false);
            drop_empty_tools(request);
            HostedToolLoopConfig { web_search: None, image_generation: None }
        },
    }
}

// ---------------------------------------------------------------------------
// Later rounds

/// Whether a tool that may be chosen is a hosted tool that is run locally.
pub open spec fn selects_hosted(tool: Json, config: HostedToolLoopConfig) -> bool {
    if has_type(tool, "function"@) {
        tool.text_field("name"@) matches Some(name) && is_hosted(config, name)
    } else if has_type(tool, "web_search"@) {
        config.web_search is Some
    } else if has_type(tool, "image_generation"@) {
        config.image_generation is Some
    } else {
        false
    }
}

/// Whether some tool that may be chosen is a hosted tool that is run locally.
pub open spec fn any_selects_hosted(tools: Seq<Json>, config: HostedToolLoopConfig) -> bool {
    exists|i: int| 0 <= i < tools.len() && selects_hosted(#[trigger] tools[i], config)
}

/// Whether a tool choice forces a hosted tool that is run locally.
pub open spec fn forces_hosted(choice: Json, config: HostedToolLoopConfig) -> bool {
    match choice {
        Json::Text(value) => value == "required"@,
        Json::Object(_) => if has_type(choice, "function"@) {
            choice.text_field("name"@) matches Some(name) && is_hosted(config, name)
        } else if has_type(choice, "allowed_tools"@) {
            &&& choice.text_field("mode"@) == Some("required"@)
            &&& choice.items_field("tools"@) matches Some(tools) && any_selects_hosted(tools, config)
        } else {
            false
        },
        _ => false,
    }
}

/// A request whose forced choice of a hosted tool is automatic.
pub open spec fn relaxed(request: Json, config: HostedToolLoopConfig) -> Json {
    match request.field("tool_choice"@) {
        Some(choice) => if !forces_hosted(choice, config) {
            request
        } else if has_type(choice, "allowed_tools"@) {
            request.with("tool_choice"@, choice.with("mode"@, Json::Text("auto"@)))
        } else {
            request.with("tool_choice"@, Json::Text("auto"@))
        },
        None => request,
    }
}

/// Whether a tool that may be chosen is a hosted tool that is run locally.
pub fn responses_tool_selector_is_enabled_hosted(
    tool: &JsonValue,
    config: &HostedToolLoopConfig,
) -> (r: bool)
    ensures
        r == selects_hosted(tool@, *config),
{
    if tool.field_is("type", "function") {
        match tool.str_field("name") {
            Some(name) => hosted_function_is_enabled(name, config),
            None => false,
        }
    } else if tool.field_is("type", "web_search") {
        config.web_search.is_some()
    } else if tool.field_is("type", "image_generation") {
        config.image_generation.is_some()
    } else {
        false
    }
}

/// Whether some tool that may be chosen is a hosted tool that is run locally.
fn any_selector_is_hosted(tools: &Vec<JsonValue>, config: &HostedToolLoopConfig) -> (r: bool)
    ensures
        r == any_selects_hosted(json::values_view(tools@), *config),
{
    let ghost views = json::values_view(tools@);
    let mut i: usize = 0;
    while i < tools.len()
        invariant
            i <= tools@.len(),
            views == json::values_view(tools@),
            forall|j: int| 0 <= j < i ==> !selects_hosted(#[trigger] views[j], *config),
        decreases tools@.len() - i,
    {
        assert(views[i as int] == tools@[i as int]@);
        if responses_tool_selector_is_enabled_hosted(&tools[i], config) {
            assert(selects_hosted(views[i as int], *config));
            return true;
        }
        i = i + 1;
    }
    false
}

/// Whether a tool choice forces a hosted tool that is run locally.
fn choice_forces_hosted(choice: &JsonValue, config: &HostedToolLoopConfig) -> (r: bool)
    ensures
        r == forces_hosted(choice@, *config),
{
    if let Some(value) = choice.as_str() {
        return text::same(value, "required");
    }
    if !choice.is_object() {
        return false;
    }
    if choice.field_is("type", "function") {
        return match choice.str_field("name") {
            Some(name) => hosted_function_is_enabled(name, config),
            None => false,
        };
    }
    if !choice.field_is("type", "allowed_tools") || !choice.field_is("mode", "required") {
        return false;
    }
    match choice.array_field("tools") {
        Some(tools) => any_selector_is_hosted(tools, config),
        None => false,
    }
}

/// A forced choice of a hosted tool holds for the first round only: once the tool
/// has been run, the model must be free to answer, to ask again, or to hand a
/// tool of the client back.
pub fn relax_hosted_tool_choice_for_responses_request(
    request: &mut JsonValue,
    config: &HostedToolLoopConfig,
)
    ensures
        final(request)@ == relaxed(old(request)@, *config),
{
    let choice = match request.get("tool_choice") {
        Some(choice) => choice.copy(),
        None => return,
    };
    if !choice_forces_hosted(&choice, config) {
        return;
    }
    if choice.field_is("type", "allowed_tools") {
        request.set_field("tool_choice", choice.with("mode", JsonValue::text("auto")));
    } else {
        request.set_field("tool_choice", JsonValue::text("auto"));
    }
}

/// Whether a value of this type names a hosted function that is run locally.
pub open spec fn names_hosted(value: Json, kind: Seq<char>, config: HostedToolLoopConfig) -> bool {
    &&& has_type(value, kind)
    &&& value.text_field("name"@) matches Some(name) && is_hosted(config, name)
}

/// The values that do not name a hosted function that is run locally, in order.
pub open spec fn without_hosted(
    values: Seq<Json>,
    kind: Seq<char>,
    config: HostedToolLoopConfig,
) -> Seq<Json> {
    values.filter(|value: Json| !names_hosted(value, kind, config))
}

/// Drops the values that name a hosted function that is run locally.
fn drop_hosted(values: Vec<JsonValue>, kind: &str, config: &HostedToolLoopConfig) -> (r: Vec<
    JsonValue,
>)
    ensures
        json::values_view(r@) == without_hosted(json::values_view(values@), kind@, *config),
        r@.len() <= values@.len(),
{
    let ghost views = json::values_view(values@);
    let ghost keep = |value: Json| !names_hosted(value, kind@, *config);
    let mut kept: Vec<JsonValue> = Vec::new();
    let mut i: usize = 0;
    assert(views.take(0).filter(keep) =~= Seq::<Json>::empty()) by {
        reveal(Seq::filter);
    }
    while i < values.len()
        invariant
            i <= values@.len(),
            views == json::values_view(values@),
            keep == (|value: Json| !names_hosted(value, kind@, *config)),
            json::values_view(kept@) == views.take(i as int).filter(keep),
            kept@.len() <= i,
        decreases values@.len() - i,
    {
        let value = &values[i];
        let ghost before = json::values_view(kept@);
        proof {
            reveal(Seq::filter);
            assert(views.take(i + 1).drop_last() =~= views.take(i as int));
            assert(views.take(i + 1).last() == value@);
        }
        let named = if value.field_is("type", kind) {
            match value.str_field("name") {
                Some(name) => hosted_function_is_enabled(name, config),
                None => false,
            }
        } else {
            false
        };
        if !named {
            kept.push(value.copy());
            assert(json::values_view(kept@) =~= before.push(value@));
        }
        i = i + 1;
    }
    assert(views.take(i as int) =~= views);
    kept
}

/// A response without calls of hosted functions that are run locally.
pub open spec fn without_hosted_calls(response: Json, config: HostedToolLoopConfig) -> Json {
    match response.items_field("output"@) {
        Some(output) => response.with(
            "output"@,
            Json::Array(without_hosted(output, "function_call"@, config)),
        ),
        None => response,
    }
}

/// Drops the calls of hosted functions from a response, and says how many.
pub fn remove_projected_hosted_function_calls_from_responses_response(
    response: &mut JsonValue,
    config: &HostedToolLoopConfig,
) -> (r: usize)
    ensures
        match old(response)@.items_field("output"@) {
            Some(output) => {
                let kept = without_hosted(output, "function_call"@, *config);
                &&& final(response)@ == old(response)@.with("output"@, Json::Array(kept))
                &&& r == output.len() - kept.len()
            },
            None => r == 0 && final(response)@ == old(response)@,
        },
        final(response)@ == without_hosted_calls(old(response)@, *config),
{
    match response.take_array_field("output") {
        Some(output) => {
            let before = output.len();
            let kept = drop_hosted(output, "function_call", config);
            let removed: usize = before - kept.len();
            response.set_field("output", JsonValue::array(kept));
            removed
        },
        None => 0,
    }
}

/// A request without hosted functions and with an automatic choice of tools.
pub open spec fn disabled(request: Json, config: HostedToolLoopConfig) -> Json {
    let rest = match request.items_field("tools"@) {
        Some(tools) => without_empty_tools(
            request.with("tools"@, Json::Array(without_hosted(tools, "function"@, config))),
        ),
        None => request,
    };
    rest.assigned("tool_choice"@, Json::Text("auto"@))
}

/// Takes the hosted functions out of a request and makes the choice of tools
/// automatic.
pub fn disable_projected_hosted_functions_for_responses_request(
    request: &mut JsonValue,
    config: &HostedToolLoopConfig,
)
    requires
        old(request)@.is_object_or_null(),
    ensures
        final(request)@ == disabled(old(request)@, *config),
{
    if let Some(tools) = request.take_array_field("tools") {
        let kept = drop_hosted(tools, "function", config);
        request.set_field("tools", JsonValue::array(kept));
        drop_empty_tools(request);
    }
    request.assign_field("tool_choice", JsonValue::text("auto"));
}

// ---------------------------------------------------------------------------
// Laws

/// Whether a value declares a hosted tool.
pub open spec fn declares_hosted(tool: Json) -> bool {
    has_type(tool, "web_search"@) || has_type(tool, "image_generation"@)
}

/// The tools told to a third party declare no hosted tool.
proof fn lemma_projected_tools(tools: Seq<Json>, enabled: bool, definition: Json)
    requires
        !declares_hosted(definition),
    ensures
        forall|i: int|
            0 <= i < projected_tools(tools, enabled, definition).len() ==> !declares_hosted(
                #[trigger] projected_tools(tools, enabled, definition)[i],
            ),
    decreases tools.len(),
{
    if tools.len() > 0 {
        lemma_projected_tools(tools.drop_last(), enabled, definition);
        let before = projected_tools(tools.drop_last(), enabled, definition);
        let all = projected_tools(tools, enabled, definition);
        assert forall|i: int| 0 <= i < all.len() implies !declares_hosted(#[trigger] all[i]) by {
            if i < before.len() {
                assert(all[i] == before[i]);
            }
        }
    }
}

/// The tools that a third party may be told to choose from.
pub open spec fn declared_tools(request: Json) -> Seq<Json> {
    match request.items_field("tools"@) {
        Some(tools) => tools,
        None => Seq::empty(),
    }
}

/// A projected request declares no hosted tool to the third party, and it never
/// declares an empty list of tools.
pub proof fn law_no_hosted_declaration_is_forwarded(
    request: Json,
    enabled: bool,
    definition: Json,
)
    requires
        !declares_hosted(definition),
    ensures
        forall|i: int|
            0 <= i < declared_tools(projected_request(request, enabled, definition)).len()
                ==> !declares_hosted(
                #[trigger] declared_tools(projected_request(request, enabled, definition))[i],
            ),
        projected_request(request, enabled, definition).items_field("tools"@) matches Some(tools)
            ==> tools.len() > 0,
{
    reveal_strlit("tools");
    reveal_strlit("tool_choice");
    assert("tools"@.len() == 5);
    assert("tool_choice"@.len() == 11);
    match request.items_field("tools"@) {
        Some(tools) => {
            lemma_projected_tools(tools, enabled, definition);
            let told = projected_tools(tools, enabled, definition);
            let middle = with_projected_choice(
                request.with("tools"@, Json::Array(told)),
                enabled && any_of_type(tools, "web_search"@),
                any_of_type(tools, "web_search"@),
                any_of_type(tools, "image_generation"@),
            );
            assert(middle.items_field("tools"@) == Some(told));
        },
        None => {
            assert(with_projected_choice(request, false, false, false).items_field("tools"@)
                is None);
        },
    }
}

/// Tools among which no hosted one is declared are told as they are.
proof fn lemma_projected_tools_stay(tools: Seq<Json>, enabled: bool, definition: Json)
    requires
        forall|i: int| 0 <= i < tools.len() ==> !declares_hosted(#[trigger] tools[i]),
    ensures
        projected_tools(tools, enabled, definition) == tools,
        !any_of_type(tools, "web_search"@),
        !any_of_type(tools, "image_generation"@),
    decreases tools.len(),
{
    if tools.len() > 0 {
        let front = tools.drop_last();
        assert forall|i: int| 0 <= i < front.len() implies !declares_hosted(
            #[trigger] front[i],
        ) by {
            assert(front[i] == tools[i]);
        }
        lemma_projected_tools_stay(front, enabled, definition);
        assert(!declares_hosted(tools[tools.len() - 1]));
        assert(projected_tools(tools, enabled, definition) =~= tools);
    }
}

/// Where no hosted tool was seen, all tools that may be chosen are told.
proof fn lemma_projected_allowed_stay(allowed: Seq<Json>)
    ensures
        projected_allowed(allowed, false, false, false) == allowed,
    decreases allowed.len(),
{
    if allowed.len() > 0 {
        lemma_projected_allowed_stay(allowed.drop_last());
        assert(projected_allowed(allowed, false, false, false) =~= allowed);
    }
}

/// A choice that was told is told as it is where no hosted tool is seen any more.
proof fn lemma_projected_choice_stays(
    choice: Json,
    projected: bool,
    saw_web_search: bool,
    saw_image_generation: bool,
)
    ensures
        ({
            let told = projected_choice(choice, projected, saw_web_search, saw_image_generation);
            projected_choice(told, false, false, false) == told
        }),
{
    reveal_strlit("function");
    reveal_strlit("allowed_tools");
    reveal_strlit("type");
    reveal_strlit("name");
    reveal_strlit("tools");
    assert("function"@.len() == 8);
    assert("allowed_tools"@.len() == 13);
    assert("type"@[0] == 't');
    assert("name"@[0] == 'n');
    assert("tools"@.len() == 5);
    assert("type"@.len() == 4);
    assert(web_search_choice().text_field("type"@) == Some("function"@));
    let told = projected_choice(choice, projected, saw_web_search, saw_image_generation);
    if has_type(told, "allowed_tools"@) {
        if let Some(allowed) = told.items_field("tools"@) {
            lemma_projected_allowed_stay(allowed);
            assert(allowed.len() > 0);
            assert(told.with("tools"@, Json::Array(allowed))->Object_0 =~= told->Object_0);
        }
    }
}

/// Projecting the hosted tools of a request a second time changes nothing more.
pub proof fn law_projecting_tools_twice_changes_nothing(
    request: Json,
    enabled: bool,
    definition: Json,
)
    requires
        !declares_hosted(definition),
    ensures
        ({
            let once = projected_request(request, enabled, definition);
            projected_request(once, enabled, definition) == once
        }),
{
    reveal_strlit("tools");
    reveal_strlit("tool_choice");
    assert("tools"@.len() == 5);
    assert("tool_choice"@.len() == 11);
    let once = projected_request(request, enabled, definition);
    law_no_hosted_declaration_is_forwarded(request, enabled, definition);
    if let Some(choice) = request.field("tool_choice"@) {
        match request.items_field("tools"@) {
            Some(tools) => {
                lemma_projected_choice_stays(
                    choice,
                    enabled && any_of_type(tools, "web_search"@),
                    any_of_type(tools, "web_search"@),
                    any_of_type(tools, "image_generation"@),
                );
            },
            None => {
                lemma_projected_choice_stays(choice, false, false, false);
            },
        }
    }
    if let Some(choice) = once.field("tool_choice"@) {
        assert(projected_choice(choice, false, false, false) == choice);
        assert(once.with("tool_choice"@, choice)->Object_0 =~= once->Object_0);
    }
    if let Some(tools) = once.items_field("tools"@) {
        assert(declared_tools(once) == tools);
        assert forall|i: int| 0 <= i < tools.len() implies !declares_hosted(
            #[trigger] tools[i],
        ) by {
            assert(!declares_hosted(declared_tools(once)[i]));
        }
        lemma_projected_tools_stay(tools, enabled, definition);
        assert(once.with("tools"@, Json::Array(tools))->Object_0 =~= once->Object_0);
    }
}

/// A choice that was made automatic forces nothing.
proof fn lemma_auto_forces_nothing(config: HostedToolLoopConfig)
    ensures
        !forces_hosted(Json::Text("auto"@), config),
{
    reveal_strlit("auto");
    reveal_strlit("required");
    assert("auto"@.len() == 4);
    assert("required"@.len() == 8);
}

/// After a round the choice of tools forces no hosted tool, and relaxing the
/// request once more changes nothing.
pub proof fn law_relaxed_choice_forces_nothing(request: Json, config: HostedToolLoopConfig)
    ensures
        relaxed(request, config).field("tool_choice"@) matches Some(choice) ==> !forces_hosted(
            choice,
            config,
        ),
        relaxed(relaxed(request, config), config) == relaxed(request, config),
{
    lemma_auto_forces_nothing(config);
    if let Some(choice) = request.field("tool_choice"@) {
        if forces_hosted(choice, config) && has_type(choice, "allowed_tools"@) {
            reveal_strlit("auto");
            reveal_strlit("required");
            reveal_strlit("mode");
            reveal_strlit("type");
            reveal_strlit("allowed_tools");
            reveal_strlit("function");
            assert("auto"@.len() == 4);
            assert("required"@.len() == 8);
            assert("mode"@[0] == 'm');
            assert("type"@[0] == 't');
            assert("allowed_tools"@.len() == 13);
            assert("function"@.len() == 8);
            let next = choice.with("mode"@, Json::Text("auto"@));
            assert(next.text_field("type"@) == Some("allowed_tools"@));
            assert(next.text_field("mode"@) == Some("auto"@));
        }
    }
}

/// A filtered sequence holds only what was kept.
proof fn lemma_without_hosted(values: Seq<Json>, kind: Seq<char>, config: HostedToolLoopConfig)
    ensures
        forall|i: int|
            0 <= i < without_hosted(values, kind, config).len() ==> !names_hosted(
                #[trigger] without_hosted(values, kind, config)[i],
                kind,
                config,
            ),
    decreases values.len(),
{
    reveal(Seq::filter);
    if values.len() > 0 {
        lemma_without_hosted(values.drop_last(), kind, config);
    }
}

/// A request whose hosted functions were disabled declares none of them, and its
/// choice of tools forces nothing.
pub proof fn law_disabled_request_offers_no_hosted_function(
    request: Json,
    config: HostedToolLoopConfig,
)
    requires
        request.is_object_or_null(),
    ensures
        forall|i: int|
            0 <= i < declared_tools(disabled(request, config)).len() ==> !names_hosted(
                #[trigger] declared_tools(disabled(request, config))[i],
                "function"@,
                config,
            ),
        disabled(request, config).field("tool_choice"@) == Some(Json::Text("auto"@)),
        !forces_hosted(Json::Text("auto"@), config),
{
    lemma_auto_forces_nothing(config);
    reveal_strlit("tools");
    reveal_strlit("tool_choice");
    assert("tools"@.len() == 5);
    assert("tool_choice"@.len() == 11);
    if let Some(tools) = request.items_field("tools"@) {
        lemma_without_hosted(tools, "function"@, config);
        let kept = without_hosted(tools, "function"@, config);
        let rest = without_empty_tools(request.with("tools"@, Json::Array(kept)));
        if kept.len() > 0 {
            assert(disabled(request, config).items_field("tools"@) == Some(kept));
        } else {
            assert(disabled(request, config).items_field("tools"@) is None);
        }
    } else {
        assert(disabled(request, config).items_field("tools"@) is None);
    }
}

/// A response from which hosted calls were dropped holds no hosted call.
pub proof fn law_no_hosted_call_is_left(output: Seq<Json>, config: HostedToolLoopConfig)
    ensures
        forall|i: int|
            0 <= i < without_hosted(output, "function_call"@, config).len() ==> !names_hosted(
                #[trigger] without_hosted(output, "function_call"@, config)[i],
                "function_call"@,
                config,
            ),
{
    lemma_without_hosted(output, "function_call"@, config);
}

} // verus!
