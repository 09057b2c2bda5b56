//! Laws on the tools of a request: what a third party is told of them, what a choice of
//! tools becomes, and what is left where hosted tools are taken out.

use crate::hosted_tools;
use crate::hosted_tools::{HostedToolCallKind, HostedToolLoopConfig};
use crate::json::Json;
use crate::listing;
use vstd::prelude::*;

verus! {

/// Whether a name is that of a hosted tool that is run locally.
pub open spec fn is_run_locally(name: Seq<char>, config: HostedToolLoopConfig) -> bool {
    ||| name == "web_search"@ && config.web_search is Some
    ||| name == "generate_image"@ && config.image_generation is Some
}

/// The web search goes by `web_search` and the generation of images by
/// `generate_image`; no other name is that of a hosted tool. A hosted tool is run locally
/// exactly where it is configured.
pub proof fn law_hosted_tools_by_name(name: Seq<char>, config: HostedToolLoopConfig)
    ensures
        hosted_tools::kind_of(name) == Some(HostedToolCallKind::WebSearch) <==> name
            == "web_search"@,
        hosted_tools::kind_of(name) == Some(HostedToolCallKind::ImageGeneration) <==> name
            == "generate_image"@,
        hosted_tools::is_hosted(config, name) <==> is_run_locally(name, config),
{
    reveal_strlit("web_search");
    reveal_strlit("generate_image");
    assert("web_search"@.len() == 10);
    assert("generate_image"@.len() == 14);
}

// ---------------------------------------------------------------------------
// What a third party is told

/// Whether a tool is a hosted web search.
pub open spec fn is_web_search(tool: Json) -> bool {
    tool.field("type"@) == Some(Json::Text("web_search"@))
}

/// Whether a tool is a hosted generation of images.
pub open spec fn is_image_generation(tool: Json) -> bool {
    tool.field("type"@) == Some(Json::Text("image_generation"@))
}

/// Whether a third party is told of a tool: of a web search only where it is run
/// locally, of a generation of images never, and of any other tool always.
pub open spec fn is_told(tool: Json, enabled: bool) -> bool {
    !is_image_generation(tool) && (is_web_search(tool) ==> enabled)
}

/// Whether a third party is told of a tool in this way: of a web search as the function
/// that stands for it, and of any other tool as it is.
pub open spec fn is_told_so(tool: Json, told: Json, definition: Json) -> bool {
    told == if is_web_search(tool) {
        definition
    } else {
        tool
    }
}

/// The two types of hosted tools differ.
proof fn lemma_types()
    ensures
        "web_search"@ != "image_generation"@,
        "web_search"@ != "allowed_tools"@,
        "image_generation"@ != "allowed_tools"@,
        "function"@ != "allowed_tools"@,
        "function"@ != "web_search"@,
        "function"@ != "image_generation"@,
{
    reveal_strlit("web_search");
    reveal_strlit("image_generation");
    reveal_strlit("allowed_tools");
    reveal_strlit("function");
    assert("web_search"@.len() == 10);
    assert("image_generation"@.len() == 16);
    assert("allowed_tools"@.len() == 13);
    assert("function"@.len() == 8);
}

/// The tools that a third party is told of, in order.
proof fn lemma_told_tools(tools: Seq<Json>, enabled: bool, definition: Json)
    ensures
        listing::lists_kept(
            tools,
            hosted_tools::projected_tools(tools, enabled, definition),
            |tool: Json| is_told(tool, enabled),
            |tool: Json, told: Json| is_told_so(tool, told, definition),
        ),
    decreases tools.len(),
{
    let keep = |tool: Json| is_told(tool, enabled);
    let fits = |tool: Json, told: Json| is_told_so(tool, told, definition);
    let told = hosted_tools::projected_tools(tools, enabled, definition);
    lemma_types();
    if tools.len() == 0 {
        listing::lemma_lists_nothing(tools, told, keep, fits);
    } else {
        lemma_told_tools(tools.drop_last(), enabled, definition);
        let before = hosted_tools::projected_tools(tools.drop_last(), enabled, definition);
        if keep(tools.last()) {
            assert(told.take(before.len() as int) =~= before);
        }
        listing::lemma_lists_last(tools, before, told, keep, fits);
    }
}

/// A third party is told of every tool but those that are hosted and not run locally,
/// each in its place and as it is, a web search as the function that stands for it.
/// Where no tool is left, none are listed. Nothing else of the request changes, but for
/// the choice of tools.
pub proof fn law_tools_are_told_in_order(
    request: Json,
    tools: Seq<Json>,
    enabled: bool,
    definition: Json,
) -> (told: Seq<Json>)
    requires
        request.items_field("tools"@) == Some(tools),
    ensures
        listing::lists_kept(
            tools,
            told,
            |tool: Json| is_told(tool, enabled),
            |tool: Json, told: Json| is_told_so(tool, told, definition),
        ),
        ({
            let next = hosted_tools::projected_request(request, enabled, definition);
            &&& told.len() > 0 ==> next.field("tools"@) == Some(Json::Array(told))
            &&& told.len() == 0 ==> next.field("tools"@) is None
            &&& forall|k: Seq<char>|
                k != "tools"@ && k != "tool_choice"@ ==> (#[trigger] next.field(k))
                    == request.field(k)
            &&& match request.field("tool_choice"@) {
                None => next.field("tool_choice"@) is None,
                Some(choice) => {
                    let searches = exists|i: int|
                        0 <= i < tools.len() && is_web_search(#[trigger] tools[i]);
                    let draws = exists|i: int|
                        0 <= i < tools.len() && is_image_generation(#[trigger] tools[i]);
                    next.field("tool_choice"@) == Some(
                        hosted_tools::projected_choice(choice, enabled && searches, searches, draws),
                    )
                },
            }
        }),
{
    reveal_strlit("tools");
    reveal_strlit("tool_choice");
    assert("tools"@.len() == 5);
    assert("tool_choice"@.len() == 11);
    lemma_told_tools(tools, enabled, definition);
    let searches = exists|i: int| 0 <= i < tools.len() && is_web_search(#[trigger] tools[i]);
    let draws = exists|i: int| 0 <= i < tools.len() && is_image_generation(#[trigger] tools[i]);
    assert(searches == hosted_tools::any_of_type(tools, "web_search"@)) by {
        if searches {
            let i: int = choose|i: int| 0 <= i < tools.len() && is_web_search(#[trigger] tools[i]);
            assert(hosted_tools::has_type(tools[i], "web_search"@));
        }
        if hosted_tools::any_of_type(tools, "web_search"@) {
            let i: int = choose|i: int|
                0 <= i < tools.len() && hosted_tools::has_type(#[trigger] tools[i], "web_search"@);
            assert(is_web_search(tools[i]));
        }
    }
    assert(draws == hosted_tools::any_of_type(tools, "image_generation"@)) by {
        if draws {
            let i: int = choose|i: int|
                0 <= i < tools.len() && is_image_generation(#[trigger] tools[i]);
            assert(hosted_tools::has_type(tools[i], "image_generation"@));
        }
        if hosted_tools::any_of_type(tools, "image_generation"@) {
            let i: int = choose|i: int|
                0 <= i < tools.len() && hosted_tools::has_type(
                    #[trigger] tools[i],
                    "image_generation"@,
                );
            assert(is_image_generation(tools[i]));
        }
    }
    hosted_tools::projected_tools(tools, enabled, definition)
}

/// A request without a list of tools keeps everything but its choice of tools, in which
/// no tool counts as hosted.
pub proof fn law_request_without_tools_keeps_its_fields(
    request: Json,
    enabled: bool,
    definition: Json,
)
    requires
        request.items_field("tools"@) is None,
    ensures
        ({
            let next = hosted_tools::projected_request(request, enabled, definition);
            &&& forall|k: Seq<char>|
                k != "tool_choice"@ ==> (#[trigger] next.field(k)) == request.field(k)
            &&& match request.field("tool_choice"@) {
                None => next == request,
                Some(choice) => next.field("tool_choice"@) == Some(
                    hosted_tools::projected_choice(choice, false, false, false),
                ),
            }
        }),
{
    reveal_strlit("tools");
    reveal_strlit("tool_choice");
    assert("tools"@.len() == 5);
    assert("tool_choice"@.len() == 11);
}

/// Whether a value is the choice of the function that stands for the web search.
pub open spec fn chooses_search_function(value: Json) -> bool {
    &&& value.field("type"@) == Some(Json::Text("function"@))
    &&& value.field("name"@) == Some(Json::Text("web_search"@))
    &&& forall|k: Seq<char>| (#[trigger] value.field(k)) is Some ==> k == "type"@ || k == "name"@
}

/// Whether a tool that may be chosen stays allowed: a hosted web search that was declared
/// only where it is run locally, a hosted generation of images that was declared never,
/// and any other always.
pub open spec fn stays_allowed(
    tool: Json,
    projected: bool,
    saw_web_search: bool,
    saw_image_generation: bool,
) -> bool {
    &&& is_web_search(tool) && saw_web_search ==> projected
    &&& !(is_image_generation(tool) && saw_image_generation)
}

/// Whether a tool that may be chosen is allowed in this way: a hosted web search that was
/// declared as the function that stands for it, and any other as it is.
pub open spec fn is_allowed_as(tool: Json, allowed: Json, saw_web_search: bool) -> bool {
    if is_web_search(tool) && saw_web_search {
        chooses_search_function(allowed)
    } else {
        allowed == tool
    }
}

/// The choice of the function that stands for the web search.
proof fn lemma_search_choice()
    ensures
        chooses_search_function(hosted_tools::web_search_choice()),
{
    reveal_strlit("type");
    reveal_strlit("name");
    assert("type"@[0] == 't');
    assert("name"@[0] == 'n');
}

/// The tools that stay allowed, in order.
proof fn lemma_allowed(
    tools: Seq<Json>,
    projected: bool,
    saw_web_search: bool,
    saw_image_generation: bool,
)
    ensures
        listing::lists_kept(
            tools,
            hosted_tools::projected_allowed(tools, projected, saw_web_search, saw_image_generation),
            |tool: Json| stays_allowed(tool, projected, saw_web_search, saw_image_generation),
            |tool: Json, allowed: Json| is_allowed_as(tool, allowed, saw_web_search),
        ),
    decreases tools.len(),
{
    let keep = |tool: Json| stays_allowed(tool, projected, saw_web_search, saw_image_generation);
    let fits = |tool: Json, allowed: Json| is_allowed_as(tool, allowed, saw_web_search);
    let kept = hosted_tools::projected_allowed(
        tools,
        projected,
        saw_web_search,
        saw_image_generation,
    );
    lemma_types();
    lemma_search_choice();
    if tools.len() == 0 {
        listing::lemma_lists_nothing(tools, kept, keep, fits);
    } else {
        lemma_allowed(tools.drop_last(), projected, saw_web_search, saw_image_generation);
        let before = hosted_tools::projected_allowed(
            tools.drop_last(),
            projected,
            saw_web_search,
            saw_image_generation,
        );
        if keep(tools.last()) {
            assert(kept.take(before.len() as int) =~= before);
        }
        listing::lemma_lists_last(tools, before, kept, keep, fits);
    }
}

/// A choice follows its tools: that of a hosted web search becomes one of the function
/// that stands for it where it is run locally, and automatic where it is not; that of a
/// hosted generation of images becomes automatic. Of a list of allowed tools stay, in
/// order, those that can still be chosen; where none can, the choice is automatic. Any
/// other choice stays.
pub proof fn law_choice_follows_its_tools(
    choice: Json,
    projected: bool,
    saw_web_search: bool,
    saw_image_generation: bool,
) -> (kept: Seq<Json>)
    ensures
        ({
            let next = hosted_tools::projected_choice(
                choice,
                projected,
                saw_web_search,
                saw_image_generation,
            );
            let automatic = Json::Text("auto"@);
            &&& is_web_search(choice) && saw_web_search ==> if projected {
                chooses_search_function(next)
            } else {
                next == automatic
            }
            &&& is_image_generation(choice) && saw_image_generation ==> next == automatic
            &&& choice.text_field("type"@) == Some("allowed_tools"@) ==> match choice.items_field(
                "tools"@,
            ) {
                None => next == choice,
                Some(tools) => {
                    &&& listing::lists_kept(
                        tools,
                        kept,
                        |tool: Json|
                            stays_allowed(tool, projected, saw_web_search, saw_image_generation),
                        |tool: Json, allowed: Json| is_allowed_as(tool, allowed, saw_web_search),
                    )
                    &&& kept.len() == 0 ==> next == automatic
                    &&& kept.len() > 0 ==> {
                        &&& next.field("tools"@) == Some(Json::Array(kept))
                        &&& forall|k: Seq<char>|
                            k != "tools"@ ==> (#[trigger] next.field(k)) == choice.field(k)
                    }
                },
            }
            &&& {
                &&& !(is_web_search(choice) && saw_web_search)
                &&& !(is_image_generation(choice) && saw_image_generation)
                &&& choice.text_field("type"@) != Some("allowed_tools"@)
            } ==> next == choice
        }),
{
    lemma_types();
    lemma_search_choice();
    match choice.items_field("tools"@) {
        Some(tools) => {
            lemma_allowed(tools, projected, saw_web_search, saw_image_generation);
            hosted_tools::projected_allowed(tools, projected, saw_web_search, saw_image_generation)
        },
        None => Seq::empty(),
    }
}

/// The declaration of the web search that is run locally is the last one of the request,
/// and there is one exactly where the search is enabled and declared.
pub proof fn law_last_search_declaration_counts(request: Json, enabled: bool)
    ensures
        match hosted_tools::web_search_declaration(request, enabled) {
            Some(declaration) => {
                &&& enabled
                &&& request.items_field("tools"@) matches Some(tools)
                &&& exists|i: int|
                    {
                        &&& 0 <= i < tools.len()
                        &&& #[trigger] tools[i] == declaration
                        &&& is_web_search(declaration)
                        &&& forall|j: int|
                            i < j < tools.len() ==> !is_web_search(#[trigger] tools[j])
                    }
            },
            None => enabled ==> (request.items_field("tools"@) matches Some(tools) ==> forall|
                i: int,
            |
                0 <= i < tools.len() ==> !is_web_search(#[trigger] tools[i])),
        },
{
    if let Some(tools) = request.items_field("tools"@) {
        let _place: Option<int> = lemma_last_search(tools);
    }
}

/// Where the last declaration of a web search stands.
proof fn lemma_last_search(tools: Seq<Json>) -> (place: Option<int>)
    ensures
        match place {
            Some(i) => {
                &&& 0 <= i < tools.len()
                &&& is_web_search(tools[i])
                &&& hosted_tools::last_of_type(tools, "web_search"@) == Some(tools[i])
                &&& forall|j: int| i < j < tools.len() ==> !is_web_search(#[trigger] tools[j])
            },
            None => {
                &&& hosted_tools::last_of_type(tools, "web_search"@) is None
                &&& forall|j: int| 0 <= j < tools.len() ==> !is_web_search(#[trigger] tools[j])
            },
        },
    decreases tools.len(),
{
    if tools.len() == 0 {
        None
    } else if is_web_search(tools.last()) {
        Some(tools.len() - 1)
    } else {
        let front = tools.drop_last();
        let place: Option<int> = lemma_last_search(front);
        assert forall|j: int| 0 <= j < front.len() implies #[trigger] tools[j] == front[j] by {}
        place
    }
}

// ---------------------------------------------------------------------------
// Later rounds

/// Whether a tool that may be chosen is a hosted one that is run locally.
pub open spec fn is_local_selector(tool: Json, config: HostedToolLoopConfig) -> bool {
    ||| is_web_search(tool) && config.web_search is Some
    ||| is_image_generation(tool) && config.image_generation is Some
    ||| tool.field("type"@) == Some(Json::Text("function"@)) && (tool.text_field(
        "name"@,
    ) matches Some(name) && is_run_locally(name, config))
}

/// A tool that may be chosen is a hosted one that is run locally exactly where its type,
/// or the name of its function, says so.
pub proof fn law_selectors_of_hosted_tools(tool: Json, config: HostedToolLoopConfig)
    ensures
        hosted_tools::selects_hosted(tool, config) <==> is_local_selector(tool, config),
{
    lemma_types();
    if let Some(name) = tool.text_field("name"@) {
        law_hosted_tools_by_name(name, config);
    }
}

/// Whether a choice of tools leaves the model no way but to call a hosted tool that is
/// run locally: any tool is required, that function is, or one of a list with it is.
pub open spec fn is_forcing(choice: Json, config: HostedToolLoopConfig) -> bool {
    ||| choice == Json::Text("required"@)
    ||| choice.field("type"@) == Some(Json::Text("function"@)) && (choice.text_field(
        "name"@,
    ) matches Some(name) && is_run_locally(name, config))
    ||| choice.field("type"@) == Some(Json::Text("allowed_tools"@)) && choice.field("mode"@)
        == Some(Json::Text("required"@)) && (choice.items_field("tools"@) matches Some(tools)
        && exists|i: int| 0 <= i < tools.len() && is_local_selector(#[trigger] tools[i], config))
}

/// What forces a hosted tool, in terms of the choice alone.
proof fn lemma_forcing(choice: Json, config: HostedToolLoopConfig)
    ensures
        hosted_tools::forces_hosted(choice, config) <==> is_forcing(choice, config),
{
    lemma_types();
    if let Some(tools) = choice.items_field("tools"@) {
        assert forall|i: int| 0 <= i < tools.len() implies (hosted_tools::selects_hosted(
            #[trigger] tools[i],
            config,
        ) <==> is_local_selector(tools[i], config)) by {
            law_selectors_of_hosted_tools(tools[i], config);
        }
        if hosted_tools::any_selects_hosted(tools, config) {
            let i: int = choose|i: int|
                0 <= i < tools.len() && hosted_tools::selects_hosted(#[trigger] tools[i], config);
            assert(is_local_selector(tools[i], config));
        }
        if exists|i: int| 0 <= i < tools.len() && is_local_selector(#[trigger] tools[i], config) {
            let i: int = choose|i: int|
                0 <= i < tools.len() && is_local_selector(#[trigger] tools[i], config);
            assert(hosted_tools::selects_hosted(tools[i], config));
        }
    }
    if let Some(name) = choice.text_field("name"@) {
        law_hosted_tools_by_name(name, config);
    }
}

/// After a round, a choice that forces a hosted tool is automatic, and a list of allowed
/// tools stays but for its mode. A choice that forces none stays as it is, and so does
/// everything else in the request.
pub proof fn law_only_forcing_choices_are_relaxed(request: Json, config: HostedToolLoopConfig)
    ensures
        ({
            let next = hosted_tools::relaxed(request, config);
            match request.field("tool_choice"@) {
                None => next == request,
                Some(choice) => {
                    &&& !is_forcing(choice, config) ==> next == request
                    &&& is_forcing(choice, config) ==> {
                        &&& next.field("tool_choice"@) is Some
                        &&& choice.field("type"@) != Some(Json::Text("allowed_tools"@))
                            ==> next.field("tool_choice"@)->0 == Json::Text("auto"@)
                        &&& choice.field("type"@) == Some(Json::Text("allowed_tools"@)) ==> {
                            let eased = next.field("tool_choice"@)->0;
                            &&& eased.field("mode"@) == Some(Json::Text("auto"@))
                            &&& forall|k: Seq<char>|
                                k != "mode"@ ==> (#[trigger] eased.field(k)) == choice.field(k)
                        }
                        &&& forall|k: Seq<char>|
                            k != "tool_choice"@ ==> (#[trigger] next.field(k)) == request.field(k)
                    }
                },
            }
        }),
{
    if let Some(choice) = request.field("tool_choice"@) {
        lemma_forcing(choice, config);
    }
}

/// Whether a value of some type names a hosted tool that is run locally.
pub open spec fn is_named_locally(
    value: Json,
    kind: Seq<char>,
    config: HostedToolLoopConfig,
) -> bool {
    &&& value.field("type"@) == Some(Json::Text(kind))
    &&& value.text_field("name"@) matches Some(name) && is_run_locally(name, config)
}

/// Taking hosted tools out of a list takes out exactly the values of that type that name
/// one which is run locally. All others stay, each as it is and in order.
pub proof fn law_only_hosted_values_are_taken_out(
    values: Seq<Json>,
    kind: Seq<char>,
    config: HostedToolLoopConfig,
)
    ensures
        listing::lists_kept(
            values,
            hosted_tools::without_hosted(values, kind, config),
            |value: Json| !is_named_locally(value, kind, config),
            |value: Json, left: Json| left == value,
        ),
{
    let keep = |value: Json| !is_named_locally(value, kind, config);
    let same = |value: Json, left: Json| left == value;
    listing::lemma_lists_filtered(values, keep, same);
    assert forall|value: Json| #[trigger] keep(value) == !hosted_tools::names_hosted(
        value,
        kind,
        config,
    ) by {
        if let Some(name) = value.text_field("name"@) {
            law_hosted_tools_by_name(name, config);
        }
    }
    assert(keep =~= (|value: Json| !hosted_tools::names_hosted(value, kind, config)));
}

/// Disabling hosted tools takes their functions out of a request and makes its choice of
/// tools automatic. The other tools stay in order, and where none is left, none are
/// listed. Nothing else changes.
pub proof fn law_disabling_takes_out_hosted_functions_only(
    request: Json,
    config: HostedToolLoopConfig,
)
    requires
        request.is_object_or_null(),
    ensures
        ({
            let next = hosted_tools::disabled(request, config);
            &&& next.field("tool_choice"@) == Some(Json::Text("auto"@))
            &&& forall|k: Seq<char>|
                k != "tools"@ && k != "tool_choice"@ ==> (#[trigger] next.field(k))
                    == request.field(k)
            &&& request.items_field("tools"@) is None ==> next.field("tools"@) == request.field(
                "tools"@,
            )
            &&& request.items_field("tools"@) matches Some(tools) ==> {
                let left = hosted_tools::without_hosted(tools, "function"@, config);
                &&& left.len() > 0 ==> next.field("tools"@) == Some(Json::Array(left))
                &&& left.len() == 0 ==> next.field("tools"@) is None
            }
        }),
{
    reveal_strlit("tools");
    reveal_strlit("tool_choice");
    assert("tools"@.len() == 5);
    assert("tool_choice"@.len() == 11);
}

/// Taking hosted calls out of a response leaves every other item of its output, in order,
/// and every other field.
pub proof fn law_only_hosted_calls_leave_a_response(response: Json, config: HostedToolLoopConfig)
    ensures
        ({
            let next = hosted_tools::without_hosted_calls(response, config);
            &&& response.items_field("output"@) is None ==> next == response
            &&& response.items_field("output"@) matches Some(output) ==> {
                &&& next.items_field("output"@) is Some
                &&& listing::lists_kept(
                    output,
                    next.items_field("output"@)->0,
                    |value: Json| !is_named_locally(value, "function_call"@, config),
                    |value: Json, left: Json| left == value,
                )
            }
            &&& forall|k: Seq<char>|
                k != "output"@ ==> (#[trigger] next.field(k)) == response.field(k)
        }),
{
    if let Some(output) = response.items_field("output"@) {
        law_only_hosted_values_are_taken_out(output, "function_call"@, config);
        let next = hosted_tools::without_hosted_calls(response, config);
        assert(next.items_field("output"@) == Some(
            hosted_tools::without_hosted(output, "function_call"@, config),
        ));
    }
}

} // verus!
