//! Requests: custom declarations, history and tool choices become function ones.
use vstd::prelude::*;

use super::decode::{
    decoded_arguments, first_other_key, is_allowed, other_keys, wrap_arguments, wrapped_input,
};
use super::plan::{
    arguments_refusal, identity_error, AdapterError, AdapterErrorCode, AdapterErrorView,
    ClientToolIdentity, CustomToolAdapterPlan, IdentityView, PlanView,
};
use crate::json::{array_view, empty_object, json_text, Json, JsonView};
use crate::str_map::StrMap;
use crate::text::{
    concat, concat3, concat5, decimal, decimal_text, least_text, lemma_least_text, trim, trimmed,
};

verus! {

/// Whether a request depends on call state that the server keeps.
pub open spec fn refers_to_server_state(body: JsonView) -> bool {
    ||| body.text_field("previous_response_id"@) is Some && trimmed(
        body.text_field("previous_response_id"@)->0,
    ).len() > 0
    ||| body.field("conversation"@) is Some && body.field("conversation"@)->0 != JsonView::Null
    ||| body.items_field("input"@) is Some && exists|i: int|
        0 <= i < body.items_field("input"@)->0.len() && (
        #[trigger] body.items_field("input"@)->0[i]).text_field("type"@) == Some("item_reference"@)
}

pub fn has_unsupported_state_reference(body: &Json) -> (r: bool)
    ensures
        r == refers_to_server_state(body@),
{
    if let Some(id) = body.text_at("previous_response_id") {
        if !trim(id).is_empty() {
            return true;
        }
    }
    if let Some(conversation) = body.get("conversation") {
        if !conversation.is_null() {
            return true;
        }
    }
    if let Some(items) = body.array_at("input") {
        let ghost views = body@.items_field("input"@)->0;
        for i in 0..items.len()
            invariant
                views == array_view(items@),
                body@.items_field("input"@) == Some(views),
                forall|j: int|
                    0 <= j < i ==> (#[trigger] views[j]).text_field("type"@) != Some(
                        "item_reference"@,
                    ),
        {
            assert(views[i as int] == items@[i as int]@);
            if items[i].has_text("type", "item_reference") {
                return true;
            }
        }
    }
    false
}

/// Converts the items of a list one by one, up to the first that is refused: it and those after
/// it stay as they are.
pub open spec fn first_refused(
    items: Seq<JsonView>,
    step: spec_fn(int, JsonView) -> Result<JsonView, AdapterErrorView>,
    from: int,
) -> int
    decreases items.len() - from,
{
    if from >= items.len() || step(from, items[from]) is Err {
        from
    } else {
        first_refused(items, step, from + 1)
    }
}

pub open spec fn converted_items(
    items: Seq<JsonView>,
    step: spec_fn(int, JsonView) -> Result<JsonView, AdapterErrorView>,
) -> Seq<JsonView> {
    Seq::new(
        items.len(),
        |i: int|
            if i < first_refused(items, step, 0) {
                step(i, items[i])->Ok_0
            } else {
                items[i]
            },
    )
}

pub open spec fn refusal_of_items(
    items: Seq<JsonView>,
    step: spec_fn(int, JsonView) -> Result<JsonView, AdapterErrorView>,
) -> Option<AdapterErrorView> {
    let at = first_refused(items, step, 0);
    if at < items.len() {
        Some(step(at, items[at])->Err_0)
    } else {
        None
    }
}

/// The result of a conversion in place, by what it leaves behind.
pub open spec fn refusal<T>(r: Result<T, AdapterError>) -> Option<AdapterErrorView> {
    match r {
        Ok(_) => None,
        Err(e) => Some(e@),
    }
}

pub open spec fn is_custom(value: JsonView) -> bool {
    value.text_field("type"@) == Some("custom"@)
}

pub open spec fn is_declaration_field(key: Seq<char>) -> bool {
    key == "type"@ || key == "name"@ || key == "description"@ || key == "format"@
}

/// The fields of a declaration that cannot be wrapped.
pub open spec fn unsupported_fields(tool: JsonView) -> Set<Seq<char>> {
    match tool {
        JsonView::Object(fields) => fields.dom().filter(|k: Seq<char>| !is_declaration_field(k)),
        _ => Set::empty(),
    }
}

pub open spec fn grammar_note(syntax: Seq<char>) -> Seq<char> {
    "\n\nThe original custom tool declared a "@ + syntax
        + " grammar for its input; follow that grammar when composing the input text. The proxy cannot enforce it server-side anymore, so produce the exact text the tool expects."@
}

/// What the format of a declaration adds to the description.
pub open spec fn format_note(tool: JsonView, wire_name: Seq<char>) -> Result<
    Seq<char>,
    AdapterErrorView,
> {
    match tool.field("format"@) {
        None => Ok(Seq::empty()),
        Some(format) => if format == JsonView::Null || format.text_field("type"@) == Some("text"@)
            || format.text_field("type"@) == Some(""@) {
            Ok(Seq::empty())
        } else if format.text_field("type"@) == Some("grammar"@) {
            Ok(grammar_note(format.text_or_empty("syntax"@)))
        } else {
            let kind = match format.text_field("type"@) {
                Some(kind) => kind,
                None => "<missing>"@,
            };
            Err(
                AdapterErrorView {
                    code: AdapterErrorCode::UnsupportedFormat,
                    message: "custom 工具「"@ + wire_name + "」的 format 类型「"@ + kind
                        + "」不受本适配器支持"@,
                },
            )
        },
    }
}

pub open spec fn wrapper_description(description: Seq<char>) -> Seq<char> {
    if description.len() == 0 {
        "Freeform custom tool wrapped as a function by codex-plus. Supply a JSON object with one input string. The input value is the original tool text, not an additional JSON encoding of that text."@
    } else {
        description
            + "\n\nSupply a JSON object with one input string. The input value is the original tool text, not an additional JSON encoding of that text."@
    }
}

/// The schema of the wrapping object.
pub open spec fn input_schema() -> JsonView {
    let input = empty_object().with_text("type"@, "string"@).with_text(
        "description"@,
        "Exact original custom-tool input, preserving whitespace and escapes."@,
    );
    empty_object().with_text("type"@, "object"@).with(
        "properties"@,
        empty_object().with("input"@, input),
    ).with("required"@, JsonView::Array(seq![JsonView::Text("input"@)])).with(
        "additionalProperties"@,
        JsonView::Bool(false),
    )
}

/// The function declaration that stands for a custom one.
pub open spec fn wrapped_declaration(tool: JsonView, wire_name: Seq<char>) -> Result<
    JsonView,
    AdapterErrorView,
> {
    let others = unsupported_fields(tool);
    if others != Set::<Seq<char>>::empty() {
        Err(
            AdapterErrorView {
                code: AdapterErrorCode::UnsupportedField,
                message: "custom 工具「"@ + wire_name + "」携带暂不支持包装的字段「"@ + least_text(
                    others,
                ) + "」，已拒绝发送"@,
            },
        )
    } else {
        match format_note(tool, wire_name) {
            Err(e) => Err(e),
            Ok(note) => Ok(
                empty_object().with_text("type"@, "function"@).with_text(
                    "name"@,
                    wire_name,
                ).with_text(
                    "description"@,
                    wrapper_description(trimmed(tool.text_or_empty("description"@))) + note,
                ).with("parameters"@, input_schema()).with("strict"@, JsonView::Bool(false)),
            ),
        }
    }
}

fn parameters_schema() -> (r: Json)
    ensures
        r@ == input_schema(),
{
    let mut input = Json::object();
    input.put_text("type", "string");
    input.put_text(
        "description",
        "Exact original custom-tool input, preserving whitespace and escapes.",
    );
    let mut properties = Json::object();
    properties.put("input", input);
    let required: Vec<Json> = vec![Json::text("input")];
    assert(array_view(required@) =~= seq![JsonView::Text("input"@)]);
    let mut schema = Json::object();
    schema.put_text("type", "object");
    schema.put("properties", properties);
    schema.put("required", Json::array(required));
    schema.put("additionalProperties", Json::Bool(false));
    schema
}

/// Reads the format of a declaration.
fn note_of_format(tool: &Json, wire_name: &str) -> (r: Result<String, AdapterError>)
    ensures
        match r {
            Ok(note) => format_note(tool@, wire_name@) == Ok::<Seq<char>, AdapterErrorView>(note@),
            Err(e) => format_note(tool@, wire_name@) == Err::<Seq<char>, AdapterErrorView>(e@),
        },
{
    proof {
        reveal_strlit("");
        assert(""@ =~= Seq::<char>::empty());
    }
    match tool.get("format") {
        None => Ok("".to_owned()),
        Some(format) => {
            if format.is_null() || format.has_text("type", "text") || format.has_text("type", "") {
                Ok("".to_owned())
            } else if format.has_text("type", "grammar") {
                Ok(
                    concat3(
                        "\n\nThe original custom tool declared a ",
                        format.text_or_empty("syntax"),
                        " grammar for its input; follow that grammar when composing the input text. The proxy cannot enforce it server-side anymore, so produce the exact text the tool expects.",
                    ),
                )
            } else {
                let kind = match format.text_at("type") {
                    Some(kind) => kind,
                    None => "<missing>",
                };
                Err(
                    AdapterError::new(
                        AdapterErrorCode::UnsupportedFormat,
                        concat5(
                            "custom 工具「",
                            wire_name,
                            "」的 format 类型「",
                            kind,
                            "」不受本适配器支持",
                        ),
                    ),
                )
            }
        },
    }
}

/// The function declaration for a custom tool. Its description and format go into the description
/// of the function; a field or a format that has no place there is refused.
pub fn wrap_custom_tool_declaration(tool: &Json, wire_name: &str) -> (r: Result<Json, AdapterError>)
    ensures
        match r {
            Ok(declaration) => wrapped_declaration(tool@, wire_name@) == Ok::<
                JsonView,
                AdapterErrorView,
            >(declaration@),
            Err(e) => wrapped_declaration(tool@, wire_name@) == Err::<JsonView, AdapterErrorView>(
                e@,
            ),
        },
{
    let allowed: Vec<&str> = vec!["type", "name", "description", "format"];
    proof {
        assert forall|k: Seq<char>| is_allowed(k, allowed@) == is_declaration_field(k) by {
            assert(allowed@[0]@ == "type"@);
            assert(allowed@[1]@ == "name"@);
            assert(allowed@[2]@ == "description"@);
            assert(allowed@[3]@ == "format"@);
        }
        assert(other_keys(tool@, allowed@) =~= unsupported_fields(tool@));
    }
    if let Some(key) = first_other_key(tool, &allowed) {
        proof {
            lemma_least_text(key@, unsupported_fields(tool@));
            assert(unsupported_fields(tool@).contains(key@));
        }
        return Err(
            AdapterError::new(
                AdapterErrorCode::UnsupportedField,
                concat5(
                    "custom 工具「",
                    wire_name,
                    "」携带暂不支持包装的字段「",
                    key.as_str(),
                    "」，已拒绝发送",
                ),
            ),
        );
    }
    let note = match note_of_format(tool, wire_name) {
        Ok(note) => note,
        Err(e) => {
            return Err(e);
        },
    };
    let description = trim(tool.text_or_empty("description"));
    let base = if description.is_empty() {
        "Freeform custom tool wrapped as a function by codex-plus. Supply a JSON object with one input string. The input value is the original tool text, not an additional JSON encoding of that text.".to_owned()
    } else {
        concat(
            description,
            "\n\nSupply a JSON object with one input string. The input value is the original tool text, not an additional JSON encoding of that text.",
        )
    };
    let full = concat(base.as_str(), note.as_str());
    let mut declaration = Json::object();
    declaration.put_text("type", "function");
    declaration.put_text("name", wire_name);
    declaration.put_text("description", full.as_str());
    declaration.put("parameters", parameters_schema());
    declaration.put("strict", Json::Bool(false));
    Ok(declaration)
}

/// Which client tool a wire name stands for: as the flattened namespaces have it, or the name
/// itself at the top level.
pub open spec fn identity_of(wire_name: Seq<char>, names: Map<Seq<char>, (String, String)>) -> IdentityView {
    if names.contains_key(wire_name) {
        IdentityView { client_name: names[wire_name].1@, namespace: names[wire_name].0@ }
    } else {
        IdentityView { client_name: wire_name, namespace: Seq::empty() }
    }
}

/// A declaration as the client gave it.
pub open spec fn original_declaration(tool: JsonView, identity: IdentityView) -> JsonView {
    let named = tool.with_text("name"@, identity.client_name);
    if identity.namespace.len() > 0 {
        named.with_text("namespace"@, identity.namespace)
    } else {
        named
    }
}

/// What a tool becomes: a custom one is wrapped, any other stays.
pub open spec fn encoded_tool(tool: JsonView) -> Result<JsonView, AdapterErrorView> {
    if !is_custom(tool) {
        Ok(tool)
    } else if tool.text_or_empty("name"@).len() == 0 {
        Err(identity_error("custom 工具缺少可用名称，无法安全包装"@))
    } else {
        wrapped_declaration(tool, tool.text_or_empty("name"@))
    }
}

pub open spec fn tool_step() -> spec_fn(int, JsonView) -> Result<JsonView, AdapterErrorView> {
    |i: int, tool: JsonView| encoded_tool(tool)
}

/// The plan that the first `n` tools make.
pub open spec fn plan_of_tools(
    tools: Seq<JsonView>,
    names: Map<Seq<char>, (String, String)>,
    n: int,
) -> PlanView
    decreases n,
{
    if n <= 0 {
        PlanView::empty()
    } else {
        let before = plan_of_tools(tools, names, n - 1);
        let tool = tools[n - 1];
        if is_custom(tool) {
            let wire_name = tool.text_or_empty("name"@);
            let identity = identity_of(wire_name, names);
            before.register(wire_name, identity, original_declaration(tool, identity))
        } else {
            before
        }
    }
}

fn wrap_tools(tools: &mut Vec<Json>, names: &StrMap<(String, String)>) -> (r: Result<
    CustomToolAdapterPlan,
    AdapterError,
>)
    ensures
        array_view(final(tools)@) == converted_items(array_view(old(tools)@), tool_step()),
        refusal(r) == refusal_of_items(array_view(old(tools)@), tool_step()),
        r is Ok ==> r->Ok_0@ == plan_of_tools(
            array_view(old(tools)@),
            names@,
            old(tools)@.len() as int,
        ),
{
    let ghost before = array_view(tools@);
    let mut plan = CustomToolAdapterPlan::default();
    let n = tools.len();
    for i in 0..n
        invariant
            n == tools@.len(),
            before.len() == n,
            before == array_view(old(tools)@),
            plan@ == plan_of_tools(before, names@, i as int),
            first_refused(before, tool_step(), 0) == first_refused(before, tool_step(), i as int),
            forall|j: int|
                0 <= j < i ==> (#[trigger] tools@[j])@ == encoded_tool(before[j])->Ok_0,
            forall|j: int| i <= j < n ==> (#[trigger] tools@[j])@ == before[j],
    {
        assert(tools@[i as int]@ == before[i as int]);
        let ghost step = tool_step()(i as int, before[i as int]);
        assert(step == encoded_tool(before[i as int]));
        if tools[i].has_text("type", "custom") {
            let wire_name = tools[i].text_or_empty("name").to_owned();
            if wire_name.as_str().is_empty() {
                proof {
                    assert(array_view(tools@) =~= converted_items(before, tool_step()));
                }
                return Err(
                    AdapterError::new(
                        AdapterErrorCode::ToolIdentityConflict,
                        "custom 工具缺少可用名称，无法安全包装".to_owned(),
                    ),
                );
            }
            let wrapped = match wrap_custom_tool_declaration(&tools[i], wire_name.as_str()) {
                Ok(wrapped) => wrapped,
                Err(e) => {
                    proof {
                        assert(array_view(tools@) =~= converted_items(before, tool_step()));
                    }
                    return Err(e);
                },
            };
            let identity = match names.get(wire_name.as_str()) {
                Some(pair) => ClientToolIdentity {
                    client_name: pair.1.clone(),
                    namespace: pair.0.clone(),
                },
                None => ClientToolIdentity {
                    client_name: wire_name.clone(),
                    namespace: String::new(),
                },
            };
            assert(identity@ =~= identity_of(wire_name@, names@));
            let mut original = tools[i].copy();
            original.put_text("name", identity.client_name.as_str());
            if !identity.namespace.as_str().is_empty() {
                original.put_text("namespace", identity.namespace.as_str());
            }
            tools.set(i, wrapped);
            plan.insert(wire_name, identity, original);
        }
    }
    proof {
        assert(array_view(tools@) =~= converted_items(before, tool_step()));
    }
    Ok(plan)
}

/// What an item of the history becomes: a custom call becomes a function call with its input
/// wrapped, and a custom output a function output. Call ids and item ids stay.
pub open spec fn encoded_history_item(index: int, item: JsonView) -> Result<
    JsonView,
    AdapterErrorView,
> {
    if item.text_field("type"@) == Some("custom_tool_call"@) {
        let name = item.text_or_empty("name"@);
        if name.len() == 0 {
            Err(
                identity_error(
                    "input["@ + decimal(index as nat)
                        + "] 的 custom_tool_call 缺少工具名，无法回放"@,
                ),
            )
        } else {
            match item.text_field("input"@) {
                None => Err(
                    arguments_refusal(
                        "input["@ + decimal(index as nat) + "]（"@ + name
                            + "）的 custom_tool_call.input 缺失或不是字符串，拒绝回放"@,
                    ),
                ),
                Some(input) => Ok(
                    item.with_text("type"@, "function_call"@).with_text("name"@, name).with_text(
                        "arguments"@,
                        json_text(wrapped_input(input)),
                    ).without("input"@),
                ),
            }
        }
    } else if item.text_field("type"@) == Some("custom_tool_call_output"@) {
        Ok(item.with_text("type"@, "function_call_output"@))
    } else {
        Ok(item)
    }
}

pub open spec fn history_step() -> spec_fn(int, JsonView) -> Result<JsonView, AdapterErrorView> {
    |index: int, item: JsonView| encoded_history_item(index, item)
}

/// The arguments of a replayed call decode to the input of the custom call.
pub open spec fn replays_input(before: JsonView, after: JsonView) -> bool {
    before.text_field("type"@) == Some("custom_tool_call"@) ==> decoded_arguments(
        after.text_or_empty("arguments"@),
    ) == Ok::<Seq<char>, AdapterErrorView>(before.text_or_empty("input"@))
}

pub open spec fn replays_inputs(before: Option<Seq<JsonView>>, after: Option<Seq<JsonView>>) -> bool {
    before is Some ==> after is Some && forall|i: int|
        0 <= i < before->0.len() ==> #[trigger] replays_input(before->0[i], after->0[i])
}

fn convert_history_item(item: &mut Json, index: usize) -> (r: Result<(), AdapterError>)
    ensures
        match r {
            Ok(_) => encoded_history_item(index as int, old(item)@) == Ok::<
                JsonView,
                AdapterErrorView,
            >(final(item)@),
            Err(e) => encoded_history_item(index as int, old(item)@) == Err::<
                JsonView,
                AdapterErrorView,
            >(e@) && *final(item) == *old(item),
        },
        r is Ok ==> replays_input(old(item)@, final(item)@),
{
    if item.has_text("type", "custom_tool_call") {
        let name = item.text_or_empty("name").to_owned();
        if name.as_str().is_empty() {
            let number = decimal_text(index as u64);
            return Err(
                AdapterError::new(
                    AdapterErrorCode::ToolIdentityConflict,
                    concat3(
                        "input[",
                        number.as_str(),
                        "] 的 custom_tool_call 缺少工具名，无法回放",
                    ),
                ),
            );
        }
        let arguments = match item.text_at("input") {
            Some(input) => wrap_arguments(input),
            None => {
                let number = decimal_text(index as u64);
                return Err(
                    AdapterError::new(
                        AdapterErrorCode::InvalidArguments,
                        concat5(
                            "input[",
                            number.as_str(),
                            "]（",
                            name.as_str(),
                            "）的 custom_tool_call.input 缺失或不是字符串，拒绝回放",
                        ),
                    ),
                );
            },
        };
        item.put_text("type", "function_call");
        item.put_text("name", name.as_str());
        item.put_text("arguments", arguments.as_str());
        item.remove("input");
        proof {
            reveal_strlit("arguments");
            reveal_strlit("input");
            assert("arguments"@.len() == 9 && "input"@.len() == 5);
        }
    } else if item.has_text("type", "custom_tool_call_output") {
        item.put_text("type", "function_call_output");
    }
    Ok(())
}

/// The request with its history converted, and the refusal where an item was refused.
pub open spec fn with_history(body: JsonView) -> (JsonView, Option<AdapterErrorView>) {
    match body.items_field("input"@) {
        Some(items) => (
            body.with("input"@, JsonView::Array(converted_items(items, history_step()))),
            refusal_of_items(items, history_step()),
        ),
        None => (body, None),
    }
}

fn convert_history_list(items: &mut Vec<Json>) -> (r: Result<(), AdapterError>)
    ensures
        array_view(final(items)@) == converted_items(array_view(old(items)@), history_step()),
        refusal(r) == refusal_of_items(array_view(old(items)@), history_step()),
        r is Ok ==> replays_inputs(Some(array_view(old(items)@)), Some(array_view(final(items)@))),
{
    let ghost before = array_view(items@);
    let n = items.len();
    for i in 0..n
        invariant
            n == items@.len(),
            before.len() == n,
            before == array_view(old(items)@),
            first_refused(before, history_step(), 0) == first_refused(
                before,
                history_step(),
                i as int,
            ),
            forall|j: int|
                0 <= j < i ==> (#[trigger] items@[j])@ == encoded_history_item(j, before[j])->Ok_0,
            forall|j: int| 0 <= j < i ==> replays_input(before[j], (#[trigger] items@[j])@),
            forall|j: int| i <= j < n ==> (#[trigger] items@[j])@ == before[j],
    {
        assert(items@[i as int]@ == before[i as int]);
        let ghost step = history_step()(i as int, before[i as int]);
        assert(step == encoded_history_item(i as int, before[i as int]));
        let ghost earlier = items@;
        match convert_history_item(&mut items[i], i) {
            Ok(_) => {
                assert(forall|j: int| 0 <= j < n && j != i ==> #[trigger] items@[j] == earlier[j]);
            },
            Err(e) => {
                proof {
                    assert(array_view(items@) =~= converted_items(before, history_step()));
                }
                return Err(e);
            },
        }
    }
    proof {
        assert(array_view(items@) =~= converted_items(before, history_step()));
    }
    Ok(())
}

pub fn convert_history_items(body: &mut Json) -> (r: Result<(), AdapterError>)
    ensures
        (final(body)@, refusal(r)) == with_history(old(body)@),
        r is Ok ==> replays_inputs(
            old(body)@.items_field("input"@),
            final(body)@.items_field("input"@),
        ),
{
    match body.array_at_mut("input") {
        Some(items) => convert_history_list(items),
        None => Ok(()),
    }
}

/// What a reference to a custom tool becomes: a reference to the function that wraps it.
pub open spec fn encoded_reference(value: JsonView, plan: PlanView) -> Result<
    JsonView,
    AdapterErrorView,
> {
    match value.text_field("name"@) {
        None => Err(identity_error("tool_choice 指向 custom 工具但缺少名称"@)),
        Some(name) => {
            let space = value.text_or_empty("namespace"@);
            match plan.resolved(name, if space.len() > 0 { Some(space) } else { None }) {
                Err(e) => Err(e),
                Ok(None) => Err(
                    identity_error(
                        "tool_choice 引用的 custom 工具「"@ + name + "」不在本次工具集合中"@,
                    ),
                ),
                Ok(Some(wire_name)) => Ok(
                    value.with_text("type"@, "function"@).with_text("name"@, wire_name).without(
                        "namespace"@,
                    ),
                ),
            }
        },
    }
}

pub open spec fn encoded_allowed_tool(entry: JsonView, plan: PlanView) -> Result<
    JsonView,
    AdapterErrorView,
> {
    if is_custom(entry) {
        encoded_reference(entry, plan)
    } else {
        Ok(entry)
    }
}

pub open spec fn allowed_tool_step(plan: PlanView) -> spec_fn(int, JsonView) -> Result<
    JsonView,
    AdapterErrorView,
> {
    |i: int, entry: JsonView| encoded_allowed_tool(entry, plan)
}

/// A tool choice with its references to custom tools converted. Choices such as `auto`, and
/// references to functions, stay.
pub open spec fn encoded_choice(choice: JsonView, plan: PlanView) -> (
    JsonView,
    Option<AdapterErrorView>,
) {
    if is_custom(choice) {
        match encoded_reference(choice, plan) {
            Ok(converted) => (converted, None),
            Err(e) => (choice, Some(e)),
        }
    } else if choice.text_field("type"@) == Some("allowed_tools"@) && choice.items_field(
        "tools"@,
    ) is Some {
        let tools = choice.items_field("tools"@)->0;
        (
            choice.with("tools"@, JsonView::Array(converted_items(tools, allowed_tool_step(plan)))),
            refusal_of_items(tools, allowed_tool_step(plan)),
        )
    } else {
        (choice, None)
    }
}

fn convert_reference(value: &mut Json, plan: &CustomToolAdapterPlan) -> (r: Result<
    (),
    AdapterError,
>)
    ensures
        match r {
            Ok(_) => encoded_reference(old(value)@, plan@) == Ok::<JsonView, AdapterErrorView>(
                final(value)@,
            ),
            Err(e) => encoded_reference(old(value)@, plan@) == Err::<JsonView, AdapterErrorView>(e@)
                && *final(value) == *old(value),
        },
{
    let wire_name = match value.text_at("name") {
        None => {
            return Err(
                AdapterError::new(
                    AdapterErrorCode::ToolIdentityConflict,
                    "tool_choice 指向 custom 工具但缺少名称".to_owned(),
                ),
            );
        },
        Some(name) => {
            let space = value.text_or_empty("namespace");
            let namespace = if space.is_empty() {
                None
            } else {
                Some(space)
            };
            match plan.resolve_client_reference(name, namespace) {
                Err(e) => {
                    return Err(e);
                },
                Ok(None) => {
                    return Err(
                        AdapterError::new(
                            AdapterErrorCode::ToolIdentityConflict,
                            concat3(
                                "tool_choice 引用的 custom 工具「",
                                name,
                                "」不在本次工具集合中",
                            ),
                        ),
                    );
                },
                Ok(Some(wire_name)) => wire_name,
            }
        },
    };
    value.put_text("type", "function");
    value.put_text("name", wire_name.as_str());
    value.remove("namespace");
    Ok(())
}

fn convert_allowed_tools(tools: &mut Vec<Json>, plan: &CustomToolAdapterPlan) -> (r: Result<
    (),
    AdapterError,
>)
    ensures
        array_view(final(tools)@) == converted_items(
            array_view(old(tools)@),
            allowed_tool_step(plan@),
        ),
        refusal(r) == refusal_of_items(array_view(old(tools)@), allowed_tool_step(plan@)),
{
    let ghost before = array_view(tools@);
    let ghost step = allowed_tool_step(plan@);
    let n = tools.len();
    for i in 0..n
        invariant
            n == tools@.len(),
            before.len() == n,
            before == array_view(old(tools)@),
            step == allowed_tool_step(plan@),
            first_refused(before, step, 0) == first_refused(before, step, i as int),
            forall|j: int|
                0 <= j < i ==> (#[trigger] tools@[j])@ == encoded_allowed_tool(
                    before[j],
                    plan@,
                )->Ok_0,
            forall|j: int| i <= j < n ==> (#[trigger] tools@[j])@ == before[j],
    {
        assert(tools@[i as int]@ == before[i as int]);
        assert(step(i as int, before[i as int]) == encoded_allowed_tool(before[i as int], plan@));
        if tools[i].has_text("type", "custom") {
            let ghost earlier = tools@;
            match convert_reference(&mut tools[i], plan) {
                Ok(_) => {
                    assert(forall|j: int| 0 <= j < n && j != i ==> #[trigger] tools@[j] == earlier[j]);
                },
                Err(e) => {
                    proof {
                        assert(array_view(tools@) =~= converted_items(before, step));
                    }
                    return Err(e);
                },
            }
        }
    }
    proof {
        assert(array_view(tools@) =~= converted_items(before, step));
    }
    Ok(())
}

pub fn convert_tool_choice_value(value: &mut Json, plan: &CustomToolAdapterPlan) -> (r: Result<
    (),
    AdapterError,
>)
    ensures
        (final(value)@, refusal(r)) == encoded_choice(old(value)@, plan@),
{
    if value.has_text("type", "custom") {
        convert_reference(value, plan)
    } else if value.has_text("type", "allowed_tools") {
        match value.array_at_mut("tools") {
            Some(tools) => convert_allowed_tools(tools, plan),
            None => Ok(()),
        }
    } else {
        Ok(())
    }
}

/// The request with its tool choice converted.
pub open spec fn with_choice(body: JsonView, plan: PlanView) -> (
    JsonView,
    Option<AdapterErrorView>,
) {
    match body.field("tool_choice"@) {
        Some(choice) => {
            let (converted, refused) = encoded_choice(choice, plan);
            (body.with("tool_choice"@, converted), refused)
        },
        None => (body, None),
    }
}

pub fn convert_tool_choice(body: &mut Json, plan: &CustomToolAdapterPlan) -> (r: Result<
    (),
    AdapterError,
>)
    ensures
        (final(body)@, refusal(r)) == with_choice(old(body)@, plan@),
{
    match body.get_mut("tool_choice") {
        Some(choice) => convert_tool_choice_value(choice, plan),
        None => Ok(()),
    }
}

/// The request with its tools wrapped.
pub open spec fn with_tools(body: JsonView) -> (JsonView, Option<AdapterErrorView>) {
    match body.items_field("tools"@) {
        Some(tools) => (
            body.with("tools"@, JsonView::Array(converted_items(tools, tool_step()))),
            refusal_of_items(tools, tool_step()),
        ),
        None => (body, None),
    }
}

/// The plan for a request: its custom tools, in their order.
pub open spec fn plan_of_request(body: JsonView, names: Map<Seq<char>, (String, String)>) -> PlanView {
    match body.items_field("tools"@) {
        Some(tools) => plan_of_tools(tools, names, tools.len() as int),
        None => PlanView::empty(),
    }
}

/// The request as it goes upstream, and the first refusal, at which the conversion stops: tools
/// first, then the history, then the tool choice.
pub open spec fn encoded_request(body: JsonView, names: Map<Seq<char>, (String, String)>) -> (
    JsonView,
    Option<AdapterErrorView>,
) {
    let (wrapped, tools_refused) = with_tools(body);
    if tools_refused is Some {
        (wrapped, tools_refused)
    } else {
        let (replayed, history_refused) = with_history(wrapped);
        if history_refused is Some {
            (replayed, history_refused)
        } else {
            with_choice(replayed, plan_of_request(body, names))
        }
    }
}

/// Encodes a request. The names are those that flattened namespaces gave, each with its namespace
/// and the client's own name.
pub fn encode_request(body: &mut Json, namespace_tools: &StrMap<(String, String)>) -> (r: Result<
    CustomToolAdapterPlan,
    AdapterError,
>)
    ensures
        (final(body)@, refusal(r)) == encoded_request(old(body)@, namespace_tools@),
        r is Ok ==> r->Ok_0@ == plan_of_request(old(body)@, namespace_tools@),
        r is Ok ==> replays_inputs(
            old(body)@.items_field("input"@),
            final(body)@.items_field("input"@),
        ),
{
    proof {
        reveal_strlit("tools");
        reveal_strlit("input");
        reveal_strlit("tool_choice");
        assert("tools"@[0] == 't' && "input"@[0] == 'i' && "tool_choice"@[0] == 't');
    }
    let wrapped = match body.array_at_mut("tools") {
        Some(tools) => wrap_tools(tools, namespace_tools),
        None => Ok(CustomToolAdapterPlan::default()),
    };
    let plan = match wrapped {
        Ok(plan) => plan,
        Err(e) => {
            return Err(e);
        },
    };
    match convert_history_items(body) {
        Ok(_) => {},
        Err(e) => {
            return Err(e);
        },
    }
    match convert_tool_choice(body, &plan) {
        Ok(_) => {},
        Err(e) => {
            return Err(e);
        },
    }
    Ok(plan)
}

} // verus!
