//! Responses: calls of wrapped functions become custom calls again.
use vstd::prelude::*;

use super::decode::{decode_wrapped_arguments, decoded_arguments};
use super::encode::{converted_items, first_refused, refusal, refusal_of_items};
use super::plan::{
    arguments_refusal, identity_error, AdapterError, AdapterErrorCode, AdapterErrorView,
    CustomToolAdapterPlan, PlanView,
};
use crate::json::{array_view, empty_object, Json, JsonView};
use crate::text::{concat, concat3, has_prefix, strip_prefix};

verus! {

/// The client's id of a custom item: the prefix of a function item gives way to `ctc_`, any other
/// id stays, and a missing one is made of the call id.
pub open spec fn client_item_id(upstream_id: Seq<char>, call_id: Seq<char>) -> Seq<char> {
    if has_prefix(upstream_id, "fc_"@) {
        "ctc_"@ + upstream_id.skip("fc_"@.len() as int)
    } else if has_prefix(upstream_id, "item_"@) {
        "ctc_"@ + upstream_id.skip("item_"@.len() as int)
    } else if upstream_id.len() > 0 {
        upstream_id
    } else {
        "ctc_"@ + call_id
    }
}

pub fn client_custom_item_id(upstream_id: &str, call_id: &str) -> (r: String)
    ensures
        r@ == client_item_id(upstream_id@, call_id@),
{
    if let Some(suffix) = strip_prefix(upstream_id, "fc_") {
        return concat("ctc_", suffix);
    }
    if let Some(suffix) = strip_prefix(upstream_id, "item_") {
        return concat("ctc_", suffix);
    }
    if !upstream_id.is_empty() {
        return upstream_id.to_owned();
    }
    concat("ctc_", call_id)
}

/// Converting an id a second time changes nothing: prefixes do not pile up.
pub proof fn client_item_id_is_stable(upstream_id: Seq<char>, call_id: Seq<char>)
    ensures
        client_item_id(client_item_id(upstream_id, call_id), call_id) == client_item_id(
            upstream_id,
            call_id,
        ),
{
    reveal_strlit("fc_");
    reveal_strlit("item_");
    reveal_strlit("ctc_");
    let once = client_item_id(upstream_id, call_id);
    if has_prefix(upstream_id, "fc_"@) || has_prefix(upstream_id, "item_"@) || upstream_id.len()
        == 0 {
        assert(once[0] == 'c');
        assert("fc_"@[0] == 'f');
        assert("item_"@[0] == 'i');
        assert(!has_prefix(once, "fc_"@)) by {
            if has_prefix(once, "fc_"@) {
                assert(once.take(3)[0] == "fc_"@[0]);
            }
        }
        assert(!has_prefix(once, "item_"@)) by {
            if has_prefix(once, "item_"@) {
                assert(once.take(5)[0] == "item_"@[0]);
            }
        }
    }
}

/// A call of a function that the plan wrapped.
pub open spec fn is_managed(item: JsonView, plan: PlanView) -> bool {
    item.text_field("type"@) == Some("function_call"@) && item.text_field("name"@) is Some
        && plan.manages(item.text_field("name"@)->0)
}

pub fn is_managed_call(item: &Json, plan: &CustomToolAdapterPlan) -> (r: bool)
    ensures
        r == is_managed(item@, plan@),
{
    if !item.has_text("type", "function_call") {
        return false;
    }
    match item.text_at("name") {
        Some(name) => plan.identity(name).is_some(),
        None => false,
    }
}

/// The object with the namespace of a tool, where it has one.
pub open spec fn with_namespace(object: JsonView, namespace: Seq<char>) -> JsonView {
    if namespace.len() > 0 {
        object.with_text("namespace"@, namespace)
    } else {
        object
    }
}

pub fn put_namespace(object: &mut Json, namespace: &str)
    ensures
        final(object)@ == with_namespace(old(object)@, namespace@),
{
    if !namespace.is_empty() {
        object.put_text("namespace", namespace);
    }
}

/// The text of a field, or another text.
pub open spec fn text_or(value: JsonView, key: Seq<char>, other: Seq<char>) -> Seq<char> {
    match value.text_field(key) {
        Some(text) => text,
        None => other,
    }
}

pub fn text_at_or<'a>(value: &'a Json, key: &str, other: &'a str) -> (r: &'a str)
    ensures
        r@ == text_or(value@, key@, other@),
{
    match value.text_at(key) {
        Some(text) => text,
        None => other,
    }
}

/// The custom call that a function call stands for.
pub open spec fn restored_call(item: JsonView, plan: PlanView) -> Result<
    JsonView,
    AdapterErrorView,
> {
    let wire_name = item.text_or_empty("name"@);
    let call_id = item.text_or_empty("call_id"@);
    if !plan.manages(wire_name) {
        Err(
            identity_error(
                "响应中的 function_call「"@ + wire_name
                    + "」不在本请求的包装计划内，拒绝猜测"@,
            ),
        )
    } else if call_id.len() == 0 {
        Err(
            identity_error(
                "function_call「"@ + wire_name + "」缺少 call_id，无法配对工具结果"@,
            ),
        )
    } else {
        match item.text_field("arguments"@) {
            None => Err(
                arguments_refusal("function_call「"@ + wire_name + "」缺少 arguments 字符串"@),
            ),
            Some(arguments) => match decoded_arguments(arguments) {
                Err(e) => Err(e),
                Ok(input) => {
                    let identity = plan.wire_tools[wire_name];
                    let typed = empty_object().with_text("type"@, "custom_tool_call"@);
                    let named = match item.text_field("id"@) {
                        Some(id) => typed.with_text("id"@, client_item_id(id, call_id)),
                        None => typed,
                    };
                    Ok(
                        with_namespace(
                            named.with_text("call_id"@, call_id).with_text(
                                "name"@,
                                identity.client_name,
                            ).with_text("input"@, input).with_text(
                                "status"@,
                                text_or(item, "status"@, "completed"@),
                            ),
                            identity.namespace,
                        ),
                    )
                },
            },
        }
    }
}

/// Makes the client's custom call of a function call that the plan must hold.
pub fn client_custom_tool_call_item(item: &Json, plan: &CustomToolAdapterPlan) -> (r: Result<
    Json,
    AdapterError,
>)
    ensures
        match r {
            Ok(call) => restored_call(item@, plan@) == Ok::<JsonView, AdapterErrorView>(call@),
            Err(e) => restored_call(item@, plan@) == Err::<JsonView, AdapterErrorView>(e@),
        },
{
    let wire_name = item.text_or_empty("name");
    let identity = match plan.identity(wire_name) {
        Some(identity) => identity,
        None => {
            return Err(
                AdapterError::new(
                    AdapterErrorCode::ToolIdentityConflict,
                    concat3(
                        "响应中的 function_call「",
                        wire_name,
                        "」不在本请求的包装计划内，拒绝猜测",
                    ),
                ),
            );
        },
    };
    let call_id = item.text_or_empty("call_id");
    if call_id.is_empty() {
        return Err(
            AdapterError::new(
                AdapterErrorCode::ToolIdentityConflict,
                concat3(
                    "function_call「",
                    wire_name,
                    "」缺少 call_id，无法配对工具结果",
                ),
            ),
        );
    }
    let arguments = match item.text_at("arguments") {
        Some(arguments) => arguments,
        None => {
            return Err(
                AdapterError::new(
                    AdapterErrorCode::InvalidArguments,
                    concat3("function_call「", wire_name, "」缺少 arguments 字符串"),
                ),
            );
        },
    };
    let input = match decode_wrapped_arguments(arguments) {
        Ok(input) => input,
        Err(e) => {
            return Err(e);
        },
    };
    let mut converted = Json::object();
    converted.put_text("type", "custom_tool_call");
    if let Some(id) = item.text_at("id") {
        let client_id = client_custom_item_id(id, call_id);
        converted.put_text("id", client_id.as_str());
    }
    converted.put_text("call_id", call_id);
    converted.put_text("name", identity.client_name.as_str());
    converted.put_text("input", input.as_str());
    converted.put_text("status", text_at_or(item, "status", "completed"));
    put_namespace(&mut converted, identity.namespace.as_str());
    Ok(converted)
}

/// What an item of a response becomes.
pub open spec fn restored_item(item: JsonView, plan: PlanView) -> Result<
    JsonView,
    AdapterErrorView,
> {
    if is_managed(item, plan) {
        restored_call(item, plan)
    } else {
        Ok(item)
    }
}

pub open spec fn item_step(plan: PlanView) -> spec_fn(int, JsonView) -> Result<
    JsonView,
    AdapterErrorView,
> {
    |i: int, item: JsonView| restored_item(item, plan)
}

fn restore_item(item: &mut Json, plan: &CustomToolAdapterPlan) -> (r: Result<(), AdapterError>)
    ensures
        match r {
            Ok(_) => restored_item(old(item)@, plan@) == Ok::<JsonView, AdapterErrorView>(
                final(item)@,
            ),
            Err(e) => restored_item(old(item)@, plan@) == Err::<JsonView, AdapterErrorView>(e@)
                && *final(item) == *old(item),
        },
{
    if is_managed_call(item, plan) {
        match client_custom_tool_call_item(item, plan) {
            Ok(call) => {
                *item = call;
            },
            Err(e) => {
                return Err(e);
            },
        }
    }
    Ok(())
}

fn restore_items(items: &mut Vec<Json>, plan: &CustomToolAdapterPlan) -> (r: Result<
    (),
    AdapterError,
>)
    ensures
        array_view(final(items)@) == converted_items(array_view(old(items)@), item_step(plan@)),
        refusal(r) == refusal_of_items(array_view(old(items)@), item_step(plan@)),
{
    let ghost before = array_view(items@);
    let ghost step = item_step(plan@);
    let n = items.len();
    for i in 0..n
        invariant
            n == items@.len(),
            before.len() == n,
            before == array_view(old(items)@),
            step == item_step(plan@),
            first_refused(before, step, 0) == first_refused(before, step, i as int),
            forall|j: int|
                0 <= j < i ==> (#[trigger] items@[j])@ == restored_item(before[j], plan@)->Ok_0,
            forall|j: int| i <= j < n ==> (#[trigger] items@[j])@ == before[j],
    {
        assert(items@[i as int]@ == before[i as int]);
        assert(step(i as int, before[i as int]) == restored_item(before[i as int], plan@));
        match restore_item(&mut items[i], plan) {
            Ok(_) => {},
            Err(e) => {
                proof {
                    assert(array_view(items@) =~= converted_items(before, step));
                }
                return Err(e);
            },
        }
    }
    proof {
        assert(array_view(items@) =~= converted_items(before, step));
    }
    Ok(())
}

/// A tool that a response echoes, as the client declared it.
pub open spec fn restored_tool(tool: JsonView, plan: PlanView) -> JsonView {
    match tool.text_field("name"@) {
        Some(name) => if tool.text_field("type"@) == Some("function"@)
            && plan.original_declarations.contains_key(name) {
            plan.original_declarations[name]
        } else {
            tool
        },
        None => tool,
    }
}

/// A tool choice that a response echoes, as the client made it.
pub open spec fn restored_choice(choice: JsonView, plan: PlanView) -> JsonView {
    match choice.text_field("name"@) {
        Some(name) => if choice.text_field("type"@) == Some("function"@) && plan.manages(name) {
            with_namespace(
                empty_object().with_text("type"@, "custom"@).with_text(
                    "name"@,
                    plan.wire_tools[name].client_name,
                ),
                plan.wire_tools[name].namespace,
            )
        } else {
            choice
        },
        None => choice,
    }
}

pub open spec fn restored_tools(object: JsonView, plan: PlanView) -> JsonView {
    match object.items_field("tools"@) {
        Some(tools) => object.with(
            "tools"@,
            JsonView::Array(Seq::new(tools.len(), |i: int| restored_tool(tools[i], plan))),
        ),
        None => object,
    }
}

/// A response with the tools and the choice that it echoes restored.
pub open spec fn restored_echo(object: JsonView, plan: PlanView) -> JsonView {
    let tooled = restored_tools(object, plan);
    match tooled.field("tool_choice"@) {
        Some(choice) => tooled.with("tool_choice"@, restored_choice(choice, plan)),
        None => tooled,
    }
}

fn restore_tools(tools: &mut Vec<Json>, plan: &CustomToolAdapterPlan)
    ensures
        array_view(final(tools)@) == Seq::new(
            old(tools)@.len(),
            |i: int| restored_tool(array_view(old(tools)@)[i], plan@),
        ),
{
    let ghost before = array_view(tools@);
    let n = tools.len();
    for i in 0..n
        invariant
            n == tools@.len(),
            before.len() == n,
            before == array_view(old(tools)@),
            forall|j: int| 0 <= j < i ==> (#[trigger] tools@[j])@ == restored_tool(before[j], plan@),
            forall|j: int| i <= j < n ==> (#[trigger] tools@[j])@ == before[j],
    {
        assert(tools@[i as int]@ == before[i as int]);
        if tools[i].has_text("type", "function") {
            let original = match tools[i].text_at("name") {
                Some(name) => match plan.original_declaration(name) {
                    Some(original) => Some(original.copy()),
                    None => None,
                },
                None => None,
            };
            if let Some(original) = original {
                tools.set(i, original);
            }
        }
    }
    proof {
        assert(array_view(tools@) =~= Seq::new(
            old(tools)@.len(),
            |i: int| restored_tool(array_view(old(tools)@)[i], plan@),
        ));
    }
}

fn restore_choice(choice: &mut Json, plan: &CustomToolAdapterPlan)
    ensures
        final(choice)@ == restored_choice(old(choice)@, plan@),
{
    if !choice.has_text("type", "function") {
        return ;
    }
    let restored = match choice.text_at("name") {
        Some(name) => match plan.identity(name) {
            Some(identity) => {
                let mut restored = Json::object();
                restored.put_text("type", "custom");
                restored.put_text("name", identity.client_name.as_str());
                put_namespace(&mut restored, identity.namespace.as_str());
                restored
            },
            None => {
                return ;
            },
        },
        None => {
            return ;
        },
    };
    *choice = restored;
}

pub fn restore_echoed_tools(object: &mut Json, plan: &CustomToolAdapterPlan)
    ensures
        final(object)@ == restored_echo(old(object)@, plan@),
{
    if let Some(tools) = object.array_at_mut("tools") {
        restore_tools(tools, plan);
    }
    assert(object@ == restored_tools(old(object)@, plan@));
    if let Some(choice) = object.get_mut("tool_choice") {
        restore_choice(choice, plan);
    }
}

/// What the output of a response becomes, be it a list of items or a response object.
pub open spec fn restored_part(part: JsonView, plan: PlanView) -> (
    JsonView,
    Option<AdapterErrorView>,
) {
    match part {
        JsonView::Array(items) => (
            JsonView::Array(converted_items(items, item_step(plan))),
            refusal_of_items(items, item_step(plan)),
        ),
        JsonView::Object(_) => {
            let (response, refused) = restored_output(part, plan);
            if refused is Some {
                (response, refused)
            } else {
                (restored_echo(response, plan), None)
            }
        },
        _ => (part, None),
    }
}

/// A response object with the items of its `output` restored.
pub open spec fn restored_output(response: JsonView, plan: PlanView) -> (
    JsonView,
    Option<AdapterErrorView>,
) {
    match response.items_field("output"@) {
        Some(items) => (
            response.with("output"@, JsonView::Array(converted_items(items, item_step(plan)))),
            refusal_of_items(items, item_step(plan)),
        ),
        None => (response, None),
    }
}

pub open spec fn with_part_restored(value: JsonView, key: Seq<char>, plan: PlanView) -> (
    JsonView,
    Option<AdapterErrorView>,
) {
    match value.field(key) {
        Some(part) => {
            let (restored, refused) = restored_part(part, plan);
            (value.with(key, restored), refused)
        },
        None => (value, None),
    }
}

pub open spec fn with_item_restored(value: JsonView, plan: PlanView) -> (
    JsonView,
    Option<AdapterErrorView>,
) {
    match value.field("item"@) {
        Some(item) => match restored_item(item, plan) {
            Ok(restored) => (value.with("item"@, restored), None),
            Err(e) => (value, Some(e)),
        },
        None => (value, None),
    }
}

/// A response as the client expects it, and the first refusal, at which the conversion stops. Only
/// the known places are read: the value itself, where it is a call, or else the `item`, the
/// `output`, the `response` with its output, and the echoed tools and choice.
pub open spec fn restored_json(value: JsonView, plan: PlanView) -> (
    JsonView,
    Option<AdapterErrorView>,
) {
    if is_managed(value, plan) {
        match restored_call(value, plan) {
            Ok(call) => (call, None),
            Err(e) => (value, Some(e)),
        }
    } else {
        restored_parts(value, plan)
    }
}

/// The same of a value that is no call.
pub open spec fn restored_parts(value: JsonView, plan: PlanView) -> (
    JsonView,
    Option<AdapterErrorView>,
) {
    let (first, item_refused) = with_item_restored(value, plan);
    if item_refused is Some {
        (first, item_refused)
    } else {
        let (second, output_refused) = with_part_restored(first, "output"@, plan);
        if output_refused is Some {
            (second, output_refused)
        } else {
            let (third, response_refused) = with_part_restored(second, "response"@, plan);
            if response_refused is Some {
                (third, response_refused)
            } else {
                (restored_echo(third, plan), None)
            }
        }
    }
}

fn restore_part(part: &mut Json, plan: &CustomToolAdapterPlan) -> (r: Result<(), AdapterError>)
    ensures
        (final(part)@, refusal(r)) == restored_part(old(part)@, plan@),
{
    if part.is_object() {
        if let Some(items) = part.array_at_mut("output") {
            match restore_items(items, plan) {
                Ok(_) => {},
                Err(e) => {
                    return Err(e);
                },
            }
        }
        restore_echoed_tools(part, plan);
        Ok(())
    } else {
        match part.as_array_mut() {
            Some(items) => restore_items(items, plan),
            None => Ok(()),
        }
    }
}

fn restore_part_at(value: &mut Json, key: &str, plan: &CustomToolAdapterPlan) -> (r: Result<
    (),
    AdapterError,
>)
    ensures
        (final(value)@, refusal(r)) == with_part_restored(old(value)@, key@, plan@),
{
    match value.get_mut(key) {
        Some(part) => restore_part(part, plan),
        None => Ok(()),
    }
}

fn restore_item_field(value: &mut Json, plan: &CustomToolAdapterPlan) -> (r: Result<
    (),
    AdapterError,
>)
    ensures
        (final(value)@, refusal(r)) == with_item_restored(old(value)@, plan@),
{
    proof {
        crate::json::lemma_with_own_field(value@, "item"@);
    }
    match value.get_mut("item") {
        Some(item) => restore_item(item, plan),
        None => Ok(()),
    }
}

/// Restores the custom calls of a response that is not a stream.
pub fn restore_custom_tool_calls_json(value: &mut Json, plan: &CustomToolAdapterPlan) -> (r: Result<
    (),
    AdapterError,
>)
    ensures
        (final(value)@, refusal(r)) == restored_json(old(value)@, plan@),
{
    if is_managed_call(value, plan) {
        return restore_item(value, plan);
    }
    match restore_item_field(value, plan) {
        Ok(_) => {},
        Err(e) => {
            return Err(e);
        },
    }
    match restore_part_at(value, "output", plan) {
        Ok(_) => {},
        Err(e) => {
            return Err(e);
        },
    }
    match restore_part_at(value, "response", plan) {
        Ok(_) => {},
        Err(e) => {
            return Err(e);
        },
    }
    restore_echoed_tools(value, plan);
    Ok(())
}

} // verus!
