//! What a response says after its calls were restored.
use vstd::prelude::*;

use super::decode::decoded_arguments;
use super::encode::{converted_items, refusal_of_items};
use super::laws::lemma_converted_each;
use super::namespaces::{chat_plan, flattened_name, with_children, with_namespace_tools};
use super::plan::{AdapterErrorCode, AdapterErrorView, PlanView};
use super::request_laws::lemma_names;
use super::restore::{
    client_item_id, is_managed, item_step, restored_call, restored_echo, restored_item,
    restored_json, restored_output, restored_part, restored_tool, restored_tools,
    with_item_restored, with_part_restored,
};
use crate::json::JsonView;

verus! {

/// An item id with the prefix of a function gets the prefix of a custom tool, what follows the
/// prefix stays, any other id stays whole, and a missing one is made of the call id.
pub proof fn item_id_keeps_its_rest(rest: Seq<char>, id: Seq<char>, call_id: Seq<char>)
    ensures
        client_item_id("fc_"@ + rest, call_id) == "ctc_"@ + rest,
        client_item_id("item_"@ + rest, call_id) == "ctc_"@ + rest,
        client_item_id(Seq::empty(), call_id) == "ctc_"@ + call_id,
        id.len() > 0 && (id.len() < 3 || id.take(3) != "fc_"@) && (id.len() < 5 || id.take(5)
            != "item_"@) ==> client_item_id(id, call_id) == id,
{
    reveal_strlit("fc_");
    reveal_strlit("item_");
    reveal_strlit("ctc_");
    let one = "fc_"@ + rest;
    let two = "item_"@ + rest;
    assert(one.take(3) =~= "fc_"@ && one.skip(3) =~= rest);
    assert(two.take(5) =~= "item_"@ && two.skip(5) =~= rest);
    assert(!(two.take(3) =~= "fc_"@)) by {
        assert(two.take(3)[0] == 'i' && "fc_"@[0] == 'f');
    }
}

/// A restored call has the call id of the function call, the whole identity of the client's tool,
/// the input that the arguments decode to, the status if there is one, and nothing else. The
/// namespace is there exactly where the tool has one.
pub proof fn restored_call_names_the_clients_tool(item: JsonView, plan: PlanView)
    requires
        restored_call(item, plan) is Ok,
    ensures
        ({
            let call = restored_call(item, plan)->Ok_0;
            let tool = plan.wire_tools[item.text_or_empty("name"@)];
            &&& call.text_field("type"@) == Some("custom_tool_call"@)
            &&& call.text_field("call_id"@) == item.text_field("call_id"@)
            &&& call.text_field("name"@) == Some(tool.client_name)
            &&& tool.namespace.len() > 0 ==> call.text_field("namespace"@) == Some(tool.namespace)
            &&& tool.namespace.len() == 0 ==> call.field("namespace"@) is None
            &&& call.text_field("input"@) is Some
            &&& decoded_arguments(item.text_or_empty("arguments"@)) == Ok::<
                Seq<char>,
                AdapterErrorView,
            >(call.text_field("input"@)->0)
            &&& call.text_field("status"@) == Some(
                if item.text_field("status"@) is Some {
                    item.text_field("status"@)->0
                } else {
                    "completed"@
                },
            )
            &&& item.text_field("id"@) is None ==> call.field("id"@) is None
            &&& item.text_field("id"@) is Some ==> call.text_field("id"@) == Some(
                client_item_id(item.text_field("id"@)->0, item.text_or_empty("call_id"@)),
            )
            &&& forall|k: Seq<char>| #[trigger]
                call.field(k) is Some ==> k == "type"@ || k == "id"@ || k == "call_id"@ || k
                    == "name"@ || k == "input"@ || k == "status"@ || k == "namespace"@
        }),
{
    lemma_names();
}

/// A call is restored exactly where the plan holds its tool, it has a call id, and its arguments are
/// a text that decodes. What is wrong decides the refusal.
pub proof fn call_is_restored_where_it_can_be(item: JsonView, plan: PlanView)
    ensures
        ({
            let held = plan.wire_tools.contains_key(item.text_or_empty("name"@));
            let paired = item.text_or_empty("call_id"@).len() > 0;
            let arguments = item.text_field("arguments"@);
            &&& restored_call(item, plan) is Ok == (held && paired && arguments is Some
                && decoded_arguments(arguments->0) is Ok)
            &&& !held || !paired ==> restored_call(item, plan)->Err_0.code
                == AdapterErrorCode::ToolIdentityConflict
            &&& held && paired && arguments is None ==> restored_call(item, plan)->Err_0.code
                == AdapterErrorCode::InvalidArguments
            &&& held && paired && arguments is Some && decoded_arguments(arguments->0) is Err
                ==> restored_call(item, plan)->Err_0 == decoded_arguments(arguments->0)->Err_0
        }),
{
}

/// An echoed function that stands for a custom tool is the client's declaration again, and any other
/// tool stays.
pub proof fn echoed_tools_are_the_clients(object: JsonView, plan: PlanView, i: int)
    requires
        object.items_field("tools"@) is Some,
        0 <= i < object.items_field("tools"@)->0.len(),
    ensures
        ({
            let tool = object.items_field("tools"@)->0[i];
            let after = restored_echo(object, plan).items_field("tools"@);
            &&& after is Some
            &&& after->0.len() == object.items_field("tools"@)->0.len()
            &&& tool.text_field("type"@) == Some("function"@) && tool.text_field("name"@) is Some
                && plan.original_declarations.contains_key(tool.text_field("name"@)->0)
                ==> after->0[i] == plan.original_declarations[tool.text_field("name"@)->0]
            &&& tool.text_field("type"@) != Some("function"@) || tool.text_field("name"@) is None
                || !plan.original_declarations.contains_key(tool.text_field("name"@)->0)
                ==> after->0[i] == tool
        }),
{
    lemma_names();
    let tools = object.items_field("tools"@)->0;
    let tooled = restored_tools(object, plan);
    let done = Seq::new(tools.len(), |j: int| restored_tool(tools[j], plan));
    assert(tooled.items_field("tools"@) == Some(done));
    assert(restored_echo(object, plan).items_field("tools"@) == Some(done));
}

/// An echoed choice of a wrapped function names the client's tool, with its namespace where it has
/// one; any other choice stays, and so do the other fields of the response.
pub proof fn echoed_choice_is_the_clients(object: JsonView, plan: PlanView)
    ensures
        ({
            let choice = object.field("tool_choice"@);
            let after = restored_echo(object, plan);
            let name = choice->0.text_field("name"@);
            let wrapped = choice is Some && choice->0.text_field("type"@) == Some("function"@)
                && name is Some && plan.wire_tools.contains_key(name->0);
            let told = after.field("tool_choice"@)->0;
            &&& !wrapped ==> after.field("tool_choice"@) == choice
            &&& wrapped ==> {
                &&& after.field("tool_choice"@) is Some
                &&& told.text_field("type"@) == Some("custom"@)
                &&& told.text_field("name"@) == Some(plan.wire_tools[name->0].client_name)
                &&& plan.wire_tools[name->0].namespace.len() > 0 ==> told.text_field("namespace"@)
                    == Some(plan.wire_tools[name->0].namespace)
                &&& plan.wire_tools[name->0].namespace.len() == 0 ==> told.field(
                    "namespace"@,
                ) is None
                &&& forall|k: Seq<char>| #[trigger]
                    told.field(k) is Some ==> k == "type"@ || k == "name"@ || k == "namespace"@
            }
            &&& forall|k: Seq<char>|
                k != "tools"@ && k != "tool_choice"@ ==> #[trigger] after.field(k) == object.field(k)
        }),
{
    lemma_names();
    let tooled = restored_tools(object, plan);
    assert(tooled.field("tool_choice"@) == object.field("tool_choice"@));
}

/// Each item of an output is restored in its place where it is a managed call, and stays otherwise.
pub open spec fn output_is_restored(
    before: Seq<JsonView>,
    after: Seq<JsonView>,
    plan: PlanView,
) -> bool {
    &&& after.len() == before.len()
    &&& forall|i: int|
        0 <= i < before.len() ==> if is_managed(#[trigger] before[i], plan) {
            restored_call(before[i], plan) == Ok::<JsonView, AdapterErrorView>(after[i])
        } else {
            after[i] == before[i]
        }
}

proof fn lemma_output_is_restored(items: Seq<JsonView>, plan: PlanView)
    requires
        refusal_of_items(items, item_step(plan)) is None,
    ensures
        output_is_restored(items, converted_items(items, item_step(plan)), plan),
{
    let done = converted_items(items, item_step(plan));
    assert forall|i: int| 0 <= i < items.len() implies restored_item(#[trigger] items[i], plan)
        == Ok::<JsonView, AdapterErrorView>(done[i]) by {
        lemma_converted_each(items, item_step(plan), i);
        assert(item_step(plan)(i, items[i]) == restored_item(items[i], plan));
    }
}

/// A call is one of a function that the plan holds, whatever its arguments are.
pub proof fn managed_calls_are_those_of_the_plan(item: JsonView, plan: PlanView)
    ensures
        is_managed(item, plan) == (item.text_field("type"@) == Some("function_call"@)
            && item.text_field("name"@) is Some && plan.wire_tools.contains_key(
            item.text_field("name"@)->0,
        )),
{
}

/// A response that is a call is restored itself. In any other the item, the output, and the output
/// of the response inside it are restored in their places, the echoed tools too, and no other field
/// is touched.
pub proof fn response_is_restored_in_place(value: JsonView, plan: PlanView)
    requires
        restored_json(value, plan).1 is None,
    ensures
        ({
            let after = restored_json(value, plan).0;
            let inner = value.field("response"@);
            &&& is_managed(value, plan) ==> restored_call(value, plan) == Ok::<
                JsonView,
                AdapterErrorView,
            >(after)
            &&& !is_managed(value, plan) ==> {
                &&& forall|k: Seq<char>|
                    k != "item"@ && k != "output"@ && k != "response"@ && k != "tools"@ && k
                        != "tool_choice"@ ==> #[trigger] after.field(k) == value.field(k)
                &&& value.field("item"@) is Some && is_managed(value.field("item"@)->0, plan)
                    ==> after.field("item"@) is Some && restored_call(
                    value.field("item"@)->0,
                    plan,
                ) == Ok::<JsonView, AdapterErrorView>(after.field("item"@)->0)
                &&& value.field("item"@) is Some && !is_managed(value.field("item"@)->0, plan)
                    ==> after.field("item"@) == value.field("item"@)
                &&& value.items_field("output"@) is Some ==> after.items_field("output"@) is Some
                    && output_is_restored(
                    value.items_field("output"@)->0,
                    after.items_field("output"@)->0,
                    plan,
                )
                &&& inner is Some && inner->0.items_field("output"@) is Some ==> after.field(
                    "response"@,
                ) is Some && after.field("response"@)->0.items_field("output"@) is Some
                    && output_is_restored(
                    inner->0.items_field("output"@)->0,
                    after.field("response"@)->0.items_field("output"@)->0,
                    plan,
                )
                &&& inner is Some && inner->0 is Object && inner->0.items_field("output"@) is None
                    ==> after.field("response"@) == Some(restored_echo(inner->0, plan))
                &&& after.field("tools"@) == restored_echo(value, plan).field("tools"@)
                &&& after.field("tool_choice"@) == restored_echo(value, plan).field("tool_choice"@)
            }
        }),
{
    lemma_names();
    reveal_strlit("item");
    reveal_strlit("output");
    reveal_strlit("response");
    assert("item"@.len() == 4 && "item"@[0] == 'i');
    assert("output"@.len() == 6 && "output"@[0] == 'o' && "response"@.len() == 8);
    if !is_managed(value, plan) {
        let first = with_item_restored(value, plan).0;
        let second = with_part_restored(first, "output"@, plan).0;
        let third = with_part_restored(second, "response"@, plan).0;
        let after = restored_echo(third, plan);
        assert(first.field("output"@) == value.field("output"@));
        assert(second.field("response"@) == value.field("response"@));
        assert(third.field("tools"@) == value.field("tools"@));
        assert(third.field("tool_choice"@) == value.field("tool_choice"@));
        echoed_choice_is_the_clients(third, plan);
        if let Some(items) = value.items_field("output"@) {
            lemma_output_is_restored(items, plan);
            assert(restored_part(value.field("output"@)->0, plan).0 == JsonView::Array(
                converted_items(items, item_step(plan)),
            ));
            assert(after.field("output"@) == third.field("output"@));
        }
        if let Some(inner) = value.field("response"@) {
            assert(after.field("response"@) == third.field("response"@));
            if let Some(items) = inner.items_field("output"@) {
                lemma_output_is_restored(items, plan);
                let shown = restored_output(inner, plan).0;
                echoed_choice_is_the_clients(shown, plan);
                assert(restored_part(inner, plan).0 == restored_echo(shown, plan));
                assert(restored_echo(shown, plan).field("output"@) == shown.field("output"@));
            }
        }
        assert(after.field("item"@) == first.field("item"@));
    }
}

/// A custom tool inside a namespace is called by the name of the namespace, two underscores and its
/// own name; without a namespace by its own name.
pub proof fn flattened_names_join_both(namespace: Seq<char>, name: Seq<char>)
    ensures
        namespace.len() == 0 ==> flattened_name(namespace, name) == name,
        namespace.len() > 0 ==> flattened_name(namespace, name).len() == namespace.len() + 2
            + name.len() && flattened_name(namespace, name).take(namespace.len() as int)
            == namespace && flattened_name(namespace, name).skip(namespace.len() as int + 2) == name
            && flattened_name(namespace, name)[namespace.len() as int] == '_'
            && flattened_name(namespace, name)[namespace.len() as int + 1] == '_',
{
    reveal_strlit("__");
    let flat = flattened_name(namespace, name);
    if namespace.len() > 0 {
        assert(flat.take(namespace.len() as int) =~= namespace);
        assert(flat.skip(namespace.len() as int + 2) =~= name);
    }
}

/// The plan for a chat request takes a custom tool of a namespace under its flattened name, with the
/// namespace and the tool's own name, unless a later one takes the same name; tools at the top level
/// are not in it.
pub proof fn chat_plan_takes_custom_children(
    children: Seq<JsonView>,
    namespace: Seq<char>,
    plan: PlanView,
)
    requires
        children.len() > 0,
    ensures
        ({
            let child = children.last();
            let name = child.text_or_empty("name"@);
            let before = with_children(children.drop_last(), namespace, plan);
            let after = with_children(children, namespace, plan);
            let flat = flattened_name(namespace, name);
            &&& child.text_field("type"@) == Some("custom"@) && name.len() > 0 ==> {
                &&& after.wire_tools.contains_key(flat)
                &&& after.wire_tools[flat].client_name == name
                &&& after.wire_tools[flat].namespace == namespace
                &&& after.original_declarations.contains_key(flat)
                &&& after.original_declarations[flat] == child
                &&& forall|w: Seq<char>|
                    w != flat ==> #[trigger] after.wire_tools.contains_key(w)
                        == before.wire_tools.contains_key(w) && (before.wire_tools.contains_key(w)
                        ==> after.wire_tools[w] == before.wire_tools[w])
            }
            &&& child.text_field("type"@) != Some("custom"@) && child.text_field("type"@) != Some(
                "namespace"@,
            ) || child.text_field("type"@) == Some("custom"@) && name.len() == 0 ==> after == before
        }),
{
    lemma_names();
    crate::json::lemma_with_own_field(children.last(), "name"@);
}

/// Of the tools of a chat request only the namespaces count.
pub proof fn chat_plan_skips_the_top_level(tools: Seq<JsonView>, n: int)
    requires
        0 <= n <= tools.len(),
        forall|i: int|
            0 <= i < n ==> (#[trigger] tools[i]).text_field("type"@) != Some("namespace"@),
    ensures
        chat_plan(tools, n) == PlanView::empty(),
    decreases n,
{
    if n > 0 {
        chat_plan_skips_the_top_level(tools, n - 1);
        assert(tools[n - 1].text_field("type"@) != Some("namespace"@));
    }
}

/// A namespace gives its `tools`, or else its `children`, under its name behind that of the one
/// around it.
pub proof fn namespaces_nest(tool: JsonView, parent: Seq<char>, plan: PlanView)
    ensures
        tool.items_field("tools"@) is Some ==> with_namespace_tools(tool, parent, plan)
            == with_children(
            tool.items_field("tools"@)->0,
            flattened_name(parent, tool.text_or_empty("name"@)),
            plan,
        ),
        tool.items_field("tools"@) is None && tool.items_field("children"@) is Some
            ==> with_namespace_tools(tool, parent, plan) == with_children(
            tool.items_field("children"@)->0,
            flattened_name(parent, tool.text_or_empty("name"@)),
            plan,
        ),
        tool.items_field("tools"@) is None && tool.items_field("children"@) is None
            ==> with_namespace_tools(tool, parent, plan) == plan,
{
}

} // verus!
