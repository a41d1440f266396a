//! What holds of the adapter as a whole.
use vstd::prelude::*;
use vstd::utf8::encode_utf8;

use super::decode::decoded_arguments;
use super::encode::{
    allowed_tool_step, converted_items, encoded_allowed_tool, encoded_choice,
    encoded_history_item, encoded_reference, encoded_request, encoded_tool, first_refused,
    history_step, identity_of, is_custom, original_declaration, plan_of_request, plan_of_tools,
    refusal_of_items, tool_step, with_choice, with_history, with_tools,
};
use super::plan::{AdapterErrorView, IdentityView, PlanView};
use super::restore::{
    is_managed, item_step, restored_call, restored_choice, restored_echo, restored_json,
    restored_part, restored_tool, restored_tools, with_item_restored, with_part_restored,
};
use super::rewriter::{
    is_delivered_for, is_first_delivered, is_unfinished, PendingView, RewriterView,
    StreamView, MAX_ARGUMENTS_BYTES, MAX_PENDING_CALLS, MAX_TOTAL_BUFFERED_BYTES,
};
use crate::json::{lemma_with_own_field, JsonView};
use crate::sse::parsed_frame;

verus! {

/// Every item is left as it is.
spec fn all_stay(
    items: Seq<JsonView>,
    step: spec_fn(int, JsonView) -> Result<JsonView, AdapterErrorView>,
) -> bool {
    forall|i: int|
        0 <= i < items.len() ==> #[trigger] step(i, items[i]) == Ok::<JsonView, AdapterErrorView>(
            items[i],
        )
}

proof fn lemma_first_refused_bounds(
    items: Seq<JsonView>,
    step: spec_fn(int, JsonView) -> Result<JsonView, AdapterErrorView>,
    from: int,
)
    requires
        0 <= from <= items.len(),
    ensures
        from <= first_refused(items, step, from) <= items.len(),
        forall|i: int|
            from <= i < first_refused(items, step, from) ==> #[trigger] step(i, items[i]) is Ok,
    decreases items.len() - from,
{
    if from < items.len() && !(step(from, items[from]) is Err) {
        lemma_first_refused_bounds(items, step, from + 1);
    }
}

proof fn lemma_first_refused_all(
    items: Seq<JsonView>,
    step: spec_fn(int, JsonView) -> Result<JsonView, AdapterErrorView>,
    from: int,
)
    requires
        0 <= from <= items.len(),
        forall|i: int| from <= i < items.len() ==> #[trigger] step(i, items[i]) is Ok,
    ensures
        first_refused(items, step, from) == items.len(),
    decreases items.len() - from,
{
    if from < items.len() {
        assert(step(from, items[from]) is Ok);
        lemma_first_refused_all(items, step, from + 1);
    }
}

proof fn lemma_all_stay(
    items: Seq<JsonView>,
    step: spec_fn(int, JsonView) -> Result<JsonView, AdapterErrorView>,
)
    requires
        all_stay(items, step),
    ensures
        converted_items(items, step) == items,
        refusal_of_items(items, step) is None,
{
    lemma_first_refused_all(items, step, 0);
    assert(converted_items(items, step) =~= items) by {
        assert forall|i: int| 0 <= i < items.len() implies converted_items(items, step)[i]
            == items[i] by {
            assert(step(i, items[i]) == Ok::<JsonView, AdapterErrorView>(items[i]));
        }
    }
}

/// Whether nothing in a request is a custom tool, call or reference.
pub open spec fn speaks_of_no_custom(body: JsonView) -> bool {
    &&& body.items_field("tools"@) is Some ==> forall|i: int|
        0 <= i < body.items_field("tools"@)->0.len() ==> !is_custom(
            #[trigger] body.items_field("tools"@)->0[i],
        )
    &&& body.items_field("input"@) is Some ==> forall|i: int|
        0 <= i < body.items_field("input"@)->0.len() ==> !is_custom_history(
            #[trigger] body.items_field("input"@)->0[i],
        )
    &&& body.field("tool_choice"@) is Some ==> chooses_no_custom(body.field("tool_choice"@)->0)
}

pub open spec fn is_custom_history(item: JsonView) -> bool {
    item.text_field("type"@) == Some("custom_tool_call"@) || item.text_field("type"@) == Some(
        "custom_tool_call_output"@,
    )
}

pub open spec fn chooses_no_custom(choice: JsonView) -> bool {
    &&& !is_custom(choice)
    &&& choice.text_field("type"@) == Some("allowed_tools"@) && choice.items_field("tools"@) is Some
        ==> forall|i: int|
        0 <= i < choice.items_field("tools"@)->0.len() ==> !is_custom(
            #[trigger] choice.items_field("tools"@)->0[i],
        )
}

proof fn lemma_no_custom_tools(tools: Seq<JsonView>, names: Map<Seq<char>, (String, String)>, n: int)
    requires
        n <= tools.len(),
        forall|i: int| 0 <= i < tools.len() ==> !is_custom(#[trigger] tools[i]),
    ensures
        plan_of_tools(tools, names, n) == PlanView::empty(),
    decreases n,
{
    if n > 0 {
        lemma_no_custom_tools(tools, names, n - 1);
        assert(!is_custom(tools[n - 1]));
    }
}

/// A request that speaks of no custom tool goes upstream as it is, with an empty plan: functions
/// are never wrapped.
pub proof fn other_requests_stay(body: JsonView, names: Map<Seq<char>, (String, String)>)
    requires
        speaks_of_no_custom(body),
    ensures
        encoded_request(body, names) == (body, None::<AdapterErrorView>),
        plan_of_request(body, names) == PlanView::empty(),
{
    let plan = plan_of_request(body, names);
    if let Some(tools) = body.items_field("tools"@) {
        assert(all_stay(tools, tool_step())) by {
            assert forall|i: int| 0 <= i < tools.len() implies #[trigger] tool_step()(i, tools[i])
                == Ok::<JsonView, AdapterErrorView>(tools[i]) by {
                assert(!is_custom(tools[i]));
            }
        }
        lemma_all_stay(tools, tool_step());
        lemma_with_own_field(body, "tools"@);
        lemma_no_custom_tools(tools, names, tools.len() as int);
    }
    if let Some(items) = body.items_field("input"@) {
        assert(all_stay(items, history_step())) by {
            assert forall|i: int| 0 <= i < items.len() implies #[trigger] history_step()(
                i,
                items[i],
            ) == Ok::<JsonView, AdapterErrorView>(items[i]) by {
                assert(!is_custom_history(items[i]));
            }
        }
        lemma_all_stay(items, history_step());
        lemma_with_own_field(body, "input"@);
    }
    if let Some(choice) = body.field("tool_choice"@) {
        if choice.text_field("type"@) == Some("allowed_tools"@) {
            if let Some(tools) = choice.items_field("tools"@) {
                let step = allowed_tool_step(plan);
                assert(all_stay(tools, step)) by {
                    assert forall|i: int| 0 <= i < tools.len() implies #[trigger] step(i, tools[i])
                        == Ok::<JsonView, AdapterErrorView>(tools[i]) by {
                        assert(!is_custom(tools[i]));
                    }
                }
                lemma_all_stay(tools, step);
                lemma_with_own_field(choice, "tools"@);
            }
        }
        lemma_with_own_field(body, "tool_choice"@);
    }
}

proof fn lemma_key_names()
    ensures
        "tools"@ != "input"@,
        "tools"@ != "tool_choice"@,
        "input"@ != "tool_choice"@,
        "type"@ != "name"@,
        "type"@ != "namespace"@,
        "name"@ != "namespace"@,
        "type"@ != "input"@,
        "type"@ != "arguments"@,
        "type"@ != "description"@,
        "type"@ != "parameters"@,
        "type"@ != "strict"@,
        "type"@ != "tools"@,
        "name"@ != "description"@,
        "name"@ != "parameters"@,
        "name"@ != "strict"@,
        "function"@ != "custom"@,
        "function_call"@ != "custom_tool_call"@,
        "function_call"@ != "custom_tool_call_output"@,
        "function_call_output"@ != "custom_tool_call"@,
        "function_call_output"@ != "custom_tool_call_output"@,
        "function"@ != "allowed_tools"@,
        "custom_tool_call"@ != "custom_tool_call_output"@,
{
    reveal_strlit("tools");
    reveal_strlit("input");
    reveal_strlit("tool_choice");
    reveal_strlit("type");
    reveal_strlit("name");
    reveal_strlit("namespace");
    reveal_strlit("arguments");
    reveal_strlit("description");
    reveal_strlit("parameters");
    reveal_strlit("strict");
    reveal_strlit("function");
    reveal_strlit("custom");
    reveal_strlit("function_call");
    reveal_strlit("custom_tool_call");
    reveal_strlit("custom_tool_call_output");
    reveal_strlit("function_call_output");
    reveal_strlit("allowed_tools");
    assert("tools"@[0] == 't');
    assert("input"@[0] == 'i');
    assert("type"@[0] == 't');
    assert("name"@[0] == 'n');
    assert("name"@.len() == 4 && "namespace"@.len() == 9);
    assert("type"@.len() == 4 && "tools"@.len() == 5);
    assert("function"@.len() == 8 && "custom"@.len() == 6 && "allowed_tools"@.len() == 13);
    assert("function_call"@.len() == 13 && "function_call_output"@.len() == 20);
    assert("custom_tool_call"@.len() == 16 && "custom_tool_call_output"@.len() == 23);
}

proof fn lemma_first_refused_step(
    items: Seq<JsonView>,
    step: spec_fn(int, JsonView) -> Result<JsonView, AdapterErrorView>,
    from: int,
)
    requires
        0 <= from < items.len(),
        step(from, items[from]) is Ok,
    ensures
        first_refused(items, step, from) == first_refused(items, step, from + 1),
{
}

pub(super) proof fn lemma_first_refused_at(
    items: Seq<JsonView>,
    step: spec_fn(int, JsonView) -> Result<JsonView, AdapterErrorView>,
    from: int,
    at: int,
)
    requires
        0 <= from <= at < items.len(),
        step(at, items[at]) is Err,
        forall|i: int| from <= i < at ==> #[trigger] step(i, items[i]) is Ok,
    ensures
        first_refused(items, step, from) == at,
    decreases at - from,
{
    if from < at {
        assert(step(from, items[from]) is Ok);
        lemma_first_refused_step(items, step, from);
        lemma_first_refused_at(items, step, from + 1, at);
    }
}

/// Where every item is converted, each is.
pub(super) proof fn lemma_converted_each(
    items: Seq<JsonView>,
    step: spec_fn(int, JsonView) -> Result<JsonView, AdapterErrorView>,
    i: int,
)
    requires
        refusal_of_items(items, step) is None,
        0 <= i < items.len(),
    ensures
        step(i, items[i]) == Ok::<JsonView, AdapterErrorView>(converted_items(items, step)[i]),
{
    lemma_first_refused_bounds(items, step, 0);
    assert(step(i, items[i]) is Ok);
}

proof fn lemma_encoded_tool_is_no_custom(tool: JsonView)
    ensures
        encoded_tool(tool) is Ok ==> !is_custom(encoded_tool(tool)->Ok_0),
{
    lemma_key_names();
}

proof fn lemma_encoded_history_is_no_custom(index: int, item: JsonView)
    ensures
        encoded_history_item(index, item) is Ok ==> !is_custom_history(
            encoded_history_item(index, item)->Ok_0,
        ),
{
    lemma_key_names();
}

proof fn lemma_encoded_reference_is_no_custom(value: JsonView, plan: PlanView)
    ensures
        encoded_reference(value, plan) is Ok ==> encoded_reference(value, plan)->Ok_0.text_field(
            "type"@,
        ) == Some("function"@),
{
    lemma_key_names();
}

proof fn lemma_encoded_choice(choice: JsonView, plan: PlanView)
    requires
        encoded_choice(choice, plan).1 is None,
    ensures
        chooses_no_custom(encoded_choice(choice, plan).0),
{
    lemma_key_names();
    let (after, refused) = encoded_choice(choice, plan);
    lemma_encoded_reference_is_no_custom(choice, plan);
    if !is_custom(choice) && choice.text_field("type"@) == Some("allowed_tools"@) {
        if let Some(tools) = choice.items_field("tools"@) {
            let step = allowed_tool_step(plan);
            let done = converted_items(tools, step);
            assert(after.items_field("tools"@) == Some(done));
            assert forall|i: int| 0 <= i < done.len() implies !is_custom(#[trigger] done[i]) by {
                lemma_converted_each(tools, step, i);
                assert(step(i, tools[i]) == encoded_allowed_tool(tools[i], plan));
                lemma_encoded_reference_is_no_custom(tools[i], plan);
            }
            assert(after.text_field("type"@) == choice.text_field("type"@));
        }
    }
}

/// A request that was encoded speaks of no custom tool any more, so that encoding it again changes
/// nothing: no call is wrapped twice.
pub proof fn encoding_again_changes_nothing(
    body: JsonView,
    names: Map<Seq<char>, (String, String)>,
    other_names: Map<Seq<char>, (String, String)>,
)
    requires
        encoded_request(body, names).1 is None,
    ensures
        speaks_of_no_custom(encoded_request(body, names).0),
        encoded_request(encoded_request(body, names).0, other_names) == (
            encoded_request(body, names).0,
            None::<AdapterErrorView>,
        ),
{
    lemma_key_names();
    let plan = plan_of_request(body, names);
    let (wrapped, tools_refused) = with_tools(body);
    let (replayed, history_refused) = with_history(wrapped);
    let (chosen, choice_refused) = with_choice(replayed, plan);
    assert(encoded_request(body, names).0 == chosen);
    if let Some(tools) = body.items_field("tools"@) {
        let done = converted_items(tools, tool_step());
        assert(wrapped.items_field("tools"@) == Some(done));
        assert(replayed.items_field("tools"@) == Some(done));
        assert(chosen.items_field("tools"@) == Some(done));
        assert forall|i: int| 0 <= i < done.len() implies !is_custom(#[trigger] done[i]) by {
            lemma_converted_each(tools, tool_step(), i);
            assert(tool_step()(i, tools[i]) == encoded_tool(tools[i]));
            lemma_encoded_tool_is_no_custom(tools[i]);
        }
    } else {
        assert(chosen.items_field("tools"@) is None);
    }
    if let Some(items) = wrapped.items_field("input"@) {
        let done = converted_items(items, history_step());
        assert(chosen.items_field("input"@) == Some(done));
        assert forall|i: int| 0 <= i < done.len() implies !is_custom_history(
            #[trigger] done[i],
        ) by {
            lemma_converted_each(items, history_step(), i);
            assert(history_step()(i, items[i]) == encoded_history_item(i, items[i]));
            lemma_encoded_history_is_no_custom(i, items[i]);
        }
    } else {
        assert(chosen.items_field("input"@) is None);
    }
    if let Some(choice) = replayed.field("tool_choice"@) {
        lemma_encoded_choice(choice, plan);
    }
    other_requests_stay(chosen, other_names);
}

/// A custom tool at the top level, wrapped for the request and echoed by the response, comes back
/// as the client declared it.
pub proof fn echoed_declaration_comes_back(
    tool: JsonView,
    plan: PlanView,
    names: Map<Seq<char>, (String, String)>,
)
    requires
        is_custom(tool),
        encoded_tool(tool) is Ok,
        plan.original_declarations.contains_key(tool.text_or_empty("name"@)),
        plan.original_declarations[tool.text_or_empty("name"@)] == original_declaration(
            tool,
            identity_of(tool.text_or_empty("name"@), names),
        ),
    ensures
        restored_tool(encoded_tool(tool)->Ok_0, plan) == original_declaration(
            tool,
            identity_of(tool.text_or_empty("name"@), names),
        ),
        !names.contains_key(tool.text_or_empty("name"@)) ==> restored_tool(
            encoded_tool(tool)->Ok_0,
            plan,
        ) == tool,
{
    lemma_key_names();
    lemma_with_own_field(tool, "name"@);
}

/// The plan of a request holds the declaration of its last tool of each name.
pub proof fn plan_holds_declarations(
    tools: Seq<JsonView>,
    names: Map<Seq<char>, (String, String)>,
    n: int,
    i: int,
)
    requires
        0 <= i < n <= tools.len(),
        is_custom(tools[i]),
        forall|j: int|
            i < j < n && is_custom(#[trigger] tools[j]) ==> tools[j].text_or_empty("name"@)
                != tools[i].text_or_empty("name"@),
    ensures
        ({
            let plan = plan_of_tools(tools, names, n);
            let wire_name = tools[i].text_or_empty("name"@);
            let identity = identity_of(wire_name, names);
            &&& plan.manages(wire_name)
            &&& plan.wire_tools[wire_name] == identity
            &&& plan.original_declarations.contains_key(wire_name)
            &&& plan.original_declarations[wire_name] == original_declaration(tools[i], identity)
        }),
    decreases n,
{
    if i < n - 1 {
        plan_holds_declarations(tools, names, n - 1, i);
        assert(is_custom(tools[n - 1]) ==> tools[n - 1].text_or_empty("name"@)
            != tools[i].text_or_empty("name"@));
    }
}

/// A choice of a custom tool, sent as a choice of its function and echoed, names the client's tool
/// again.
pub proof fn echoed_choice_comes_back(choice: JsonView, plan: PlanView)
    requires
        encoded_reference(choice, plan) is Ok,
    ensures
        ({
            let back = restored_choice(encoded_reference(choice, plan)->Ok_0, plan);
            &&& back.text_field("type"@) == Some("custom"@)
            &&& back.text_field("name"@) == choice.text_field("name"@)
            &&& choice.text_or_empty("namespace"@).len() > 0 ==> back.text_field("namespace"@)
                == Some(choice.text_or_empty("namespace"@))
        }),
{
    lemma_key_names();
    let name = choice.text_field("name"@)->0;
    let space = choice.text_or_empty("namespace"@);
    let namespace = if space.len() > 0 {
        Some(space)
    } else {
        None
    };
    let wire_name = choose|w: Seq<char>| plan.alone_means(w, name, namespace);
    assert(plan.resolved(name, namespace) == Ok::<Option<Seq<char>>, AdapterErrorView>(
        Some(wire_name),
    ));
    assert(plan.alone_means(wire_name, name, namespace));
    assert(plan.may_mean(wire_name, name, namespace));
}

/// A call of a wrapped function comes back as a call of the client's tool, with the input that the
/// arguments decode to.
pub proof fn call_comes_back(item: JsonView, plan: PlanView, input: Seq<char>)
    requires
        is_managed(item, plan),
        item.text_or_empty("call_id"@).len() > 0,
        item.text_field("arguments"@) is Some,
        decoded_arguments(item.text_field("arguments"@)->0) == Ok::<Seq<char>, AdapterErrorView>(
            input,
        ),
    ensures
        restored_call(item, plan) is Ok,
        ({
            let call = restored_call(item, plan)->Ok_0;
            let identity = plan.wire_tools[item.text_or_empty("name"@)];
            &&& call.text_field("type"@) == Some("custom_tool_call"@)
            &&& call.text_field("call_id"@) == item.text_field("call_id"@)
            &&& call.text_field("name"@) == Some(identity.client_name)
            &&& call.text_field("input"@) == Some(input)
        }),
{
    reveal_strlit("type");
    reveal_strlit("id");
    reveal_strlit("call_id");
    reveal_strlit("name");
    reveal_strlit("input");
    reveal_strlit("status");
    reveal_strlit("namespace");
    assert("type"@[0] == 't' && "name"@[0] == 'n');
    assert("id"@.len() == 2 && "type"@.len() == 4 && "name"@.len() == 4 && "input"@.len() == 5);
    assert("status"@.len() == 6 && "call_id"@.len() == 7 && "namespace"@.len() == 9);
}

/// With an empty plan nothing in a response changes.
pub proof fn empty_plan_changes_no_response(value: JsonView, plan: PlanView)
    requires
        plan == PlanView::empty(),
    ensures
        restored_json(value, plan) == (value, None::<AdapterErrorView>),
{
    lemma_with_own_field(value, "item"@);
    lemma_with_own_field(value, "output"@);
    lemma_with_own_field(value, "response"@);
    assert(with_item_restored(value, plan) == (value, None::<AdapterErrorView>));
    lemma_part_stays(value, "output"@, plan);
    lemma_part_stays(value, "response"@, plan);
    lemma_echo_stays(value, plan);
}

proof fn lemma_items_stay(items: Seq<JsonView>, plan: PlanView)
    requires
        plan == PlanView::empty(),
    ensures
        converted_items(items, item_step(plan)) == items,
        refusal_of_items(items, item_step(plan)) is None,
{
    assert(all_stay(items, item_step(plan))) by {
        assert forall|i: int| 0 <= i < items.len() implies #[trigger] item_step(plan)(i, items[i])
            == Ok::<JsonView, AdapterErrorView>(items[i]) by {
            assert(!is_managed(items[i], plan));
        }
    }
    lemma_all_stay(items, item_step(plan));
}

proof fn lemma_echo_stays(object: JsonView, plan: PlanView)
    requires
        plan == PlanView::empty(),
    ensures
        restored_echo(object, plan) == object,
{
    lemma_with_own_field(object, "tools"@);
    lemma_with_own_field(object, "tool_choice"@);
    if let Some(tools) = object.items_field("tools"@) {
        assert(Seq::new(tools.len(), |i: int| restored_tool(tools[i], plan)) =~= tools);
    }
    assert(restored_tools(object, plan) == object);
}

proof fn lemma_part_stays(value: JsonView, key: Seq<char>, plan: PlanView)
    requires
        plan == PlanView::empty(),
    ensures
        with_part_restored(value, key, plan) == (value, None::<AdapterErrorView>),
{
    lemma_with_own_field(value, key);
    if let Some(part) = value.field(key) {
        lemma_echo_stays(part, plan);
        lemma_with_own_field(part, "output"@);
        if let JsonView::Array(items) = part {
            lemma_items_stay(items, plan);
        }
        if let Some(items) = part.items_field("output"@) {
            lemma_items_stay(items, plan);
        }
        assert(restored_part(part, plan) == (part, None::<AdapterErrorView>));
    }
}

/// What a stream may hold: so many calls, so many bytes for each, and so many for all.
pub open spec fn within_limits(stream: StreamView) -> bool {
    &&& stream.pending.dom().finite()
    &&& stream.pending.dom().len() <= MAX_PENDING_CALLS
    &&& stream.total_buffered <= MAX_TOTAL_BUFFERED_BYTES
    &&& forall|index: u32| #[trigger]
        stream.pending.contains_key(index) ==> encode_utf8(stream.pending[index].arguments).len()
            <= MAX_ARGUMENTS_BYTES
}

proof fn lemma_same_call_within(stream: StreamView, index: u32, call: PendingView)
    requires
        within_limits(stream),
        stream.pending.contains_key(index),
        encode_utf8(call.arguments).len() <= MAX_ARGUMENTS_BYTES,
    ensures
        within_limits(stream.with_call(index, call)),
{
    assert(stream.with_call(index, call).pending.dom() =~= stream.pending.dom());
}

proof fn lemma_deliver_within(
    stream: StreamView,
    index: u32,
    item_id: Seq<char>,
    call_id: Seq<char>,
    wire_name: Seq<char>,
    arguments: Seq<char>,
    status: Option<Seq<char>>,
)
    requires
        within_limits(stream),
    ensures
        within_limits(
            stream.deliver(index, item_id, call_id, wire_name, arguments, status).stream,
        ),
{
    let after = stream.deliver(index, item_id, call_id, wire_name, arguments, status).stream;
    assert(after.pending.dom() =~= stream.pending.dom());
    assert forall|other: u32| #[trigger] after.pending.contains_key(other) implies encode_utf8(
        after.pending[other].arguments,
    ).len() <= MAX_ARGUMENTS_BYTES by {
        assert(stream.pending.contains_key(other));
        assert(after.pending[other].arguments == stream.pending[other].arguments);
    }
}

proof fn lemma_call_done_within(stream: StreamView, index: u32, item: JsonView)
    requires
        within_limits(stream),
    ensures
        within_limits(stream.call_done(index, item).stream),
{
    let call = stream.pending[index];
    lemma_deliver_within(
        stream,
        index,
        call.item_id,
        super::restore::text_or(item, "call_id"@, call.call_id),
        item.text_or_empty("name"@),
        super::rewriter::final_arguments(call, item),
        item.text_field("status"@),
    );
    let dropped = stream.without_call(index);
    assert(dropped.pending.dom() =~= stream.pending.dom().remove(index));
    assert(within_limits(dropped)) by {
        assert forall|other: u32| #[trigger] dropped.pending.contains_key(other) implies encode_utf8(
            dropped.pending[other].arguments,
        ).len() <= MAX_ARGUMENTS_BYTES by {
            assert(stream.pending.contains_key(other));
        }
    }
}

proof fn lemma_item_done_within(stream: StreamView, data: JsonView, event: Option<Seq<char>>)
    requires
        within_limits(stream),
    ensures
        within_limits(stream.item_done(data, event).stream),
{
    if let Some(item) = data.field("item"@) {
        match stream.known_index(data) {
            Some(index) => {
                lemma_call_done_within(stream, index, item);
            },
            None => {
                lemma_deliver_within(
                    stream,
                    super::rewriter::output_index(data),
                    item.text_or_empty("id"@),
                    item.text_or_empty("call_id"@),
                    item.text_or_empty("name"@),
                    item.text_or_empty("arguments"@),
                    item.text_field("status"@),
                );
            },
        }
    }
}

proof fn lemma_item_added_within(stream: StreamView, data: JsonView, event: Option<Seq<char>>)
    requires
        within_limits(stream),
    ensures
        within_limits(stream.item_added(data, event).stream),
{
    let after = stream.item_added(data, event).stream;
    let index = super::rewriter::output_index(data);
    if after.pending != stream.pending {
        assert(after.pending.dom() =~= stream.pending.dom().insert(index));
        assert(encode_utf8(after.pending[index].arguments).len() == 0);
        assert forall|other: u32| #[trigger] after.pending.contains_key(other) implies encode_utf8(
            after.pending[other].arguments,
        ).len() <= MAX_ARGUMENTS_BYTES by {
            if other != index {
                assert(stream.pending.contains_key(other));
            }
        }
    }
}

proof fn lemma_delta_within(stream: StreamView, data: JsonView, event: Option<Seq<char>>)
    requires
        within_limits(stream),
        stream.failure is None,
    ensures
        stream.arguments_delta(data, event).stream.failure is Some || within_limits(
            stream.arguments_delta(data, event).stream,
        ),
{
    let after = stream.arguments_delta(data, event).stream;
    if let Some(index) = stream.known_index(data) {
        if after.failure is None && data.text_field("delta"@) is Some {
            lemma_same_call_within(stream, index, after.pending[index]);
            assert(after.pending == stream.with_call(index, after.pending[index]).pending);
            assert(after.pending.dom() =~= stream.pending.dom());
        }
    }
}

proof fn lemma_done_within(stream: StreamView, data: JsonView, event: Option<Seq<char>>)
    requires
        within_limits(stream),
    ensures
        within_limits(stream.arguments_done(data, event).stream),
{
    let after = stream.arguments_done(data, event).stream;
    if let Some(index) = stream.known_index(data) {
        if let Some(arguments) = data.text_field("arguments"@) {
            assert(stream.pending.contains_key(index));
            lemma_same_call_within(
                stream,
                index,
                PendingView { done_arguments: Some(arguments), ..stream.pending[index] },
            );
        }
    }
}

/// A stream that has not failed holds no more than its limits, whatever frames come in.
pub proof fn frames_keep_the_limits(stream: StreamView, frame: Seq<u8>)
    requires
        within_limits(stream),
        stream.failure is None,
    ensures
        stream.frame_step(frame).stream.failure is Some || within_limits(
            stream.frame_step(frame).stream,
        ),
{
    let parsed = parsed_frame(frame);
    if let Some(data) = parsed.json() {
        lemma_item_added_within(stream, data, parsed.event);
        lemma_delta_within(stream, data, parsed.event);
        lemma_done_within(stream, data, parsed.event);
        lemma_item_done_within(stream, data, parsed.event);
        lemma_end_within(stream, data, parsed.event);
        let emitted = stream.emit(parsed.event, data).stream;
        assert(emitted.pending == stream.pending);
    }
}

proof fn lemma_end_within(stream: StreamView, data: JsonView, event: Option<Seq<char>>)
    requires
        within_limits(stream),
    ensures
        within_limits(stream.response_end(data, event).stream),
{
    let after = stream.response_end(data, event).stream;
    assert(after.pending == stream.pending || after.pending == Map::<u32, PendingView>::empty());
    assert(Map::<u32, PendingView>::empty().dom() =~= Set::empty());
}

/// A stream starts within its limits.
pub proof fn streams_start_within_limits(plan: PlanView)
    ensures
        within_limits(StreamView::start(plan)),
{
    assert(Map::<u32, PendingView>::empty().dom() =~= Set::empty());
}

/// A call that was delivered is not sent again, whatever its item says later.
pub proof fn delivered_call_is_not_sent_again(stream: StreamView, index: u32, item: JsonView)
    requires
        stream.pending.contains_key(index),
        stream.pending[index].delivered_input is Some,
    ensures
        stream.call_done(index, item).output == Seq::<u8>::empty(),
        stream.call_done(index, item).stream.pending == stream.pending,
{
}

/// Nothing of a call whose item is incomplete or failed is sent, whether or not it was announced;
/// one that was held is dropped.
pub proof fn unfinished_call_is_not_sent(
    stream: StreamView,
    data: JsonView,
    event: Option<Seq<char>>,
)
    requires
        data.field("item"@) is Some,
        data.field("item"@)->0.text_field("type"@) == Some("function_call"@),
        is_unfinished(data.field("item"@)->0),
        stream.plan.manages(data.field("item"@)->0.text_or_empty("name"@)) || stream.known_index(
            data,
        ) is Some,
    ensures
        stream.item_done(data, event).output == Seq::<u8>::empty(),
        stream.known_index(data) matches Some(index) ==> stream.pending[index].delivered_input is Some
            || stream.item_done(data, event).stream.failure is Some || !stream.item_done(
            data,
            event,
        ).stream.pending.contains_key(index),
{
}

/// The call that a final item speaks of is found by its ids, whatever other calls of the tool were
/// delivered.
pub proof fn delivered_input_is_found(stream: StreamView, item: JsonView, index: u32)
    requires
        is_delivered_for(stream.pending, item, index),
        forall|other: u32| #[trigger]
            is_delivered_for(stream.pending, item, other) ==> other == index,
    ensures
        stream.delivered_for(item) == stream.pending[index].delivered_input,
{
    assert(is_first_delivered(stream.pending, item, index));
    let first = choose|i: u32| is_first_delivered(stream.pending, item, i);
    assert(is_delivered_for(stream.pending, item, first));
}

/// A final item that repeats the input delivered for its call is shown with it.
pub proof fn delivered_call_is_shown(
    stream: StreamView,
    item: JsonView,
    input: Seq<char>,
    failed: bool,
)
    requires
        is_managed(item, stream.plan),
        stream.delivered_for(item) == Some(input),
        item.text_field("call_id"@) is Some,
        item.text_field("arguments"@) is Some,
        decoded_arguments(item.text_field("arguments"@)->0) == Ok::<Seq<char>, AdapterErrorView>(
            input,
        ),
    ensures
        stream.ending_item(item, failed) is Ok,
        ({
            let shown = stream.ending_item(item, failed)->Ok_0;
            &&& shown.text_field("type"@) == Some("custom_tool_call"@)
            &&& shown.text_field("call_id"@) == item.text_field("call_id"@)
            &&& shown.text_field("input"@) == Some(input)
        }),
{
    reveal_strlit("type");
    reveal_strlit("id");
    reveal_strlit("call_id");
    reveal_strlit("name");
    reveal_strlit("input");
    reveal_strlit("status");
    reveal_strlit("namespace");
    assert("type"@[0] == 't' && "name"@[0] == 'n');
    assert("id"@.len() == 2 && "type"@.len() == 4 && "name"@.len() == 4 && "input"@.len() == 5);
    assert("status"@.len() == 6 && "call_id"@.len() == 7 && "namespace"@.len() == 9);
}

/// A final item that changes the input delivered for its call is refused.
pub proof fn changed_input_is_refused(
    stream: StreamView,
    item: JsonView,
    input: Seq<char>,
    failed: bool,
)
    requires
        is_managed(item, stream.plan),
        stream.delivered_for(item) is Some,
        stream.delivered_for(item) != Some(input),
        item.text_field("arguments"@) is Some,
        decoded_arguments(item.text_field("arguments"@)->0) == Ok::<Seq<char>, AdapterErrorView>(
            input,
        ),
    ensures
        stream.ending_item(item, failed) is Err,
{
}

/// After a failure no frame is taken: what comes in goes out as it is.
pub proof fn failed_stream_takes_no_frame(stream: StreamView, buffer: Seq<u8>)
    requires
        stream.failure is Some,
    ensures
        stream.frames_step(buffer) == (stream.silent(), buffer),
{
}

/// A stream that ends with a call still held tells the client of the failure, and sends nothing of
/// the call.
pub proof fn held_call_at_the_end_is_reported(stream: StreamView)
    requires
        stream.pending != Map::<u32, PendingView>::empty(),
    ensures
        stream.ended().failure is Some,
        stream.ended().pending == Map::<u32, PendingView>::empty(),
        stream.ended().report().output.len() > 0,
{
    let report = stream.ended().report();
    reveal_strlit("event: ");
    assert(encode_utf8("event: "@).len() > 0) by {
        vstd::utf8::is_ascii_chars_encode_utf8("event: "@);
    }
}

/// The rewriter after some pieces came in, and the pieces that went out.
pub open spec fn after_pushes(rewriter: RewriterView, pieces: Seq<Seq<u8>>) -> (
    RewriterView,
    Seq<Seq<u8>>,
)
    decreases pieces.len(),
{
    if pieces.len() == 0 {
        (rewriter, Seq::empty())
    } else {
        let (before, sent) = after_pushes(rewriter, pieces.drop_last());
        let (after, bytes) = before.pushed(pieces.last());
        (after, sent.push(bytes))
    }
}

/// With an empty plan every piece goes out as it came in, whatever it holds, and at the end nothing
/// is left and nothing was cut short.
pub proof fn empty_plan_lets_everything_through(plan: PlanView, pieces: Seq<Seq<u8>>)
    requires
        plan.wire_tools == Map::<Seq<char>, IdentityView>::empty(),
    ensures
        ({
            let start = RewriterView { stream: StreamView::start(plan), buffer: Seq::empty() };
            &&& after_pushes(start, pieces) == (start, pieces)
            &&& start.finished() == (start, Seq::<u8>::empty())
            &&& !start.cut_short()
        }),
    decreases pieces.len(),
{
    let start = RewriterView { stream: StreamView::start(plan), buffer: Seq::empty() };
    assert(start.passes());
    if pieces.len() > 0 {
        empty_plan_lets_everything_through(plan, pieces.drop_last());
        assert(pieces.drop_last().push(pieces.last()) =~= pieces);
    } else {
        assert(pieces =~= Seq::empty());
    }
}

} // verus!
