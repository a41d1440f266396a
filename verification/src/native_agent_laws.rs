//! What requests and responses say once the native tools have their alias, or lose it.
use vstd::prelude::*;

use crate::json::JsonView;
use crate::native_agents::{
    adapts_native_agents, frame_data, is_plain_agent_message, lemma_request_keys,
    lemma_response_keys, own_call, own_response, prepared_item, prepared_request, prepared_tool,
    with_data, with_own_item, with_own_output, with_plain_message, with_prepared_tools,
    with_user_messages,
};
use crate::settings::types::{NativeAgentInterop, RelayProtocol};
use crate::text::{has_prefix, has_suffix};

verus! {

/// A relay says whether native tools are adapted; where it leaves that open, they are exactly where
/// it speaks responses.
pub proof fn relays_decide_on_native_agents(protocol: RelayProtocol)
    ensures
        adapts_native_agents(NativeAgentInterop::On, protocol),
        !adapts_native_agents(NativeAgentInterop::Off, protocol),
        adapts_native_agents(NativeAgentInterop::Auto, RelayProtocol::Responses),
        !adapts_native_agents(NativeAgentInterop::Auto, RelayProtocol::ChatCompletions),
{
}

pub open spec fn is_collaboration(tool: JsonView) -> bool {
    tool.text_field("type"@) == Some("namespace"@) && tool.text_field("name"@) == Some(
        "collaboration"@,
    )
}

pub open spec fn is_message_name(name: Seq<char>) -> bool {
    name == "spawn_agent"@ || name == "send_message"@ || name == "followup_task"@
}

/// The message parameter of a tool.
pub open spec fn message_of(tool: JsonView) -> Option<JsonView> {
    match tool.field("parameters"@) {
        Some(parameters) => match parameters.field("properties"@) {
            Some(properties) => properties.field("message"@),
            None => None,
        },
        None => None,
    }
}

/// The native namespace gets the alias, and its tools stay in their places; any other tool stays.
pub proof fn collaboration_gets_its_alias(tool: JsonView, i: int)
    ensures
        ({
            let after = prepared_tool(tool);
            let children = tool.items_field("tools"@);
            &&& !is_collaboration(tool) ==> after == tool
            &&& is_collaboration(tool) ==> {
                &&& after.text_field("name"@) == Some("codexpp_native_collaboration"@)
                &&& forall|k: Seq<char>|
                    k != "name"@ && k != "tools"@ ==> #[trigger] after.field(k) == tool.field(k)
                &&& children is None ==> after.field("tools"@) == tool.field("tools"@)
                &&& children is Some ==> after.items_field("tools"@) is Some && after.items_field(
                    "tools"@,
                )->0.len() == children->0.len()
                &&& children is Some && 0 <= i < children->0.len() ==> if is_message_name(
                    children->0[i].text_or_empty("name"@),
                ) {
                    after.items_field("tools"@)->0[i] == with_plain_message(children->0[i])
                } else {
                    after.items_field("tools"@)->0[i] == children->0[i]
                }
            }
        }),
{
    lemma_request_keys();
    if is_collaboration(tool) {
        let named = tool.with_text("name"@, "codexpp_native_collaboration"@);
        assert(named.items_field("tools"@) == tool.items_field("tools"@));
    }
}

/// A tool that carries a message says that it is not encrypted, and changes in nothing else; one
/// without a message parameter stays.
pub proof fn messages_are_marked_plain(tool: JsonView)
    ensures
        ({
            let after = with_plain_message(tool);
            let message = message_of(tool);
            &&& message is None ==> after == tool
            &&& message is Some ==> {
                &&& message_of(after) is Some
                &&& message->0 is Object ==> message_of(after)->0.field("encrypted"@) == Some(
                    JsonView::Bool(false),
                )
                &&& forall|k: Seq<char>|
                    k != "encrypted"@ ==> #[trigger] message_of(after)->0.field(k)
                        == message->0.field(k)
                &&& forall|k: Seq<char>|
                    k != "parameters"@ ==> #[trigger] after.field(k) == tool.field(k)
                &&& forall|k: Seq<char>|
                    k != "properties"@ ==> #[trigger] after.field("parameters"@)->0.field(k)
                        == tool.field("parameters"@)->0.field(k)
                &&& forall|k: Seq<char>|
                    k != "message"@ ==> #[trigger] after.field("parameters"@)->0.field(
                        "properties"@,
                    )->0.field(k) == tool.field("parameters"@)->0.field("properties"@)->0.field(k)
            }
        }),
{
}

/// The fields of a request besides its tools and its history stay; each tool and each item is
/// prepared in its place.
pub proof fn request_is_prepared_in_place(body: JsonView, i: int)
    ensures
        ({
            let after = prepared_request(body);
            let tools = body.items_field("tools"@);
            let items = body.items_field("input"@);
            &&& forall|k: Seq<char>|
                k != "tools"@ && k != "input"@ ==> #[trigger] after.field(k) == body.field(k)
            &&& tools is Some ==> after.items_field("tools"@) is Some && after.items_field(
                "tools"@,
            )->0.len() == tools->0.len()
            &&& tools is Some && 0 <= i < tools->0.len() ==> after.items_field("tools"@)->0[i]
                == prepared_tool(tools->0[i])
            &&& tools is None ==> after.field("tools"@) == body.field("tools"@)
            &&& items is Some ==> after.items_field("input"@) is Some && after.items_field(
                "input"@,
            )->0.len() == items->0.len()
            &&& items is Some && 0 <= i < items->0.len() ==> after.items_field("input"@)->0[i]
                == prepared_item(items->0[i])
            &&& items is None ==> after.field("input"@) == body.field("input"@)
        }),
{
    lemma_request_keys();
    let middle = with_prepared_tools(body);
    assert(middle.items_field("input"@) == body.items_field("input"@));
    assert(middle.field("input"@) == body.field("input"@));
}

/// An item that declares more tools has them prepared in their places; a native call whose message
/// is plain gets the alias and keeps all other fields; every other item stays.
pub proof fn items_are_prepared_by_their_type(item: JsonView, i: int)
    ensures
        ({
            let after = prepared_item(item);
            let kind = item.text_field("type"@);
            let tools = item.items_field("tools"@);
            &&& kind == Some("additional_tools"@) && tools is Some ==> {
                &&& after.items_field("tools"@) is Some
                &&& after.items_field("tools"@)->0.len() == tools->0.len()
                &&& 0 <= i < tools->0.len() ==> after.items_field("tools"@)->0[i] == prepared_tool(
                    tools->0[i],
                )
                &&& forall|k: Seq<char>|
                    k != "tools"@ ==> #[trigger] after.field(k) == item.field(k)
            }
            &&& kind == Some("function_call"@) ==> forall|k: Seq<char>|
                k != "namespace"@ ==> #[trigger] after.field(k) == item.field(k)
            &&& kind != Some("additional_tools"@) && kind != Some("function_call"@) ==> after
                == item
            &&& kind == Some("function_call"@) && item.text_field("namespace"@) != Some(
                "collaboration"@,
            ) ==> after == item
        }),
{
    lemma_request_keys();
}

/// A call under the alias has its own namespace again. A message call that says nothing of encrypted
/// arguments, or null, says that it has none. All other fields stay, and so does any other item.
pub proof fn calls_lose_their_alias(item: JsonView)
    ensures
        ({
            let after = own_call(item);
            let aliased = item.text_field("type"@) == Some("function_call"@) && item.text_field(
                "namespace"@,
            ) == Some("codexpp_native_collaboration"@);
            let marked = item.field("encrypted_function_args"@);
            let unsaid = is_message_name(item.text_or_empty("name"@)) && (marked is None || marked
                == Some(JsonView::Null));
            &&& !aliased ==> after == item
            &&& aliased ==> {
                &&& after.text_field("namespace"@) == Some("collaboration"@)
                &&& unsaid ==> after.items_field("encrypted_function_args"@) == Some(
                    Seq::<JsonView>::empty(),
                )
                &&& !unsaid ==> after.field("encrypted_function_args"@) == marked
                &&& forall|k: Seq<char>|
                    k != "namespace"@ && k != "encrypted_function_args"@ ==> #[trigger] after.field(
                        k,
                    ) == item.field(k)
            }
        }),
{
    reveal_strlit("namespace");
    reveal_strlit("encrypted_function_args");
    assert("namespace"@.len() == 9 && "encrypted_function_args"@.len() == 23);
}

/// The calls of a response are restored where calls stand: the item, each item of the output in its
/// place, and the same in the response inside it; no other field changes, save in a response that is
/// a call itself.
pub proof fn responses_are_restored_where_calls_stand(value: JsonView, i: int)
    requires
        value.text_field("type"@) != Some("function_call"@),
    ensures
        ({
            let after = own_response(value);
            let items = value.items_field("output"@);
            &&& forall|k: Seq<char>|
                k != "item"@ && k != "output"@ && k != "response"@ ==> #[trigger] after.field(k)
                    == value.field(k)
            &&& value.field("item"@) is Some ==> after.field("item"@) == Some(
                own_call(value.field("item"@)->0),
            )
            &&& items is Some ==> after.items_field("output"@) is Some && after.items_field(
                "output"@,
            )->0.len() == items->0.len()
            &&& items is Some && 0 <= i < items->0.len() ==> after.items_field("output"@)->0[i]
                == own_call(items->0[i])
            &&& items is None ==> after.field("output"@) == value.field("output"@)
            &&& value.field("response"@) is Some ==> after.field("response"@) == Some(
                own_response(value.field("response"@)->0),
            )
            &&& value.field("response"@) is None ==> after.field("response"@) is None
        }),
{
    lemma_response_keys();
    assert(own_call(value) == value);
    let first = with_own_item(value);
    assert(first.items_field("output"@) == value.items_field("output"@));
    let second = with_own_output(first);
    assert(second.field("response"@) == value.field("response"@));
}

/// A message between agents that is text in every part becomes a message of the user with the same
/// parts and nothing else; any other item stays, in its place.
pub proof fn plain_messages_become_the_users(body: JsonView, i: int)
    requires
        body.items_field("input"@) is Some,
        0 <= i < body.items_field("input"@)->0.len(),
    ensures
        ({
            let item = body.items_field("input"@)->0[i];
            let content = item.items_field("content"@);
            let plain = item.text_field("type"@) == Some("agent_message"@) && content is Some
                && content->0.len() > 0 && forall|j: int|
                0 <= j < content->0.len() ==> (#[trigger] content->0[j]).text_field("type"@)
                    == Some("input_text"@);
            let after = with_user_messages(body);
            let told = after.items_field("input"@)->0[i];
            &&& after.items_field("input"@) is Some
            &&& after.items_field("input"@)->0.len() == body.items_field("input"@)->0.len()
            &&& forall|k: Seq<char>| k != "input"@ ==> #[trigger] after.field(k) == body.field(k)
            &&& !plain ==> told == item
            &&& plain ==> {
                &&& told.text_field("type"@) == Some("message"@)
                &&& told.text_field("role"@) == Some("user"@)
                &&& told.field("content"@) == item.field("content"@)
                &&& forall|k: Seq<char>| #[trigger]
                    told.field(k) is Some ==> k == "type"@ || k == "role"@ || k == "content"@
            }
        }),
{
    reveal_strlit("type");
    reveal_strlit("role");
    reveal_strlit("content");
    assert("type"@.len() == 4 && "type"@[0] == 't' && "role"@.len() == 4 && "role"@[0] == 'r');
    assert("content"@.len() == 7);
    let item = body.items_field("input"@)->0[i];
    if is_plain_agent_message(item) {
        let content = item.items_field("content"@)->0;
        assert forall|j: int| 0 <= j < content.len() implies (#[trigger] content[j]).text_field(
            "type"@,
        ) == Some("input_text"@) by {
            assert(item.items_field("content"@)->0[j].text_field("type"@) == Some("input_text"@));
        }
    } else if item.text_field("type"@) == Some("agent_message"@) && item.items_field(
        "content"@,
    ) is Some && item.items_field("content"@)->0.len() > 0 {
        let content = item.items_field("content"@)->0;
        let j = choose|j: int|
            0 <= j < content.len() && (#[trigger] content[j]).text_field("type"@) != Some(
                "input_text"@,
            );
        assert(content[j].text_field("type"@) != Some("input_text"@));
    }
}

pub open spec fn is_data_line(line: Seq<char>) -> bool {
    has_prefix(line, "data:"@)
}

/// The lines that are no data, one after the other.
pub open spec fn other_lines(lines: Seq<Seq<char>>) -> Seq<char>
    decreases lines.len(),
{
    if lines.len() == 0 {
        Seq::empty()
    } else if is_data_line(lines.last()) {
        other_lines(lines.drop_last())
    } else {
        other_lines(lines.drop_last()) + lines.last()
    }
}

proof fn lemma_no_data(lines: Seq<Seq<char>>, data: Seq<char>)
    requires
        forall|i: int| 0 <= i < lines.len() ==> !is_data_line(#[trigger] lines[i]),
    ensures
        frame_data(lines).len() == 0,
        with_data(lines, data) == other_lines(lines),
    decreases lines.len(),
{
    if lines.len() > 0 {
        let shorter = lines.drop_last();
        assert forall|i: int| 0 <= i < shorter.len() implies !is_data_line(#[trigger] shorter[i]) by {
            assert(shorter[i] == lines[i]);
        }
        lemma_no_data(shorter, data);
        assert(!is_data_line(lines[lines.len() - 1]));
    }
}

/// A frame with its data replaced keeps every other line in its place; the new data stands once,
/// where the first data line stood, with that line's ending.
pub proof fn replaced_data_stands_once(
    before: Seq<Seq<char>>,
    line: Seq<char>,
    after: Seq<Seq<char>>,
    data: Seq<char>,
)
    requires
        forall|i: int| 0 <= i < before.len() ==> !is_data_line(#[trigger] before[i]),
        is_data_line(line),
    ensures
        with_data(before + seq![line] + after, data) == other_lines(before) + "data: "@ + data + (
        if has_suffix(line, "\r\n"@) {
            "\r\n"@
        } else {
            "\n"@
        }) + other_lines(after),
        frame_data(before + seq![line] + after).len() > 0,
    decreases after.len(),
{
    let lines = before + seq![line] + after;
    if after.len() == 0 {
        assert(lines.drop_last() =~= before);
        assert(lines.last() == line);
        lemma_no_data(before, data);
        assert(with_data(lines, data) =~= other_lines(before) + "data: "@ + data + (if has_suffix(
            line,
            "\r\n"@,
        ) {
            "\r\n"@
        } else {
            "\n"@
        }) + other_lines(after));
    } else {
        let shorter = after.drop_last();
        replaced_data_stands_once(before, line, shorter, data);
        assert(lines.drop_last() =~= before + seq![line] + shorter);
        assert(lines.last() == after.last());
        assert(with_data(lines, data) =~= other_lines(before) + "data: "@ + data + (if has_suffix(
            line,
            "\r\n"@,
        ) {
            "\r\n"@
        } else {
            "\n"@
        }) + other_lines(after));
    }
}

} // verus!
