//! The native agent tools of the client behind a relay: their namespace goes upstream under an
//! alias, so that messages stay readable, and comes back under its own name.
use vstd::prelude::*;
use vstd::utf8::{decode_utf8, encode_utf8, valid_utf8};

use crate::json::{
    array_view, empty_object, json_text, lemma_with_own_field, parsed_json, Json, JsonView,
};
use crate::settings::types::{NativeAgentInterop, RelayProfile, RelayProtocol};
use crate::sse::{
    crlf_pairs, data_value, find_end, first_end, line_feeds, push_all, stands_at, text_of_utf8,
};
use crate::text::{
    ends_with, full_lines, full_lines_of, has_prefix, has_suffix, join, joined, lines, lines_of,
    same_text, starts_with, strip_prefix, texts,
};

verus! {

/// The namespace of the native tools.
pub open spec fn native_namespace() -> Seq<char> {
    "collaboration"@
}

/// The alias under which it goes upstream.
pub open spec fn wire_namespace() -> Seq<char> {
    "codexpp_native_collaboration"@
}

/// The tools that carry a message.
pub open spec fn carries_message(name: Seq<char>) -> bool {
    name == "spawn_agent"@ || name == "send_message"@ || name == "followup_task"@
}

pub fn is_message_tool(name: &str) -> (r: bool)
    ensures
        r == carries_message(name@),
{
    same_text(name, "spawn_agent") || same_text(name, "send_message") || same_text(
        name,
        "followup_task",
    )
}

/// Whether the native tools of a relay are adapted: as it says, or else where it speaks responses.
pub open spec fn adapts_native_agents(mode: NativeAgentInterop, protocol: RelayProtocol) -> bool {
    match mode {
        NativeAgentInterop::On => true,
        NativeAgentInterop::Off => false,
        NativeAgentInterop::Auto => protocol == RelayProtocol::Responses,
    }
}

pub fn interop_enabled(profile: &RelayProfile) -> (r: bool)
    ensures
        r == adapts_native_agents(profile@.native_agent_interop, profile@.protocol),
{
    match profile.native_agent_interop {
        NativeAgentInterop::On => true,
        NativeAgentInterop::Off => false,
        NativeAgentInterop::Auto => profile.protocol == RelayProtocol::Responses,
    }
}

pub open spec fn is_native_namespace(tool: JsonView) -> bool {
    tool.text_field("type"@) == Some("namespace"@) && tool.text_field("name"@) == Some(
        native_namespace(),
    )
}

/// A tool with its message parameter, if it has one, marked as not encrypted.
pub open spec fn with_plain_message(tool: JsonView) -> JsonView {
    match tool.field("parameters"@) {
        Some(parameters) => match parameters.field("properties"@) {
            Some(properties) => match properties.field("message"@) {
                Some(message) => tool.with(
                    "parameters"@,
                    parameters.with(
                        "properties"@,
                        properties.with("message"@, message.with("encrypted"@, JsonView::Bool(false))),
                    ),
                ),
                None => tool,
            },
            None => tool,
        },
        None => tool,
    }
}

pub open spec fn prepared_child(child: JsonView) -> JsonView {
    if carries_message(child.text_or_empty("name"@)) {
        with_plain_message(child)
    } else {
        child
    }
}

/// A tool as it goes upstream: the native namespace under its alias, with plain messages.
pub open spec fn prepared_tool(tool: JsonView) -> JsonView {
    if !is_native_namespace(tool) {
        tool
    } else {
        let named = tool.with_text("name"@, wire_namespace());
        match named.items_field("tools"@) {
            Some(children) => named.with(
                "tools"@,
                JsonView::Array(Seq::new(children.len(), |i: int| prepared_child(children[i]))),
            ),
            None => named,
        }
    }
}

pub open spec fn prepared_tools(tools: Seq<JsonView>) -> Seq<JsonView> {
    Seq::new(tools.len(), |i: int| prepared_tool(tools[i]))
}

pub open spec fn has_native_namespace(tools: Seq<JsonView>) -> bool {
    exists|i: int| 0 <= i < tools.len() && is_native_namespace(#[trigger] tools[i])
}

/// A call of a native tool in the history whose message, if it carries one, is not encrypted.
pub open spec fn is_plain_native_call(item: JsonView) -> bool {
    &&& item.text_field("type"@) == Some("function_call"@)
    &&& item.text_field("namespace"@) == Some(native_namespace())
    &&& !carries_message(item.text_or_empty("name"@)) || item.items_field(
        "encrypted_function_args"@,
    ) == Some(Seq::<JsonView>::empty())
}

/// An item of the history as it goes upstream. Old calls with encrypted messages keep their name.
pub open spec fn prepared_item(item: JsonView) -> JsonView {
    if item.text_field("type"@) == Some("additional_tools"@) {
        match item.items_field("tools"@) {
            Some(tools) => item.with("tools"@, JsonView::Array(prepared_tools(tools))),
            None => item,
        }
    } else if is_plain_native_call(item) {
        item.with_text("namespace"@, wire_namespace())
    } else {
        item
    }
}

pub open spec fn item_changes(item: JsonView) -> bool {
    if item.text_field("type"@) == Some("additional_tools"@) {
        item.items_field("tools"@) is Some && has_native_namespace(item.items_field("tools"@)->0)
    } else {
        is_plain_native_call(item)
    }
}

pub open spec fn with_prepared_tools(body: JsonView) -> JsonView {
    match body.items_field("tools"@) {
        Some(tools) => body.with("tools"@, JsonView::Array(prepared_tools(tools))),
        None => body,
    }
}

pub open spec fn with_prepared_input(body: JsonView) -> JsonView {
    match body.items_field("input"@) {
        Some(items) => body.with(
            "input"@,
            JsonView::Array(Seq::new(items.len(), |i: int| prepared_item(items[i]))),
        ),
        None => body,
    }
}

/// A request as it goes upstream.
pub open spec fn prepared_request(body: JsonView) -> JsonView {
    with_prepared_input(with_prepared_tools(body))
}

/// Whether anything in a request is renamed.
pub open spec fn request_changes(body: JsonView) -> bool {
    ||| body.items_field("tools"@) is Some && has_native_namespace(body.items_field("tools"@)->0)
    ||| body.items_field("input"@) is Some && exists|i: int|
        0 <= i < body.items_field("input"@)->0.len() && item_changes(
            #[trigger] body.items_field("input"@)->0[i],
        )
}

fn mark_message(child: &mut Json)
    ensures
        final(child)@ == with_plain_message(old(child)@),
{
    proof {
        let tool = child@;
        lemma_with_own_field(tool, "parameters"@);
        if let Some(parameters) = tool.field("parameters"@) {
            lemma_with_own_field(parameters, "properties"@);
            if let Some(properties) = parameters.field("properties"@) {
                lemma_with_own_field(properties, "message"@);
            }
        }
    }
    if let Some(parameters) = child.get_mut("parameters") {
        if let Some(properties) = parameters.get_mut("properties") {
            if let Some(message) = properties.get_mut("message") {
                message.put("encrypted", Json::Bool(false));
            }
        }
    }
}

fn prepare_children(children: &mut Vec<Json>)
    ensures
        array_view(final(children)@) == Seq::new(
            old(children)@.len(),
            |i: int| prepared_child(array_view(old(children)@)[i]),
        ),
{
    let ghost before = array_view(children@);
    let n = children.len();
    for i in 0..n
        invariant
            n == children@.len(),
            before == array_view(old(children)@),
            before.len() == n,
            forall|j: int| 0 <= j < i ==> (#[trigger] children@[j])@ == prepared_child(before[j]),
            forall|j: int| i <= j < n ==> (#[trigger] children@[j])@ == before[j],
    {
        assert(children@[i as int]@ == before[i as int]);
        if is_message_tool(children[i].text_or_empty("name")) {
            mark_message(&mut children[i]);
        }
    }
    proof {
        assert(array_view(children@) =~= Seq::new(
            old(children)@.len(),
            |i: int| prepared_child(array_view(old(children)@)[i]),
        ));
    }
}

fn prepare_tool(tool: &mut Json) -> (r: bool)
    ensures
        final(tool)@ == prepared_tool(old(tool)@),
        r == is_native_namespace(old(tool)@),
{
    if !tool.has_text("type", "namespace") || !tool.has_text("name", "collaboration") {
        return false;
    }
    tool.put_text("name", "codexpp_native_collaboration");
    if let Some(children) = tool.array_at_mut("tools") {
        prepare_children(children);
    }
    true
}

pub fn prepare_tools(tools: &mut Vec<Json>) -> (r: bool)
    ensures
        array_view(final(tools)@) == prepared_tools(array_view(old(tools)@)),
        r == has_native_namespace(array_view(old(tools)@)),
{
    let ghost before = array_view(tools@);
    let mut changed = false;
    let n = tools.len();
    for i in 0..n
        invariant
            n == tools@.len(),
            before == array_view(old(tools)@),
            before.len() == n,
            changed == (exists|j: int| 0 <= j < i && is_native_namespace(#[trigger] before[j])),
            forall|j: int| 0 <= j < i ==> (#[trigger] tools@[j])@ == prepared_tool(before[j]),
            forall|j: int| i <= j < n ==> (#[trigger] tools@[j])@ == before[j],
    {
        assert(tools@[i as int]@ == before[i as int]);
        if prepare_tool(&mut tools[i]) {
            assert(is_native_namespace(before[i as int]));
            changed = true;
        }
    }
    assert(array_view(tools@) =~= prepared_tools(before));
    changed
}

fn prepare_item(item: &mut Json) -> (r: bool)
    ensures
        final(item)@ == prepared_item(old(item)@),
        r == item_changes(old(item)@),
{
    if item.has_text("type", "additional_tools") {
        return match item.array_at_mut("tools") {
            Some(tools) => prepare_tools(tools),
            None => false,
        };
    }
    if !item.has_text("type", "function_call") || !item.has_text("namespace", "collaboration") {
        return false;
    }
    let plain = match item.array_at("encrypted_function_args") {
        Some(args) => {
            proof {
                if args@.len() == 0 {
                    assert(array_view(args@) =~= Seq::<JsonView>::empty());
                } else {
                    assert(array_view(args@).len() > 0);
                }
            }
            args.len() == 0
        },
        None => false,
    };
    if !is_message_tool(item.text_or_empty("name")) || plain {
        item.put_text("namespace", "codexpp_native_collaboration");
        return true;
    }
    false
}

fn prepare_input(items: &mut Vec<Json>) -> (r: bool)
    ensures
        array_view(final(items)@) == Seq::new(
            old(items)@.len(),
            |i: int| prepared_item(array_view(old(items)@)[i]),
        ),
        r == (exists|i: int|
            0 <= i < old(items)@.len() && item_changes(#[trigger] array_view(old(items)@)[i])),
{
    let ghost before = array_view(items@);
    let mut changed = false;
    let n = items.len();
    for i in 0..n
        invariant
            n == items@.len(),
            before == array_view(old(items)@),
            before.len() == n,
            changed == (exists|j: int| 0 <= j < i && item_changes(#[trigger] before[j])),
            forall|j: int| 0 <= j < i ==> (#[trigger] items@[j])@ == prepared_item(before[j]),
            forall|j: int| i <= j < n ==> (#[trigger] items@[j])@ == before[j],
    {
        assert(items@[i as int]@ == before[i as int]);
        if prepare_item(&mut items[i]) {
            assert(item_changes(before[i as int]));
            changed = true;
        }
    }
    proof {
        assert(array_view(items@) =~= Seq::new(
            old(items)@.len(),
            |i: int| prepared_item(array_view(old(items)@)[i]),
        ));
    }
    changed
}

/// Renames the native tools and calls of a request. Tells whether there were any.
pub fn prepare_request(body: &mut Json) -> (r: bool)
    ensures
        final(body)@ == prepared_request(old(body)@),
        r == request_changes(old(body)@),
{
    proof {
        reveal_strlit("tools");
        reveal_strlit("input");
        assert("tools"@[0] == 't' && "input"@[0] == 'i');
    }
    let in_tools = match body.array_at_mut("tools") {
        Some(tools) => prepare_tools(tools),
        None => false,
    };
    let ghost middle = body@;
    assert(middle.items_field("input"@) == old(body)@.items_field("input"@));
    let in_input = match body.array_at_mut("input") {
        Some(items) => prepare_input(items),
        None => false,
    };
    in_tools || in_input
}

/// A message between agents that is plain text in every part, and has a part.
pub open spec fn is_plain_agent_message(item: JsonView) -> bool {
    &&& item.text_field("type"@) == Some("agent_message"@)
    &&& item.items_field("content"@) is Some
    &&& item.items_field("content"@)->0.len() > 0
    &&& forall|i: int|
        0 <= i < item.items_field("content"@)->0.len() ==> (
        #[trigger] item.items_field("content"@)->0[i]).text_field("type"@) == Some("input_text"@)
}

/// An item for a model that knows no agent messages: a plain one becomes a message of the user.
pub open spec fn as_user_message(item: JsonView) -> JsonView {
    if is_plain_agent_message(item) {
        empty_object().with_text("type"@, "message"@).with_text("role"@, "user"@).with(
            "content"@,
            item.field("content"@)->0,
        )
    } else {
        item
    }
}

pub open spec fn with_user_messages(body: JsonView) -> JsonView {
    match body.items_field("input"@) {
        Some(items) => body.with(
            "input"@,
            JsonView::Array(Seq::new(items.len(), |i: int| as_user_message(items[i]))),
        ),
        None => body,
    }
}

fn plain_content(item: &Json) -> (r: Option<Json>)
    ensures
        match r {
            Some(content) => is_plain_agent_message(item@) && item@.field("content"@) == Some(
                content@,
            ),
            None => !is_plain_agent_message(item@),
        },
{
    if !item.has_text("type", "agent_message") {
        return None;
    }
    let content = match item.array_at("content") {
        Some(content) => content,
        None => {
            return None;
        },
    };
    let ghost parts = array_view(content@);
    if content.len() == 0 {
        return None;
    }
    for i in 0..content.len()
        invariant
            parts == array_view(content@),
            item@.items_field("content"@) == Some(parts),
            forall|j: int|
                0 <= j < i ==> (#[trigger] parts[j]).text_field("type"@) == Some("input_text"@),
    {
        assert(parts[i as int] == content@[i as int]@);
        if !content[i].has_text("type", "input_text") {
            return None;
        }
    }
    match item.get("content") {
        Some(value) => Some(value.copy()),
        None => None,
    }
}

fn user_messages(items: &mut Vec<Json>)
    ensures
        array_view(final(items)@) == Seq::new(
            old(items)@.len(),
            |i: int| as_user_message(array_view(old(items)@)[i]),
        ),
{
    let ghost before = array_view(items@);
    let n = items.len();
    for i in 0..n
        invariant
            n == items@.len(),
            before == array_view(old(items)@),
            before.len() == n,
            forall|j: int| 0 <= j < i ==> (#[trigger] items@[j])@ == as_user_message(before[j]),
            forall|j: int| i <= j < n ==> (#[trigger] items@[j])@ == before[j],
    {
        assert(items@[i as int]@ == before[i as int]);
        if let Some(content) = plain_content(&items[i]) {
            let mut message = Json::object();
            message.put_text("type", "message");
            message.put_text("role", "user");
            message.put("content", content);
            items.set(i, message);
        }
    }
    proof {
        assert(array_view(items@) =~= Seq::new(
            old(items)@.len(),
            |i: int| as_user_message(array_view(old(items)@)[i]),
        ));
    }
}

/// Turns the plain messages between agents into messages of the user.
pub fn prepare_glm_messages(body: &mut Json)
    ensures
        final(body)@ == with_user_messages(old(body)@),
{
    if let Some(items) = body.array_at_mut("input") {
        user_messages(items);
    }
}

/// A call under the alias.
pub open spec fn is_wire_call(item: JsonView) -> bool {
    item.text_field("type"@) == Some("function_call"@) && item.text_field("namespace"@) == Some(
        wire_namespace(),
    )
}

/// A call under the alias with its own namespace again. The list of encrypted arguments of a
/// message that has none is empty: that tells the client that the message is plain.
pub open spec fn own_call(item: JsonView) -> JsonView {
    let named = item.with_text("namespace"@, native_namespace());
    if !is_wire_call(item) {
        item
    } else if carries_message(item.text_or_empty("name"@)) && (
    item.field("encrypted_function_args"@) is None || item.field("encrypted_function_args"@)
        == Some(JsonView::Null)) {
        named.with("encrypted_function_args"@, JsonView::Array(Seq::empty()))
    } else {
        named
    }
}

pub fn restore_call(item: &mut Json) -> (r: bool)
    ensures
        final(item)@ == own_call(old(item)@),
        r == is_wire_call(old(item)@),
{
    if !item.has_text("type", "function_call") || !item.has_text(
        "namespace",
        "codexpp_native_collaboration",
    ) {
        return false;
    }
    let unmarked = is_message_tool(item.text_or_empty("name")) && match item.get(
        "encrypted_function_args",
    ) {
        Some(value) => value.is_null(),
        None => true,
    };
    item.put_text("namespace", "collaboration");
    if unmarked {
        let none: Vec<Json> = Vec::new();
        assert(array_view(none@) =~= Seq::<JsonView>::empty());
        item.put("encrypted_function_args", Json::array(none));
    }
    true
}

pub open spec fn with_own_item(value: JsonView) -> JsonView {
    match value.field("item"@) {
        Some(item) => value.with("item"@, own_call(item)),
        None => value,
    }
}

pub open spec fn with_own_output(value: JsonView) -> JsonView {
    match value.items_field("output"@) {
        Some(items) => value.with(
            "output"@,
            JsonView::Array(Seq::new(items.len(), |i: int| own_call(items[i]))),
        ),
        None => value,
    }
}

/// The calls of a response under their own namespace: itself, its item, its output, and the same
/// of the response inside it.
pub open spec fn own_response(value: JsonView) -> JsonView
    decreases value,
{
    let outer = with_own_output(with_own_item(own_call(value)));
    match value {
        JsonView::Object(fields) => if fields.contains_key("response"@) {
            outer.with("response"@, own_response(fields["response"@]))
        } else {
            outer
        },
        _ => outer,
    }
}

/// Whether a response holds a call under the alias.
pub open spec fn has_wire_call(value: JsonView) -> bool
    decreases value,
{
    ||| is_wire_call(value)
    ||| value.field("item"@) is Some && is_wire_call(value.field("item"@)->0)
    ||| value.items_field("output"@) is Some && exists|i: int|
        0 <= i < value.items_field("output"@)->0.len() && is_wire_call(
            #[trigger] value.items_field("output"@)->0[i],
        )
    ||| match value {
        JsonView::Object(fields) => fields.contains_key("response"@) && has_wire_call(
            fields["response"@],
        ),
        _ => false,
    }
}

/// How deep responses stand inside each other.
pub open spec fn response_depth(value: JsonView) -> nat
    decreases value,
{
    match value {
        JsonView::Object(fields) => if fields.contains_key("response"@) {
            1 + response_depth(fields["response"@])
        } else {
            0
        },
        _ => 0,
    }
}

pub(crate) proof fn lemma_response_keys()
    ensures
        "response"@ != "namespace"@,
        "response"@ != "encrypted_function_args"@,
        "response"@ != "item"@,
        "response"@ != "output"@,
        "item"@ != "namespace"@,
        "item"@ != "encrypted_function_args"@,
        "item"@ != "output"@,
        "output"@ != "namespace"@,
        "output"@ != "encrypted_function_args"@,
{
    reveal_strlit("response");
    reveal_strlit("namespace");
    reveal_strlit("encrypted_function_args");
    reveal_strlit("item");
    reveal_strlit("output");
    assert("response"@.len() == 8 && "namespace"@.len() == 9);
    assert("encrypted_function_args"@.len() == 23 && "item"@.len() == 4 && "output"@.len() == 6);
}

fn restore_calls(items: &mut Vec<Json>) -> (r: bool)
    ensures
        array_view(final(items)@) == Seq::new(
            old(items)@.len(),
            |i: int| own_call(array_view(old(items)@)[i]),
        ),
        r == (exists|i: int|
            0 <= i < old(items)@.len() && is_wire_call(#[trigger] array_view(old(items)@)[i])),
{
    let ghost before = array_view(items@);
    let mut changed = false;
    let n = items.len();
    for i in 0..n
        invariant
            n == items@.len(),
            before == array_view(old(items)@),
            before.len() == n,
            changed == (exists|j: int| 0 <= j < i && is_wire_call(#[trigger] before[j])),
            forall|j: int| 0 <= j < i ==> (#[trigger] items@[j])@ == own_call(before[j]),
            forall|j: int| i <= j < n ==> (#[trigger] items@[j])@ == before[j],
    {
        assert(items@[i as int]@ == before[i as int]);
        if restore_call(&mut items[i]) {
            assert(is_wire_call(before[i as int]));
            changed = true;
        }
    }
    proof {
        assert(array_view(items@) =~= Seq::new(
            old(items)@.len(),
            |i: int| own_call(array_view(old(items)@)[i]),
        ));
    }
    changed
}

pub fn restore_response(value: &mut Json) -> (r: bool)
    ensures
        final(value)@ == own_response(old(value)@),
        r == has_wire_call(old(value)@),
    decreases response_depth(old(value)@),
{
    proof {
        lemma_response_keys();
    }
    let ghost start = value@;
    let own = restore_call(value);
    let ghost first = value@;
    assert(first.field("item"@) == start.field("item"@));
    assert(first.field("output"@) == start.field("output"@));
    assert(first.field("response"@) == start.field("response"@));
    let in_item = match value.get_mut("item") {
        Some(item) => restore_call(item),
        None => false,
    };
    let ghost second = value@;
    assert(second == with_own_item(first));
    let in_output = match value.array_at_mut("output") {
        Some(items) => restore_calls(items),
        None => false,
    };
    let ghost third = value@;
    assert(third == with_own_output(second));
    assert(third.field("response"@) == start.field("response"@));
    let in_response = match value.get_mut("response") {
        Some(response) => restore_response(response),
        None => false,
    };
    own || in_item || in_output || in_response
}

/// The value that bytes are as JSON text.
pub open spec fn json_of_bytes(bytes: Seq<u8>) -> Option<JsonView> {
    if valid_utf8(bytes) {
        match parsed_json(decode_utf8(bytes)) {
            Ok(value) => Some(value),
            Err(_) => None,
        }
    } else {
        None
    }
}

fn parse_bytes(bytes: &[u8]) -> (r: Option<Json>)
    ensures
        match r {
            Some(value) => json_of_bytes(bytes@) == Some(value@),
            None => json_of_bytes(bytes@) is None,
        },
{
    match text_of_utf8(bytes) {
        Some(text) => match Json::parse(text) {
            Ok(value) => Some(value),
            Err(_) => None,
        },
        None => None,
    }
}

/// Restores the calls of a response that is not a stream; without any the bytes stay as they are.
pub fn restore_json(bytes: &[u8]) -> (r: Vec<u8>)
    ensures
        r@ == (match json_of_bytes(bytes@) {
            Some(value) => if has_wire_call(value) {
                encode_utf8(json_text(own_response(value)))
            } else {
                bytes@
            },
            None => bytes@,
        }),
{
    let mut value = match parse_bytes(bytes) {
        Some(value) => value,
        None => {
            return vstd::slice::slice_to_vec(bytes);
        },
    };
    if restore_response(&mut value) {
        let text = value.to_text();
        vstd::slice::slice_to_vec(text.as_str().as_bytes())
    } else {
        vstd::slice::slice_to_vec(bytes)
    }
}

/// The values of the `data:` lines of a frame.
pub open spec fn frame_data(lines: Seq<Seq<char>>) -> Seq<Seq<char>>
    decreases lines.len(),
{
    if lines.len() == 0 {
        Seq::empty()
    } else if has_prefix(lines.last(), "data:"@) {
        frame_data(lines.drop_last()).push(data_value(lines.last()))
    } else {
        frame_data(lines.drop_last())
    }
}

/// The lines of a frame with its data replaced: one data line stands where the first stood.
pub open spec fn with_data(lines: Seq<Seq<char>>, data: Seq<char>) -> Seq<char>
    decreases lines.len(),
{
    if lines.len() == 0 {
        Seq::empty()
    } else {
        let before = with_data(lines.drop_last(), data);
        let line = lines.last();
        if !has_prefix(line, "data:"@) {
            before + line
        } else if frame_data(lines.drop_last()).len() > 0 {
            before
        } else {
            before + "data: "@ + data + if has_suffix(line, "\r\n"@) {
                "\r\n"@
            } else {
                "\n"@
            }
        }
    }
}

/// A frame with its calls restored; one without any stays as it is, byte by byte.
pub open spec fn own_frame(frame: Seq<u8>) -> Seq<u8> {
    if !valid_utf8(frame) {
        frame
    } else {
        let text = decode_utf8(frame);
        match parsed_json(joined(frame_data(lines_of(text)), "\n"@)) {
            Ok(value) => if has_wire_call(value) {
                encode_utf8(with_data(full_lines_of(text), json_text(own_response(value))))
            } else {
                frame
            },
            Err(_) => frame,
        }
    }
}

fn data_of(text: &str) -> (r: String)
    ensures
        r@ == joined(frame_data(lines_of(text@)), "\n"@),
{
    let list = lines(text);
    let ghost all = lines_of(text@);
    let mut data: Vec<String> = Vec::new();
    proof {
        reveal_strlit(" ");
        assert(texts(data@) =~= frame_data(all.take(0)));
    }
    for i in 0..list.len()
        invariant
            " "@.len() == 1,
            all == texts(list@),
            texts(data@) == frame_data(all.take(i as int)),
    {
        proof {
            assert(all.take(i + 1).drop_last() =~= all.take(i as int));
            assert(all.take(i + 1).last() == list@[i as int]@);
        }
        if let Some(rest) = strip_prefix(list[i].as_str(), "data:") {
            let value = match strip_prefix(rest, " ") {
                Some(value) => value,
                None => rest,
            };
            let ghost before = texts(data@);
            data.push(value.to_owned());
            assert(texts(data@) =~= before.push(value@));
        }
    }
    assert(all.take(list@.len() as int) =~= all);
    join(&data, "\n")
}

fn replace_data(text: &str, data: &str) -> (r: String)
    ensures
        r@ == with_data(full_lines_of(text@), data@),
{
    let list = full_lines(text);
    let ghost all = full_lines_of(text@);
    let mut output = String::new();
    let mut wrote = false;
    assert(output@ =~= with_data(all.take(0), data@));
    for i in 0..list.len()
        invariant
            all == texts(list@),
            output@ == with_data(all.take(i as int), data@),
            wrote == (frame_data(all.take(i as int)).len() > 0),
    {
        proof {
            assert(all.take(i + 1).drop_last() =~= all.take(i as int));
            assert(all.take(i + 1).last() == list@[i as int]@);
        }
        let line = list[i].as_str();
        if starts_with(line, "data:") {
            if !wrote {
                output.append("data: ");
                output.append(data);
                if ends_with(line, "\r\n") {
                    output.append("\r\n");
                } else {
                    output.append("\n");
                }
                wrote = true;
            }
        } else {
            output.append(line);
        }
    }
    assert(all.take(list@.len() as int) =~= all);
    output
}

pub fn rewrite_frame(frame: &[u8]) -> (r: Vec<u8>)
    ensures
        r@ == own_frame(frame@),
{
    let text = match text_of_utf8(frame) {
        Some(text) => text,
        None => {
            return vstd::slice::slice_to_vec(frame);
        },
    };
    let data = data_of(text);
    let mut value = match Json::parse(data.as_str()) {
        Ok(value) => value,
        Err(_) => {
            return vstd::slice::slice_to_vec(frame);
        },
    };
    if !restore_response(&mut value) {
        return vstd::slice::slice_to_vec(frame);
    }
    let payload = value.to_text();
    let output = replace_data(text, payload.as_str());
    vstd::slice::slice_to_vec(output.as_str().as_bytes())
}

/// Where the first frame of a buffer ends: at its first blank line.
pub open spec fn blank_line_end(buffer: Seq<u8>) -> Option<int> {
    match (first_end(buffer, line_feeds(), 0), first_end(buffer, crlf_pairs(), 0)) {
        (Some(a), Some(b)) => Some(
            if b < a {
                b
            } else {
                a
            },
        ),
        (Some(a), None) => Some(a),
        (None, b) => b,
    }
}

/// The complete frames of a buffer with their calls restored, and what is left of it.
pub open spec fn own_frames(buffer: Seq<u8>) -> (Seq<u8>, Seq<u8>)
    decreases buffer.len(),
{
    match blank_line_end(buffer) {
        Some(end) if 0 < end <= buffer.len() => {
            let (rest, left) = own_frames(buffer.skip(end));
            (own_frame(buffer.take(end)) + rest, left)
        },
        _ => (Seq::empty(), buffer),
    }
}

/// Restores the calls of a stream as it comes in.
#[derive(Debug, Default)]
pub struct NativeAgentSseRewriter {
    buffer: Vec<u8>,
}

impl View for NativeAgentSseRewriter {
    type V = Seq<u8>;

    closed spec fn view(&self) -> Seq<u8> {
        self.buffer@
    }
}

impl NativeAgentSseRewriter {
    pub fn new() -> (r: Self)
        ensures
            r@ == Seq::<u8>::empty(),
    {
        NativeAgentSseRewriter { buffer: Vec::new() }
    }

    /// Takes bytes in and gives the frames that they complete.
    pub fn push_bytes(&mut self, bytes: &[u8]) -> (r: Vec<u8>)
        ensures
            (r@, final(self)@) == own_frames(old(self)@ + bytes@),
    {
        push_all(&mut self.buffer, bytes);
        let mut output: Vec<u8> = Vec::new();
        let feeds: Vec<u8> = vec![10u8, 10u8];
        let pairs: Vec<u8> = vec![13u8, 10u8, 13u8, 10u8];
        assert(feeds@ =~= line_feeds());
        assert(pairs@ =~= crlf_pairs());
        let ghost all = own_frames(self.buffer@);
        assert(Seq::<u8>::empty() + all.0 =~= all.0);
        loop
            invariant
                feeds@ == line_feeds(),
                pairs@ == crlf_pairs(),
                all == (output@ + own_frames(self.buffer@).0, own_frames(self.buffer@).1),
            ensures
                all == (output@, self.buffer@),
            decreases self.buffer@.len(),
        {
            let end = match (
                find_end(self.buffer.as_slice(), &feeds),
                find_end(self.buffer.as_slice(), &pairs),
            ) {
                (Some(a), Some(b)) => if b < a {
                    Some(b)
                } else {
                    Some(a)
                },
                (Some(a), None) => Some(a),
                (None, b) => b,
            };
            match end {
                None => {
                    assert(output@ + Seq::<u8>::empty() =~= output@);
                    break ;
                },
                Some(end) => {
                    let ghost before = self.buffer@;
                    let mut frame = self.buffer.split_off(end);
                    std::mem::swap(&mut self.buffer, &mut frame);
                    assert(frame@ =~= before.take(end as int));
                    assert(self.buffer@ =~= before.skip(end as int));
                    let rewritten = rewrite_frame(frame.as_slice());
                    let ghost sent = output@;
                    push_all(&mut output, rewritten.as_slice());
                    proof {
                        let rest = own_frames(self.buffer@).0;
                        assert(sent + (rewritten@ + rest) =~= output@ + rest);
                    }
                },
            }
        }
        output
    }

    /// What is left at the end goes out as it came.
    pub fn finish(&mut self) -> (r: Vec<u8>)
        ensures
            r@ == old(self)@,
            final(self)@ == Seq::<u8>::empty(),
    {
        let mut rest: Vec<u8> = Vec::new();
        std::mem::swap(&mut rest, &mut self.buffer);
        rest
    }
}

proof fn lemma_first_end_bounds(bytes: Seq<u8>, pattern: Seq<u8>, from: int)
    requires
        0 <= from,
        pattern.len() > 0,
    ensures
        first_end(bytes, pattern, from) is Some ==> from + pattern.len() <= first_end(
            bytes,
            pattern,
            from,
        )->0 <= bytes.len(),
    decreases bytes.len() + 1 - from,
{
    if from + pattern.len() <= bytes.len() && !stands_at(bytes, pattern, from) {
        lemma_first_end_bounds(bytes, pattern, from + 1);
    }
}

/// What ends within the first part of some bytes ends there whatever follows; what first ends later
/// ends behind that part.
proof fn lemma_first_end_of_sum(a: Seq<u8>, b: Seq<u8>, pattern: Seq<u8>, from: int)
    requires
        0 <= from,
        pattern.len() > 0,
    ensures
        first_end(a, pattern, from) is Some ==> first_end(a + b, pattern, from) == first_end(
            a,
            pattern,
            from,
        ),
        first_end(a, pattern, from) is None && first_end(a + b, pattern, from) is Some
            ==> first_end(a + b, pattern, from)->0 > a.len(),
    decreases a.len() + 1 - from,
{
    let both = a + b;
    if from + pattern.len() <= a.len() {
        assert(both.subrange(from, from + pattern.len()) =~= a.subrange(
            from,
            from + pattern.len(),
        ));
        if !stands_at(a, pattern, from) {
            lemma_first_end_of_sum(a, b, pattern, from + 1);
        }
    } else {
        lemma_first_end_bounds(both, pattern, from);
    }
}

/// How a stream is cut into pieces does not matter: taking bytes in at once gives what taking them
/// in two pieces gives.
pub proof fn pieces_do_not_matter(a: Seq<u8>, b: Seq<u8>)
    ensures
        own_frames(a + b) == (
            own_frames(a).0 + own_frames(own_frames(a).1 + b).0,
            own_frames(own_frames(a).1 + b).1,
        ),
    decreases a.len(),
{
    let both = a + b;
    lemma_first_end_of_sum(a, b, line_feeds(), 0);
    lemma_first_end_of_sum(a, b, crlf_pairs(), 0);
    lemma_first_end_bounds(a, line_feeds(), 0);
    lemma_first_end_bounds(a, crlf_pairs(), 0);
    match blank_line_end(a) {
        Some(end) => {
            assert(blank_line_end(both) == Some(end));
            assert(both.take(end) =~= a.take(end));
            assert(both.skip(end) =~= a.skip(end) + b);
            pieces_do_not_matter(a.skip(end), b);
            let frame = own_frame(a.take(end));
            let (rest, left) = own_frames(a.skip(end));
            let more = own_frames(left + b).0;
            assert(frame + (rest + more) =~= (frame + rest) + more);
        },
        None => {
            assert(own_frames(a) == (Seq::<u8>::empty(), a));
            assert(Seq::<u8>::empty() + own_frames(both).0 =~= own_frames(both).0);
        },
    }
}

/// A call under the alias, restored and replayed in the next request, goes upstream under the alias
/// again, unless its message is encrypted.
pub proof fn restored_call_is_replayed(item: JsonView)
    requires
        is_wire_call(item),
        item.field("encrypted_function_args"@) is None || item.field("encrypted_function_args"@)
            == Some(JsonView::Null) || item.items_field("encrypted_function_args"@) == Some(
            Seq::<JsonView>::empty(),
        ),
    ensures
        is_wire_call(prepared_item(own_call(item))),
        item_changes(own_call(item)),
{
    reveal_strlit("namespace");
    reveal_strlit("encrypted_function_args");
    reveal_strlit("type");
    reveal_strlit("name");
    reveal_strlit("additional_tools");
    reveal_strlit("function_call");
    assert("namespace"@.len() == 9 && "encrypted_function_args"@.len() == 23);
    assert("type"@.len() == 4 && "name"@.len() == 4 && "type"@[0] == 't' && "name"@[0] == 'n');
    assert("additional_tools"@.len() == 16 && "function_call"@.len() == 13);
}

/// A response without a call under the alias is left as it is.
pub proof fn other_responses_stay(value: JsonView)
    requires
        !has_wire_call(value),
    ensures
        own_response(value) == value,
    decreases response_depth(value),
{
    lemma_response_keys();
    lemma_with_own_field(value, "item"@);
    lemma_with_own_field(value, "output"@);
    lemma_with_own_field(value, "response"@);
    if let Some(items) = value.items_field("output"@) {
        assert forall|i: int| 0 <= i < items.len() implies own_call(#[trigger] items[i])
            == items[i] by {
            assert(!is_wire_call(items[i]));
        }
        assert(Seq::new(items.len(), |i: int| own_call(items[i])) =~= items);
    }
    assert(with_own_output(with_own_item(own_call(value))) == value);
    if let Some(response) = value.field("response"@) {
        other_responses_stay(response);
    }
}

pub(crate) proof fn lemma_request_keys()
    ensures
        "tools"@ != "input"@,
        "tools"@ != "type"@,
        "tools"@ != "name"@,
        "type"@ != "name"@,
        "type"@ != "namespace"@,
        native_namespace() != wire_namespace(),
        "function_call"@ != "additional_tools"@,
{
    reveal_strlit("tools");
    reveal_strlit("input");
    reveal_strlit("type");
    reveal_strlit("name");
    reveal_strlit("namespace");
    reveal_strlit("collaboration");
    reveal_strlit("codexpp_native_collaboration");
    reveal_strlit("function_call");
    reveal_strlit("additional_tools");
    assert("tools"@[0] == 't' && "input"@[0] == 'i');
    assert("type"@[0] == 't' && "name"@[0] == 'n');
    assert("tools"@.len() == 5 && "type"@.len() == 4 && "name"@.len() == 4);
    assert("namespace"@.len() == 9);
    assert("collaboration"@.len() == 13 && "codexpp_native_collaboration"@.len() == 28);
    assert("function_call"@.len() == 13 && "additional_tools"@.len() == 16);
}

proof fn lemma_prepared_tools_stay(tools: Seq<JsonView>)
    ensures
        !has_native_namespace(prepared_tools(tools)),
        !has_native_namespace(tools) ==> prepared_tools(tools) == tools,
{
    lemma_request_keys();
    let prepared = prepared_tools(tools);
    assert forall|i: int| 0 <= i < prepared.len() implies !is_native_namespace(
        #[trigger] prepared[i],
    ) by {
        assert(prepared[i] == prepared_tool(tools[i]));
        if is_native_namespace(tools[i]) {
            assert(prepared[i].text_field("name"@) == Some(wire_namespace()));
        }
    }
    if !has_native_namespace(tools) {
        assert forall|i: int| 0 <= i < tools.len() implies prepared[i] == #[trigger] tools[i] by {
            assert(!is_native_namespace(tools[i]));
        }
        assert(prepared =~= tools);
    }
}

proof fn lemma_prepared_item_stays(item: JsonView)
    ensures
        !item_changes(prepared_item(item)),
        !item_changes(item) ==> prepared_item(item) == item,
{
    lemma_request_keys();
    if item.text_field("type"@) == Some("additional_tools"@) {
        if let Some(tools) = item.items_field("tools"@) {
            lemma_prepared_tools_stay(tools);
            lemma_with_own_field(item, "tools"@);
            let prepared = prepared_item(item);
            assert(prepared.text_field("type"@) == item.text_field("type"@));
            assert(prepared.items_field("tools"@) == Some(prepared_tools(tools)));
        }
    } else if is_plain_native_call(item) {
        let prepared = prepared_item(item);
        assert(prepared.text_field("type"@) == item.text_field("type"@));
        assert(prepared.text_field("namespace"@) == Some(wire_namespace()));
    }
}

proof fn lemma_unchanged_request_stays(body: JsonView)
    requires
        !request_changes(body),
    ensures
        prepared_request(body) == body,
{
    lemma_with_own_field(body, "tools"@);
    lemma_with_own_field(body, "input"@);
    if let Some(tools) = body.items_field("tools"@) {
        lemma_prepared_tools_stay(tools);
    }
    assert(with_prepared_tools(body) == body);
    if let Some(items) = body.items_field("input"@) {
        let prepared = Seq::new(items.len(), |i: int| prepared_item(items[i]));
        assert forall|i: int| 0 <= i < items.len() implies prepared[i] == #[trigger] items[i] by {
            assert(!item_changes(items[i]));
            lemma_prepared_item_stays(items[i]);
        }
        assert(prepared =~= items);
    }
}

/// A request that was prepared has nothing left to rename: preparing it again changes nothing. And
/// a request changes exactly where preparing it tells so.
pub proof fn prepared_request_stays(body: JsonView)
    ensures
        !request_changes(prepared_request(body)),
        prepared_request(prepared_request(body)) == prepared_request(body),
        request_changes(body) == (prepared_request(body) != body),
{
    lemma_request_keys();
    let middle = with_prepared_tools(body);
    let prepared = prepared_request(body);
    assert(middle.items_field("input"@) == body.items_field("input"@));
    assert(prepared.items_field("tools"@) == middle.items_field("tools"@));
    if let Some(tools) = body.items_field("tools"@) {
        lemma_prepared_tools_stay(tools);
        assert(middle.items_field("tools"@) == Some(prepared_tools(tools)));
    }
    if let Some(items) = body.items_field("input"@) {
        let after = Seq::new(items.len(), |i: int| prepared_item(items[i]));
        assert(prepared.items_field("input"@) == Some(after));
        assert forall|i: int| 0 <= i < after.len() implies !item_changes(#[trigger] after[i]) by {
            lemma_prepared_item_stays(items[i]);
        }
    }
    lemma_unchanged_request_stays(prepared);
    if !request_changes(body) {
        lemma_unchanged_request_stays(body);
    }
}

/// Of the native calls in the history those with an encrypted message keep their namespace, and all
/// others get the alias.
pub proof fn encrypted_messages_keep_their_namespace(item: JsonView)
    requires
        item.text_field("type"@) == Some("function_call"@),
        item.text_field("namespace"@) == Some(native_namespace()),
    ensures
        prepared_item(item).text_field("namespace"@) == Some(
            if carries_message(item.text_or_empty("name"@)) && item.items_field(
                "encrypted_function_args"@,
            ) != Some(Seq::<JsonView>::empty()) {
                native_namespace()
            } else {
                wire_namespace()
            },
        ),
{
    lemma_request_keys();
}

} // verus!
