//! What the client sees of a stream.
use vstd::prelude::*;
use vstd::utf8::encode_utf8;

use super::decode::decoded_arguments;
use super::encode::converted_items;
use super::laws::lemma_converted_each;
use super::plan::{AdapterErrorCode, AdapterErrorView};
use super::request_laws::lemma_names;
use super::restore::{client_item_id, is_managed, restored_echo};
use super::rewriter::{
    call_item, input_event, item_event, PendingView, RewriterView, Step, StreamView,
};
use crate::json::{empty_object, JsonView};
use crate::sse::{frame_bytes, parsed_frame};
use crate::text::decimal;

verus! {

proof fn lemma_event_names()
    ensures
        "sequence_number"@.len() == 15,
        "output_index"@.len() == 12,
        "item"@.len() == 4 && "item"@[0] == 'i',
        "item_id"@.len() == 7 && "item_id"@[0] == 'i',
        "call_id"@.len() == 7 && "call_id"@[0] == 'c',
        "delta"@.len() == 5 && "delta"@[0] == 'd',
        "code"@.len() == 4 && "code"@[0] == 'c',
        "message"@.len() == 7 && "message"@[0] == 'm',
        "error"@.len() == 5,
        "response"@.len() == 8,
        "output"@.len() == 6 && "output"@[0] == 'o',
{
    reveal_strlit("sequence_number");
    reveal_strlit("output_index");
    reveal_strlit("item");
    reveal_strlit("item_id");
    reveal_strlit("call_id");
    reveal_strlit("delta");
    reveal_strlit("code");
    reveal_strlit("message");
    reveal_strlit("error");
    reveal_strlit("response");
    reveal_strlit("output");
}

/// Whether a value is another with a number of its own, and nothing else changed.
pub open spec fn is_numbered(sent: JsonView, data: JsonView, number: int) -> bool {
    &&& sent.field("sequence_number"@) == Some(JsonView::Integer(number))
    &&& forall|k: Seq<char>|
        k != "sequence_number"@ ==> #[trigger] sent.field(k) == data.field(k)
}

/// A frame that goes out carries its data with the next number, and the numbers go on by one; data
/// that is no object goes out as it is. The event's name is the given one, or the type of the data.
/// Nothing else of the stream changes.
pub proof fn frames_are_numbered_in_turn(
    stream: StreamView,
    event: Option<Seq<char>>,
    data: JsonView,
)
    ensures
        ({
            let step = stream.emit(event, data);
            let name = if event is Some {
                event->0
            } else {
                data.text_or_empty("type"@)
            };
            &&& data is Object ==> {
                &&& exists|sent: JsonView| #[trigger]
                    is_numbered(sent, data, stream.sequence) && step.output == frame_bytes(
                        name,
                        sent,
                    )
                &&& step.stream.sequence == stream.sequence + 1
            }
            &&& !(data is Object) ==> step.output == frame_bytes(name, data) && step.stream
                == stream
            &&& step.stream.plan == stream.plan && step.stream.pending == stream.pending
                && step.stream.item_index == stream.item_index && step.stream.failure
                == stream.failure && step.stream.total_buffered == stream.total_buffered
        }),
{
    lemma_names();
    lemma_event_names();
    let sent = data.with("sequence_number"@, JsonView::Integer(stream.sequence));
    if data is Object {
        assert(is_numbered(sent, data, stream.sequence));
        assert(sent.field("type"@) == data.field("type"@));
    }
}

/// Whether a value is the item of a custom call.
pub open spec fn is_call_item(
    item: JsonView,
    id: Seq<char>,
    call_id: Seq<char>,
    name: Seq<char>,
    status: Seq<char>,
    input: Seq<char>,
) -> bool {
    &&& item.text_field("type"@) == Some("custom_tool_call"@)
    &&& item.text_field("id"@) == Some(id)
    &&& item.text_field("call_id"@) == Some(call_id)
    &&& item.text_field("name"@) == Some(name)
    &&& item.text_field("status"@) == Some(status)
    &&& item.text_field("input"@) == Some(input)
    &&& item.field("arguments"@) is None
}

pub open spec fn tells_item(
    event: JsonView,
    kind: Seq<char>,
    index: u32,
    number: int,
) -> bool {
    &&& event.text_field("type"@) == Some(kind)
    &&& event.field("output_index"@) == Some(JsonView::Integer(index as int))
    &&& event.field("sequence_number"@) == Some(JsonView::Integer(number))
    &&& event.field("item"@) is Some
}

pub open spec fn tells_input(
    event: JsonView,
    kind: Seq<char>,
    index: u32,
    id: Seq<char>,
    call_id: Seq<char>,
    number: int,
) -> bool {
    &&& event.text_field("type"@) == Some(kind)
    &&& event.field("output_index"@) == Some(JsonView::Integer(index as int))
    &&& event.field("sequence_number"@) == Some(JsonView::Integer(number))
    &&& event.text_field("item_id"@) == Some(id)
    &&& event.text_field("call_id"@) == Some(call_id)
}

/// The four events of a custom call, with one input in all of them: the announcement, whose item has
/// no input yet, the input in one piece, the whole input, and the finished item. An empty input has
/// no piece.
pub open spec fn tells_call(
    events: (JsonView, JsonView, JsonView, JsonView),
    index: u32,
    id: Seq<char>,
    call_id: Seq<char>,
    name: Seq<char>,
    namespace: Seq<char>,
    status: Option<Seq<char>>,
    input: Seq<char>,
    number: int,
) -> bool {
    let (added, piece, whole, done) = events;
    let next = if input.len() > 0 {
        number + 2
    } else {
        number + 1
    };
    &&& tells_item(added, "response.output_item.added"@, index, number)
    &&& is_call_item(
        added.field("item"@)->0,
        id,
        call_id,
        name,
        if status is Some {
            status->0
        } else {
            "in_progress"@
        },
        Seq::empty(),
    )
    &&& namespace.len() > 0 ==> added.field("item"@)->0.text_field("namespace"@) == Some(namespace)
    &&& namespace.len() == 0 ==> added.field("item"@)->0.field("namespace"@) is None
    &&& input.len() > 0 ==> tells_input(
        piece,
        "response.custom_tool_call_input.delta"@,
        index,
        id,
        call_id,
        number + 1,
    ) && piece.text_field("delta"@) == Some(input)
    &&& tells_input(
        whole,
        "response.custom_tool_call_input.done"@,
        index,
        id,
        call_id,
        next,
    )
    &&& whole.text_field("input"@) == Some(input)
    &&& tells_item(done, "response.output_item.done"@, index, next + 1)
    &&& is_call_item(
        done.field("item"@)->0,
        id,
        call_id,
        name,
        if status is Some {
            status->0
        } else {
            "completed"@
        },
        input,
    )
    &&& done.field("item"@)->0.field("namespace"@) is None
}

/// The bytes of those events.
pub open spec fn call_bytes(
    events: (JsonView, JsonView, JsonView, JsonView),
    input: Seq<char>,
) -> Seq<u8> {
    frame_bytes("response.output_item.added"@, events.0) + (if input.len() > 0 {
        frame_bytes("response.custom_tool_call_input.delta"@, events.1)
    } else {
        Seq::empty()
    }) + frame_bytes("response.custom_tool_call_input.done"@, events.2) + frame_bytes(
        "response.output_item.done"@,
        events.3,
    )
}

/// A call whose arguments decode goes out with the input they decode to, in every event that tells
/// of it, under the client's name and ids; the stream remembers it as delivered, and nothing else
/// about the other calls changes.
pub proof fn delivered_call_tells_its_input(
    stream: StreamView,
    index: u32,
    item_id: Seq<char>,
    call_id: Seq<char>,
    wire_name: Seq<char>,
    arguments: Seq<char>,
    status: Option<Seq<char>>,
    input: Seq<char>,
)
    requires
        decoded_arguments(arguments) == Ok::<Seq<char>, AdapterErrorView>(input),
        stream.plan.wire_tools.contains_key(wire_name),
    ensures
        ({
            let step = stream.deliver(index, item_id, call_id, wire_name, arguments, status);
            let tool = stream.plan.wire_tools[wire_name];
            &&& exists|events: (JsonView, JsonView, JsonView, JsonView)| #[trigger]
                tells_call(
                    events,
                    index,
                    client_item_id(item_id, call_id),
                    call_id,
                    tool.client_name,
                    tool.namespace,
                    status,
                    input,
                    stream.sequence,
                ) && step.output == call_bytes(events, input)
            &&& step.stream.failure == stream.failure
            &&& step.stream.pending.dom() == stream.pending.dom()
            &&& stream.pending.contains_key(index) ==> step.stream.pending[index].delivered_input
                == Some(input) && step.stream.pending[index].call_id == call_id
            &&& forall|other: u32|
                other != index && stream.pending.contains_key(other)
                    ==> #[trigger] step.stream.pending[other] == stream.pending[other]
        }),
{
    lemma_names();
    lemma_event_names();
    let step = stream.deliver(index, item_id, call_id, wire_name, arguments, status);
    let tool = stream.plan.wire_tools[wire_name];
    let id = client_item_id(item_id, call_id);
    let n = stream.sequence;
    let next = if input.len() > 0 {
        n + 2
    } else {
        n + 1
    };
    let added = item_event(
        "response.output_item.added"@,
        index,
        super::restore::with_namespace(
            call_item(
                id,
                super::rewriter::text_of(status, "in_progress"@),
                call_id,
                tool,
                Seq::empty(),
            ),
            tool.namespace,
        ),
    ).with("sequence_number"@, JsonView::Integer(n));
    let piece = input_event(
        "response.custom_tool_call_input.delta"@,
        id,
        call_id,
        index,
    ).with_text("delta"@, input).with("sequence_number"@, JsonView::Integer(n + 1));
    let whole = input_event(
        "response.custom_tool_call_input.done"@,
        id,
        call_id,
        index,
    ).with_text("input"@, input).with("sequence_number"@, JsonView::Integer(next));
    let done = item_event(
        "response.output_item.done"@,
        index,
        call_item(
            id,
            super::rewriter::text_of(status, "completed"@),
            call_id,
            tool,
            input,
        ),
    ).with("sequence_number"@, JsonView::Integer(next + 1));
    let events = (added, piece, whole, done);
    assert(tells_call(
        events,
        index,
        id,
        call_id,
        tool.client_name,
        tool.namespace,
        status,
        input,
        n,
    ));
    assert(step.output =~= call_bytes(events, input));
    assert(step.stream.pending.dom() =~= stream.pending.dom());
}

/// A call that cannot be delivered is not sent in part: nothing goes out, and the stream has failed.
pub proof fn undeliverable_call_is_not_sent(
    stream: StreamView,
    index: u32,
    item_id: Seq<char>,
    call_id: Seq<char>,
    wire_name: Seq<char>,
    arguments: Seq<char>,
    status: Option<Seq<char>>,
)
    requires
        decoded_arguments(arguments) is Err || !stream.plan.wire_tools.contains_key(wire_name),
    ensures
        ({
            let step = stream.deliver(index, item_id, call_id, wire_name, arguments, status);
            &&& step.output == Seq::<u8>::empty()
            &&& step.stream.failure is Some
            &&& stream.failure is None && decoded_arguments(arguments) is Err
                ==> step.stream.failure == Some(decoded_arguments(arguments)->Err_0)
            &&& step.stream.pending == stream.pending
        }),
{
}

/// The first failure of a stream is the one that counts.
pub proof fn first_failure_stays(stream: StreamView, error: AdapterErrorView)
    ensures
        stream.failure is Some ==> stream.failed(error) == stream,
        stream.failure is None ==> stream.failed(error).failure == Some(error)
            && stream.failed(error).pending == stream.pending && stream.failed(error).sequence
            == stream.sequence,
{
}

/// An announced call of the plan is held with its ids and name and no arguments yet, and can be
/// found by its item id; nothing goes out. Any other announcement goes out.
pub proof fn announced_call_is_held(stream: StreamView, data: JsonView, event: Option<Seq<char>>)
    requires
        data.field("item"@) is Some,
    ensures
        ({
            let item = data.field("item"@)->0;
            let name = item.text_or_empty("name"@);
            let place = if data.natural_field("output_index"@) is Some {
                data.natural_field("output_index"@)->0 as u32
            } else {
                0u32
            };
            let after = stream.item_added(data, event);
            let held = item.text_field("type"@) == Some("function_call"@)
                && stream.plan.wire_tools.contains_key(name);
            &&& !held ==> after == stream.emit(event, data)
            &&& held ==> after.output == Seq::<u8>::empty()
            &&& held && stream.pending.contains_key(place) ==> after.stream.failure is Some
                && after.stream.pending == stream.pending
            &&& held && !stream.pending.contains_key(place) && stream.pending.dom().len() >= 128
                ==> after.stream.failure is Some && after.stream.pending == stream.pending
            &&& held && !stream.pending.contains_key(place) && stream.pending.dom().len() < 128 ==> {
                let call = after.stream.pending[place];
                &&& after.stream.failure == stream.failure
                &&& after.stream.pending.dom() == stream.pending.dom().insert(place)
                &&& call.item_id == item.text_or_empty("id"@)
                &&& call.call_id == item.text_or_empty("call_id"@)
                &&& call.wire_name == name
                &&& call.arguments.len() == 0
                &&& call.done_arguments is None
                &&& call.delivered_input is None
                &&& call.item_id.len() > 0 ==> after.stream.item_index.contains_key(call.item_id)
                    && after.stream.item_index[call.item_id] == place
                &&& forall|other: u32|
                    other != place && stream.pending.contains_key(other)
                        ==> #[trigger] after.stream.pending[other] == stream.pending[other]
            }
        }),
{
    let item = data.field("item"@)->0;
    let after = stream.item_added(data, event).stream;
    assert(after.pending.dom() =~= stream.pending.dom() || after.pending.dom()
        =~= stream.pending.dom().insert(super::rewriter::output_index(data)));
}

/// A call is found by the item id of an event, where that is known, and else by its place.
pub proof fn call_is_found_by_id_first(stream: StreamView, data: JsonView)
    ensures
        data.text_field("item_id"@) is Some && stream.item_index.contains_key(
            data.text_field("item_id"@)->0,
        ) ==> stream.resolved_index(data) == Some(
            stream.item_index[data.text_field("item_id"@)->0],
        ),
        (data.text_field("item_id"@) is None || !stream.item_index.contains_key(
            data.text_field("item_id"@)->0,
        )) && data.natural_field("output_index"@) is Some && stream.pending.contains_key(
            data.natural_field("output_index"@)->0 as u32,
        ) ==> stream.resolved_index(data) == Some(data.natural_field("output_index"@)->0 as u32),
        (data.text_field("item_id"@) is None || !stream.item_index.contains_key(
            data.text_field("item_id"@)->0,
        )) && (data.natural_field("output_index"@) is None || !stream.pending.contains_key(
            data.natural_field("output_index"@)->0 as u32,
        )) ==> stream.resolved_index(data) is None,
{
}

/// A piece of arguments is added to those of its call, within eight mebibytes for a call and
/// thirty-two together; beyond that, or after the call was delivered, the stream fails. Nothing goes
/// out, and no other call changes.
pub proof fn pieces_of_arguments_add_up(
    stream: StreamView,
    data: JsonView,
    event: Option<Seq<char>>,
    index: u32,
)
    requires
        data.text_field("delta"@) is Some,
        stream.resolved_index(data) == Some(index),
        stream.pending.contains_key(index),
        stream.failure is None,
    ensures
        ({
            let delta = data.text_field("delta"@)->0;
            let before = stream.pending[index];
            let step = stream.arguments_delta(data, event);
            let after = step.stream.pending[index];
            let size = encode_utf8(before.arguments + delta).len();
            let total = stream.total_buffered + encode_utf8(delta).len();
            &&& step.output == Seq::<u8>::empty()
            &&& before.delivered_input is Some ==> step.stream.failure is Some
                && step.stream.pending == stream.pending
            &&& before.delivered_input is None ==> {
                &&& after.arguments == before.arguments + delta
                &&& after.done_arguments == before.done_arguments
                &&& after.call_id == before.call_id && after.item_id == before.item_id
                    && after.wire_name == before.wire_name
                &&& after.delivered_input is None
                &&& step.stream.failure is Some == (size > 8388608 || total > 33554432)
                &&& step.stream.failure is Some ==> step.stream.failure->0.code
                    == AdapterErrorCode::BufferLimit
                &&& total <= 33554432 ==> step.stream.total_buffered == total
            }
            &&& forall|other: u32|
                other != index && stream.pending.contains_key(other)
                    ==> #[trigger] step.stream.pending[other] == stream.pending[other]
        }),
{
    assert(33554432 <= usize::MAX);
}

/// Arguments that come in full are kept for their call, beside the pieces; where both decode and
/// differ, or the call was delivered, the stream fails.
pub proof fn full_arguments_are_kept(
    stream: StreamView,
    data: JsonView,
    event: Option<Seq<char>>,
    index: u32,
)
    requires
        data.text_field("arguments"@) is Some,
        stream.resolved_index(data) == Some(index),
        stream.pending.contains_key(index),
        stream.failure is None,
    ensures
        ({
            let full = data.text_field("arguments"@)->0;
            let before = stream.pending[index];
            let step = stream.arguments_done(data, event);
            let after = step.stream.pending[index];
            let (a, b) = (decoded_arguments(before.arguments), decoded_arguments(full));
            let differ = before.arguments.len() > 0 && full.len() > 0 && a is Ok && b is Ok
                && a->Ok_0 != b->Ok_0;
            &&& step.output == Seq::<u8>::empty()
            &&& step.stream.failure is Some == (before.delivered_input is Some || differ)
            &&& before.delivered_input is None && differ ==> step.stream.failure->0.code
                == AdapterErrorCode::InvalidArguments
            &&& step.stream.failure is Some ==> step.stream.pending == stream.pending
            &&& step.stream.failure is None ==> after.done_arguments == Some(full)
                && after.arguments == before.arguments && after.delivered_input is None
                && after.call_id == before.call_id && after.item_id == before.item_id
                && after.wire_name == before.wire_name
            &&& forall|other: u32|
                other != index && stream.pending.contains_key(other)
                    ==> #[trigger] step.stream.pending[other] == stream.pending[other]
        }),
{
}

/// Events about calls that are not held go out as they came.
pub proof fn events_of_other_calls_go_out(
    stream: StreamView,
    data: JsonView,
    event: Option<Seq<char>>,
)
    requires
        stream.known_index(data) is None,
    ensures
        stream.arguments_delta(data, event) == stream.emit(event, data),
        stream.arguments_done(data, event) == stream.emit(event, data),
        data.field("item"@) is None ==> stream.item_done(data, event) == stream.emit(event, data),
        data.field("item"@) is Some && (data.field("item"@)->0.text_field("type"@) != Some(
            "function_call"@,
        ) || !stream.plan.wire_tools.contains_key(
            data.field("item"@)->0.text_or_empty("name"@),
        )) ==> stream.item_done(data, event) == stream.emit(event, data),
{
}

/// A held call that is complete is delivered under its own ids, with the arguments that came in
/// full, or else those of its item, or else those gathered. A changed name or item id fails the
/// stream.
pub proof fn complete_call_is_delivered(stream: StreamView, index: u32, item: JsonView)
    requires
        stream.pending.contains_key(index),
        stream.pending[index].delivered_input is None,
        item.text_field("status"@) != Some("incomplete"@),
        item.text_field("status"@) != Some("failed"@),
    ensures
        ({
            let call = stream.pending[index];
            let id = item.text_or_empty("id"@);
            let same = item.text_or_empty("name"@) == call.wire_name && (call.item_id.len() == 0
                || id.len() == 0 || id == call.item_id);
            let call_id = if item.text_field("call_id"@) is Some {
                item.text_field("call_id"@)->0
            } else {
                call.call_id
            };
            let own = item.text_or_empty("arguments"@);
            let step = stream.call_done(index, item);
            &&& !same ==> step.output == Seq::<u8>::empty() && step.stream.failure is Some
                && step.stream.pending == stream.pending
            &&& same && call.done_arguments is Some && call.done_arguments->0.len() > 0 ==> step
                == stream.deliver(
                index,
                call.item_id,
                call_id,
                call.wire_name,
                call.done_arguments->0,
                item.text_field("status"@),
            )
            &&& same && (call.done_arguments is None || call.done_arguments->0.len() == 0)
                && own.len() > 0 ==> step == stream.deliver(
                index,
                call.item_id,
                call_id,
                call.wire_name,
                own,
                item.text_field("status"@),
            )
            &&& same && (call.done_arguments is None || call.done_arguments->0.len() == 0)
                && own.len() == 0 ==> step == stream.deliver(
                index,
                call.item_id,
                call_id,
                call.wire_name,
                call.arguments,
                item.text_field("status"@),
            )
        }),
{
}

/// A delivered call whose item comes again with another input fails the stream; with the same, or
/// with arguments that do not decode, nothing happens.
pub proof fn repeated_item_must_agree(stream: StreamView, index: u32, item: JsonView)
    requires
        stream.pending.contains_key(index),
        stream.pending[index].delivered_input is Some,
        stream.failure is None,
    ensures
        ({
            let delivered = stream.pending[index].delivered_input->0;
            let own = item.text_or_empty("arguments"@);
            let step = stream.call_done(index, item);
            &&& step.output == Seq::<u8>::empty()
            &&& step.stream.pending == stream.pending
            &&& step.stream.failure is Some == (own.len() > 0 && decoded_arguments(own) is Ok
                && decoded_arguments(own)->Ok_0 != delivered)
        }),
{
}

/// A call that was never announced is delivered from its item, where that has a call id and the call
/// came to an end.
pub proof fn unannounced_call_is_delivered(stream: StreamView, item: JsonView, index: u32)
    ensures
        ({
            let call_id = item.text_or_empty("call_id"@);
            let unfinished = item.text_field("status"@) == Some("incomplete"@) || item.text_field(
                "status"@,
            ) == Some("failed"@);
            let step = stream.deliver_item(item, index);
            &&& call_id.len() == 0 ==> step.output == Seq::<u8>::empty()
                && step.stream.failure is Some
            &&& call_id.len() > 0 && unfinished ==> step == (Step {
                stream,
                output: Seq::<u8>::empty(),
            })
            &&& call_id.len() > 0 && !unfinished ==> step == stream.deliver(
                index,
                item.text_or_empty("id"@),
                call_id,
                item.text_or_empty("name"@),
                item.text_or_empty("arguments"@),
                item.text_field("status"@),
            )
        }),
{
}

/// At the end of a response a managed call is shown as a custom call, with its client's name and
/// namespace, its status and the input that its arguments decode to. Without a delivery a failed
/// response shows no input.
pub proof fn final_calls_are_shown(stream: StreamView, item: JsonView, failed: bool)
    requires
        is_managed(item, stream.plan),
        stream.ending_item(item, failed) is Ok,
    ensures
        ({
            let shown = stream.ending_item(item, failed)->Ok_0;
            let tool = stream.plan.wire_tools[item.text_or_empty("name"@)];
            let call_id = item.text_or_empty("call_id"@);
            let hidden = failed && stream.delivered_for(item) is None;
            &&& shown.text_field("type"@) == Some("custom_tool_call"@)
            &&& shown.text_field("name"@) == Some(tool.client_name)
            &&& shown.text_field("call_id"@) == Some(call_id)
            &&& item.text_field("id"@) is Some ==> shown.text_field("id"@) == Some(
                client_item_id(item.text_field("id"@)->0, call_id),
            )
            &&& item.text_field("id"@) is None ==> shown.text_field("id"@) == Some(
                "ctc_"@ + call_id,
            )
            &&& shown.field("arguments"@) is None
            &&& item.text_field("status"@) is Some ==> shown.text_field("status"@)
                == item.text_field("status"@)
            &&& item.text_field("status"@) is None ==> shown.text_field("status"@) == Some(
                if hidden {
                    "incomplete"@
                } else {
                    "completed"@
                },
            )
            &&& hidden ==> shown.text_field("input"@) == Some(Seq::<char>::empty())
            &&& !hidden ==> shown.text_field("input"@) is Some && decoded_arguments(
                item.text_or_empty("arguments"@),
            ) == Ok::<Seq<char>, AdapterErrorView>(shown.text_field("input"@)->0)
            &&& !hidden && tool.namespace.len() > 0 ==> shown.text_field("namespace"@) == Some(
                tool.namespace,
            )
            &&& hidden || tool.namespace.len() == 0 ==> shown.field("namespace"@) is None
        }),
{
    lemma_names();
}

pub open spec fn did_not_complete(data: JsonView) -> bool {
    data.text_field("type"@) != Some("response.completed"@)
}

/// The end of a response goes out with every item of its output in its place, managed calls shown as
/// custom ones and all others as they are; its other fields stay, and no call is held any more.
pub proof fn end_of_response_goes_out(
    stream: StreamView,
    data: JsonView,
    event: Option<Seq<char>>,
)
    requires
        data.field("response"@) is Some,
        data.field("response"@)->0.items_field("output"@) is Some,
        stream.response_end(data, event).stream.failure == stream.failure,
        stream.failure is None,
    ensures
        ({
            let step = stream.response_end(data, event);
            &&& step.stream.pending == Map::<u32, PendingView>::empty()
            &&& step.stream.item_index == Map::<Seq<char>, u32>::empty()
            &&& exists|sent: JsonView|
                (#[trigger] shows_end(stream, data, sent, did_not_complete(data))) && goes_out(
                    stream,
                    step,
                    event,
                    sent,
                )
        }),
{
    lemma_names();
    lemma_event_names();
    let failed = data.text_field("type"@) != Some("response.completed"@);
    let response = data.field("response"@)->0;
    let items = response.items_field("output"@)->0;
    assert(stream.ending_refusal(response, failed) is None);
    let done = converted_items(items, stream.ending_step(failed));
    let told = stream.ending_response(response, failed);
    let middle = response.with("output"@, JsonView::Array(done));
    super::response_laws::echoed_choice_is_the_clients(middle, stream.plan);
    assert(told == restored_echo(middle, stream.plan));
    assert(told.items_field("output"@) == Some(done));
    assert forall|i: int| 0 <= i < items.len() implies stream.ending_item(
        #[trigger] items[i],
        failed,
    ) == Ok::<JsonView, AdapterErrorView>(done[i]) by {
        lemma_converted_each(items, stream.ending_step(failed), i);
        assert(stream.ending_step(failed)(i, items[i]) == stream.ending_item(items[i], failed));
    }
    let sent = data.with("response"@, told);
    assert(shows_end(stream, data, sent, did_not_complete(data)));
    assert(stream.response_end(data, event) == stream.without_calls().emit(event, sent));
    let step = stream.response_end(data, event);
    assert(goes_out(stream, step, event, sent));
}

/// Whether a step sends one frame and lets go of all calls.
pub open spec fn goes_out(
    stream: StreamView,
    step: Step,
    event: Option<Seq<char>>,
    sent: JsonView,
) -> bool {
    let bare = StreamView { pending: Map::empty(), item_index: Map::empty(), ..stream };
    step == bare.emit(event, sent)
}

/// Whether a value is the end of a response as the client sees it.
pub open spec fn shows_end(
    stream: StreamView,
    data: JsonView,
    sent: JsonView,
    failed: bool,
) -> bool {
    let before = data.field("response"@)->0;
    let after = sent.field("response"@)->0;
    let items = before.items_field("output"@)->0;
    let shown = after.items_field("output"@);
    &&& forall|k: Seq<char>| k != "response"@ ==> #[trigger] sent.field(k) == data.field(k)
    &&& sent.field("response"@) is Some
    &&& forall|k: Seq<char>|
        k != "output"@ && k != "tools"@ && k != "tool_choice"@ ==> #[trigger] after.field(k)
            == before.field(k)
    &&& shown is Some
    &&& shown->0.len() == items.len()
    &&& forall|i: int|
        0 <= i < items.len() ==> if is_managed(#[trigger] items[i], stream.plan) {
            stream.ending_item(items[i], failed) == Ok::<JsonView, AdapterErrorView>(shown->0[i])
        } else {
            shown->0[i] == items[i]
        }
}

/// A frame without JSON goes out byte by byte; an error of the upstream goes out too and ends the
/// stream.
pub proof fn foreign_frames_go_out(stream: StreamView, frame: Seq<u8>)
    ensures
        ({
            let parsed = parsed_frame(frame);
            let step = stream.frame_step(frame);
            &&& parsed.json() is None ==> step.output == frame && step.stream == stream
            &&& parsed.json() is Some && (parsed.event == Some("error"@)
                || parsed.json()->0.text_field("type"@) == Some("error"@)) ==> {
                &&& step.stream.failure is Some
                &&& stream.failure is None ==> step.stream.failure->0.code
                    == AdapterErrorCode::StreamIncomplete
                &&& step.output == stream.emit(parsed.event, parsed.json()->0).output
            }
        }),
{
}

/// Which event does what.
pub proof fn events_are_told_apart(stream: StreamView, data: JsonView, event: Option<Seq<char>>)
    ensures
        ({
            let kind = data.text_or_empty("type"@);
            let step = stream.event_step(data, event);
            &&& kind == "response.output_item.added"@ ==> step == stream.item_added(data, event)
            &&& kind == "response.function_call_arguments.delta"@ ==> step
                == stream.arguments_delta(data, event)
            &&& kind == "response.function_call_arguments.done"@ ==> step == stream.arguments_done(
                data,
                event,
            )
            &&& kind == "response.output_item.done"@ ==> step == stream.item_done(data, event)
            &&& kind == "response.completed"@ || kind == "response.incomplete"@ || kind
                == "response.failed"@ ==> step == stream.response_end(data, event)
            &&& kind != "response.output_item.added"@ && kind
                != "response.function_call_arguments.delta"@ && kind
                != "response.function_call_arguments.done"@ && kind
                != "response.output_item.done"@ && kind != "response.completed"@ && kind
                != "response.incomplete"@ && kind != "response.failed"@ ==> step == stream.emit(
                event,
                data,
            )
        }),
{
    reveal_strlit("response.output_item.added");
    reveal_strlit("response.function_call_arguments.delta");
    reveal_strlit("response.function_call_arguments.done");
    reveal_strlit("response.output_item.done");
    reveal_strlit("response.completed");
    reveal_strlit("response.incomplete");
    reveal_strlit("response.failed");
    assert("response.output_item.added"@.len() == 26);
    assert("response.function_call_arguments.delta"@.len() == 38);
    assert("response.function_call_arguments.done"@.len() == 37);
    assert("response.output_item.done"@.len() == 25);
    assert("response.completed"@.len() == 18);
    assert("response.incomplete"@.len() == 19);
    assert("response.failed"@.len() == 15);
}

/// The error that a failed stream ends with carries the code and the message of the failure and the
/// next number.
pub proof fn failure_is_reported(stream: StreamView)
    requires
        stream.failure is Some,
    ensures
        exists|told: JsonView|
            {
                &&& stream.report().output == #[trigger] frame_bytes("error"@, told)
                &&& told.text_field("type"@) == Some("error"@)
                &&& told.text_field("code"@) == Some(stream.failure->0.code.spec_name())
                &&& told.text_field("message"@) == Some(stream.failure->0.message)
                &&& told.field("sequence_number"@) == Some(JsonView::Integer(stream.sequence))
            },
{
    lemma_names();
    lemma_event_names();
    let failure = stream.failure->0;
    let told = empty_object().with_text("type"@, "error"@).with_text(
        "code"@,
        failure.code.spec_name(),
    ).with_text("message"@, failure.message).with(
        "sequence_number"@,
        JsonView::Integer(stream.sequence),
    );
    assert(stream.report().output == frame_bytes("error"@, told));
}

/// A stream that ends without a failure while calls are held fails for being incomplete, and says
/// how many there were; one that holds none, or has failed, ends as it is. A stream without a
/// failure reports nothing.
pub proof fn streams_end_with_their_failure(stream: StreamView)
    ensures
        stream.failure is None && stream.pending != Map::<u32, PendingView>::empty()
            ==> stream.ended().failure == Some(
            AdapterErrorView {
                code: AdapterErrorCode::StreamIncomplete,
                message: "上游流在 "@ + decimal(stream.pending.dom().len())
                    + " 个工具调用交付前结束，已丢弃待执行输入"@,
            },
        ),
        stream.failure is Some || stream.pending == Map::<u32, PendingView>::empty()
            ==> stream.ended().failure == stream.failure,
        stream.failure is None ==> stream.report() == (Step { stream, output: Seq::<u8>::empty() }),
        stream.ended().sequence == stream.sequence,
{
}

/// At the end of a stream the last bytes are taken as a frame where their data is JSON, and dropped
/// otherwise; the stream was cut short where they were more than white space.
pub proof fn last_bytes_count(rewriter: RewriterView)
    requires
        !rewriter.passes(),
    ensures
        ({
            let json = parsed_frame(rewriter.buffer).json();
            let last = if rewriter.buffer.len() > 0 && json is Some {
                rewriter.stream.frame_step(rewriter.buffer)
            } else {
                Step { stream: rewriter.stream, output: Seq::<u8>::empty() }
            };
            &&& rewriter.finished().1 == last.output + last.stream.ended().report().output
            &&& rewriter.finished().0.buffer.len() == 0
            &&& rewriter.buffer.len() == 0 ==> !rewriter.cut_short()
            &&& rewriter.buffer.len() > 0 && json is Some ==> rewriter.cut_short()
        }),
{
}

/// The final view of a call is refused exactly where its arguments are missing or do not decode, where
/// they decode to another input than the one that was delivered, or where its call id is missing; in
/// a failed response a call that was not delivered is always shown.
pub proof fn final_calls_must_agree(stream: StreamView, item: JsonView, failed: bool)
    requires
        is_managed(item, stream.plan),
    ensures
        ({
            let shown = stream.ending_item(item, failed);
            let arguments = item.text_field("arguments"@);
            let delivered = stream.delivered_for(item);
            let decodes = arguments is Some && decoded_arguments(arguments->0) is Ok;
            let agrees = decodes && (delivered is None || delivered->0 == decoded_arguments(
                arguments->0,
            )->Ok_0);
            &&& failed && delivered is None ==> shown is Ok
            &&& !failed || delivered is Some ==> (shown is Ok) == (agrees && item.text_field(
                "call_id"@,
            ) is Some)
            &&& (!failed || delivered is Some) && decodes && !agrees ==> shown is Err
                && shown->Err_0.code == AdapterErrorCode::InvalidArguments
            &&& (!failed || delivered is Some) && arguments is None ==> shown is Err
                && shown->Err_0.code == AdapterErrorCode::InvalidArguments
        }),
{
}

} // verus!
