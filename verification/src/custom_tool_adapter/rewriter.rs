//! Response streams: the events of a wrapped call are held back until its arguments are complete
//! and checked, and then go out as the events of a custom call.
use std::collections::BTreeMap;
use vstd::prelude::*;
use vstd::utf8::encode_utf8;

use super::decode::{decode_wrapped_arguments, decoded_arguments};
use super::encode::{converted_items, first_refused, refusal, refusal_of_items};
use super::plan::{
    arguments_refusal, identity_error, AdapterError, AdapterErrorCode, AdapterErrorView,
    CustomToolAdapterPlan, IdentityView, PlanView,
};
use super::restore::{
    client_custom_item_id, client_item_id, is_managed, is_managed_call, put_namespace,
    restore_echoed_tools, restored_echo, text_at_or, text_or, with_namespace,
};
use crate::json::{array_view, empty_object, text_view, Json, JsonView};
use crate::sse::{
    frame_bytes, frame_end, lossy_text, parse_sse_frame, parsed_frame, push_all, push_frame,
    take_complete_frame, text_of_bytes,
};
use crate::str_map::StrMap;
use crate::text::{
    concat, concat3, concat5, decimal, decimal_text, option_text, same_text, texts, trim, trimmed,
};

verus! {

/// How many bytes of arguments one call may hold.
pub const MAX_ARGUMENTS_BYTES: usize = 8 * 1024 * 1024;

/// How many bytes of arguments the calls of one response may hold together.
pub const MAX_TOTAL_BUFFERED_BYTES: usize = 32 * 1024 * 1024;

/// How many calls of one response may be held at a time.
pub const MAX_PENDING_CALLS: usize = 128;

#[derive(Debug)]
pub struct PendingCall {
    item_id: String,
    call_id: String,
    wire_name: String,
    arguments: String,
    done_arguments: Option<String>,
    delivered_input: Option<String>,
}

/// A call that was announced: the arguments so far, those that came in full, and the input that
/// was delivered.
#[verifier::ext_equal]
pub struct PendingView {
    pub item_id: Seq<char>,
    pub call_id: Seq<char>,
    pub wire_name: Seq<char>,
    pub arguments: Seq<char>,
    pub done_arguments: Option<Seq<char>>,
    pub delivered_input: Option<Seq<char>>,
}

impl View for PendingCall {
    type V = PendingView;

    closed spec fn view(&self) -> PendingView {
        PendingView {
            item_id: self.item_id@,
            call_id: self.call_id@,
            wire_name: self.wire_name@,
            arguments: self.arguments@,
            done_arguments: option_text(self.done_arguments),
            delivered_input: option_text(self.delivered_input),
        }
    }
}

/// What a stream remembers between its events.
#[derive(Debug)]
pub struct CallStream {
    plan: CustomToolAdapterPlan,
    pending: BTreeMap<u32, PendingCall>,
    item_index: StrMap<u32>,
    sequence: u64,
    total_buffered: usize,
    failure: Option<AdapterError>,
}

#[verifier::ext_equal]
pub struct StreamView {
    pub plan: PlanView,
    /// The calls, by their place in the output.
    pub pending: Map<u32, PendingView>,
    /// The place of each item id that is known.
    pub item_index: Map<Seq<char>, u32>,
    /// The number of the next frame.
    pub sequence: int,
    pub total_buffered: int,
    pub failure: Option<AdapterErrorView>,
}

impl View for CallStream {
    type V = StreamView;

    closed spec fn view(&self) -> StreamView {
        StreamView {
            plan: self.plan@,
            pending: self.pending@.map_values(|p: PendingCall| p@),
            item_index: self.item_index@,
            sequence: self.sequence as int,
            total_buffered: self.total_buffered as int,
            failure: match self.failure {
                Some(e) => Some(e@),
                None => None,
            },
        }
    }
}

/// What an event does to a stream, and the bytes that go out for it.
#[verifier::ext_equal]
pub struct Step {
    pub stream: StreamView,
    pub output: Seq<u8>,
}

impl Step {
    /// The step, and one more frame behind it.
    pub open spec fn and_emit(self, event: Seq<char>, data: JsonView) -> Step {
        let next = self.stream.emit(Some(event), data);
        Step { stream: next.stream, output: self.output + next.output }
    }
}

/// The place in the output that an event speaks of.
pub open spec fn output_index(data: JsonView) -> u32 {
    match data.natural_field("output_index"@) {
        Some(n) => n as u32,
        None => 0,
    }
}

/// Whether an item speaks of a call: it has its call id or its item id.
pub open spec fn is_call_of(call: PendingView, item: JsonView) -> bool {
    ||| item.text_or_empty("call_id"@).len() > 0 && call.call_id == item.text_or_empty("call_id"@)
    ||| item.text_or_empty("id"@).len() > 0 && call.item_id == item.text_or_empty("id"@)
}

/// Whether a call that an item speaks of was delivered.
pub open spec fn is_delivered_for(
    pending: Map<u32, PendingView>,
    item: JsonView,
    index: u32,
) -> bool {
    pending.contains_key(index) && is_call_of(pending[index], item)
        && pending[index].delivered_input is Some
}

/// The same, of the first such call.
pub open spec fn is_first_delivered(
    pending: Map<u32, PendingView>,
    item: JsonView,
    index: u32,
) -> bool {
    &&& is_delivered_for(pending, item, index)
    &&& forall|other: u32| #[trigger] is_delivered_for(pending, item, other) ==> index <= other
}

/// The arguments that count at the end of a call: those that came in full, else those of the item,
/// else those gathered.
pub open spec fn final_arguments(call: PendingView, item: JsonView) -> Seq<char> {
    match call.done_arguments {
        Some(done) if done.len() > 0 => done,
        _ => if item.text_or_empty("arguments"@).len() > 0 {
            item.text_or_empty("arguments"@)
        } else {
            call.arguments
        },
    }
}

impl StreamView {
    pub open spec fn start(plan: PlanView) -> StreamView {
        StreamView {
            plan,
            pending: Map::empty(),
            item_index: Map::empty(),
            sequence: 0,
            total_buffered: 0,
            failure: None,
        }
    }

    pub open spec fn silent(self) -> Step {
        Step { stream: self, output: Seq::empty() }
    }

    /// The stream with a failure; the first one stays.
    pub open spec fn failed(self, error: AdapterErrorView) -> StreamView {
        if self.failure is None {
            StreamView { failure: Some(error), ..self }
        } else {
            self
        }
    }

    /// A frame goes out. An object gets the next number; a frame without an event's name takes the
    /// type of its data.
    pub open spec fn emit(self, event: Option<Seq<char>>, data: JsonView) -> Step {
        let numbered = data.with("sequence_number"@, JsonView::Integer(self.sequence));
        let name = match event {
            Some(name) => name,
            None => numbered.text_or_empty("type"@),
        };
        Step {
            stream: if data is Object {
                StreamView { sequence: self.sequence + 1, ..self }
            } else {
                self
            },
            output: frame_bytes(name, numbered),
        }
    }

    pub open spec fn with_call(self, index: u32, call: PendingView) -> StreamView {
        StreamView { pending: self.pending.insert(index, call), ..self }
    }

    /// The stream without a call, and without the item ids that mean it.
    pub open spec fn without_call(self, index: u32) -> StreamView {
        StreamView {
            pending: self.pending.remove(index),
            item_index: Map::new(
                |id: Seq<char>| self.item_index.contains_key(id) && self.item_index[id] != index,
                |id: Seq<char>| self.item_index[id],
            ),
            ..self
        }
    }

    pub open spec fn without_calls(self) -> StreamView {
        StreamView { pending: Map::empty(), item_index: Map::empty(), ..self }
    }

    /// The call that an event speaks of: by its item id, or else by its place.
    pub open spec fn resolved_index(self, data: JsonView) -> Option<u32> {
        let by_place = match data.natural_field("output_index"@) {
            Some(n) => if self.pending.contains_key(n as u32) {
                Some(n as u32)
            } else {
                None
            },
            None => None,
        };
        match data.text_field("item_id"@) {
            Some(id) => if self.item_index.contains_key(id) {
                Some(self.item_index[id])
            } else {
                by_place
            },
            None => by_place,
        }
    }

    /// The same, where that call is held.
    pub open spec fn known_index(self, data: JsonView) -> Option<u32> {
        match self.resolved_index(data) {
            Some(index) => if self.pending.contains_key(index) {
                Some(index)
            } else {
                None
            },
            None => None,
        }
    }
}

impl CallStream {
    pub fn new(plan: CustomToolAdapterPlan) -> (r: Self)
        ensures
            r@ == StreamView::start(plan@),
    {
        let r = CallStream {
            plan,
            pending: BTreeMap::new(),
            item_index: StrMap::new(),
            sequence: 0,
            total_buffered: 0,
            failure: None,
        };
        assert(r@ =~= StreamView::start(plan@));
        r
    }

    fn fail(&mut self, error: AdapterError)
        ensures
            final(self)@ == old(self)@.failed(error@),
    {
        if self.failure.is_none() {
            self.failure = Some(error);
        }
        assert(self@ =~= old(self)@.failed(error@));
    }

    fn emit_frame(&mut self, output: &mut Vec<u8>, event: Option<&str>, data: &Json)
        requires
            old(self)@.sequence < u64::MAX,
        ensures
            final(self)@ == old(self)@.emit(text_view(event), data@).stream,
            final(output)@ == old(output)@ + old(self)@.emit(text_view(event), data@).output,
    {
        let mut numbered = data.copy();
        numbered.put("sequence_number", Json::Unsigned(self.sequence));
        match event {
            Some(name) => push_frame(output, name, &numbered),
            None => push_frame(output, numbered.text_or_empty("type"), &numbered),
        }
        if data.is_object() {
            self.sequence = self.sequence + 1;
        }
        assert(self@ =~= old(self)@.emit(text_view(event), data@).stream);
    }

    fn resolve_pending_index(&self, data: &Json) -> (r: Option<u32>)
        ensures
            r == self@.resolved_index(data@),
    {
        broadcast use vstd::std_specs::btree::group_btree_axioms;

        if let Some(id) = data.text_at("item_id") {
            if let Some(index) = self.item_index.get(id) {
                return Some(*index);
            }
        }
        if let Some(n) = data.u64_at("output_index") {
            let index = cut_index(n);
            if self.pending.contains_key(&index) {
                return Some(index);
            }
        }
        None
    }

    fn call_at(&self, index: u32) -> (r: Option<&PendingCall>)
        ensures
            match r {
                Some(call) => self@.pending.contains_key(index) && self@.pending[index] == call@,
                None => !self@.pending.contains_key(index),
            },
    {
        broadcast use vstd::std_specs::btree::group_btree_axioms;

        self.pending.get(&index)
    }

    fn known_index(&self, data: &Json) -> (r: Option<u32>)
        ensures
            r == self@.known_index(data@),
    {
        match self.resolve_pending_index(data) {
            Some(index) => match self.call_at(index) {
                Some(_) => Some(index),
                None => None,
            },
            None => None,
        }
    }
}

impl StreamView {
    /// A call is announced. One of the plan is held back; anything else goes out as it came.
    pub open spec fn item_added(self, data: JsonView, event: Option<Seq<char>>) -> Step {
        match data.field("item"@) {
            None => self.emit(event, data),
            Some(item) => {
                let name = item.text_or_empty("name"@);
                let index = output_index(data);
                if item.text_field("type"@) != Some("function_call"@) || !self.plan.manages(name) {
                    self.emit(event, data)
                } else if self.pending.contains_key(index) {
                    self.failed(
                        identity_error(
                            "output_index "@ + decimal(index as nat)
                                + " 出现重复的 function_call added"@,
                        ),
                    ).silent()
                } else if self.pending.dom().len() >= MAX_PENDING_CALLS {
                    self.failed(
                        limit_error("单个响应的并发工具调用超过上限 128"@),
                    ).silent()
                } else {
                    let id = item.text_or_empty("id"@);
                    StreamView {
                        pending: self.pending.insert(
                            index,
                            PendingView {
                                item_id: id,
                                call_id: item.text_or_empty("call_id"@),
                                wire_name: name,
                                arguments: Seq::empty(),
                                done_arguments: None,
                                delivered_input: None,
                            },
                        ),
                        item_index: if id.len() > 0 {
                            self.item_index.insert(id, index)
                        } else {
                            self.item_index
                        },
                        ..self
                    }.silent()
                }
            },
        }
    }

    /// A piece of arguments comes in for a call.
    pub open spec fn arguments_delta(self, data: JsonView, event: Option<Seq<char>>) -> Step {
        match (data.text_field("delta"@), self.known_index(data)) {
            (Some(delta), Some(index)) => {
                let call = self.pending[index];
                if call.delivered_input is Some {
                    self.failed(
                        identity_error("同一调用在交付后仍收到 arguments delta"@),
                    ).silent()
                } else {
                    let longer = PendingView { arguments: call.arguments + delta, ..call };
                    let total = saturated(self.total_buffered + encode_utf8(delta).len());
                    let grown = StreamView {
                        total_buffered: total,
                        ..self.with_call(index, longer)
                    };
                    if encode_utf8(longer.arguments).len() > MAX_ARGUMENTS_BYTES || total
                        > MAX_TOTAL_BUFFERED_BYTES {
                        grown.failed(
                            limit_error(
                                "arguments 缓冲超过上限（单调用 8388608 / 合计 33554432 字节）"@,
                            ),
                        ).silent()
                    } else {
                        grown.silent()
                    }
                }
            },
            _ => self.emit(event, data),
        }
    }

    /// The arguments of a call come in full. They must decode to what the pieces decode to, where
    /// both decode.
    pub open spec fn arguments_done(self, data: JsonView, event: Option<Seq<char>>) -> Step {
        match (data.text_field("arguments"@), self.known_index(data)) {
            (Some(arguments), Some(index)) => {
                let call = self.pending[index];
                if call.delivered_input is Some {
                    self.failed(
                        identity_error("同一调用在交付后仍收到 arguments done"@),
                    ).silent()
                } else if call.arguments.len() > 0 && arguments.len() > 0 && decode_differently(
                    call.arguments,
                    arguments,
                ) {
                    self.failed(
                        arguments_refusal(
                            "arguments delta 与 done 解码后的内容不一致，拒绝猜测"@,
                        ),
                    ).silent()
                } else {
                    self.with_call(
                        index,
                        PendingView { done_arguments: Some(arguments), ..call },
                    ).silent()
                }
            },
            _ => self.emit(event, data),
        }
    }

    /// A complete call goes out as the four events of a custom call (three, where the input is
    /// empty), or fails without any. A held call remembers the call id and the input that went out.
    pub open spec fn deliver(
        self,
        index: u32,
        item_id: Seq<char>,
        call_id: Seq<char>,
        wire_name: Seq<char>,
        arguments: Seq<char>,
        status: Option<Seq<char>>,
    ) -> Step {
        match decoded_arguments(arguments) {
            Err(e) => self.failed(e).silent(),
            Ok(input) => if !self.plan.manages(wire_name) {
                self.failed(
                    identity_error("交付时找不到「"@ + wire_name + "」的包装计划"@),
                ).silent()
            } else {
                let identity = self.plan.wire_tools[wire_name];
                let id = client_item_id(item_id, call_id);
                let added = self.silent().and_emit(
                    "response.output_item.added"@,
                    item_event(
                        "response.output_item.added"@,
                        index,
                        with_namespace(
                            call_item(id, text_of(status, "in_progress"@), call_id, identity, Seq::empty()),
                            identity.namespace,
                        ),
                    ),
                );
                let fed = if input.len() > 0 {
                    added.and_emit(
                        "response.custom_tool_call_input.delta"@,
                        input_event(
                            "response.custom_tool_call_input.delta"@,
                            id,
                            call_id,
                            index,
                        ).with_text("delta"@, input),
                    )
                } else {
                    added
                };
                let ended = fed.and_emit(
                    "response.custom_tool_call_input.done"@,
                    input_event(
                        "response.custom_tool_call_input.done"@,
                        id,
                        call_id,
                        index,
                    ).with_text("input"@, input),
                ).and_emit(
                    "response.output_item.done"@,
                    item_event(
                        "response.output_item.done"@,
                        index,
                        call_item(id, text_of(status, "completed"@), call_id, identity, input),
                    ),
                );
                if self.pending.contains_key(index) {
                    Step {
                        stream: ended.stream.with_call(
                            index,
                            PendingView {
                                call_id,
                                delivered_input: Some(input),
                                ..self.pending[index]
                            },
                        ),
                        ..ended
                    }
                } else {
                    ended
                }
            },
        }
    }

    /// A call that was never announced goes out from its final item; nothing of it does where the
    /// item says that the call did not come to an end.
    pub open spec fn deliver_item(self, item: JsonView, index: u32) -> Step {
        let call_id = item.text_or_empty("call_id"@);
        if call_id.len() == 0 {
            self.failed(
                identity_error("function_call 缺少 call_id，无法配对工具结果"@),
            ).silent()
        } else if is_unfinished(item) {
            self.silent()
        } else {
            self.deliver(
                index,
                item.text_or_empty("id"@),
                call_id,
                item.text_or_empty("name"@),
                item.text_or_empty("arguments"@),
                item.text_field("status"@),
            )
        }
    }

    /// The item of a held call is complete.
    pub open spec fn call_done(self, index: u32, item: JsonView) -> Step {
        let call = self.pending[index];
        let name = item.text_or_empty("name"@);
        let id = item.text_or_empty("id"@);
        let arguments = item.text_or_empty("arguments"@);
        match call.delivered_input {
            Some(delivered) => if arguments.len() > 0 && decoded_arguments(arguments) is Ok
                && decoded_arguments(arguments)->Ok_0 != delivered {
                self.failed(
                    arguments_refusal("重复的 output_item.done 与已交付内容不一致"@),
                ).silent()
            } else {
                self.silent()
            },
            None => if name != call.wire_name {
                self.failed(
                    identity_error(
                        "output_index "@ + decimal(index as nat)
                            + " 的调用身份在 added 与 done 之间变化（"@ + call.wire_name + " → "@
                            + name + "）"@,
                    ),
                ).silent()
            } else if call.item_id.len() > 0 && id.len() > 0 && id != call.item_id {
                self.failed(
                    identity_error(
                        "同一调用的 item id 发生变化："@ + call.item_id + " → "@ + id,
                    ),
                ).silent()
            } else if is_unfinished(item) {
                self.without_call(index).silent()
            } else {
                self.deliver(
                    index,
                    call.item_id,
                    text_or(item, "call_id"@, call.call_id),
                    name,
                    final_arguments(call, item),
                    item.text_field("status"@),
                )
            },
        }
    }

    pub open spec fn item_done(self, data: JsonView, event: Option<Seq<char>>) -> Step {
        match data.field("item"@) {
            None => self.emit(event, data),
            Some(item) => if item.text_field("type"@) != Some("function_call"@) {
                self.emit(event, data)
            } else {
                match self.known_index(data) {
                    Some(index) => self.call_done(index, item),
                    None => if self.plan.manages(item.text_or_empty("name"@)) {
                        self.deliver_item(item, output_index(data))
                    } else {
                        self.emit(event, data)
                    },
                }
            },
        }
    }
}

pub open spec fn limit_error(message: Seq<char>) -> AdapterErrorView {
    AdapterErrorView { code: AdapterErrorCode::BufferLimit, message }
}

pub open spec fn saturated(n: int) -> int {
    if n > usize::MAX {
        usize::MAX as int
    } else {
        n
    }
}

pub open spec fn text_of(text: Option<Seq<char>>, other: Seq<char>) -> Seq<char> {
    match text {
        Some(text) => text,
        None => other,
    }
}

/// Whether two argument texts both decode, to different inputs.
pub open spec fn decode_differently(a: Seq<char>, b: Seq<char>) -> bool {
    decoded_arguments(a) is Ok && decoded_arguments(b) is Ok && decoded_arguments(a)->Ok_0
        != decoded_arguments(b)->Ok_0
}

/// Whether an item says that its call did not come to an end.
pub open spec fn is_unfinished(item: JsonView) -> bool {
    item.text_field("status"@) == Some("incomplete"@) || item.text_field("status"@) == Some(
        "failed"@,
    )
}

fn has_unfinished_status(item: &Json) -> (r: bool)
    ensures
        r == is_unfinished(item@),
{
    item.has_text("status", "incomplete") || item.has_text("status", "failed")
}

/// A custom call as an item.
pub open spec fn call_item(
    id: Seq<char>,
    status: Seq<char>,
    call_id: Seq<char>,
    identity: IdentityView,
    input: Seq<char>,
) -> JsonView {
    empty_object().with_text("id"@, id).with_text("type"@, "custom_tool_call"@).with_text(
        "status"@,
        status,
    ).with_text("call_id"@, call_id).with_text("name"@, identity.client_name).with_text(
        "input"@,
        input,
    )
}

pub open spec fn item_event(kind: Seq<char>, index: u32, item: JsonView) -> JsonView {
    empty_object().with_text("type"@, kind).with(
        "output_index"@,
        JsonView::Integer(index as int),
    ).with("item"@, item)
}

pub open spec fn input_event(
    kind: Seq<char>,
    id: Seq<char>,
    call_id: Seq<char>,
    index: u32,
) -> JsonView {
    empty_object().with_text("type"@, kind).with_text("item_id"@, id).with_text(
        "call_id"@,
        call_id,
    ).with("output_index"@, JsonView::Integer(index as int))
}

fn make_call_item(id: &str, status: &str, call_id: &str, client_name: &str, input: &str) -> (r: Json)
    ensures
        forall|identity: IdentityView|
            identity.client_name == client_name@ ==> r@ == #[trigger] call_item(
                id@,
                status@,
                call_id@,
                identity,
                input@,
            ),
{
    let mut item = Json::object();
    item.put_text("id", id);
    item.put_text("type", "custom_tool_call");
    item.put_text("status", status);
    item.put_text("call_id", call_id);
    item.put_text("name", client_name);
    item.put_text("input", input);
    item
}

fn make_item_event(kind: &str, index: u32, item: Json) -> (r: Json)
    ensures
        r@ == item_event(kind@, index, item@),
{
    let mut event = Json::object();
    event.put_text("type", kind);
    event.put("output_index", Json::Unsigned(index as u64));
    event.put("item", item);
    event
}

fn make_input_event(kind: &str, id: &str, call_id: &str, index: u32) -> (r: Json)
    ensures
        r@ == input_event(kind@, id@, call_id@, index),
{
    let mut event = Json::object();
    event.put_text("type", kind);
    event.put_text("item_id", id);
    event.put_text("call_id", call_id);
    event.put("output_index", Json::Unsigned(index as u64));
    event
}

fn identity_failure(message: String) -> (r: AdapterError)
    ensures
        r@ == identity_error(message@),
{
    AdapterError::new(AdapterErrorCode::ToolIdentityConflict, message)
}

fn arguments_failure(message: &str) -> (r: AdapterError)
    ensures
        r@ == arguments_refusal(message@),
{
    AdapterError::new(AdapterErrorCode::InvalidArguments, message.to_owned())
}

fn status_or<'a>(status: Option<&'a str>, other: &'a str) -> (r: &'a str)
    ensures
        r@ == text_of(text_view(status), other@),
{
    match status {
        Some(status) => status,
        None => other,
    }
}

fn decodes_differently(a: &str, b: &str) -> (r: bool)
    ensures
        r == decode_differently(a@, b@),
{
    match (decode_wrapped_arguments(a), decode_wrapped_arguments(b)) {
        (Ok(x), Ok(y)) => !same_text(x.as_str(), y.as_str()),
        _ => false,
    }
}

impl CallStream {
    fn handle_output_item_added(
        &mut self,
        data: &Json,
        event: Option<&str>,
        output: &mut Vec<u8>,
    )
        requires
            old(self)@.sequence < u64::MAX,
        ensures
            final(self)@ == old(self)@.item_added(data@, text_view(event)).stream,
            final(output)@ == old(output)@ + old(self)@.item_added(data@, text_view(event)).output,
    {
        broadcast use vstd::std_specs::btree::group_btree_axioms;

        let item = match data.get("item") {
            Some(item) => item,
            None => {
                self.emit_frame(output, event, data);
                return ;
            },
        };
        let name = item.text_or_empty("name");
        if !item.has_text("type", "function_call") || self.plan.identity(name).is_none() {
            self.emit_frame(output, event, data);
            return ;
        }
        assert(output@ =~= old(output)@ + Seq::<u8>::empty());
        let index = index_of(data);
        if self.pending.contains_key(&index) {
            let number = decimal_text(index as u64);
            self.fail(
                identity_failure(
                    concat3(
                        "output_index ",
                        number.as_str(),
                        " 出现重复的 function_call added",
                    ),
                ),
            );
            return ;
        }
        assert(self@.pending.dom() =~= self.pending@.dom());
        if self.pending.len() >= MAX_PENDING_CALLS {
            self.fail(
                AdapterError::new(
                    AdapterErrorCode::BufferLimit,
                    "单个响应的并发工具调用超过上限 128".to_owned(),
                ),
            );
            return ;
        }
        let id = item.text_or_empty("id");
        if !id.is_empty() {
            self.item_index.insert(id.to_owned(), index);
        }
        let call = PendingCall {
            item_id: id.to_owned(),
            call_id: item.text_or_empty("call_id").to_owned(),
            wire_name: name.to_owned(),
            arguments: String::new(),
            done_arguments: None,
            delivered_input: None,
        };
        self.pending.insert(index, call);
        assert(self@ =~= old(self)@.item_added(data@, text_view(event)).stream);
    }

    fn handle_arguments_delta(
        &mut self,
        data: &Json,
        event: Option<&str>,
        output: &mut Vec<u8>,
    )
        requires
            old(self)@.sequence < u64::MAX,
        ensures
            final(self)@ == old(self)@.arguments_delta(data@, text_view(event)).stream,
            final(output)@ == old(output)@ + old(self)@.arguments_delta(
                data@,
                text_view(event),
            ).output,
    {
        broadcast use vstd::std_specs::btree::group_btree_axioms;

        let (delta, index) = match (data.text_at("delta"), self.known_index(data)) {
            (Some(delta), Some(index)) => (delta, index),
            _ => {
                self.emit_frame(output, event, data);
                return ;
            },
        };
        assert(output@ =~= old(output)@ + Seq::<u8>::empty());
        match self.pending.remove(&index) {
            Some(call) => {
                let mut call = call;
                if call.delivered_input.is_some() {
                    self.pending.insert(index, call);
                    assert(self@ =~= old(self)@);
                    self.fail(
                        identity_failure(
                            "同一调用在交付后仍收到 arguments delta".to_owned(),
                        ),
                    );
                    return ;
                }
                call.arguments.append(delta);
                let size = delta.as_bytes().len();
                let length = call.arguments.as_str().as_bytes().len();
                self.pending.insert(index, call);
                self.total_buffered = if size > usize::MAX - self.total_buffered {
                    usize::MAX
                } else {
                    self.total_buffered + size
                };
                proof {
                    let was = old(self)@;
                    let longer = PendingView {
                        arguments: was.pending[index].arguments + delta@,
                        ..was.pending[index]
                    };
                    assert(call@ =~= longer);
                    assert(self@.pending =~= was.pending.insert(index, longer));
                    assert(self@ =~= StreamView {
                        total_buffered: saturated(was.total_buffered + encode_utf8(delta@).len()),
                        ..was.with_call(index, longer)
                    });
                }
                if length > MAX_ARGUMENTS_BYTES || self.total_buffered > MAX_TOTAL_BUFFERED_BYTES {
                    self.fail(
                        AdapterError::new(
                            AdapterErrorCode::BufferLimit,
                            "arguments 缓冲超过上限（单调用 8388608 / 合计 33554432 字节）".to_owned(),
                        ),
                    );
                }
            },
            None => {},
        }
    }

    fn handle_arguments_done(
        &mut self,
        data: &Json,
        event: Option<&str>,
        output: &mut Vec<u8>,
    )
        requires
            old(self)@.sequence < u64::MAX,
        ensures
            final(self)@ == old(self)@.arguments_done(data@, text_view(event)).stream,
            final(output)@ == old(output)@ + old(self)@.arguments_done(
                data@,
                text_view(event),
            ).output,
    {
        broadcast use vstd::std_specs::btree::group_btree_axioms;

        let (arguments, index) = match (data.text_at("arguments"), self.known_index(data)) {
            (Some(arguments), Some(index)) => (arguments, index),
            _ => {
                self.emit_frame(output, event, data);
                return ;
            },
        };
        assert(output@ =~= old(output)@ + Seq::<u8>::empty());
        match self.pending.remove(&index) {
            Some(call) => {
                let mut call = call;
                if call.delivered_input.is_some() {
                    self.pending.insert(index, call);
                    assert(self@ =~= old(self)@);
                    self.fail(
                        identity_failure("同一调用在交付后仍收到 arguments done".to_owned()),
                    );
                    return ;
                }
                if !call.arguments.as_str().is_empty() && !arguments.is_empty()
                    && decodes_differently(call.arguments.as_str(), arguments) {
                    self.pending.insert(index, call);
                    assert(self@ =~= old(self)@);
                    self.fail(
                        arguments_failure(
                            "arguments delta 与 done 解码后的内容不一致，拒绝猜测",
                        ),
                    );
                    return ;
                }
                call.done_arguments = Some(arguments.to_owned());
                self.pending.insert(index, call);
                proof {
                    let was = old(self)@;
                    let fuller = PendingView {
                        done_arguments: Some(arguments@),
                        ..was.pending[index]
                    };
                    assert(call@ =~= fuller);
                    assert(self@ =~= was.with_call(index, fuller));
                }
            },
            None => {},
        }
    }
}

impl CallStream {
    /// Emits one frame behind what went out already.
    fn emit_next(&mut self, output: &mut Vec<u8>, event: &str, data: &Json, step: Ghost<Step>, start: Ghost<Seq<u8>>)
        requires
            old(self)@ == step@.stream,
            old(output)@ == start@ + step@.output,
            old(self)@.sequence < u64::MAX,
        ensures
            final(self)@ == step@.and_emit(event@, data@).stream,
            final(output)@ == start@ + step@.and_emit(event@, data@).output,
    {
        self.emit_frame(output, Some(event), data);
        assert(output@ =~= start@ + step@.and_emit(event@, data@).output);
    }

    /// Checks the complete arguments of a call and sends the events of the custom call.
    fn deliver_call(
        &mut self,
        index: u32,
        item_id: &str,
        call_id: &str,
        wire_name: &str,
        arguments: &str,
        status: Option<&str>,
        output: &mut Vec<u8>,
    )
        requires
            old(self)@.sequence + 4 <= u64::MAX,
        ensures
            final(self)@ == old(self)@.deliver(
                index,
                item_id@,
                call_id@,
                wire_name@,
                arguments@,
                text_view(status),
            ).stream,
            final(output)@ == old(output)@ + old(self)@.deliver(
                index,
                item_id@,
                call_id@,
                wire_name@,
                arguments@,
                text_view(status),
            ).output,
    {
        broadcast use vstd::std_specs::btree::group_btree_axioms;

        let ghost start = output@;
        let ghost before = self@;
        assert(output@ =~= start + Seq::<u8>::empty());
        let input = match decode_wrapped_arguments(arguments) {
            Ok(input) => input,
            Err(e) => {
                self.fail(e);
                return ;
            },
        };
        let identity = match self.plan.identity(wire_name) {
            Some(identity) => identity.copy(),
            None => {
                self.fail(
                    identity_failure(
                        concat3("交付时找不到「", wire_name, "」的包装计划"),
                    ),
                );
                return ;
            },
        };
        let id = client_custom_item_id(item_id, call_id);
        let ghost name = identity@;

        let mut added = make_call_item(
            id.as_str(),
            status_or(status, "in_progress"),
            call_id,
            identity.client_name.as_str(),
            "",
        );
        proof {
            reveal_strlit("");
            assert(""@ =~= Seq::<char>::empty());
            assert(added@ == call_item(
                id@,
                text_of(text_view(status), "in_progress"@),
                call_id@,
                name,
                Seq::empty(),
            ));
        }
        put_namespace(&mut added, identity.namespace.as_str());
        let added_event = make_item_event("response.output_item.added", index, added);
        let ghost none = before.silent();
        self.emit_next(
            output,
            "response.output_item.added",
            &added_event,
            Ghost(none),
            Ghost(start),
        );
        let ghost one = none.and_emit("response.output_item.added"@, added_event@);

        let mut delta_event = make_input_event(
            "response.custom_tool_call_input.delta",
            id.as_str(),
            call_id,
            index,
        );
        delta_event.put_text("delta", input.as_str());
        if !input.as_str().is_empty() {
            self.emit_next(
                output,
                "response.custom_tool_call_input.delta",
                &delta_event,
                Ghost(one),
                Ghost(start),
            );
        }
        let ghost two = if input@.len() > 0 {
            one.and_emit("response.custom_tool_call_input.delta"@, delta_event@)
        } else {
            one
        };

        let mut done_event = make_input_event(
            "response.custom_tool_call_input.done",
            id.as_str(),
            call_id,
            index,
        );
        done_event.put_text("input", input.as_str());
        self.emit_next(
            output,
            "response.custom_tool_call_input.done",
            &done_event,
            Ghost(two),
            Ghost(start),
        );
        let ghost three = two.and_emit("response.custom_tool_call_input.done"@, done_event@);

        let done = make_call_item(
            id.as_str(),
            status_or(status, "completed"),
            call_id,
            identity.client_name.as_str(),
            input.as_str(),
        );
        assert(done@ == call_item(
            id@,
            text_of(text_view(status), "completed"@),
            call_id@,
            name,
            input@,
        ));
        let item_done = make_item_event("response.output_item.done", index, done);
        self.emit_next(
            output,
            "response.output_item.done",
            &item_done,
            Ghost(three),
            Ghost(start),
        );
        let ghost four = three.and_emit("response.output_item.done"@, item_done@);
        assert(four.stream.pending == before.pending);

        match self.pending.remove(&index) {
            Some(call) => {
                let mut call = call;
                call.call_id = call_id.to_owned();
                call.delivered_input = Some(input);
                self.pending.insert(index, call);
                proof {
                    let told = PendingView {
                        call_id: call_id@,
                        delivered_input: Some(input@),
                        ..before.pending[index]
                    };
                    assert(call@ =~= told);
                    assert(self@ =~= four.stream.with_call(index, told));
                }
            },
            None => {
                assert(self.pending@ =~= self.pending@.remove(index));
                assert(self@ =~= four.stream);
            },
        }
    }

    fn deliver_from_item(&mut self, item: &Json, index: u32, output: &mut Vec<u8>)
        requires
            old(self)@.sequence + 4 <= u64::MAX,
        ensures
            final(self)@ == old(self)@.deliver_item(item@, index).stream,
            final(output)@ == old(output)@ + old(self)@.deliver_item(item@, index).output,
    {
        let call_id = item.text_or_empty("call_id");
        assert(output@ =~= old(output)@ + Seq::<u8>::empty());
        if call_id.is_empty() {
            self.fail(
                identity_failure(
                    "function_call 缺少 call_id，无法配对工具结果".to_owned(),
                ),
            );
            return ;
        }
        if has_unfinished_status(item) {
            return ;
        }
        self.deliver_call(
            index,
            item.text_or_empty("id"),
            call_id,
            item.text_or_empty("name"),
            item.text_or_empty("arguments"),
            item.text_at("status"),
            output,
        );
    }

    /// Drops a call, and the item ids that mean it.
    fn drop_call(&mut self, index: u32)
        ensures
            final(self)@ == old(self)@.without_call(index),
    {
        broadcast use vstd::std_specs::btree::group_btree_axioms;

        self.pending.remove(&index);
        drop_value(&mut self.item_index, index);
        assert(self@.pending =~= old(self)@.pending.remove(index));
        assert(self@ =~= old(self)@.without_call(index));
    }

    fn finish_call(&mut self, index: u32, item: &Json, output: &mut Vec<u8>)
        requires
            old(self)@.sequence + 4 <= u64::MAX,
            old(self)@.pending.contains_key(index),
        ensures
            final(self)@ == old(self)@.call_done(index, item@).stream,
            final(output)@ == old(output)@ + old(self)@.call_done(index, item@).output,
    {
        let name = item.text_or_empty("name");
        let id = item.text_or_empty("id");
        let arguments = item.text_or_empty("arguments");
        assert(output@ =~= old(output)@ + Seq::<u8>::empty());
        let call = match self.call_at(index) {
            Some(call) => call.copy(),
            None => {
                return ;
            },
        };
        assert(call@ == self@.pending[index]);
        if let Some(delivered) = &call.delivered_input {
            if !arguments.is_empty() {
                match decode_wrapped_arguments(arguments) {
                    Ok(input) => {
                        if !same_text(input.as_str(), delivered.as_str()) {
                            self.fail(
                                arguments_failure(
                                    "重复的 output_item.done 与已交付内容不一致",
                                ),
                            );
                        }
                    },
                    Err(_) => {},
                }
            }
            return ;
        }
        if !same_text(name, call.wire_name.as_str()) {
            let number = decimal_text(index as u64);
            let head = concat5(
                "output_index ",
                number.as_str(),
                " 的调用身份在 added 与 done 之间变化（",
                call.wire_name.as_str(),
                " → ",
            );
            self.fail(identity_failure(concat3(head.as_str(), name, "）")));
            return ;
        }
        if !call.item_id.as_str().is_empty() && !id.is_empty() && !same_text(
            id,
            call.item_id.as_str(),
        ) {
            let head = concat3(
                "同一调用的 item id 发生变化：",
                call.item_id.as_str(),
                " → ",
            );
            self.fail(identity_failure(concat(head.as_str(), id)));
            return ;
        }
        if has_unfinished_status(item) {
            self.drop_call(index);
            return ;
        }
        let from_item = if arguments.is_empty() {
            call.arguments.as_str()
        } else {
            arguments
        };
        let authoritative = match &call.done_arguments {
            Some(done) => if done.as_str().is_empty() {
                from_item
            } else {
                done.as_str()
            },
            None => from_item,
        };
        assert(authoritative@ == final_arguments(call@, item@));
        self.deliver_call(
            index,
            call.item_id.as_str(),
            text_at_or(item, "call_id", call.call_id.as_str()),
            name,
            authoritative,
            item.text_at("status"),
            output,
        );
    }

    fn handle_output_item_done(&mut self, data: &Json, event: Option<&str>, output: &mut Vec<u8>)
        requires
            old(self)@.sequence + 4 <= u64::MAX,
        ensures
            final(self)@ == old(self)@.item_done(data@, text_view(event)).stream,
            final(output)@ == old(output)@ + old(self)@.item_done(data@, text_view(event)).output,
    {
        let item = match data.get("item") {
            Some(item) => item,
            None => {
                self.emit_frame(output, event, data);
                return ;
            },
        };
        if !item.has_text("type", "function_call") {
            self.emit_frame(output, event, data);
            return ;
        }
        match self.known_index(data) {
            Some(index) => self.finish_call(index, item, output),
            None => {
                if self.plan.identity(item.text_or_empty("name")).is_some() {
                    self.deliver_from_item(item, index_of(data), output);
                } else {
                    self.emit_frame(output, event, data);
                }
            },
        }
    }
}

impl PendingCall {
    fn copy(&self) -> (r: Self)
        ensures
            r@ == self@,
    {
        let r = PendingCall {
            item_id: self.item_id.clone(),
            call_id: self.call_id.clone(),
            wire_name: self.wire_name.clone(),
            arguments: self.arguments.clone(),
            done_arguments: copy_option(&self.done_arguments),
            delivered_input: copy_option(&self.delivered_input),
        };
        assert(r@ =~= self@);
        r
    }
}

fn copy_option(text: &Option<String>) -> (r: Option<String>)
    ensures
        option_text(r) == option_text(*text),
{
    match text {
        Some(s) => Some(s.clone()),
        None => None,
    }
}

/// Removes the keys that lead to a value.
fn drop_value(map: &mut StrMap<u32>, value: u32)
    ensures
        final(map)@ == Map::new(
            |k: Seq<char>| old(map)@.contains_key(k) && old(map)@[k] != value,
            |k: Seq<char>| old(map)@[k],
        ),
{
    let keys = map.keys();
    let ghost start = map@;
    for i in 0..keys.len()
        invariant
            start == old(map)@,
            forall|k: Seq<char>| #[trigger] start.contains_key(k) == texts(keys@).contains(k),
            forall|k: Seq<char>| #[trigger]
                map@.contains_key(k) ==> start.contains_key(k) && map@[k] == start[k],
            forall|k: Seq<char>| #[trigger]
                start.contains_key(k) && start[k] != value ==> map@.contains_key(k),
            forall|j: int|
                0 <= j < i && map@.contains_key(#[trigger] texts(keys@)[j])
                    ==> map@[texts(keys@)[j]] != value,
    {
        let key = keys[i].as_str();
        assert(texts(keys@)[i as int] == key@);
        let drop = match map.get(key) {
            Some(v) => *v == value,
            None => false,
        };
        if drop {
            map.remove(key);
        }
    }
    proof {
        let kept = Map::new(
            |k: Seq<char>| old(map)@.contains_key(k) && old(map)@[k] != value,
            |k: Seq<char>| old(map)@[k],
        );
        assert forall|k: Seq<char>| map@.contains_key(k) == kept.contains_key(k) by {
            if map@.contains_key(k) {
                assert(start.contains_key(k));
                assert(texts(keys@).contains(k));
                let j = choose|j: int| 0 <= j < texts(keys@).len() && texts(keys@)[j] == k;
                assert(map@[texts(keys@)[j]] != value);
            }
            if kept.contains_key(k) {
                assert(start.contains_key(k));
            }
        }
        assert(map@ =~= kept);
    }
}

fn speaks_of(item: &Json, call: &PendingCall) -> (r: bool)
    ensures
        r == is_call_of(call@, item@),
{
    let call_id = item.text_or_empty("call_id");
    let id = item.text_or_empty("id");
    (!call_id.is_empty() && same_text(call.call_id.as_str(), call_id)) || (!id.is_empty()
        && same_text(call.item_id.as_str(), id))
}

/// A call that no input was delivered for, at the end of a response that failed: its input is
/// empty, so that nothing can be run.
pub open spec fn undelivered_view(item: JsonView, plan: PlanView) -> JsonView {
    let name = item.text_or_empty("name"@);
    let call_id = item.text_or_empty("call_id"@);
    let identity = if plan.manages(name) {
        plan.wire_tools[name]
    } else {
        IdentityView { client_name: name, namespace: Seq::empty() }
    };
    call_item(
        ending_item_id(item, call_id),
        text_or(item, "status"@, "incomplete"@),
        call_id,
        identity,
        Seq::empty(),
    )
}

/// The client's id of an item at the end of a response.
pub open spec fn ending_item_id(item: JsonView, call_id: Seq<char>) -> Seq<char> {
    match item.text_field("id"@) {
        Some(id) => client_item_id(id, call_id),
        None => "ctc_"@ + call_id,
    }
}

fn ending_id(item: &Json, call_id: &str) -> (r: String)
    ensures
        r@ == ending_item_id(item@, call_id@),
{
    match item.text_at("id") {
        Some(id) => client_custom_item_id(id, call_id),
        None => concat("ctc_", call_id),
    }
}

pub fn undelivered_terminal_view(item: &Json, plan: &CustomToolAdapterPlan) -> (r: Json)
    ensures
        r@ == undelivered_view(item@, plan@),
{
    let name = item.text_or_empty("name");
    let call_id = item.text_or_empty("call_id");
    let client_name = match plan.identity(name) {
        Some(identity) => identity.client_name.clone(),
        None => name.to_owned(),
    };
    let id = ending_id(item, call_id);
    let r = make_call_item(
        id.as_str(),
        text_at_or(item, "status", "incomplete"),
        call_id,
        client_name.as_str(),
        "",
    );
    proof {
        reveal_strlit("");
        assert(""@ =~= Seq::<char>::empty());
        let identity = if plan@.manages(name@) {
            plan@.wire_tools[name@]
        } else {
            IdentityView { client_name: name@, namespace: Seq::empty() }
        };
        assert(r@ == call_item(
            id@,
            text_or(item@, "status"@, "incomplete"@),
            call_id@,
            identity,
            Seq::empty(),
        ));
    }
    r
}

impl StreamView {
    /// The input that was delivered for the call that an item speaks of.
    pub open spec fn delivered_for(self, item: JsonView) -> Option<Seq<char>> {
        if exists|index: u32| is_first_delivered(self.pending, item, index) {
            self.pending[choose|index: u32|
                is_first_delivered(self.pending, item, index)].delivered_input
        } else {
            None
        }
    }

    /// A managed call as the end of a response shows it: its arguments must decode, and to what was
    /// delivered for it, if anything was.
    pub open spec fn ending_view(self, item: JsonView) -> Result<
        JsonView,
        AdapterErrorView,
    > {
        let name = item.text_or_empty("name"@);
        if !self.plan.manages(name) {
            Err(identity_error("终态 item「"@ + name + "」不在包装计划内"@))
        } else {
            match item.text_field("arguments"@) {
                None => Err(
                    arguments_refusal("终态 function_call「"@ + name + "」缺少 arguments"@),
                ),
                Some(arguments) => match decoded_arguments(arguments) {
                    Err(e) => Err(e),
                    Ok(input) => if self.delivered_for(item) is Some && self.delivered_for(item)->0
                        != input {
                        Err(
                            arguments_refusal(
                                "终态 output 中「"@ + name
                                    + "」的输入与已交付内容不一致，拒绝猜测"@,
                            ),
                        )
                    } else {
                        match item.text_field("call_id"@) {
                            None => Err(
                                identity_error(
                                    "终态 function_call「"@ + name + "」缺少 call_id"@,
                                ),
                            ),
                            Some(call_id) => Ok(
                                with_namespace(
                                    call_item(
                                        ending_item_id(item, call_id),
                                        text_or(item, "status"@, "completed"@),
                                        call_id,
                                        self.plan.wire_tools[name],
                                        input,
                                    ),
                                    self.plan.wire_tools[name].namespace,
                                ),
                            ),
                        }
                    },
                },
            }
        }
    }

    /// What an item of the final output becomes.
    pub open spec fn ending_item(self, item: JsonView, failed: bool) -> Result<
        JsonView,
        AdapterErrorView,
    > {
        if !is_managed(item, self.plan) {
            Ok(item)
        } else if failed && self.delivered_for(item) is None {
            Ok(undelivered_view(item, self.plan))
        } else {
            self.ending_view(item)
        }
    }

    pub open spec fn ending_step(self, failed: bool) -> spec_fn(int, JsonView) -> Result<
        JsonView,
        AdapterErrorView,
    > {
        |i: int, item: JsonView| self.ending_item(item, failed)
    }

    /// The final response with its calls and its echoed tools restored.
    pub open spec fn ending_response(self, response: JsonView, failed: bool) -> JsonView {
        let shown = match response.items_field("output"@) {
            Some(items) => response.with(
                "output"@,
                JsonView::Array(converted_items(items, self.ending_step(failed))),
            ),
            None => response,
        };
        restored_echo(shown, self.plan)
    }

    pub open spec fn ending_refusal(self, response: JsonView, failed: bool) -> Option<
        AdapterErrorView,
    > {
        match response.items_field("output"@) {
            Some(items) => refusal_of_items(items, self.ending_step(failed)),
            None => None,
        }
    }

    /// The response ends: all its calls are forgotten, unless one of its items is refused.
    pub open spec fn response_end(self, data: JsonView, event: Option<Seq<char>>) -> Step {
        let failed = data.text_field("type"@) != Some("response.completed"@);
        match data.field("response"@) {
            None => self.without_calls().emit(event, data),
            Some(response) => match self.ending_refusal(response, failed) {
                Some(e) => self.failed(e).silent(),
                None => self.without_calls().emit(
                    event,
                    data.with("response"@, self.ending_response(response, failed)),
                ),
            },
        }
    }

    pub open spec fn event_step(self, data: JsonView, event: Option<Seq<char>>) -> Step {
        let kind = data.text_or_empty("type"@);
        if kind == "response.output_item.added"@ {
            self.item_added(data, event)
        } else if kind == "response.function_call_arguments.delta"@ {
            self.arguments_delta(data, event)
        } else if kind == "response.function_call_arguments.done"@ {
            self.arguments_done(data, event)
        } else if kind == "response.output_item.done"@ {
            self.item_done(data, event)
        } else if kind == "response.completed"@ || kind == "response.incomplete"@ || kind
            == "response.failed"@ {
            self.response_end(data, event)
        } else {
            self.emit(event, data)
        }
    }

    /// A frame comes in. One without JSON goes out as it came. An error of the upstream goes out
    /// and ends the stream.
    pub open spec fn frame_step(self, frame: Seq<u8>) -> Step {
        let parsed = parsed_frame(frame);
        match parsed.json() {
            None => Step { stream: self, output: frame },
            Some(data) => if parsed.event == Some("error"@) || data.text_field("type"@) == Some(
                "error"@,
            ) {
                self.failed(
                    AdapterErrorView {
                        code: AdapterErrorCode::StreamIncomplete,
                        message: "上游流返回 error 事件"@,
                    },
                ).emit(parsed.event, data)
            } else {
                self.event_step(data, parsed.event)
            },
        }
    }
}

impl CallStream {
    fn delivered_for(&self, item: &Json) -> (r: Option<String>)
        ensures
            option_text(r) == self@.delivered_for(item@),
    {
        broadcast use vstd::std_specs::btree::group_btree_axioms;

        let mut first: Option<u32> = None;
        for k in it: self.pending.keys()
            invariant
                match first {
                    Some(f) => is_delivered_for(self@.pending, item@, f),
                    None => true,
                },
                forall|j: int|
                    0 <= j < it.index() && is_delivered_for(
                        self@.pending,
                        item@,
                        *(#[trigger] it.seq()[j]),
                    ) ==> first is Some && first->0 <= *it.seq()[j],
        {
            if let Some(call) = self.call_at(*k) {
                if speaks_of(item, call) && call.delivered_input.is_some() {
                    first = match first {
                        Some(f) => if *k < f {
                            Some(*k)
                        } else {
                            Some(f)
                        },
                        None => Some(*k),
                    };
                }
            }
        }
        proof {
            assert forall|index: u32| #[trigger]
                is_delivered_for(self@.pending, item@, index) implies first is Some && first->0
                <= index by {
                assert(self.pending@.contains_key(index));
            }
        }
        match first {
            Some(f) => {
                proof {
                    assert(is_first_delivered(self@.pending, item@, f));
                    let g = choose|index: u32| is_first_delivered(self@.pending, item@, index);
                    assert(is_delivered_for(self@.pending, item@, g));
                    assert(f == g);
                }
                match self.call_at(f) {
                    Some(call) => copy_option(&call.delivered_input),
                    None => None,
                }
            },
            None => None,
        }
    }

    /// Checks a managed call at the end of a response and makes the custom call of it.
    fn terminal_item_view(&self, item: &Json, delivered: Option<String>) -> (r: Result<
        Json,
        AdapterError,
    >)
        requires
            option_text(delivered) == self@.delivered_for(item@),
        ensures
            match r {
                Ok(view) => self@.ending_view(item@) == Ok::<JsonView, AdapterErrorView>(view@),
                Err(e) => self@.ending_view(item@) == Err::<JsonView, AdapterErrorView>(e@),
            },
    {
        let name = item.text_or_empty("name");
        let identity = match self.plan.identity(name) {
            Some(identity) => identity,
            None => {
                return Err(
                    identity_failure(concat3("终态 item「", name, "」不在包装计划内")),
                );
            },
        };
        let arguments = match item.text_at("arguments") {
            Some(arguments) => arguments,
            None => {
                let message = concat3("终态 function_call「", name, "」缺少 arguments");
                return Err(arguments_failure(message.as_str()));
            },
        };
        let input = match decode_wrapped_arguments(arguments) {
            Ok(input) => input,
            Err(e) => {
                return Err(e);
            },
        };
        if let Some(delivered) = &delivered {
            if !same_text(delivered.as_str(), input.as_str()) {
                let message = concat3(
                    "终态 output 中「",
                    name,
                    "」的输入与已交付内容不一致，拒绝猜测",
                );
                return Err(arguments_failure(message.as_str()));
            }
        }
        let call_id = match item.text_at("call_id") {
            Some(call_id) => call_id,
            None => {
                return Err(
                    identity_failure(
                        concat3("终态 function_call「", name, "」缺少 call_id"),
                    ),
                );
            },
        };
        let id = ending_id(item, call_id);
        let mut restored = make_call_item(
            id.as_str(),
            text_at_or(item, "status", "completed"),
            call_id,
            identity.client_name.as_str(),
            input.as_str(),
        );
        assert(restored@ == call_item(
            id@,
            text_or(item@, "status"@, "completed"@),
            call_id@,
            identity@,
            input@,
        ));
        put_namespace(&mut restored, identity.namespace.as_str());
        Ok(restored)
    }

    fn terminal_item(&self, item: &Json, failed: bool) -> (r: Result<Json, AdapterError>)
        ensures
            match r {
                Ok(view) => self@.ending_item(item@, failed) == Ok::<JsonView, AdapterErrorView>(
                    view@,
                ),
                Err(e) => self@.ending_item(item@, failed) == Err::<JsonView, AdapterErrorView>(e@),
            },
    {
        if !is_managed_call(item, &self.plan) {
            return Ok(item.copy());
        }
        let delivered = self.delivered_for(item);
        if failed && delivered.is_none() {
            Ok(undelivered_terminal_view(item, &self.plan))
        } else {
            self.terminal_item_view(item, delivered)
        }
    }

    fn terminal_items(&self, items: &mut Vec<Json>, failed: bool) -> (r: Result<(), AdapterError>)
        ensures
            array_view(final(items)@) == converted_items(
                array_view(old(items)@),
                self@.ending_step(failed),
            ),
            refusal(r) == refusal_of_items(array_view(old(items)@), self@.ending_step(failed)),
    {
        let ghost before = array_view(items@);
        let ghost step = self@.ending_step(failed);
        let n = items.len();
        for i in 0..n
            invariant
                n == items@.len(),
                before.len() == n,
                before == array_view(old(items)@),
                step == self@.ending_step(failed),
                first_refused(before, step, 0) == first_refused(before, step, i as int),
                forall|j: int|
                    0 <= j < i ==> (#[trigger] items@[j])@ == self@.ending_item(
                        before[j],
                        failed,
                    )->Ok_0,
                forall|j: int| i <= j < n ==> (#[trigger] items@[j])@ == before[j],
        {
            assert(items@[i as int]@ == before[i as int]);
            assert(step(i as int, before[i as int]) == self@.ending_item(
                before[i as int],
                failed,
            ));
            match self.terminal_item(&items[i], failed) {
                Ok(view) => {
                    items.set(i, view);
                },
                Err(e) => {
                    proof {
                        assert(array_view(items@) =~= converted_items(before, step));
                    }
                    return Err(e);
                },
            }
        }
        proof {
            assert(array_view(items@) =~= converted_items(before, step));
        }
        Ok(())
    }

    fn terminal_response(&self, response: &mut Json, failed: bool) -> (r: Result<(), AdapterError>)
        ensures
            refusal(r) == self@.ending_refusal(old(response)@, failed),
            r is Ok ==> final(response)@ == self@.ending_response(old(response)@, failed),
    {
        if let Some(items) = response.array_at_mut("output") {
            match self.terminal_items(items, failed) {
                Ok(_) => {},
                Err(e) => {
                    return Err(e);
                },
            }
        }
        restore_echoed_tools(response, &self.plan);
        Ok(())
    }

    fn handle_response_terminal(&mut self, data: &Json, event: Option<&str>, output: &mut Vec<u8>)
        requires
            old(self)@.sequence < u64::MAX,
        ensures
            final(self)@ == old(self)@.response_end(data@, text_view(event)).stream,
            final(output)@ == old(output)@ + old(self)@.response_end(
                data@,
                text_view(event),
            ).output,
    {
        let failed = !data.has_text("type", "response.completed");
        let mut converted = data.copy();
        let outcome = match converted.get_mut("response") {
            Some(response) => self.terminal_response(response, failed),
            None => Ok(()),
        };
        if let Err(e) = outcome {
            assert(output@ =~= old(output)@ + Seq::<u8>::empty());
            self.fail(e);
            return ;
        }
        self.pending.clear();
        self.item_index.clear();
        assert(self@ =~= old(self)@.without_calls());
        self.emit_frame(output, event, &converted);
    }

    fn handle_event(&mut self, data: &Json, event: Option<&str>, output: &mut Vec<u8>)
        requires
            old(self)@.sequence + 4 <= u64::MAX,
        ensures
            final(self)@ == old(self)@.event_step(data@, text_view(event)).stream,
            final(output)@ == old(output)@ + old(self)@.event_step(data@, text_view(event)).output,
    {
        let kind = data.text_or_empty("type");
        if same_text(kind, "response.output_item.added") {
            self.handle_output_item_added(data, event, output)
        } else if same_text(kind, "response.function_call_arguments.delta") {
            self.handle_arguments_delta(data, event, output)
        } else if same_text(kind, "response.function_call_arguments.done") {
            self.handle_arguments_done(data, event, output)
        } else if same_text(kind, "response.output_item.done") {
            self.handle_output_item_done(data, event, output)
        } else if same_text(kind, "response.completed") || same_text(kind, "response.incomplete")
            || same_text(kind, "response.failed") {
            self.handle_response_terminal(data, event, output)
        } else {
            self.emit_frame(output, event, data)
        }
    }

    fn process_frame(&mut self, frame: &[u8], output: &mut Vec<u8>)
        requires
            old(self)@.sequence + 4 <= u64::MAX,
        ensures
            final(self)@ == old(self)@.frame_step(frame@).stream,
            final(output)@ == old(output)@ + old(self)@.frame_step(frame@).output,
    {
        let parsed = parse_sse_frame(frame);
        let data = match parsed.data_json() {
            Some(data) => data,
            None => {
                push_all(output, frame);
                return ;
            },
        };
        let event = match &parsed.event {
            Some(name) => Some(name.as_str()),
            None => None,
        };
        assert(text_view(event) == parsed@.event);
        let named_error = match event {
            Some(name) => same_text(name, "error"),
            None => false,
        };
        if named_error || data.has_text("type", "error") {
            self.fail(
                AdapterError::new(
                    AdapterErrorCode::StreamIncomplete,
                    "上游流返回 error 事件".to_owned(),
                ),
            );
            self.emit_frame(output, event, &data);
            return ;
        }
        self.handle_event(&data, event, output);
    }
}

impl StreamView {
    /// The frames of a buffer come in, one after the other, until a failure or until no frame is
    /// complete. The second result is what is left of the buffer.
    pub open spec fn frames_step(self, buffer: Seq<u8>) -> (Step, Seq<u8>)
        decreases buffer.len(),
    {
        match frame_end(buffer) {
            Some(end) if self.failure is None && 0 < end <= buffer.len() => {
                let first = self.frame_step(buffer.take(end));
                let (rest, left) = first.stream.frames_step(buffer.skip(end));
                (Step { stream: rest.stream, output: first.output + rest.output }, left)
            },
            _ => (self.silent(), buffer),
        }
    }

    /// The stream ends: a call that was not delivered is a failure.
    pub open spec fn ended(self) -> StreamView {
        if self.failure is None && self.pending != Map::<u32, PendingView>::empty() {
            self.failed(
                AdapterErrorView {
                    code: AdapterErrorCode::StreamIncomplete,
                    message: "上游流在 "@ + decimal(self.pending.dom().len())
                        + " 个工具调用交付前结束，已丢弃待执行输入"@,
                },
            ).without_calls()
        } else {
            self.without_calls()
        }
    }

    /// The error event that tells the client of a failure.
    pub open spec fn report(self) -> Step {
        match self.failure {
            None => self.silent(),
            Some(failure) => Step {
                stream: StreamView { sequence: self.sequence + 1, ..self },
                output: frame_bytes(
                    "error"@,
                    empty_object().with_text("type"@, "error"@).with_text(
                        "code"@,
                        failure.code.spec_name(),
                    ).with_text("message"@, failure.message).with(
                        "sequence_number"@,
                        JsonView::Integer(self.sequence),
                    ),
                ),
            },
        }
    }
}

/// Rewrites the stream of a response as it comes in. A plan without tools lets every byte through.
#[derive(Debug)]
pub struct CustomToolSseRewriter {
    stream: CallStream,
    buffer: Vec<u8>,
}

#[verifier::ext_equal]
pub struct RewriterView {
    pub stream: StreamView,
    /// What came in and is not a complete frame yet.
    pub buffer: Seq<u8>,
}

impl View for CustomToolSseRewriter {
    type V = RewriterView;

    closed spec fn view(&self) -> RewriterView {
        RewriterView { stream: self.stream@, buffer: self.buffer@ }
    }
}

impl RewriterView {
    pub open spec fn passes(self) -> bool {
        self.stream.plan.wire_tools == Map::<Seq<char>, IdentityView>::empty()
    }

    /// Bytes come in: the rewriter after them, and the bytes that go out.
    pub open spec fn pushed(self, bytes: Seq<u8>) -> (RewriterView, Seq<u8>) {
        if self.passes() {
            (self, bytes)
        } else {
            let (step, left) = self.stream.frames_step(self.buffer + bytes);
            if step.stream.failure is Some {
                (RewriterView { stream: step.stream, buffer: Seq::empty() }, step.output + left)
            } else {
                (RewriterView { stream: step.stream, buffer: left }, step.output)
            }
        }
    }

    /// The step for what is left in the buffer at the end: a frame, if its data is JSON.
    pub open spec fn last_step(self) -> Step {
        if self.buffer.len() > 0 && parsed_frame(self.buffer).json() is Some {
            self.stream.frame_step(self.buffer)
        } else {
            self.stream.silent()
        }
    }

    /// Whether the stream ended within a frame.
    pub open spec fn cut_short(self) -> bool {
        self.buffer.len() > 0 && (parsed_frame(self.buffer).json() is Some || trimmed(
            lossy_text(self.buffer),
        ).len() > 0)
    }

    /// The stream ends: the rewriter then, and the bytes that go out last.
    pub open spec fn finished(self) -> (RewriterView, Seq<u8>) {
        if self.passes() {
            (RewriterView { buffer: Seq::empty(), ..self }, self.buffer)
        } else {
            let last = self.last_step();
            let report = last.stream.ended().report();
            (
                RewriterView { stream: report.stream, buffer: Seq::empty() },
                last.output + report.output,
            )
        }
    }

    /// How far the numbers of the frames can go for the bytes held.
    pub open spec fn reach(self) -> int {
        self.stream.sequence + 4 * self.buffer.len()
    }
}

/// A step took at most `n` numbers, and left the plan alone.
pub open spec fn takes_numbers(before: StreamView, step: Step, n: int) -> bool {
    before.sequence <= step.stream.sequence <= before.sequence + n && step.stream.plan == before.plan
}

proof fn lemma_emit_numbers(stream: StreamView, event: Option<Seq<char>>, data: JsonView)
    ensures
        takes_numbers(stream, stream.emit(event, data), 1),
{
}

proof fn lemma_deliver_numbers(
    stream: StreamView,
    index: u32,
    item_id: Seq<char>,
    call_id: Seq<char>,
    wire_name: Seq<char>,
    arguments: Seq<char>,
    status: Option<Seq<char>>,
)
    ensures
        takes_numbers(
            stream,
            stream.deliver(index, item_id, call_id, wire_name, arguments, status),
            4,
        ),
{
}

proof fn lemma_call_done_numbers(stream: StreamView, index: u32, item: JsonView)
    ensures
        takes_numbers(stream, stream.call_done(index, item), 4),
{
    let call = stream.pending[index];
    lemma_deliver_numbers(
        stream,
        index,
        call.item_id,
        text_or(item, "call_id"@, call.call_id),
        item.text_or_empty("name"@),
        final_arguments(call, item),
        item.text_field("status"@),
    );
}

proof fn lemma_item_done_numbers(stream: StreamView, data: JsonView, event: Option<Seq<char>>)
    ensures
        takes_numbers(stream, stream.item_done(data, event), 4),
{
    lemma_emit_numbers(stream, event, data);
    if let Some(item) = data.field("item"@) {
        match stream.known_index(data) {
            Some(index) => {
                lemma_call_done_numbers(stream, index, item);
            },
            None => {
                lemma_deliver_numbers(
                    stream,
                    output_index(data),
                    item.text_or_empty("id"@),
                    item.text_or_empty("call_id"@),
                    item.text_or_empty("name"@),
                    item.text_or_empty("arguments"@),
                    item.text_field("status"@),
                );
            },
        }
    }
}

proof fn lemma_held_numbers(stream: StreamView, data: JsonView, event: Option<Seq<char>>)
    ensures
        takes_numbers(stream, stream.item_added(data, event), 1),
        takes_numbers(stream, stream.arguments_delta(data, event), 1),
        takes_numbers(stream, stream.arguments_done(data, event), 1),
        takes_numbers(stream, stream.response_end(data, event), 1),
{
}

/// A frame takes at most four numbers, and leaves the plan alone.
pub proof fn frame_numbers_are_bounded(stream: StreamView, frame: Seq<u8>)
    ensures
        takes_numbers(stream, stream.frame_step(frame), 4),
{
    let parsed = parsed_frame(frame);
    if let Some(data) = parsed.json() {
        lemma_item_done_numbers(stream, data, parsed.event);
        lemma_held_numbers(stream, data, parsed.event);
        lemma_emit_numbers(stream, parsed.event, data);
    }
}

proof fn lemma_frames_step(stream: StreamView, buffer: Seq<u8>)
    ensures
        stream.frames_step(buffer).0.stream.plan == stream.plan,
    decreases buffer.len(),
{
    if let Some(end) = frame_end(buffer) {
        if stream.failure is None && 0 < end <= buffer.len() {
            let first = stream.frame_step(buffer.take(end));
            frame_numbers_are_bounded(stream, buffer.take(end));
            lemma_frames_step(first.stream, buffer.skip(end));
        }
    }
}

impl Default for CustomToolSseRewriter {
    fn default() -> (r: Self)
        ensures
            r@ == (RewriterView {
                stream: StreamView::start(PlanView::empty()),
                buffer: Seq::empty(),
            }),
    {
        CustomToolSseRewriter::new(CustomToolAdapterPlan::default())
    }
}

impl CustomToolSseRewriter {
    pub fn new(plan: CustomToolAdapterPlan) -> (r: Self)
        ensures
            r@ == (RewriterView { stream: StreamView::start(plan@), buffer: Seq::empty() }),
    {
        CustomToolSseRewriter { stream: CallStream::new(plan), buffer: Vec::new() }
    }

    pub fn plan(&self) -> (r: &CustomToolAdapterPlan)
        ensures
            r@ == self@.stream.plan,
    {
        &self.stream.plan
    }

    /// Takes bytes in and gives the bytes that go out for them.
    pub fn push_bytes(&mut self, bytes: &[u8]) -> (r: Vec<u8>)
        requires
            old(self)@.passes() || old(self)@.reach() + 4 * bytes@.len() <= u64::MAX,
        ensures
            (final(self)@, r@) == old(self)@.pushed(bytes@),
            final(self)@.reach() <= old(self)@.reach() + 4 * bytes@.len(),
    {
        if self.stream.plan.is_empty() {
            return vstd::slice::slice_to_vec(bytes);
        }
        push_all(&mut self.buffer, bytes);
        let mut output: Vec<u8> = Vec::new();
        let ghost all = self.stream@.frames_step(self.buffer@);
        assert(Seq::<u8>::empty() + all.0.output =~= all.0.output);
        loop
            invariant
                self@.reach() <= old(self)@.reach() + 4 * bytes@.len(),
                old(self)@.reach() + 4 * bytes@.len() <= u64::MAX,
                ({
                    let (step, left) = self.stream@.frames_step(self.buffer@);
                    all == (
                        Step { stream: step.stream, output: output@ + step.output },
                        left,
                    )
                }),
            ensures
                self@.reach() <= old(self)@.reach() + 4 * bytes@.len(),
                all == (Step { stream: self.stream@, output: output@ }, self.buffer@),
            decreases self.buffer@.len(),
        {
            if self.stream.failure.is_some() {
                assert(output@ + Seq::<u8>::empty() =~= output@);
                break ;
            }
            let ghost before = self.buffer@;
            let ghost stream = self.stream@;
            let ghost sent = output@;
            match take_complete_frame(&mut self.buffer) {
                None => {
                    assert(output@ + Seq::<u8>::empty() =~= output@);
                    break ;
                },
                Some(frame) => {
                    proof {
                        assert(before.take(frame@.len() as int) =~= frame@);
                        assert(before.skip(frame@.len() as int) =~= self.buffer@);
                        frame_numbers_are_bounded(stream, frame@);
                    }
                    self.stream.process_frame(frame.as_slice(), &mut output);
                    proof {
                        let (step, left) = self.stream@.frames_step(self.buffer@);
                        let first = stream.frame_step(frame@);
                        assert(sent + (first.output + step.output) =~= output@ + step.output);
                    }
                },
            }
        }
        if self.stream.failure.is_some() {
            push_all(&mut output, self.buffer.as_slice());
            self.buffer.clear();
        }
        proof {
            lemma_frames_step(old(self)@.stream, old(self)@.buffer + bytes@);
        }
        output
    }

    /// Ends the stream. The second result tells whether it ended within a frame.
    pub fn finish_with_truncation(&mut self) -> (r: (Vec<u8>, bool))
        requires
            old(self)@.passes() || old(self)@.stream.sequence + 5 <= u64::MAX,
        ensures
            (final(self)@, r.0@) == old(self)@.finished(),
            r.1 == (!old(self)@.passes() && old(self)@.cut_short()),
    {
        broadcast use vstd::std_specs::btree::group_btree_axioms;

        let mut buffer: Vec<u8> = Vec::new();
        std::mem::swap(&mut buffer, &mut self.buffer);
        if self.stream.plan.is_empty() {
            return (buffer, false);
        }
        let mut output: Vec<u8> = Vec::new();
        let mut truncated = false;
        if buffer.len() > 0 {
            let parsed = parse_sse_frame(buffer.as_slice());
            if parsed.data_json().is_some() {
                proof {
                    frame_numbers_are_bounded(self.stream@, buffer@);
                }
                self.stream.process_frame(buffer.as_slice(), &mut output);
                truncated = true;
            } else {
                let text = text_of_bytes(buffer.as_slice());
                truncated = !trim(text.as_str()).is_empty();
            }
        }
        let ghost last = old(self)@.last_step();
        assert(output@ =~= last.output);
        assert(self.stream@ == last.stream);
        self.stream.end();
        self.stream.push_report(&mut output);
        (output, truncated)
    }
}

impl CallStream {
    fn end(&mut self)
        ensures
            final(self)@ == old(self)@.ended(),
    {
        broadcast use vstd::std_specs::btree::group_btree_axioms;

        let dropped = self.pending.len();
        proof {
            assert(self@.pending.dom() =~= self.pending@.dom());
            if dropped == 0 {
                assert(self@.pending =~= Map::empty());
            } else {
                assert(self@.pending != Map::<u32, PendingView>::empty()) by {
                    if self@.pending == Map::<u32, PendingView>::empty() {
                        assert(self@.pending.dom() =~= Set::empty());
                    }
                }
            }
        }
        if self.failure.is_none() && dropped > 0 {
            let number = decimal_text(dropped as u64);
            self.fail(
                AdapterError::new(
                    AdapterErrorCode::StreamIncomplete,
                    concat3(
                        "上游流在 ",
                        number.as_str(),
                        " 个工具调用交付前结束，已丢弃待执行输入",
                    ),
                ),
            );
        }
        self.pending.clear();
        self.item_index.clear();
        assert(self@ =~= old(self)@.ended());
    }

    fn push_report(&mut self, output: &mut Vec<u8>)
        requires
            old(self)@.sequence < u64::MAX,
        ensures
            final(self)@ == old(self)@.report().stream,
            final(output)@ == old(output)@ + old(self)@.report().output,
    {
        assert(output@ =~= old(output)@ + Seq::<u8>::empty());
        if let Some(failure) = &self.failure {
            let mut payload = Json::object();
            payload.put_text("type", "error");
            payload.put_text("code", failure.code.as_str());
            payload.put_text("message", failure.message.as_str());
            payload.put("sequence_number", Json::Unsigned(self.sequence));
            push_frame(output, "error", &payload);
            self.sequence = self.sequence + 1;
            assert(self@ =~= old(self)@.report().stream);
        }
    }
}

/// The place in the output of 32 bits.
#[verifier::truncate]
fn cut_index(n: u64) -> (r: u32)
    ensures
        r == n as u32,
{
    n as u32
}

fn index_of(data: &Json) -> (r: u32)
    ensures
        r == output_index(data@),
{
    match data.u64_at("output_index") {
        Some(n) => cut_index(n),
        None => 0,
    }
}

} // verus!
