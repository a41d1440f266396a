//! What a request says after it was encoded.
use vstd::prelude::*;

use super::encode::{
    allowed_tool_step, converted_items, encoded_allowed_tool, encoded_choice, encoded_history_item,
    encoded_reference, encoded_request, encoded_tool, format_note, history_step, plan_of_request,
    plan_of_tools, refers_to_server_state, refusal_of_items, tool_step, unsupported_fields,
    with_choice, with_history, with_tools, wrapped_declaration,
};
use super::laws::lemma_converted_each;
use super::plan::{AdapterErrorCode, AdapterErrorView, PlanView};
use crate::json::{json_text, JsonView};
use crate::text::{has_part, has_prefix, trimmed};

verus! {

/// How the names of the fields differ.
pub(super) proof fn lemma_names()
    ensures
        "type"@.len() == 4 && "type"@[0] == 't',
        "name"@.len() == 4 && "name"@[0] == 'n',
        "description"@.len() == 11 && "description"@[0] == 'd',
        "format"@.len() == 6 && "format"@[0] == 'f',
        "parameters"@.len() == 10 && "parameters"@[1] == 'a',
        "properties"@.len() == 10 && "properties"@[1] == 'r',
        "required"@.len() == 8,
        "additionalProperties"@.len() == 20,
        "strict"@.len() == 6 && "strict"@[0] == 's' && "strict"@[2] == 'r',
        "status"@.len() == 6 && "status"@[0] == 's' && "status"@[2] == 'a',
        "input"@.len() == 5 && "input"@[0] == 'i',
        "tools"@.len() == 5 && "tools"@[0] == 't',
        "arguments"@.len() == 9 && "arguments"@[0] == 'a',
        "namespace"@.len() == 9 && "namespace"@[0] == 'n',
        "id"@.len() == 2,
        "call_id"@.len() == 7,
        "tool_choice"@.len() == 11 && "tool_choice"@[0] == 't',
        "custom"@.len() == 6 && "function"@.len() == 8 && "grammar"@.len() == 7,
        "allowed_tools"@.len() == 13 && "text"@.len() == 4 && ""@.len() == 0,
        "custom_tool_call"@.len() == 16 && "custom_tool_call_output"@.len() == 23,
        "function_call"@.len() == 13 && "function_call_output"@.len() == 20,
{
    reveal_strlit("type");
    reveal_strlit("name");
    reveal_strlit("description");
    reveal_strlit("format");
    reveal_strlit("parameters");
    reveal_strlit("properties");
    reveal_strlit("required");
    reveal_strlit("additionalProperties");
    reveal_strlit("strict");
    reveal_strlit("status");
    reveal_strlit("input");
    reveal_strlit("tools");
    reveal_strlit("arguments");
    reveal_strlit("namespace");
    reveal_strlit("id");
    reveal_strlit("call_id");
    reveal_strlit("tool_choice");
    reveal_strlit("custom");
    reveal_strlit("function");
    reveal_strlit("grammar");
    reveal_strlit("allowed_tools");
    reveal_strlit("text");
    reveal_strlit("");
    reveal_strlit("custom_tool_call");
    reveal_strlit("custom_tool_call_output");
    reveal_strlit("function_call");
    reveal_strlit("function_call_output");
}

pub open spec fn has_grammar(tool: JsonView) -> bool {
    tool.field("format"@) is Some && tool.field("format"@)->0.text_field("type"@) == Some(
        "grammar"@,
    )
}

/// The description of a wrapped declaration begins with the tool's own, trimmed, where it has one,
/// and says then how to supply the input; a grammar is named at its end.
pub proof fn description_begins_with_the_tools_own(tool: JsonView, wire_name: Seq<char>)
    requires
        wrapped_declaration(tool, wire_name) is Ok,
    ensures
        ({
            let own = trimmed(tool.text_or_empty("description"@));
            let told = wrapped_declaration(tool, wire_name)->Ok_0.text_or_empty("description"@);
            let manner =
                "Supply a JSON object with one input string. The input value is the original tool text, not an additional JSON encoding of that text."@;
            &&& own.len() > 0 ==> has_prefix(told, own + "\n\n"@ + manner)
            &&& own.len() == 0 ==> has_prefix(
                told,
                "Freeform custom tool wrapped as a function by codex-plus. "@ + manner,
            )
            &&& !has_grammar(tool) ==> told.len() == manner.len() + if own.len() > 0 {
                own.len() + 2
            } else {
                58
            }
            &&& has_grammar(tool) ==> has_part(
                told,
                tool.field("format"@)->0.text_or_empty("syntax"@) + " grammar"@,
            )
        }),
{
    lemma_names();
    let own = trimmed(tool.text_or_empty("description"@));
    let told = wrapped_declaration(tool, wire_name)->Ok_0.text_or_empty("description"@);
    let manner =
        "Supply a JSON object with one input string. The input value is the original tool text, not an additional JSON encoding of that text."@;
    reveal_strlit("\n\n");
    reveal_strlit(
        "Supply a JSON object with one input string. The input value is the original tool text, not an additional JSON encoding of that text.",
    );
    reveal_strlit("Freeform custom tool wrapped as a function by codex-plus. ");
    reveal_strlit(
        "\n\nSupply a JSON object with one input string. The input value is the original tool text, not an additional JSON encoding of that text.",
    );
    reveal_strlit(
        "Freeform custom tool wrapped as a function by codex-plus. Supply a JSON object with one input string. The input value is the original tool text, not an additional JSON encoding of that text.",
    );
    reveal_strlit("\n\nThe original custom tool declared a ");
    reveal_strlit(
        " grammar for its input; follow that grammar when composing the input text. The proxy cannot enforce it server-side anymore, so produce the exact text the tool expects.",
    );
    reveal_strlit(" grammar");
    let note = format_note(tool, wire_name)->Ok_0;
    assert("Freeform custom tool wrapped as a function by codex-plus. "@ + manner
        =~= "Freeform custom tool wrapped as a function by codex-plus. Supply a JSON object with one input string. The input value is the original tool text, not an additional JSON encoding of that text."@);
    assert("\n\n"@ + manner
        =~= "\n\nSupply a JSON object with one input string. The input value is the original tool text, not an additional JSON encoding of that text."@);
    let head = super::encode::wrapper_description(own);
    assert(told == head + note);
    if own.len() > 0 {
        let begun = own + "\n\n"@ + manner;
        assert(head =~= begun);
        assert(told.take(begun.len() as int) =~= begun);
    } else {
        assert(told.take(head.len() as int) =~= head);
    }
    if has_grammar(tool) {
        let syntax = tool.field("format"@)->0.text_or_empty("syntax"@);
        let named = syntax + " grammar"@;
        let at = head.len() + "\n\nThe original custom tool declared a "@.len();
        assert(note == super::encode::grammar_note(syntax));
        assert(told.subrange(at as int, at as int + named.len()) =~= named);
    } else {
        assert(note.len() == 0);
    }
}

/// A wrapped declaration is a function with the wire name that takes an object with one text, the
/// input, and nothing else.
pub proof fn wrapped_function_takes_one_input(tool: JsonView, wire_name: Seq<char>)
    requires
        wrapped_declaration(tool, wire_name) is Ok,
    ensures
        ({
            let declared = wrapped_declaration(tool, wire_name)->Ok_0;
            let taken = declared.field("parameters"@)->0;
            let texts = taken.field("properties"@)->0;
            &&& declared.text_field("type"@) == Some("function"@)
            &&& declared.text_field("name"@) == Some(wire_name)
            &&& declared.field("strict"@) == Some(JsonView::Bool(false))
            &&& declared.field("parameters"@) is Some
            &&& taken.text_field("type"@) == Some("object"@)
            &&& taken.field("additionalProperties"@) == Some(JsonView::Bool(false))
            &&& taken.items_field("required"@) == Some(seq![JsonView::Text("input"@)])
            &&& taken.field("properties"@) is Some
            &&& texts.field("input"@) is Some
            &&& texts.field("input"@)->0.text_field("type"@) == Some("string"@)
            &&& texts.field("input"@)->0.text_field("description"@) == Some(
                "Exact original custom-tool input, preserving whitespace and escapes."@,
            )
            &&& forall|k: Seq<char>| #[trigger] texts.field(k) is Some ==> k == "input"@
            &&& forall|k: Seq<char>| #[trigger]
                declared.field(k) is Some ==> k == "type"@ || k == "name"@ || k == "description"@ || k
                    == "parameters"@ || k == "strict"@
        }),
{
    lemma_names();
}

/// A declaration is wrapped where it has no field besides type, name, description and format, and
/// its format, if it has one, is text or a grammar. Anything else is refused, by what it is.
pub proof fn what_cannot_be_wrapped_is_refused(tool: JsonView, wire_name: Seq<char>)
    ensures
        ({
            let known = forall|k: Seq<char>| #[trigger]
                tool.field(k) is Some ==> k == "type"@ || k == "name"@ || k == "description"@ || k
                    == "format"@;
            let format = tool.field("format"@);
            let fits = format is None || format->0 == JsonView::Null || format->0.text_field(
                "type"@,
            ) == Some("text"@) || format->0.text_field("type"@) == Some(""@)
                || format->0.text_field("type"@) == Some("grammar"@);
            &&& wrapped_declaration(tool, wire_name) is Ok == (known && fits)
            &&& !known ==> wrapped_declaration(tool, wire_name)->Err_0.code
                == AdapterErrorCode::UnsupportedField
            &&& known && !fits ==> wrapped_declaration(tool, wire_name)->Err_0.code
                == AdapterErrorCode::UnsupportedFormat
        }),
{
    let others = unsupported_fields(tool);
    let known = forall|k: Seq<char>| #[trigger]
        tool.field(k) is Some ==> k == "type"@ || k == "name"@ || k == "description"@ || k
            == "format"@;
    if known {
        assert forall|k: Seq<char>| !others.contains(k) by {
            if others.contains(k) {
                assert(tool.field(k) is Some);
            }
        }
        assert(others =~= Set::empty());
    } else {
        let k = choose|k: Seq<char>| #[trigger]
            tool.field(k) is Some && !(k == "type"@ || k == "name"@ || k == "description"@ || k
                == "format"@);
        assert(others.contains(k));
    }
}

/// A custom call in the history becomes a call of the function with the same name, ids and other
/// fields, and arguments that wrap its input alone; a custom output changes its type only; anything
/// else stays.
pub proof fn history_keeps_its_fields(index: int, item: JsonView)
    requires
        encoded_history_item(index, item) is Ok,
    ensures
        ({
            let after = encoded_history_item(index, item)->Ok_0;
            let kind = item.text_field("type"@);
            &&& kind == Some("custom_tool_call"@) ==> {
                &&& after.text_field("type"@) == Some("function_call"@)
                &&& after.field("name"@) == item.field("name"@)
                &&& after.field("input"@) is None
                &&& exists|wrapped: JsonView| #[trigger]
                    wrapped.text_field("input"@) == item.text_field("input"@) && (forall|k: Seq<
                        char,
                    >| #[trigger]
                        wrapped.field(k) is Some ==> k == "input"@) && after.text_field(
                        "arguments"@,
                    ) == Some(json_text(wrapped))
                &&& forall|k: Seq<char>|
                    k != "type"@ && k != "name"@ && k != "input"@ && k != "arguments"@
                        ==> #[trigger] after.field(k) == item.field(k)
            }
            &&& kind == Some("custom_tool_call_output"@) ==> {
                &&& after.text_field("type"@) == Some("function_call_output"@)
                &&& forall|k: Seq<char>|
                    k != "type"@ ==> #[trigger] after.field(k) == item.field(k)
            }
            &&& kind != Some("custom_tool_call"@) && kind != Some("custom_tool_call_output"@)
                ==> after == item
        }),
{
    lemma_names();
    if item.text_field("type"@) == Some("custom_tool_call"@) {
        let wrapped = super::decode::wrapped_input(item.text_field("input"@)->0);
        assert(wrapped.text_field("input"@) == item.text_field("input"@));
    }
}

/// A custom call in the history is refused without a name or without a text as its input, and
/// nothing else in the history is.
pub proof fn history_is_refused_without_name_or_input(index: int, item: JsonView)
    ensures
        encoded_history_item(index, item) is Ok == (item.text_field("type"@) == Some(
            "custom_tool_call"@,
        ) ==> item.text_or_empty("name"@).len() > 0 && item.text_field("input"@) is Some),
        item.text_field("type"@) == Some("custom_tool_call"@) && item.text_or_empty("name"@).len()
            == 0 ==> encoded_history_item(index, item)->Err_0.code
            == AdapterErrorCode::ToolIdentityConflict,
        item.text_field("type"@) == Some("custom_tool_call"@) && item.text_or_empty("name"@).len()
            > 0 && item.text_field("input"@) is None ==> encoded_history_item(index, item)->Err_0.code
            == AdapterErrorCode::InvalidArguments,
{
}

/// A reference to a custom tool becomes one to a function whose tool has the client's name, in the
/// namespace that the reference gives; its other fields stay.
pub proof fn reference_names_the_clients_tool(value: JsonView, plan: PlanView)
    requires
        encoded_reference(value, plan) is Ok,
    ensures
        ({
            let after = encoded_reference(value, plan)->Ok_0;
            let wire_name = after.text_or_empty("name"@);
            let space = value.text_or_empty("namespace"@);
            &&& after.text_field("type"@) == Some("function"@)
            &&& after.field("namespace"@) is None
            &&& plan.wire_tools.contains_key(wire_name)
            &&& Some(plan.wire_tools[wire_name].client_name) == value.text_field("name"@)
            &&& space.len() > 0 ==> plan.wire_tools[wire_name].namespace == space
            &&& forall|k: Seq<char>|
                k != "type"@ && k != "name"@ && k != "namespace"@ ==> #[trigger] after.field(k)
                    == value.field(k)
        }),
{
    lemma_names();
    let name = value.text_field("name"@)->0;
    let space = value.text_or_empty("namespace"@);
    let namespace = if space.len() > 0 {
        Some(space)
    } else {
        None
    };
    let wire_name = choose|w: Seq<char>| plan.alone_means(w, name, namespace);
    assert(plan.resolved(name, namespace) == Ok::<Option<Seq<char>>, AdapterErrorView>(
        Some(wire_name),
    ));
    assert(plan.alone_means(wire_name, name, namespace));
    assert(plan.may_mean(wire_name, name, namespace));
}

/// A reference with a namespace means the one tool that has that name there; it is refused where
/// none has, or two have.
pub proof fn qualified_reference_means_its_tool(
    plan: PlanView,
    name: Seq<char>,
    space: Seq<char>,
    wire_name: Seq<char>,
    other: Seq<char>,
)
    requires
        space.len() > 0,
        plan.wire_tools.contains_key(wire_name),
        plan.wire_tools[wire_name].client_name == name,
        plan.wire_tools[wire_name].namespace == space,
    ensures
        (forall|w: Seq<char>| #[trigger]
            plan.wire_tools.contains_key(w) && plan.wire_tools[w].client_name == name
                && plan.wire_tools[w].namespace == space ==> w == wire_name) ==> plan.resolved(
            name,
            Some(space),
        ) == Ok::<Option<Seq<char>>, AdapterErrorView>(Some(wire_name)),
        other != wire_name && plan.wire_tools.contains_key(other)
            && plan.wire_tools[other].client_name == name && plan.wire_tools[other].namespace
            == space ==> plan.resolved(name, Some(space)) is Err,
{
    assert(plan.may_mean(wire_name, name, Some(space)));
    if forall|w: Seq<char>| #[trigger]
        plan.wire_tools.contains_key(w) && plan.wire_tools[w].client_name == name
            && plan.wire_tools[w].namespace == space ==> w == wire_name {
        assert(plan.alone_means(wire_name, name, Some(space)));
        let w = choose|w: Seq<char>| plan.alone_means(w, name, Some(space));
        assert(plan.may_mean(w, name, Some(space)));
    }
    if other != wire_name && plan.wire_tools.contains_key(other)
        && plan.wire_tools[other].client_name == name && plan.wire_tools[other].namespace == space {
        assert(plan.may_mean(other, name, Some(space)));
        if exists|w: Seq<char>| plan.alone_means(w, name, Some(space)) {
            let w = choose|w: Seq<char>| plan.alone_means(w, name, Some(space));
            assert(w == wire_name && w == other);
        }
    }
}

/// A reference without a namespace means the one top-level tool of that name, whatever namespaces
/// have one too; where no tool at all has the name, it means none.
pub proof fn plain_reference_means_the_top_level_tool(
    plan: PlanView,
    name: Seq<char>,
    wire_name: Seq<char>,
)
    ensures
        plan.wire_tools.contains_key(wire_name) && plan.wire_tools[wire_name].client_name == name
            && plan.wire_tools[wire_name].namespace.len() == 0 && (forall|w: Seq<char>| #[trigger]
            plan.wire_tools.contains_key(w) && plan.wire_tools[w].client_name == name
                && plan.wire_tools[w].namespace.len() == 0 ==> w == wire_name) ==> plan.resolved(
            name,
            None,
        ) == Ok::<Option<Seq<char>>, AdapterErrorView>(Some(wire_name)),
        (forall|w: Seq<char>| #[trigger]
            plan.wire_tools.contains_key(w) ==> plan.wire_tools[w].client_name != name)
            ==> plan.resolved(name, None) == Ok::<Option<Seq<char>>, AdapterErrorView>(None),
{
    if plan.wire_tools.contains_key(wire_name) && plan.wire_tools[wire_name].client_name == name
        && plan.wire_tools[wire_name].namespace.len() == 0 && (forall|w: Seq<char>| #[trigger]
        plan.wire_tools.contains_key(w) && plan.wire_tools[w].client_name == name
            && plan.wire_tools[w].namespace.len() == 0 ==> w == wire_name) {
        assert(plan.may_mean(wire_name, name, None));
        assert(!plan.none_at_top_level(name));
        assert(plan.alone_means(wire_name, name, None));
        let w = choose|w: Seq<char>| plan.alone_means(w, name, None);
        assert(plan.may_mean(w, name, None));
    }
    if forall|w: Seq<char>| #[trigger]
        plan.wire_tools.contains_key(w) ==> plan.wire_tools[w].client_name != name {
        assert forall|w: Seq<char>| !#[trigger] plan.may_mean(w, name, None) by {
            if plan.may_mean(w, name, None) {
                assert(plan.wire_tools.contains_key(w));
            }
        }
    }
}

/// Two tools of one name in namespaces, and none at the top level, make a reference without a
/// namespace a conflict.
pub proof fn plain_reference_to_several_tools_is_refused(
    plan: PlanView,
    name: Seq<char>,
    one: Seq<char>,
    other: Seq<char>,
)
    requires
        one != other,
        plan.wire_tools.contains_key(one),
        plan.wire_tools.contains_key(other),
        plan.wire_tools[one].client_name == name,
        plan.wire_tools[other].client_name == name,
        forall|w: Seq<char>| #[trigger]
            plan.wire_tools.contains_key(w) && plan.wire_tools[w].client_name == name
                ==> plan.wire_tools[w].namespace.len() > 0,
    ensures
        plan.resolved(name, None) is Err,
        plan.resolved(name, None)->Err_0.code == AdapterErrorCode::ToolIdentityConflict,
{
    assert(plan.may_mean(one, name, None));
    assert(plan.may_mean(other, name, None));
    if exists|w: Seq<char>| plan.alone_means(w, name, None) {
        let w = choose|w: Seq<char>| plan.alone_means(w, name, None);
        assert(w == one && w == other);
    }
}

/// The plan holds exactly the custom tools, each as the flattened namespaces name it, or by its own
/// name at the top level.
pub proof fn plan_holds_the_custom_tools(
    tools: Seq<JsonView>,
    names: Map<Seq<char>, (String, String)>,
    n: int,
    wire_name: Seq<char>,
)
    requires
        0 <= n <= tools.len(),
    ensures
        ({
            let plan = plan_of_tools(tools, names, n);
            let held = exists|i: int|
                0 <= i < n && (#[trigger] tools[i]).text_field("type"@) == Some("custom"@)
                    && tools[i].text_or_empty("name"@) == wire_name;
            &&& plan.wire_tools.contains_key(wire_name) == held
            &&& plan.original_declarations.contains_key(wire_name) == held
            &&& held && names.contains_key(wire_name) ==> plan.wire_tools[wire_name].namespace
                == names[wire_name].0@ && plan.wire_tools[wire_name].client_name
                == names[wire_name].1@
            &&& held && !names.contains_key(wire_name)
                ==> plan.wire_tools[wire_name].namespace.len() == 0
                && plan.wire_tools[wire_name].client_name == wire_name
        }),
    decreases n,
{
    if n > 0 {
        plan_holds_the_custom_tools(tools, names, n - 1, wire_name);
        let last = tools[n - 1];
        if last.text_field("type"@) == Some("custom"@) && last.text_or_empty("name"@) == wire_name {
            assert(tools[n - 1].text_field("type"@) == Some("custom"@));
        }
    }
}

/// The fields of a request besides its tools, its history and its tool choice stay; each tool and
/// each item of the history is converted in its place, and no tool that is not custom changes.
pub proof fn request_is_converted_in_place(
    body: JsonView,
    names: Map<Seq<char>, (String, String)>,
)
    requires
        encoded_request(body, names).1 is None,
    ensures
        ({
            let after = encoded_request(body, names).0;
            let tools = body.items_field("tools"@);
            let items = body.items_field("input"@);
            &&& forall|k: Seq<char>|
                k != "tools"@ && k != "input"@ && k != "tool_choice"@ ==> #[trigger] after.field(k)
                    == body.field(k)
            &&& tools is Some ==> after.items_field("tools"@) is Some && after.items_field(
                "tools"@,
            )->0.len() == tools->0.len()
            &&& tools is Some ==> forall|i: int|
                0 <= i < tools->0.len() ==> if (#[trigger] tools->0[i]).text_field("type"@) == Some(
                    "custom"@,
                ) {
                    wrapped_declaration(tools->0[i], tools->0[i].text_or_empty("name"@)) == Ok::<
                        JsonView,
                        AdapterErrorView,
                    >(after.items_field("tools"@)->0[i]) && tools->0[i].text_or_empty(
                        "name"@,
                    ).len() > 0
                } else {
                    after.items_field("tools"@)->0[i] == tools->0[i]
                }
            &&& tools is None ==> after.field("tools"@) == body.field("tools"@)
            &&& items is Some ==> after.items_field("input"@) is Some && after.items_field(
                "input"@,
            )->0.len() == items->0.len()
            &&& items is Some ==> forall|i: int|
                0 <= i < items->0.len() ==> encoded_history_item(i, #[trigger] items->0[i]) == Ok::<
                    JsonView,
                    AdapterErrorView,
                >(after.items_field("input"@)->0[i])
            &&& items is None ==> after.field("input"@) == body.field("input"@)
            &&& body.field("tool_choice"@) is None ==> after.field("tool_choice"@) is None
        }),
{
    lemma_names();
    let (wrapped, tools_refused) = with_tools(body);
    let (replayed, history_refused) = with_history(wrapped);
    let plan = plan_of_request(body, names);
    let after = with_choice(replayed, plan).0;
    assert(wrapped.items_field("input"@) == body.items_field("input"@));
    if let Some(tools) = body.items_field("tools"@) {
        let done = converted_items(tools, tool_step());
        assert(wrapped.items_field("tools"@) == Some(done));
        assert(after.items_field("tools"@) == Some(done));
        assert forall|i: int| 0 <= i < tools.len() implies encoded_tool(#[trigger] tools[i]) == Ok::<
            JsonView,
            AdapterErrorView,
        >(done[i]) by {
            lemma_converted_each(tools, tool_step(), i);
            assert(tool_step()(i, tools[i]) == encoded_tool(tools[i]));
        }
    }
    if let Some(items) = body.items_field("input"@) {
        let done = converted_items(items, history_step());
        assert(after.items_field("input"@) == Some(done));
        assert forall|i: int| 0 <= i < items.len() implies encoded_history_item(
            i,
            #[trigger] items[i],
        ) == Ok::<JsonView, AdapterErrorView>(done[i]) by {
            lemma_converted_each(items, history_step(), i);
            assert(history_step()(i, items[i]) == encoded_history_item(i, items[i]));
        }
    }
}

/// A choice that is a text, or a reference to anything but a custom tool, stays. In a list of
/// allowed tools each custom one is converted in its place.
pub proof fn choice_is_converted_in_place(choice: JsonView, plan: PlanView)
    requires
        encoded_choice(choice, plan).1 is None,
    ensures
        ({
            let after = encoded_choice(choice, plan).0;
            let kind = choice.text_field("type"@);
            let tools = choice.items_field("tools"@);
            &&& kind == Some("custom"@) ==> encoded_reference(choice, plan) == Ok::<
                JsonView,
                AdapterErrorView,
            >(after)
            &&& kind != Some("custom"@) && kind != Some("allowed_tools"@) ==> after == choice
            &&& kind == Some("allowed_tools"@) && tools is Some ==> {
                let done = after.items_field("tools"@);
                &&& done is Some
                &&& done->0.len() == tools->0.len()
                &&& forall|k: Seq<char>|
                    k != "tools"@ ==> #[trigger] after.field(k) == choice.field(k)
                &&& forall|i: int|
                    0 <= i < tools->0.len() ==> if (#[trigger] tools->0[i]).text_field("type"@)
                        == Some("custom"@) {
                        encoded_reference(tools->0[i], plan) == Ok::<JsonView, AdapterErrorView>(
                            done->0[i],
                        )
                    } else {
                        done->0[i] == tools->0[i]
                    }
            }
        }),
{
    lemma_names();
    if choice.text_field("type"@) == Some("allowed_tools"@) {
        if let Some(tools) = choice.items_field("tools"@) {
            let step = allowed_tool_step(plan);
            let done = converted_items(tools, step);
            assert(encoded_choice(choice, plan).0.items_field("tools"@) == Some(done));
            assert forall|i: int| 0 <= i < tools.len() implies encoded_allowed_tool(
                #[trigger] tools[i],
                plan,
            ) == Ok::<JsonView, AdapterErrorView>(done[i]) by {
                lemma_converted_each(tools, step, i);
                assert(step(i, tools[i]) == encoded_allowed_tool(tools[i], plan));
            }
        }
    }
}

/// The first item that cannot be converted decides the refusal, and nothing after it is converted.
pub proof fn first_fault_decides(
    items: Seq<JsonView>,
    step: spec_fn(int, JsonView) -> Result<JsonView, AdapterErrorView>,
    at: int,
)
    requires
        0 <= at < items.len(),
        step(at, items[at]) is Err,
        forall|i: int| 0 <= i < at ==> #[trigger] step(i, items[i]) is Ok,
    ensures
        refusal_of_items(items, step) == Some(step(at, items[at])->Err_0),
        converted_items(items, step).len() == items.len(),
        forall|i: int|
            0 <= i < items.len() ==> #[trigger] converted_items(items, step)[i] == if i < at {
                step(i, items[i])->Ok_0
            } else {
                items[i]
            },
{
    super::laws::lemma_first_refused_at(items, step, 0, at);
}

/// A request leans on calls that the server keeps where it names an earlier response, a
/// conversation, or an item by reference, and only there.
pub proof fn state_is_referred_to(body: JsonView)
    ensures
        ({
            let earlier = body.text_field("previous_response_id"@) is Some && trimmed(
                body.text_field("previous_response_id"@)->0,
            ).len() > 0;
            let conversation = body.field("conversation"@) is Some && body.field("conversation"@)
                != Some(JsonView::Null);
            let refers = body.items_field("input"@) is Some && !(forall|i: int|
                0 <= i < body.items_field("input"@)->0.len() ==> (
                #[trigger] body.items_field("input"@)->0[i]).text_field("type"@) != Some(
                    "item_reference"@,
                ));
            refers_to_server_state(body) == (earlier || conversation || refers)
        }),
{
}

} // verus!
