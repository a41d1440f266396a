//! Custom tools that stand inside namespaces of a chat request.
use vstd::prelude::*;

use super::plan::{ClientToolIdentity, CustomToolAdapterPlan, IdentityView, PlanView};
use crate::json::{array_view, Json, JsonView};
use crate::text::concat3;

verus! {

/// The name of a tool with its namespace in front.
pub open spec fn flattened_name(namespace: Seq<char>, name: Seq<char>) -> Seq<char> {
    if namespace.len() == 0 {
        name
    } else {
        namespace + "__"@ + name
    }
}

pub fn flatten_namespace_tool_name(namespace: &str, name: &str) -> (r: String)
    ensures
        r@ == flattened_name(namespace@, name@),
{
    if namespace.is_empty() {
        name.to_owned()
    } else {
        concat3(namespace, "__", name)
    }
}

/// The tools inside a namespace: its `tools`, or else its `children`.
pub open spec fn namespace_children(tool: JsonView) -> Option<Seq<JsonView>> {
    match tool.items_field("tools"@) {
        Some(items) => Some(items),
        None => tool.items_field("children"@),
    }
}

/// The plan with the custom tools of a namespace, at any depth, added to it.
pub open spec fn with_namespace_tools(tool: JsonView, parent: Seq<char>, plan: PlanView) -> PlanView
    decreases tool,
    via namespace_tools_are_smaller
{
    match namespace_children(tool) {
        Some(children) => with_children(
            children,
            flattened_name(parent, tool.text_or_empty("name"@)),
            plan,
        ),
        None => plan,
    }
}

/// The plan with the children of a namespace added to it, in their order.
pub open spec fn with_children(
    children: Seq<JsonView>,
    namespace: Seq<char>,
    plan: PlanView,
) -> PlanView
    decreases children,
    via children_are_smaller
{
    if children.len() == 0 {
        plan
    } else {
        let before = with_children(children.drop_last(), namespace, plan);
        let child = children.last();
        let name = child.text_or_empty("name"@);
        if child.text_field("type"@) == Some("namespace"@) {
            with_namespace_tools(child, namespace, before)
        } else if child.text_field("type"@) == Some("custom"@) && name.len() > 0 {
            before.register(
                flattened_name(namespace, name),
                IdentityView { client_name: name, namespace },
                child.with_text("name"@, name),
            )
        } else {
            before
        }
    }
}

proof fn lemma_items_are_smaller(tool: JsonView, key: Seq<char>)
    ensures
        tool.items_field(key) is Some ==> decreases_to!(tool => tool.items_field(key)->0),
{
    if tool.items_field(key) is Some {
        assert(decreases_to!(tool => tool->Object_0[key]));
        assert(decreases_to!(tool->Object_0[key] => tool->Object_0[key]->Array_0));
    }
}

#[via_fn]
proof fn namespace_tools_are_smaller(tool: JsonView, parent: Seq<char>, plan: PlanView) {
    lemma_items_are_smaller(tool, "tools"@);
    lemma_items_are_smaller(tool, "children"@);
}

#[via_fn]
proof fn children_are_smaller(children: Seq<JsonView>, namespace: Seq<char>, plan: PlanView) {
    if children.len() > 0 {
        assert(decreases_to!(children => children[children.len() - 1]));
        assert(children.drop_last() == children.subrange(0, children.len() - 1));
    }
}

fn collect_namespace_custom_plan(
    namespace_tool: &Json,
    parent_namespace: &str,
    plan: &mut CustomToolAdapterPlan,
)
    ensures
        final(plan)@ == with_namespace_tools(namespace_tool@, parent_namespace@, old(plan)@),
    decreases namespace_tool,
{
    let namespace = flatten_namespace_tool_name(
        parent_namespace,
        namespace_tool.text_or_empty("name"),
    );
    let children = match namespace_tool.array_at("tools") {
        Some(children) => children,
        None => match namespace_tool.array_at("children") {
            Some(children) => children,
            None => {
                return ;
            },
        },
    };
    let ghost views = array_view(children@);
    let ghost start = plan@;
    assert(views.take(0) =~= Seq::empty());
    for i in 0..children.len()
        invariant
            decreases_to!(namespace_tool => *children),
            views == array_view(children@),
            plan@ == with_children(views.take(i as int), namespace@, start),
    {
        let child = &children[i];
        proof {
            assert(decreases_to!(children@ => children@[i as int]));
            let next = views.take(i + 1);
            assert(next.drop_last() =~= views.take(i as int));
            assert(next.last() == child@);
        }
        if child.has_text("type", "namespace") {
            collect_namespace_custom_plan(child, namespace.as_str(), plan);
        } else if child.has_text("type", "custom") {
            let name = child.text_or_empty("name");
            if !name.is_empty() {
                let flat = flatten_namespace_tool_name(namespace.as_str(), name);
                let mut original = child.copy();
                original.put_text("name", name);
                plan.insert(
                    flat,
                    ClientToolIdentity {
                        client_name: name.to_owned(),
                        namespace: namespace.clone(),
                    },
                    original,
                );
            }
        }
    }
    assert(views.take(views.len() as int) =~= views);
}

/// The plan that the first `n` tools of a chat request make.
pub open spec fn chat_plan(tools: Seq<JsonView>, n: int) -> PlanView
    decreases n,
{
    if n <= 0 {
        PlanView::empty()
    } else if tools[n - 1].text_field("type"@) == Some("namespace"@) {
        with_namespace_tools(tools[n - 1], Seq::empty(), chat_plan(tools, n - 1))
    } else {
        chat_plan(tools, n - 1)
    }
}

/// The plan for a chat request: only the custom tools inside namespaces. Those at the top level
/// are no part of it.
pub fn chat_plan_for_namespace_customs(original_tools: Option<&Json>) -> (r: CustomToolAdapterPlan)
    ensures
        r@ == (match original_tools {
            Some(tools) => match tools@.items() {
                Some(items) => chat_plan(items, items.len() as int),
                None => PlanView::empty(),
            },
            None => PlanView::empty(),
        }),
{
    let mut plan = CustomToolAdapterPlan::default();
    let tools = match original_tools {
        Some(tools) => match tools.as_array() {
            Some(items) => items,
            None => {
                return plan;
            },
        },
        None => {
            return plan;
        },
    };
    proof {
        reveal_strlit("");
        assert(""@ =~= Seq::<char>::empty());
    }
    for i in 0..tools.len()
        invariant
            ""@ == Seq::<char>::empty(),
            plan@ == chat_plan(array_view(tools@), i as int),
    {
        assert(array_view(tools@)[i as int] == tools@[i as int]@);
        if tools[i].has_text("type", "namespace") {
            collect_namespace_custom_plan(&tools[i], "", &mut plan);
        }
    }
    plan
}

} // verus!
