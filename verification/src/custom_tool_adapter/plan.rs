//! The errors of the adapter, and the plan that ties wire names to client tools.
use vstd::prelude::*;

use crate::json::{Json, JsonView};
use crate::str_map::StrMap;
use crate::text::{concat3, increasing, same_text, sort_texts, texts};

verus! {

#[derive(Clone, Copy, Debug, PartialEq, Eq, Structural)]
pub enum AdapterErrorCode {
    InvalidArguments,
    ToolIdentityConflict,
    UnsupportedField,
    UnsupportedFormat,
    StateReferenceUnsupported,
    StreamIncomplete,
    BufferLimit,
    PolicyConflict,
}

impl AdapterErrorCode {
    pub open spec fn spec_name(self) -> Seq<char> {
        match self {
            AdapterErrorCode::InvalidArguments => "CUSTOM_ADAPTER_INVALID_ARGUMENTS"@,
            AdapterErrorCode::ToolIdentityConflict => "CUSTOM_ADAPTER_TOOL_IDENTITY_CONFLICT"@,
            AdapterErrorCode::UnsupportedField => "CUSTOM_ADAPTER_UNSUPPORTED_FIELD"@,
            AdapterErrorCode::UnsupportedFormat => "CUSTOM_ADAPTER_UNSUPPORTED_FORMAT"@,
            AdapterErrorCode::StateReferenceUnsupported =>
                "CUSTOM_ADAPTER_STATE_REFERENCE_UNSUPPORTED"@,
            AdapterErrorCode::StreamIncomplete => "CUSTOM_ADAPTER_STREAM_INCOMPLETE"@,
            AdapterErrorCode::BufferLimit => "CUSTOM_ADAPTER_BUFFER_LIMIT"@,
            AdapterErrorCode::PolicyConflict => "CUSTOM_ADAPTER_POLICY_CONFLICT"@,
        }
    }

    pub fn as_str(self) -> (r: &'static str)
        ensures
            r@ == self.spec_name(),
    {
        match self {
            AdapterErrorCode::InvalidArguments => "CUSTOM_ADAPTER_INVALID_ARGUMENTS",
            AdapterErrorCode::ToolIdentityConflict => "CUSTOM_ADAPTER_TOOL_IDENTITY_CONFLICT",
            AdapterErrorCode::UnsupportedField => "CUSTOM_ADAPTER_UNSUPPORTED_FIELD",
            AdapterErrorCode::UnsupportedFormat => "CUSTOM_ADAPTER_UNSUPPORTED_FORMAT",
            AdapterErrorCode::StateReferenceUnsupported =>
                "CUSTOM_ADAPTER_STATE_REFERENCE_UNSUPPORTED",
            AdapterErrorCode::StreamIncomplete => "CUSTOM_ADAPTER_STREAM_INCOMPLETE",
            AdapterErrorCode::BufferLimit => "CUSTOM_ADAPTER_BUFFER_LIMIT",
            AdapterErrorCode::PolicyConflict => "CUSTOM_ADAPTER_POLICY_CONFLICT",
        }
    }
}

#[derive(Clone, Debug, PartialEq, Eq)]
pub struct AdapterError {
    pub code: AdapterErrorCode,
    pub message: String,
}

#[verifier::ext_equal]
pub struct AdapterErrorView {
    pub code: AdapterErrorCode,
    pub message: Seq<char>,
}

impl View for AdapterError {
    type V = AdapterErrorView;

    open spec fn view(&self) -> AdapterErrorView {
        AdapterErrorView { code: self.code, message: self.message@ }
    }
}

/// A refusal for an unclear or missing tool identity.
pub open spec fn identity_error(message: Seq<char>) -> AdapterErrorView {
    AdapterErrorView { code: AdapterErrorCode::ToolIdentityConflict, message }
}

/// A refusal of a call's arguments.
pub open spec fn arguments_refusal(message: Seq<char>) -> AdapterErrorView {
    AdapterErrorView { code: AdapterErrorCode::InvalidArguments, message }
}

impl AdapterError {
    pub fn new(code: AdapterErrorCode, message: String) -> (r: Self)
        ensures
            r@ == (AdapterErrorView { code, message: message@ }),
    {
        AdapterError { code, message }
    }

    /// The error as logs and client error bodies quote it: the code, then the message.
    pub fn describe(&self) -> (r: String)
        ensures
            r@ == self@.code.spec_name() + ": "@ + self@.message,
    {
        concat3(self.code.as_str(), ": ", self.message.as_str())
    }
}

/// A tool as the client knows it. The namespace of a top-level tool is empty.
#[derive(Clone, Debug, PartialEq, Eq)]
pub struct ClientToolIdentity {
    pub client_name: String,
    pub namespace: String,
}

#[verifier::ext_equal]
pub struct IdentityView {
    pub client_name: Seq<char>,
    pub namespace: Seq<char>,
}

impl View for ClientToolIdentity {
    type V = IdentityView;

    open spec fn view(&self) -> IdentityView {
        IdentityView { client_name: self.client_name@, namespace: self.namespace@ }
    }
}

impl ClientToolIdentity {
    pub fn copy(&self) -> (r: Self)
        ensures
            r@ == self@,
    {
        ClientToolIdentity { client_name: self.client_name.clone(), namespace: self.namespace.clone() }
    }
}

/// The functions that a request sends in place of custom tools, by wire name, with the client's
/// identity of each and the declaration that the client gave.
#[derive(Debug)]
pub struct CustomToolAdapterPlan {
    wire_tools: StrMap<ClientToolIdentity>,
    original_declarations: StrMap<Json>,
}

#[verifier::ext_equal]
pub struct PlanView {
    pub wire_tools: Map<Seq<char>, IdentityView>,
    pub original_declarations: Map<Seq<char>, JsonView>,
}

impl View for CustomToolAdapterPlan {
    type V = PlanView;

    closed spec fn view(&self) -> PlanView {
        PlanView {
            wire_tools: self.wire_tools@.map_values(|i: ClientToolIdentity| i@),
            original_declarations: self.original_declarations@.map_values(|d: Json| d@),
        }
    }
}

impl PlanView {
    pub open spec fn empty() -> PlanView {
        PlanView { wire_tools: Map::empty(), original_declarations: Map::empty() }
    }

    /// The plan with one tool more; a tool with the same wire name gives way.
    pub open spec fn register(
        self,
        wire_name: Seq<char>,
        identity: IdentityView,
        original: JsonView,
    ) -> PlanView {
        PlanView {
            wire_tools: self.wire_tools.insert(wire_name, identity),
            original_declarations: self.original_declarations.insert(wire_name, original),
        }
    }

    pub open spec fn manages(self, wire_name: Seq<char>) -> bool {
        self.wire_tools.contains_key(wire_name)
    }

    /// Whether no tool with the client name is a top-level one.
    pub open spec fn none_at_top_level(self, client_name: Seq<char>) -> bool {
        forall|w: Seq<char>| #[trigger]
            self.wire_tools.contains_key(w) && self.wire_tools[w].client_name == client_name
                ==> self.wire_tools[w].namespace.len() > 0
    }

    /// Whether a client reference can mean the tool with a wire name. A reference with a namespace
    /// means the tool of that name there. One without means the top-level tool of that name; where
    /// there is none, any tool that has it.
    pub open spec fn may_mean(
        self,
        wire_name: Seq<char>,
        client_name: Seq<char>,
        namespace: Option<Seq<char>>,
    ) -> bool {
        let identity = self.wire_tools[wire_name];
        &&& self.manages(wire_name)
        &&& identity.client_name == client_name
        &&& match namespace {
            Some(space) if space.len() > 0 => identity.namespace == space,
            _ => identity.namespace.len() == 0 || self.none_at_top_level(client_name),
        }
        &&& !(identity.namespace.len() == 0 && namespace == Some(Seq::<char>::empty()) && wire_name
            != client_name)
    }

    /// The wire name that a client reference means; `None` where no tool can be meant.
    pub open spec fn resolved(self, client_name: Seq<char>, namespace: Option<Seq<char>>) -> Result<
        Option<Seq<char>>,
        AdapterErrorView,
    > {
        if forall|w: Seq<char>| !#[trigger] self.may_mean(w, client_name, namespace) {
            Ok(None)
        } else if exists|w: Seq<char>| self.alone_means(w, client_name, namespace) {
            Ok(Some(choose|w: Seq<char>| self.alone_means(w, client_name, namespace)))
        } else {
            Err(
                identity_error(
                    "tool_choice 的 custom 引用「"@ + client_name
                        + "」命中多个同名工具，已拒绝歧义派发"@,
                ),
            )
        }
    }

    pub open spec fn alone_means(
        self,
        wire_name: Seq<char>,
        client_name: Seq<char>,
        namespace: Option<Seq<char>>,
    ) -> bool {
        &&& self.may_mean(wire_name, client_name, namespace)
        &&& forall|w: Seq<char>| #[trigger]
            self.may_mean(w, client_name, namespace) ==> w == wire_name
    }
}

impl Default for CustomToolAdapterPlan {
    fn default() -> (r: Self)
        ensures
            r@ == PlanView::empty(),
    {
        let r = CustomToolAdapterPlan {
            wire_tools: StrMap::new(),
            original_declarations: StrMap::new(),
        };
        assert(r@ =~= PlanView::empty());
        r
    }
}

impl CustomToolAdapterPlan {
    pub fn is_empty(&self) -> (r: bool)
        ensures
            r == (self@.wire_tools == Map::<Seq<char>, IdentityView>::empty()),
    {
        let r = self.wire_tools.is_empty();
        proof {
            let tools = self@.wire_tools;
            if r {
                assert(tools =~= Map::empty());
            } else if tools == Map::<Seq<char>, IdentityView>::empty() {
                assert forall|k: Seq<char>| !self.wire_tools@.contains_key(k) by {
                    assert(!tools.contains_key(k));
                }
                assert(self.wire_tools@ =~= Map::empty());
            }
        }
        r
    }

    pub fn identity(&self, wire_name: &str) -> (r: Option<&ClientToolIdentity>)
        ensures
            match r {
                Some(identity) => self@.manages(wire_name@) && identity@
                    == self@.wire_tools[wire_name@],
                None => !self@.manages(wire_name@),
            },
    {
        self.wire_tools.get(wire_name)
    }

    pub fn original_declaration(&self, wire_name: &str) -> (r: Option<&Json>)
        ensures
            match r {
                Some(declaration) => self@.original_declarations.contains_key(wire_name@)
                    && declaration@ == self@.original_declarations[wire_name@],
                None => !self@.original_declarations.contains_key(wire_name@),
            },
    {
        self.original_declarations.get(wire_name)
    }

    /// The wire names with their identities, in the order of the names.
    pub fn entries(&self) -> (r: Vec<(String, ClientToolIdentity)>)
        ensures
            increasing(Seq::new(r@.len(), |i: int| r@[i].0@)),
            forall|i: int|
                0 <= i < r@.len() ==> self@.manages((#[trigger] r@[i]).0@) && r@[i].1@
                    == self@.wire_tools[r@[i].0@],
            forall|w: Seq<char>| #[trigger]
                self@.manages(w) ==> exists|i: int| 0 <= i < r@.len() && (#[trigger] r@[i]).0@ == w,
    {
        let keys = sort_texts(self.wire_tools.keys());
        let mut r: Vec<(String, ClientToolIdentity)> = Vec::new();
        let ghost tools = self.wire_tools@;
        for i in 0..keys.len()
            invariant
                tools == self.wire_tools@,
                r@.len() == i,
                forall|w: Seq<char>| #[trigger] tools.contains_key(w) == texts(keys@).contains(w),
                forall|j: int|
                    0 <= j < i ==> (#[trigger] r@[j]).0@ == keys@[j]@ && tools.contains_key(r@[j].0@)
                        && r@[j].1@ == tools[r@[j].0@]@,
        {
            let key = keys[i].as_str();
            assert(texts(keys@)[i as int] == key@);
            assert(tools.contains_key(key@) == texts(keys@).contains(key@));
            match self.wire_tools.get(key) {
                Some(identity) => {
                    r.push((keys[i].clone(), identity.copy()));
                },
                None => {},
            }
        }
        proof {
            assert(Seq::new(r@.len(), |i: int| r@[i].0@) =~= texts(keys@));
            assert forall|w: Seq<char>| #[trigger] self@.manages(w) implies exists|i: int|
                0 <= i < r@.len() && (#[trigger] r@[i]).0@ == w by {
                assert(tools.contains_key(w) == texts(keys@).contains(w));
                let i = choose|i: int| 0 <= i < texts(keys@).len() && texts(keys@)[i] == w;
                assert(r@[i].0@ == w);
            }
        }
        r
    }

    pub fn insert(&mut self, wire_name: String, identity: ClientToolIdentity, original: Json)
        ensures
            final(self)@ == old(self)@.register(wire_name@, identity@, original@),
    {
        self.wire_tools.insert(wire_name.clone(), identity);
        self.original_declarations.insert(wire_name, original);
        assert(self@ =~= old(self)@.register(wire_name@, identity@, original@));
    }

    fn none_at_top_level(&self, client_name: &str) -> (r: bool)
        ensures
            r == self@.none_at_top_level(client_name@),
    {
        let keys = self.wire_tools.keys();
        let ghost tools = self@.wire_tools;
        for i in 0..keys.len()
            invariant
                tools == self@.wire_tools,
                forall|w: Seq<char>| #[trigger]
                    self.wire_tools@.contains_key(w) == texts(keys@).contains(w),
                forall|j: int|
                    0 <= j < i && tools[(#[trigger] texts(keys@)[j])].client_name == client_name@
                        ==> tools[texts(keys@)[j]].namespace.len() > 0,
        {
            let key = keys[i].as_str();
            assert(texts(keys@)[i as int] == key@);
            assert(self.wire_tools@.contains_key(key@) == texts(keys@).contains(key@));
            match self.wire_tools.get(key) {
                Some(identity) => {
                    assert(tools.contains_key(key@));
                    if same_text(identity.client_name.as_str(), client_name)
                        && identity.namespace.as_str().is_empty() {
                        return false;
                    }
                },
                None => {},
            }
        }
        assert forall|w: Seq<char>| #[trigger]
            tools.contains_key(w) && tools[w].client_name == client_name@ implies tools[w].namespace.len()
            > 0 by {
            assert(self.wire_tools@.contains_key(w) == texts(keys@).contains(w));
            let i = choose|i: int| 0 <= i < texts(keys@).len() && texts(keys@)[i] == w;
            assert(tools[texts(keys@)[i]].client_name == client_name@);
        }
        true
    }

    fn may_mean(&self, wire_name: &str, client_name: &str, namespace: Option<&str>) -> (r: bool)
        ensures
            r == self@.may_mean(wire_name@, client_name@, crate::json::text_view(namespace)),
    {
        match self.wire_tools.get(wire_name) {
            Some(identity) => {
                assert(self@.wire_tools[wire_name@] == identity@);
                let top_level = identity.namespace.as_str().is_empty();
                if !same_text(identity.client_name.as_str(), client_name) {
                    return false;
                }
                match namespace {
                    Some(space) => {
                        if space.is_empty() {
                            assert(space@ =~= Seq::<char>::empty());
                            (top_level || self.none_at_top_level(client_name)) && !(
                            top_level && !same_text(wire_name, client_name))
                        } else {
                            same_text(identity.namespace.as_str(), space)
                        }
                    },
                    None => top_level || self.none_at_top_level(client_name),
                }
            },
            None => false,
        }
    }

    /// The wire name that a client reference means, with or without a namespace; a conflict where
    /// more than one tool can be meant.
    pub fn resolve_client_reference(&self, client_name: &str, namespace: Option<&str>) -> (r: Result<
        Option<String>,
        AdapterError,
    >)
        ensures
            match r {
                Ok(Some(w)) => self@.resolved(client_name@, crate::json::text_view(namespace)) == Ok::<
                    Option<Seq<char>>,
                    AdapterErrorView,
                >(Some(w@)),
                Ok(None) => self@.resolved(client_name@, crate::json::text_view(namespace)) == Ok::<
                    Option<Seq<char>>,
                    AdapterErrorView,
                >(None),
                Err(e) => self@.resolved(client_name@, crate::json::text_view(namespace)) == Err::<
                    Option<Seq<char>>,
                    AdapterErrorView,
                >(e@),
            },
    {
        let ghost space = crate::json::text_view(namespace);
        let keys = self.wire_tools.keys();
        let mut found: Option<usize> = None;
        for i in 0..keys.len()
            invariant
                space == crate::json::text_view(namespace),
                texts(keys@).no_duplicates(),
                match found {
                    Some(f) => f < i && self@.may_mean(texts(keys@)[f as int], client_name@, space),
                    None => true,
                },
                forall|j: int|
                    0 <= j < i && self@.may_mean(#[trigger] texts(keys@)[j], client_name@, space)
                        ==> found == Some(j as usize),
        {
            let key = keys[i].as_str();
            assert(texts(keys@)[i as int] == key@);
            if self.may_mean(key, client_name, namespace) {
                if let Some(f) = found {
                    proof {
                        let one = texts(keys@)[f as int];
                        assert(one != key@);
                        assert(!(exists|w: Seq<char>| self@.alone_means(w, client_name@, space))) by {
                            if exists|w: Seq<char>| self@.alone_means(w, client_name@, space) {
                                let w = choose|w: Seq<char>|
                                    self@.alone_means(w, client_name@, space);
                                assert(self@.may_mean(one, client_name@, space));
                                assert(self@.may_mean(key@, client_name@, space));
                            }
                        }
                    }
                    return Err(
                        AdapterError::new(
                            AdapterErrorCode::ToolIdentityConflict,
                            concat3(
                                "tool_choice 的 custom 引用「",
                                client_name,
                                "」命中多个同名工具，已拒绝歧义派发",
                            ),
                        ),
                    );
                }
                found = Some(i);
            }
        }
        proof {
            assert forall|w: Seq<char>| #[trigger]
                self@.may_mean(w, client_name@, space) implies found is Some && w
                == texts(keys@)[found->0 as int] by {
                assert(self.wire_tools@.contains_key(w) == texts(keys@).contains(w));
                let i = choose|i: int| 0 <= i < texts(keys@).len() && texts(keys@)[i] == w;
                assert(self@.may_mean(texts(keys@)[i], client_name@, space));
            }
        }
        match found {
            Some(f) => {
                proof {
                    let one = texts(keys@)[f as int];
                    assert(self@.alone_means(one, client_name@, space));
                    let w = choose|w: Seq<char>| self@.alone_means(w, client_name@, space);
                    assert(self@.may_mean(w, client_name@, space));
                }
                Ok(Some(keys[f].clone()))
            },
            None => Ok(None),
        }
    }
}

} // verus!
