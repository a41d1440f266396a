//! The arguments of a wrapped call: exactly one object with one text field `input`.
use vstd::prelude::*;

use super::plan::{arguments_refusal, AdapterError, AdapterErrorCode, AdapterErrorView};
use crate::json::{
    empty_object, has_bare_comma, json_text, parsed_json, reads_as, Json, JsonView,
};
use crate::text::{
    chars_of, comes_before, concat, concat3, is_least, least_text, lemma_least_text,
    lemma_text_before_is_order, same_text, text_before, texts,
};

verus! {

/// A refusal of arguments that are not the wrapping object, with the reason.
pub open spec fn not_wrapped(reason: Seq<char>) -> AdapterErrorView {
    arguments_refusal("function 参数不是合法的 {\"input\": string} 包装："@ + reason)
}

/// A refusal of a JSON value of the wrong shape.
pub open spec fn misshapen(detail: Seq<char>) -> AdapterErrorView {
    not_wrapped(
        "expected a JSON object with exactly one string field `input`: "@ + detail,
    )
}

/// The names of the fields other than `input`.
pub open spec fn unexpected_fields(fields: Map<Seq<char>, JsonView>) -> Set<Seq<char>> {
    fields.dom().remove("input"@)
}

/// What wrapped arguments decode to.
///
/// The text is one object, it has the field `input` and no other, the field is written once, and
/// its value is a text: that text is the result, unchanged. Anything else is refused.
pub open spec fn decoded_arguments(text: Seq<char>) -> Result<Seq<char>, AdapterErrorView> {
    match parsed_json(text) {
        Err(message) => Err(not_wrapped(message)),
        Ok(value) => match value {
            JsonView::Null => Err(misshapen("value is null"@)),
            JsonView::Bool(_) => Err(misshapen("value is a boolean"@)),
            JsonView::Integer(_) => Err(misshapen("value is a number"@)),
            JsonView::Decimal(_) => Err(misshapen("value is a number"@)),
            JsonView::Text(_) => Err(misshapen("value is a plain string, not an object"@)),
            JsonView::Array(_) => Err(misshapen("value is an array"@)),
            JsonView::Object(fields) => if unexpected_fields(fields) != Set::<Seq<char>>::empty() {
                Err(
                    misshapen(
                        "unexpected field `"@ + least_text(unexpected_fields(fields)) + "`"@,
                    ),
                )
            } else if !fields.contains_key("input"@) {
                Err(arguments_refusal("function 参数缺少 input 字符串字段"@))
            } else {
                match fields["input"@] {
                    JsonView::Text(input) => if has_bare_comma(text, false) {
                        Err(misshapen("duplicate field `input`"@))
                    } else {
                        Ok(input)
                    },
                    _ => Err(misshapen("field `input` must be a string"@)),
                }
            },
        },
    }
}

fn bare_comma(text: &str) -> (r: bool)
    ensures
        r == has_bare_comma(text@, false),
{
    let chars = chars_of(text);
    let mut i: usize = 0;
    let mut in_string = false;
    assert(chars@.skip(0) =~= chars@);
    while i < chars.len()
        invariant
            chars@ == text@,
            i <= chars@.len(),
            has_bare_comma(text@, false) == has_bare_comma(chars@.skip(i as int), in_string),
        decreases chars@.len() - i,
    {
        let c = chars[i];
        let ghost rest = chars@.skip(i as int);
        assert(rest[0] == c);
        assert(rest.skip(1) =~= chars@.skip(i + 1));
        if !in_string {
            if c == ',' {
                return true;
            }
            in_string = c == '"';
            i = i + 1;
        } else if c == '\\' {
            if chars.len() - i < 2 {
                return false;
            }
            assert(rest.skip(2) =~= chars@.skip(i + 2));
            i = i + 2;
        } else {
            in_string = c != '"';
            i = i + 1;
        }
    }
    false
}

fn refuse(detail: &str) -> (r: AdapterError)
    ensures
        r@ == misshapen(detail@),
{
    let reason = concat("expected a JSON object with exactly one string field `input`: ", detail);
    AdapterError::new(
        AdapterErrorCode::InvalidArguments,
        concat("function 参数不是合法的 {\"input\": string} 包装：", reason.as_str()),
    )
}

/// Of the names of an object's fields the first, in their order, that is none of those allowed.
pub fn first_other_key(object: &Json, allowed: &Vec<&str>) -> (r: Option<String>)
    ensures
        match r {
            Some(key) => is_least(key@, other_keys(object@, allowed@)),
            None => other_keys(object@, allowed@) == Set::<Seq<char>>::empty(),
        },
{
    let keys = object.keys();
    let mut best: Option<usize> = None;
    for i in 0..keys.len()
        invariant
            forall|k: Seq<char>| #[trigger] texts(keys@).contains(k) == (object@.field(k) is Some),
            match best {
                Some(b) => b < i && !is_allowed(texts(keys@)[b as int], allowed@),
                None => true,
            },
            forall|j: int|
                0 <= j < i && !is_allowed(#[trigger] texts(keys@)[j], allowed@) ==> best is Some && (
                texts(keys@)[j] == texts(keys@)[best->0 as int] || text_before(
                    texts(keys@)[best->0 as int],
                    texts(keys@)[j],
                )),
    {
        let key = keys[i].as_str();
        assert(texts(keys@)[i as int] == key@);
        if !allowed_key(key, allowed) {
            match best {
                Some(b) => {
                    assert(texts(keys@)[b as int] == keys@[b as int]@);
                    let before = comes_before(key, keys[b].as_str());
                    proof {
                        lemma_text_before_is_order(key@, texts(keys@)[b as int], key@);
                        assert forall|j: int| 0 <= j < i && text_before(
                            texts(keys@)[b as int],
                            #[trigger] texts(keys@)[j],
                        ) && before implies text_before(key@, texts(keys@)[j]) by {
                            lemma_text_before_is_order(
                                key@,
                                texts(keys@)[b as int],
                                texts(keys@)[j],
                            );
                        }
                    }
                    if before {
                        best = Some(i);
                    }
                },
                None => {
                    best = Some(i);
                },
            }
        }
    }
    let ghost others = other_keys(object@, allowed@);
    proof {
        assert forall|k: Seq<char>| #[trigger] others.contains(k) implies exists|j: int|
            0 <= j < keys@.len() && texts(keys@)[j] == k && !is_allowed(k, allowed@) by {
            assert(texts(keys@).contains(k));
        }
    }
    match best {
        Some(b) => {
            proof {
                let key = texts(keys@)[b as int];
                assert(texts(keys@).contains(key));
                assert(others.contains(key));
                assert forall|o: Seq<char>| #[trigger] others.contains(o) implies o == key
                    || text_before(key, o) by {
                    let j = choose|j: int|
                        0 <= j < keys@.len() && texts(keys@)[j] == o && !is_allowed(o, allowed@);
                    assert(!is_allowed(texts(keys@)[j], allowed@));
                }
            }
            Some(keys[b].clone())
        },
        None => {
            proof {
                assert forall|o: Seq<char>| !#[trigger] others.contains(o) by {
                    if others.contains(o) {
                        let j = choose|j: int|
                            0 <= j < keys@.len() && texts(keys@)[j] == o && !is_allowed(
                                o,
                                allowed@,
                            );
                        assert(!is_allowed(texts(keys@)[j], allowed@));
                    }
                }
                assert(others =~= Set::empty());
            }
            None
        },
    }
}

pub open spec fn is_allowed(key: Seq<char>, allowed: Seq<&str>) -> bool {
    exists|i: int| 0 <= i < allowed.len() && (#[trigger] allowed[i])@ == key
}

/// The names of an object's fields that are none of those allowed.
pub open spec fn other_keys(object: JsonView, allowed: Seq<&str>) -> Set<Seq<char>> {
    match object {
        JsonView::Object(fields) => fields.dom().filter(|k: Seq<char>| !is_allowed(k, allowed)),
        _ => Set::empty(),
    }
}

fn allowed_key(key: &str, allowed: &Vec<&str>) -> (r: bool)
    ensures
        r == is_allowed(key@, allowed@),
{
    for i in 0..allowed.len()
        invariant
            forall|j: int| 0 <= j < i ==> (#[trigger] allowed@[j])@ != key@,
    {
        if same_text(allowed[i], key) {
            return true;
        }
    }
    false
}

/// Decodes the arguments of a wrapped call.
pub fn decode_wrapped_arguments(arguments: &str) -> (r: Result<String, AdapterError>)
    ensures
        match r {
            Ok(input) => decoded_arguments(arguments@) == Ok::<Seq<char>, AdapterErrorView>(input@),
            Err(e) => decoded_arguments(arguments@) == Err::<Seq<char>, AdapterErrorView>(e@),
        },
{
    let value = match Json::parse(arguments) {
        Ok(value) => value,
        Err(message) => {
            return Err(
                AdapterError::new(
                    AdapterErrorCode::InvalidArguments,
                    concat(
                        "function 参数不是合法的 {\"input\": string} 包装：",
                        message.as_str(),
                    ),
                ),
            );
        },
    };
    match &value {
        Json::Null => Err(refuse("value is null")),
        Json::Bool(_) => Err(refuse("value is a boolean")),
        Json::Unsigned(_) => Err(refuse("value is a number")),
        Json::Signed(_) => Err(refuse("value is a number")),
        Json::Decimal(_) => Err(refuse("value is a number")),
        Json::Text(_) => Err(refuse("value is a plain string, not an object")),
        Json::Array(_) => Err(refuse("value is an array")),
        Json::Object(_) => {
            let allowed: Vec<&str> = vec!["input"];
            let ghost fields = value@->Object_0;
            proof {
                assert(allowed@[0]@ == "input"@);
                assert forall|k: Seq<char>| is_allowed(k, allowed@) == (k == "input"@) by {}
                assert(other_keys(value@, allowed@) =~= unexpected_fields(fields));
            }
            if let Some(key) = first_other_key(&value, &allowed) {
                proof {
                    lemma_least_text(key@, unexpected_fields(fields));
                    assert(unexpected_fields(fields).contains(key@));
                }
                let detail = concat3("unexpected field `", key.as_str(), "`");
                return Err(refuse(detail.as_str()));
            }
            match value.get("input") {
                None => Err(
                    AdapterError::new(
                        AdapterErrorCode::InvalidArguments,
                        "function 参数缺少 input 字符串字段".to_owned(),
                    ),
                ),
                Some(Json::Text(input)) => if bare_comma(arguments) {
                    Err(refuse("duplicate field `input`"))
                } else {
                    Ok(input.clone())
                },
                Some(_) => Err(refuse("field `input` must be a string")),
            }
        },
    }
}

/// The object that wraps an input.
pub open spec fn wrapped_input(input: Seq<char>) -> JsonView {
    empty_object().with_text("input"@, input)
}

/// Wraps an input as the arguments of a function call. Decoding gives the input back, character by
/// character.
pub fn wrap_arguments(input: &str) -> (r: String)
    ensures
        r@ == json_text(wrapped_input(input@)),
        decoded_arguments(r@) == Ok::<Seq<char>, AdapterErrorView>(input@),
{
    let mut object = Json::object();
    object.put_text("input", input);
    let r = object.to_text();
    proof {
        let fields = object@->Object_0;
        assert(fields.dom() =~= Set::empty().insert("input"@));
        assert(reads_as(r@, object@));
        assert(unexpected_fields(fields) =~= Set::empty());
    }
    r
}

} // verus!
