//! Changes to JSON objects, and secrets in them.
use vstd::prelude::*;

use crate::json::{
    array_view, fields_view, lemma_array_view, lemma_objects_equal, Json, JsonView,
};
use crate::str_map::StrMap;
use crate::text::{
    chars_contain, chars_end_with, concat, has_part, has_suffix, is_least, least_of, least_text,
    lemma_least_text, lower_chars, lowered, same_text, texts, trim, trimmed,
};

verus! {

/// A text that a command needs: a field with more than white space.
pub open spec fn needed_text(value: JsonView, key: Seq<char>) -> Result<Seq<char>, Seq<char>> {
    match value.text_field(key) {
        Some(text) if trimmed(text).len() > 0 => Ok(text),
        _ => Err(key + " must be a non-empty string"@),
    }
}

pub fn string<'a>(value: &'a Json, key: &str) -> (r: Result<&'a str, String>)
    ensures
        match r {
            Ok(text) => needed_text(value@, key@) == Ok::<Seq<char>, Seq<char>>(text@),
            Err(message) => needed_text(value@, key@) == Err::<Seq<char>, Seq<char>>(message@),
        },
{
    if let Some(text) = value.text_at(key) {
        if !trim(text).is_empty() {
            return Ok(text);
        }
    }
    Err(concat(key, " must be a non-empty string"))
}

/// An object that a command needs.
pub open spec fn needed_object(value: JsonView, key: Seq<char>) -> Result<JsonView, Seq<char>> {
    match value.field(key) {
        Some(field) if field is Object => Ok(field),
        _ => Err(key + " must be an object"@),
    }
}

pub fn object<'a>(value: &'a Json, key: &str) -> (r: Result<&'a Json, String>)
    ensures
        match r {
            Ok(field) => needed_object(value@, key@) == Ok::<JsonView, Seq<char>>(field@),
            Err(message) => needed_object(value@, key@) == Err::<JsonView, Seq<char>>(message@),
        },
{
    if let Some(field) = value.get(key) {
        if field.is_object() {
            return Ok(field);
        }
    }
    Err(concat(key, " must be an object"))
}

/// An object with the fields of another, which count where both have one.
pub open spec fn merged_object(target: JsonView, patch: JsonView) -> JsonView {
    match (target, patch) {
        (JsonView::Object(fields), JsonView::Object(changes)) => JsonView::Object(
            fields.union_prefer_right(changes),
        ),
        _ => target,
    }
}

/// Takes the fields of an object over.
pub fn merge_object(target: &mut Json, patch: &Json)
    requires
        old(target)@ is Object,
        patch@ is Object,
    ensures
        final(target)@ == merged_object(old(target)@, patch@),
{
    let keys = patch.keys();
    let ghost start = target@;
    for i in 0..keys.len()
        invariant
            start == old(target)@,
            start is Object,
            target@ is Object,
            forall|k: Seq<char>| #[trigger] texts(keys@).contains(k) == (patch@.field(k) is Some),
            forall|k: Seq<char>|
                start is Object ==> #[trigger] target@.field(k) == (if texts(keys@).take(
                    i as int,
                ).contains(k) {
                    patch@.field(k)
                } else {
                    start.field(k)
                }),
    {
        let ghost before = target@;
        let ghost all = texts(keys@);
        let key = keys[i].as_str();
        proof {
            assert(all[i as int] == key@);
            assert(all.contains(key@));
            assert(all.take(i + 1) =~= all.take(i as int).push(key@));
        }
        if let Some(value) = patch.get(key) {
            target.put(key, value.copy());
        }
        proof {
            if start is Object {
                assert forall|k: Seq<char>| #[trigger] target@.field(k) == (if all.take(
                    i + 1,
                ).contains(k) {
                    patch@.field(k)
                } else {
                    start.field(k)
                }) by {
                    assert(before.field(k) == (if all.take(i as int).contains(k) {
                        patch@.field(k)
                    } else {
                        start.field(k)
                    }));
                    if k == key@ {
                        assert(all.take(i + 1)[i as int] == k);
                    } else {
                        assert(all.take(i + 1).contains(k) == all.take(i as int).contains(k)) by {
                            let longer = all.take(i + 1);
                            let shorter = all.take(i as int);
                            if longer.contains(k) {
                                let j = choose|j: int| 0 <= j < longer.len() && longer[j] == k;
                                assert(shorter[j] == k);
                            }
                            if shorter.contains(k) {
                                let j = choose|j: int| 0 <= j < shorter.len() && shorter[j] == k;
                                assert(longer[j] == k);
                            }
                        }
                    }
                }
            }
        }
    }
    proof {
        let all = texts(keys@);
        assert(all.take(keys@.len() as int) =~= all);
        if start is Object {
            let merged = merged_object(start, patch@);
            assert forall|k: Seq<char>| #[trigger] target@.field(k) == merged.field(k) by {
                assert(all.contains(k) == (patch@.field(k) is Some));
            }
            lemma_objects_equal(target@, merged);
        }
    }
}

/// Whether a text is one of a list.
pub open spec fn is_one_of(key: Seq<char>, list: Seq<&str>) -> bool {
    exists|i: int| 0 <= i < list.len() && (#[trigger] list[i])@ == key
}

fn one_of(key: &str, list: &Vec<&str>) -> (r: bool)
    ensures
        r == is_one_of(key@, list@),
{
    for i in 0..list.len()
        invariant
            forall|j: int| 0 <= j < i ==> (#[trigger] list@[j])@ != key@,
    {
        if same_text(list[i], key) {
            return true;
        }
    }
    false
}

/// The fields of a change that its target lacks and that are not allowed besides.
pub open spec fn unknown_fields(target: JsonView, patch: JsonView, besides: Seq<&str>) -> Set<
    Seq<char>,
> {
    match patch {
        JsonView::Object(changes) => changes.dom().filter(
            |k: Seq<char>| target.field(k) is None && !is_one_of(k, besides),
        ),
        _ => Set::empty(),
    }
}

/// The first, in their order, of the fields of a change that its target lacks.
pub fn first_unknown_field(target: &Json, patch: &Json, besides: &Vec<&str>) -> (r: Option<String>)
    ensures
        match r {
            Some(key) => is_least(key@, unknown_fields(target@, patch@, besides@)),
            None => unknown_fields(target@, patch@, besides@) == Set::<Seq<char>>::empty(),
        },
{
    let keys = patch.keys();
    let ghost all = texts(keys@);
    let ghost wanted = unknown_fields(target@, patch@, besides@);
    let mut unknown: Vec<String> = Vec::new();
    for i in 0..keys.len()
        invariant
            all == texts(keys@),
            wanted == unknown_fields(target@, patch@, besides@),
            forall|k: Seq<char>| #[trigger] all.contains(k) == (patch@.field(k) is Some),
            forall|j: int|
                0 <= j < unknown@.len() ==> wanted.contains((#[trigger] texts(unknown@)[j])),
            forall|j: int|
                0 <= j < i && wanted.contains(#[trigger] all[j]) ==> texts(unknown@).contains(all[j]),
    {
        let key = keys[i].as_str();
        proof {
            assert(all[i as int] == key@);
            assert(all.contains(key@));
        }
        if target.get(key).is_none() && !one_of(key, besides) {
            let ghost before = texts(unknown@);
            unknown.push(keys[i].clone());
            proof {
                assert(texts(unknown@) =~= before.push(key@));
                assert(texts(unknown@)[before.len() as int] == key@);
                assert forall|j: int| 0 <= j < i && wanted.contains(#[trigger] all[j]) implies texts(
                    unknown@,
                ).contains(all[j]) by {
                    let d = choose|d: int| 0 <= d < before.len() && before[d] == all[j];
                    assert(texts(unknown@)[d] == all[j]);
                }
            }
        }
    }
    proof {
        let found = texts(unknown@).to_set();
        assert forall|k: Seq<char>| found.contains(k) == wanted.contains(k) by {
            if found.contains(k) {
                let j = choose|j: int| 0 <= j < texts(unknown@).len() && texts(unknown@)[j] == k;
                assert(wanted.contains(texts(unknown@)[j]));
            }
            if wanted.contains(k) {
                assert(all.contains(k) == (patch@.field(k) is Some));
                let j = choose|j: int| 0 <= j < all.len() && all[j] == k;
                assert(texts(unknown@).contains(all[j]));
            }
        }
        assert(found =~= wanted);
        if unknown@.len() == 0 {
            assert(found =~= Set::empty());
        }
    }
    least_of(&unknown)
}

/// Settings after a change of fields that they have. A change of another field is refused, and
/// nothing changes.
pub open spec fn patched(target: JsonView, patch: JsonView) -> Result<JsonView, Seq<char>> {
    let unknown = unknown_fields(target, patch, seq![]);
    if !(patch is Object) {
        Err("patch must be an object"@)
    } else if unknown != Set::<Seq<char>>::empty() {
        Err("Unknown setting: "@ + least_text(unknown))
    } else {
        Ok(merged_object(target, patch))
    }
}

pub fn merge_patch(target: &mut Json, patch: &Json) -> (r: Result<(), String>)
    ensures
        match r {
            Ok(_) => patched(old(target)@, patch@) == Ok::<JsonView, Seq<char>>(final(target)@),
            Err(message) => patched(old(target)@, patch@) == Err::<JsonView, Seq<char>>(message@)
                && *final(target) == *old(target),
        },
{
    if !patch.is_object() {
        return Err("patch must be an object".to_owned());
    }
    let none: Vec<&str> = Vec::new();
    assert(none@ =~= seq![]);
    if let Some(key) = first_unknown_field(target, patch, &none) {
        proof {
            lemma_least_text(key@, unknown_fields(target@, patch@, seq![]));
            assert(unknown_fields(target@, patch@, seq![]).contains(key@));
        }
        return Err(concat("Unknown setting: ", key.as_str()));
    }
    if target.is_object() {
        merge_object(target, patch);
    }
    Ok(())
}

/// A field whose value is not shown, by its name.
pub open spec fn is_secret(key: Seq<char>) -> bool {
    let low = lowered(key);
    has_part(low, "apikey"@) || has_part(low, "apisecret"@) || has_suffix(low, "token"@)
        || has_part(low, "password"@) || has_part(low, "authcontents"@) || has_part(
        low,
        "configcontents"@,
    )
}

fn holds_secret(key: &str) -> (r: bool)
    ensures
        r == is_secret(key@),
{
    let low = lower_chars(key);
    chars_contain(&low, "apikey") || chars_contain(&low, "apisecret") || chars_end_with(
        &low,
        "token",
    ) || chars_contain(&low, "password") || chars_contain(&low, "authcontents") || chars_contain(
        &low,
        "configcontents",
    )
}

/// What is shown in place of a secret; that there is none is shown.
pub open spec fn hidden(value: JsonView) -> JsonView {
    if value == JsonView::Null || value == JsonView::Text(""@) {
        value
    } else {
        JsonView::Text("[redacted]"@)
    }
}

/// A value with its secrets hidden, at any depth.
pub open spec fn redacted(value: JsonView) -> JsonView
    decreases value,
{
    match value {
        JsonView::Array(items) => JsonView::Array(
            Seq::new(
                items.len(),
                |i: int|
                    if 0 <= i < items.len() {
                        redacted(items[i])
                    } else {
                        JsonView::Null
                    },
            ),
        ),
        JsonView::Object(fields) => JsonView::Object(
            Map::new(
                |k: Seq<char>| fields.contains_key(k),
                |k: Seq<char>|
                    if !fields.contains_key(k) {
                        JsonView::Null
                    } else if is_secret(k) {
                        hidden(fields[k])
                    } else {
                        redacted(fields[k])
                    },
            ),
        ),
        _ => value,
    }
}

pub open spec fn redacted_field(key: Seq<char>, value: JsonView) -> JsonView {
    if is_secret(key) {
        hidden(value)
    } else {
        redacted(value)
    }
}

pub open spec fn redacted_fields(fields: Map<Seq<char>, JsonView>) -> Map<Seq<char>, JsonView> {
    Map::new(
        |k: Seq<char>| fields.contains_key(k),
        |k: Seq<char>| redacted_field(k, fields[k]),
    )
}

proof fn lemma_redacted_fields(a: Seq<(String, Json)>, b: Seq<(String, Json)>)
    requires
        a.len() == b.len(),
        forall|j: int|
            0 <= j < a.len() ==> (#[trigger] a[j]).0@ == b[j].0@ && a[j].1@ == redacted_field(
                b[j].0@,
                b[j].1@,
            ),
    ensures
        fields_view(a) == redacted_fields(fields_view(b)),
    decreases a.len(),
{
    if a.len() == 0 {
        assert(fields_view(a) =~= redacted_fields(fields_view(b)));
    } else {
        assert(a[0].0@ == b[0].0@);
        lemma_redacted_fields(a.drop_first(), b.drop_first());
        assert(fields_view(a) =~= redacted_fields(fields_view(b)));
    }
}

fn redacted_copy(value: &Json) -> (r: Json)
    ensures
        r@ == redacted(value@),
    decreases value,
{
    match value {
        Json::Array(items) => {
            let mut r: Vec<Json> = Vec::new();
            for i in 0..items.len()
                invariant
                    decreases_to!(value => *items),
                    r@.len() == i,
                    forall|j: int| 0 <= j < i ==> (#[trigger] r@[j])@ == redacted(items@[j]@),
            {
                assert(decreases_to!(items@ => items@[i as int]));
                r.push(redacted_copy(&items[i]));
            }
            proof {
                lemma_array_view(*items);
                assert(array_view(r@) =~= redacted(value@)->Array_0);
            }
            Json::array(r)
        },
        Json::Object(fields) => {
            let mut entries: Vec<(String, Json)> = Vec::new();
            for i in 0..fields.entries.len()
                invariant
                    decreases_to!(value => fields.entries),
                    entries@.len() == i,
                    forall|j: int|
                        0 <= j < i ==> (#[trigger] entries@[j]).0@ == fields.entries@[j].0@
                            && entries@[j].1@ == redacted_field(
                            fields.entries@[j].0@,
                            fields.entries@[j].1@,
                        ),
            {
                assert(decreases_to!(fields.entries@ => fields.entries@[i as int]));
                assert(decreases_to!(fields.entries@[i as int] => fields.entries@[i as int].1));
                let entry = &fields.entries[i];
                let shown = if holds_secret(entry.0.as_str()) {
                    match &entry.1 {
                        Json::Null => Json::Null,
                        Json::Text(s) => if s.as_str().is_empty() {
                            proof {
                                reveal_strlit("");
                                assert(s@ =~= ""@);
                            }
                            Json::text("")
                        } else {
                            proof {
                                reveal_strlit("");
                                assert(s@ != ""@);
                            }
                            Json::text("[redacted]")
                        },
                        _ => Json::text("[redacted]"),
                    }
                } else {
                    redacted_copy(&entry.1)
                };
                entries.push((entry.0.clone(), shown));
            }
            proof {
                lemma_redacted_fields(entries@, fields.entries@);
                assert(redacted_fields(value@->Object_0) =~= redacted(value@)->Object_0);
            }
            Json::Object(StrMap { entries })
        },
        _ => value.copy(),
    }
}

/// Hides the secrets in what a command tells.
pub fn redact(value: &mut Json)
    ensures
        final(value)@ == redacted(old(value)@),
{
    let shown = redacted_copy(value);
    *value = shown;
}

/// Hiding secrets twice hides no more.
pub proof fn redacting_again_changes_nothing(value: JsonView)
    ensures
        redacted(redacted(value)) == redacted(value),
    decreases value,
{
    match value {
        JsonView::Array(items) => {
            assert forall|i: int| 0 <= i < items.len() implies redacted(
                redacted(#[trigger] items[i]),
            ) == redacted(items[i]) by {
                redacting_again_changes_nothing(items[i]);
            }
            assert(redacted(redacted(value))->Array_0 =~= redacted(value)->Array_0);
        },
        JsonView::Object(fields) => {
            reveal_strlit("");
            reveal_strlit("[redacted]");
            assert forall|k: Seq<char>| fields.contains_key(k) implies redacted_field(
                k,
                redacted_field(k, #[trigger] fields[k]),
            ) == redacted_field(k, fields[k]) by {
                if !is_secret(k) {
                    assert(decreases_to!(value => fields[k]));
                    redacting_again_changes_nothing(fields[k]);
                }
            }
            let once = redacted(value)->Object_0;
            assert forall|k: Seq<char>| once.contains_key(k) implies redacted(
                redacted(value),
            )->Object_0[k] == once[k] by {
                assert(fields.contains_key(k));
                assert(once[k] == redacted_field(k, fields[k]));
            }
            assert(redacted(redacted(value))->Object_0 =~= once);
        },
        _ => {},
    }
}

/// No value of a secret field is shown, save that there is none.
pub proof fn secrets_are_not_shown(fields: Map<Seq<char>, JsonView>, key: Seq<char>)
    requires
        fields.contains_key(key),
        is_secret(key),
    ensures
        ({
            let shown = redacted(JsonView::Object(fields)).field(key);
            shown == Some(JsonView::Text("[redacted]"@)) || (shown == Some(fields[key]) && (
            fields[key] == JsonView::Null || fields[key] == JsonView::Text(""@)))
        }),
{
}

} // verus!
