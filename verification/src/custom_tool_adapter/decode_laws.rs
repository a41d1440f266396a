//! Which arguments decode, and to what.
use vstd::prelude::*;

use super::decode::{decoded_arguments, unexpected_fields, wrapped_input};
use super::plan::{AdapterErrorCode, AdapterErrorView};
use crate::address_laws::lacks;
use crate::json::{has_bare_comma, parsed_json, JsonView};
use crate::text::is_least;

verus! {

/// Arguments decode exactly where they are one object with the field `input`, written once, that is a
/// text, and no other field; they decode to that text.
pub proof fn arguments_hold_one_input(text: Seq<char>, input: Seq<char>)
    ensures
        decoded_arguments(text) == Ok::<Seq<char>, AdapterErrorView>(input) <==> {
            &&& parsed_json(text) is Ok
            &&& parsed_json(text)->Ok_0 is Object
            &&& parsed_json(text)->Ok_0.text_field("input"@) == Some(input)
            &&& forall|k: Seq<char>| #[trigger]
                parsed_json(text)->Ok_0.field(k) is Some ==> k == "input"@
            &&& !has_bare_comma(text, false)
        },
{
    if parsed_json(text) is Ok && parsed_json(text)->Ok_0 is Object {
        let value = parsed_json(text)->Ok_0;
        let fields = value->Object_0;
        let others = unexpected_fields(fields);
        if forall|k: Seq<char>| #[trigger] value.field(k) is Some ==> k == "input"@ {
            assert forall|k: Seq<char>| !#[trigger] others.contains(k) by {
                if others.contains(k) {
                    assert(value.field(k) is Some);
                }
            }
            assert(others =~= Set::<Seq<char>>::empty());
        } else {
            let k = choose|k: Seq<char>| #[trigger] value.field(k) is Some && k != "input"@;
            assert(others.contains(k));
        }
    }
}

/// Arguments that do not decode are refused as such, with what is wrong with them.
pub proof fn bad_arguments_are_told_of(text: Seq<char>, key: Seq<char>)
    ensures
        decoded_arguments(text) matches Err(error) ==> error.code
            == AdapterErrorCode::InvalidArguments,
        parsed_json(text) is Ok && parsed_json(text)->Ok_0 is Object && is_least(
            key,
            Set::new(
                |k: Seq<char>| parsed_json(text)->Ok_0.field(k) is Some && k != "input"@,
            ),
        ) ==> decoded_arguments(text) is Err && decoded_arguments(text)->Err_0.message
            == "function 参数不是合法的 {\"input\": string} 包装："@ + (
        "expected a JSON object with exactly one string field `input`: "@ + (
        "unexpected field `"@ + key + "`"@)),
        parsed_json(text) == Ok::<JsonView, Seq<char>>(JsonView::Object(Map::empty()))
            ==> decoded_arguments(text) is Err && decoded_arguments(text)->Err_0.message
            == "function 参数缺少 input 字符串字段"@,
{
    if parsed_json(text) is Ok && parsed_json(text)->Ok_0 is Object {
        let value = parsed_json(text)->Ok_0;
        let fields = value->Object_0;
        let others = unexpected_fields(fields);
        let lacking = Set::new(|k: Seq<char>| value.field(k) is Some && k != "input"@);
        assert(others =~= lacking);
        if is_least(key, lacking) {
            crate::text::lemma_least_text(key, others);
            assert(others.contains(key));
        }
        if fields == Map::<Seq<char>, JsonView>::empty() {
            assert(others =~= Set::<Seq<char>>::empty());
        }
    }
}

/// A comma before any quotation mark stands bare.
pub proof fn commas_outside_of_texts_are_bare(before: Seq<char>, after: Seq<char>)
    requires
        lacks(before, '"'),
    ensures
        has_bare_comma(before + seq![','] + after, false),
    decreases before.len(),
{
    let all = before + seq![','] + after;
    if before.len() > 0 {
        let rest = before.skip(1);
        assert(before[0] != '"');
        assert forall|i: int| 0 <= i < rest.len() implies #[trigger] rest[i] != '"' by {
            assert(rest[i] == before[i + 1]);
        }
        commas_outside_of_texts_are_bare(rest, after);
        assert(all.skip(1) =~= rest + seq![','] + after);
    } else {
        assert(all[0] == ',');
    }
}

proof fn lemma_text_is_passed(inside: Seq<char>, after: Seq<char>)
    requires
        lacks(inside, '"'),
        lacks(inside, '\\'),
    ensures
        has_bare_comma(inside + seq!['"'] + after, true) == has_bare_comma(after, false),
    decreases inside.len(),
{
    let all = inside + seq!['"'] + after;
    if inside.len() > 0 {
        let rest = inside.skip(1);
        assert(inside[0] != '"' && inside[0] != '\\');
        assert forall|i: int| 0 <= i < rest.len() implies #[trigger] rest[i] != '"' && rest[i]
            != '\\' by {
            assert(rest[i] == inside[i + 1]);
        }
        lemma_text_is_passed(rest, after);
        assert(all.skip(1) =~= rest + seq!['"'] + after);
    } else {
        assert(all[0] == '"');
        assert(all.skip(1) =~= after);
    }
}

/// What stands between quotation marks has no part in whether a comma stands bare.
pub proof fn commas_inside_of_texts_do_not_count(
    before: Seq<char>,
    inside: Seq<char>,
    after: Seq<char>,
)
    requires
        lacks(before, '"'),
        lacks(before, ','),
        lacks(inside, '"'),
        lacks(inside, '\\'),
    ensures
        has_bare_comma(before + seq!['"'] + inside + seq!['"'] + after, false) == has_bare_comma(
            after,
            false,
        ),
    decreases before.len(),
{
    let all = before + seq!['"'] + inside + seq!['"'] + after;
    if before.len() > 0 {
        let rest = before.skip(1);
        assert(before[0] != '"' && before[0] != ',');
        assert forall|i: int| 0 <= i < rest.len() implies #[trigger] rest[i] != '"' && rest[i]
            != ',' by {
            assert(rest[i] == before[i + 1]);
        }
        commas_inside_of_texts_do_not_count(rest, inside, after);
        assert(all.skip(1) =~= rest + seq!['"'] + inside + seq!['"'] + after);
    } else {
        assert(all[0] == '"');
        assert(all.skip(1) =~= inside + seq!['"'] + after);
        lemma_text_is_passed(inside, after);
    }
}

/// A character behind a backslash ends no text.
pub proof fn escaped_characters_end_no_text(c: char, after: Seq<char>)
    ensures
        has_bare_comma(seq!['\\', c] + after, true) == has_bare_comma(after, true),
{
    assert((seq!['\\', c] + after).skip(2) =~= after);
}

/// Wrapped input is an object with the input and nothing else.
pub proof fn wrapping_holds_the_input_only(input: Seq<char>, key: Seq<char>)
    ensures
        wrapped_input(input).text_field("input"@) == Some(input),
        wrapped_input(input).field(key) is Some ==> key == "input"@,
{
}

} // verus!
