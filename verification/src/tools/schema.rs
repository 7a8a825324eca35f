//! JSON schemas of the parameters that tools take.

use crate::json;
use crate::text;
use vstd::prelude::*;

verus! {

/// The schema of a text parameter that must not be empty.
pub open spec fn filled_text_schema(description: Seq<char>) -> Seq<char> {
    json::object_text(
        seq![
            json::text_field("description"@, description),
            json::number_field("minLength"@, 1),
            json::text_field("type"@, "string"@),
        ],
    )
}

/// The schema of a text parameter.
pub open spec fn text_schema(description: Seq<char>) -> Seq<char> {
    json::object_text(
        seq![json::text_field("description"@, description), json::text_field("type"@, "string"@)],
    )
}

/// Writes the schema of a text parameter that must not be empty.
pub fn write_filled_text_schema(description: &str) -> (schema: String)
    ensures
        schema@ == filled_text_schema(description@),
{
    let members: Vec<json::Member> = vec![
        json::text_member("description", description),
        json::number_member("minLength", 1),
        json::text_member("type", "string"),
    ];
    assert(members.deep_view() =~= seq![
        json::text_field("description"@, description@),
        json::number_field("minLength"@, 1),
        json::text_field("type"@, "string"@),
    ]);
    json::write_object(&members)
}

/// Writes the schema of a text parameter.
pub fn write_text_schema(description: &str) -> (schema: String)
    ensures
        schema@ == text_schema(description@),
{
    let members: Vec<json::Member> = vec![
        json::text_member("description", description),
        json::text_member("type", "string"),
    ];
    assert(members.deep_view() =~= seq![
        json::text_field("description"@, description@),
        json::text_field("type"@, "string"@),
    ]);
    json::write_object(&members)
}

/// The schema of a text parameter says what it is for, that it is a string, and, where it must
/// not be empty, that it has at least one character.
pub proof fn text_schemas_say_what_is_wanted(description: Seq<char>)
    ensures
        json::has_member(text_schema(description), "description"@, json::quoted(description)),
        json::has_member(text_schema(description), "type"@, json::quoted("string"@)),
        json::has_member(
            filled_text_schema(description),
            "description"@,
            json::quoted(description),
        ),
        json::has_member(filled_text_schema(description), "type"@, json::quoted("string"@)),
        json::has_member(filled_text_schema(description), "minLength"@, text::decimal(1)),
{
    let filled = seq![
        json::text_field("description"@, description),
        json::number_field("minLength"@, 1),
        json::text_field("type"@, "string"@),
    ];
    let plain = seq![
        json::text_field("description"@, description),
        json::text_field("type"@, "string"@),
    ];
    json::object_has_its_members(filled, 0);
    json::object_has_its_members(filled, 1);
    json::object_has_its_members(filled, 2);
    json::object_has_its_members(plain, 0);
    json::object_has_its_members(plain, 1);
}

} // verus!
