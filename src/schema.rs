use vstd::prelude::*;
use crate::json::{Json, json_of_text, parse_json};
use crate::params::{has_prefix, starts_with};

verus! {

/// One directive of an envelope.
#[derive(Debug)]
pub struct Instruction {
    pub action: String,
    pub content: Option<String>,
    pub error: Option<bool>,
}

/// The envelope that a server answers with: a schema tag and, when it
/// carries directives, their list.
#[derive(Debug)]
pub struct AnythingSchema {
    pub schema: String,
    pub instructions: Option<Vec<Instruction>>,
}

/// The schema tags that this client understands begin with this.
pub open spec fn supported_prefix() -> Seq<char> {
    "anything-cli/v0"@
}

/// The member of `fields` named `name`, looking from position `i` on.
pub open spec fn member_from(fields: Seq<(String, Json)>, name: Seq<char>, i: int) -> Option<Json>
    decreases fields.len() - i,
{
    if i < 0 || i >= fields.len() {
        None
    } else if fields[i].0@ == name {
        Some(fields[i].1)
    } else {
        member_from(fields, name, i + 1)
    }
}

/// The first member of `fields` named `name`.
pub open spec fn member(fields: Seq<(String, Json)>, name: Seq<char>) -> Option<Json> {
    member_from(fields, name, 0)
}

/// An optional string member: absent or `null` is `None`; a string is
/// kept; anything else does not fit.
pub open spec fn optional_string(m: Option<Json>) -> Option<Option<String>> {
    match m {
        None => Some(None),
        Some(Json::Null) => Some(None),
        Some(Json::Str(s)) => Some(Some(s)),
        _ => None,
    }
}

/// An optional boolean member, read as `optional_string` reads a string.
pub open spec fn optional_bool(m: Option<Json>) -> Option<Option<bool>> {
    match m {
        None => Some(None),
        Some(Json::Null) => Some(None),
        Some(Json::Bool(b)) => Some(Some(b)),
        _ => None,
    }
}

/// The instruction that `j` describes: an object with a string `action`,
/// an optional string `content` and an optional boolean `error`. Other
/// members are passed over.
pub open spec fn instruction_of(j: Json) -> Option<Instruction> {
    match j {
        Json::Object(fields) => match (
            member(fields@, "action"@),
            optional_string(member(fields@, "content"@)),
            optional_bool(member(fields@, "error"@)),
        ) {
            (Some(Json::Str(a)), Some(c), Some(e)) => Some(
                Instruction { action: a, content: c, error: e },
            ),
            _ => None,
        },
        _ => None,
    }
}

/// The instructions that the items `items` describe, if each describes one.
pub open spec fn instructions_of(items: Seq<Json>) -> Option<Seq<Instruction>>
    decreases items.len(),
{
    if items.len() == 0 {
        Some(Seq::empty())
    } else {
        match (instructions_of(items.drop_last()), instruction_of(items.last())) {
            (Some(s), Some(x)) => Some(s.push(x)),
            _ => None,
        }
    }
}

/// The schema tag and the instructions (absent or `null`: `None`) that `j`
/// describes, if it has the envelope's shape.
pub open spec fn envelope_of(j: Json) -> Option<(String, Option<Seq<Instruction>>)> {
    match j {
        Json::Object(fields) => match member(fields@, "schema"@) {
            Some(Json::Str(s)) => match member(fields@, "instructions"@) {
                None => Some((s, None)),
                Some(Json::Null) => Some((s, None)),
                Some(Json::Array(items)) => match instructions_of(items@) {
                    Some(is) => Some((s, Some(is))),
                    None => None,
                },
                _ => None,
            },
            _ => None,
        },
        _ => None,
    }
}

/// Whether an envelope with schema tag `schema` and instructions
/// `instructions` is one that this client acts on.
pub open spec fn is_accepted(schema: Seq<char>, instructions: Option<Seq<Instruction>>) -> bool {
    starts_with(schema, supported_prefix()) && instructions is Some
}

/// The envelope that `j` holds and that this client acts on: its schema
/// tag and its instructions.
pub open spec fn accepted_envelope(j: Json) -> Option<(String, Seq<Instruction>)> {
    match envelope_of(j) {
        Some((s, Some(is))) => if starts_with(s@, supported_prefix()) {
            Some((s, is))
        } else {
            None
        },
        _ => None,
    }
}

impl AnythingSchema {
    /// The instructions, as a sequence, where there are any.
    pub open spec fn instructions_view(&self) -> Option<Seq<Instruction>> {
        match self.instructions {
            Some(v) => Some(v@),
            None => None,
        }
    }

    /// The JSON form of this envelope: an object with `schema` and
    /// `instructions` (`null` where there is no list). Reading it back
    /// gives this envelope again.
    pub fn to_json(&self) -> (r: Json)
        ensures
            envelope_of(r) == Some((self.schema, self.instructions_view())),
    {
        proof {
            reveal_strlit("schema");
            reveal_strlit("instructions");
        }
        let list = match &self.instructions {
            None => Json::Null,
            Some(v) => {
                let mut items: Vec<Json> = Vec::new();
                let mut i: usize = 0;
                while i < v.len()
                    invariant
                        i <= v@.len(),
                        items@.len() == i,
                        instructions_of(items@) == Some(v@.take(i as int)),
                    decreases v@.len() - i,
                {
                    let x = v[i].to_json();
                    let ghost prev = items@;
                    items.push(x);
                    assert(items@.drop_last() =~= prev);
                    assert(items@.last() == x);
                    assert(v@.take(i + 1) =~= v@.take(i as int).push(v@[i as int]));
                    i = i + 1;
                }
                assert(v@.take(v@.len() as int) =~= v@);
                Json::Array(items)
            },
        };
        let fields = vec![
            (String::from_str("schema"), Json::Str(self.schema.clone())),
            (String::from_str("instructions"), list),
        ];
        assert(member(fields@, "schema"@) == Some(fields@[0].1));
        assert(fields@[1].0@ != "schema"@) by {
            assert("schema"@.len() != "instructions"@.len());
        }
        assert(member_from(fields@, "instructions"@, 1) == Some(fields@[1].1));
        assert(member(fields@, "instructions"@) == Some(fields@[1].1));
        Json::Object(fields)
    }

    /// Whether this is an envelope that this client acts on: its schema
    /// tag has the supported prefix and it carries an instruction list.
    pub fn is_supported(&self) -> (r: bool)
        ensures
            r == is_accepted(self.schema@, self.instructions_view()),
    {
        has_prefix(self.schema.as_str(), "anything-cli/v0") && self.instructions.is_some()
    }
}

impl Instruction {
    /// The JSON form of this instruction: an object with `action`,
    /// `content` and `error`, absent values as `null`.
    pub fn to_json(&self) -> (r: Json)
        ensures
            instruction_of(r) == Some(*self),
    {
        proof {
            reveal_strlit("action");
            reveal_strlit("content");
            reveal_strlit("error");
        }
        let content = match &self.content {
            Some(s) => Json::Str(s.clone()),
            None => Json::Null,
        };
        let error = match self.error {
            Some(b) => Json::Bool(b),
            None => Json::Null,
        };
        let fields = vec![
            (String::from_str("action"), Json::Str(self.action.clone())),
            (String::from_str("content"), content),
            (String::from_str("error"), error),
        ];
        assert(member(fields@, "action"@) == Some(fields@[0].1));
        assert("action"@.len() != "content"@.len());
        assert("action"@.len() != "error"@.len());
        assert("content"@.len() != "error"@.len());
        assert(fields@[0].0@ != "content"@ && fields@[1].0@ == "content"@);
        assert(member_from(fields@, "content"@, 1) == Some(fields@[1].1));
        assert(member(fields@, "content"@) == Some(fields@[1].1));
        assert(fields@[0].0@ != "error"@ && fields@[1].0@ != "error"@);
        assert(member_from(fields@, "error"@, 2) == Some(fields@[2].1));
        assert(member_from(fields@, "error"@, 1) == Some(fields@[2].1));
        assert(member(fields@, "error"@) == Some(fields@[2].1));
        Json::Object(fields)
    }
}

/// The member of `fields` named `name`.
fn find_member<'a>(fields: &'a Vec<(String, Json)>, name: &str) -> (r: Option<&'a Json>)
    ensures
        match r {
            Some(v) => member(fields@, name@) == Some(*v),
            None => member(fields@, name@) is None,
        },
{
    let mut i: usize = 0;
    while i < fields.len()
        invariant
            i <= fields@.len(),
            member(fields@, name@) == member_from(fields@, name@, i as int),
        decreases fields@.len() - i,
    {
        if crate::string_map::string_eq_str(&fields[i].0, name) {
            return Some(&fields[i].1);
        }
        i = i + 1;
    }
    None
}

/// Reads an optional string member.
fn read_optional_string(m: Option<&Json>) -> (r: Option<Option<String>>)
    ensures
        r == optional_string(match m {
            Some(j) => Some(*j),
            None => None,
        }),
{
    match m {
        None => Some(None),
        Some(Json::Null) => Some(None),
        Some(Json::Str(s)) => Some(Some(s.clone())),
        _ => None,
    }
}

/// Reads an optional boolean member.
fn read_optional_bool(m: Option<&Json>) -> (r: Option<Option<bool>>)
    ensures
        r == optional_bool(match m {
            Some(j) => Some(*j),
            None => None,
        }),
{
    match m {
        None => Some(None),
        Some(Json::Null) => Some(None),
        Some(Json::Bool(b)) => Some(Some(*b)),
        _ => None,
    }
}

/// Reads one instruction from its JSON form.
pub fn instruction_from_json(j: &Json) -> (r: Option<Instruction>)
    ensures
        r == instruction_of(*j),
{
    proof {
        reveal_strlit("action");
        reveal_strlit("content");
        reveal_strlit("error");
    }
    match j {
        Json::Object(fields) => {
            let action = match find_member(fields, "action") {
                Some(Json::Str(a)) => a.clone(),
                _ => return None,
            };
            let content = match read_optional_string(find_member(fields, "content")) {
                Some(c) => c,
                None => return None,
            };
            let error = match read_optional_bool(find_member(fields, "error")) {
                Some(e) => e,
                None => return None,
            };
            Some(Instruction { action, content, error })
        },
        _ => None,
    }
}

/// Reads the envelope that `j` describes: an object with a string
/// `schema` and an optional list of instructions. A shape that does not
/// fit gives `None`.
#[verifier::loop_isolation(false)]
pub fn envelope_from_json(j: &Json) -> (r: Option<AnythingSchema>)
    ensures
        match (r, envelope_of(*j)) {
            (Some(e), Some((s, is))) => e.schema == s && e.instructions_view() == is,
            (None, None) => true,
            _ => false,
        },
{
    match j {
        Json::Object(fields) => {
            let schema = match find_member(fields, "schema") {
                Some(Json::Str(s)) => s.clone(),
                _ => return None,
            };
            match find_member(fields, "instructions") {
                None => Some(AnythingSchema { schema, instructions: None }),
                Some(Json::Null) => Some(AnythingSchema { schema, instructions: None }),
                Some(Json::Array(items)) => {
                    let mut out: Vec<Instruction> = Vec::new();
                    let mut i: usize = 0;
                    while i < items.len()
                        invariant
                            i <= items@.len(),
                            instructions_of(items@.take(i as int)) == Some(out@),
                        decreases items@.len() - i,
                    {
                        match instruction_from_json(&items[i]) {
                            Some(x) => {
                                assert(items@.take(i + 1).drop_last() =~= items@.take(i as int));
                                out.push(x);
                            },
                            None => {
                                assert(items@.take(i + 1).drop_last() =~= items@.take(i as int));
                                assert(items@.take(i + 1).last() == items@[i as int]);
                                proof { lemma_instructions_of_prefix(items@, i + 1); }
                                return None;
                            },
                        }
                        i = i + 1;
                    }
                    assert(items@.take(items@.len() as int) =~= items@);
                    Some(AnythingSchema { schema, instructions: Some(out) })
                },
                _ => None,
            }
        },
        _ => None,
    }
}

/// A list whose first `n` items do not all describe instructions does not
/// describe a list of instructions.
pub proof fn lemma_instructions_of_prefix(items: Seq<Json>, n: int)
    requires
        0 <= n <= items.len(),
        instructions_of(items.take(n)) is None,
    ensures
        instructions_of(items) is None,
    decreases items.len() - n,
{
    if n < items.len() {
        assert(items.take(n + 1).drop_last() =~= items.take(n));
        lemma_instructions_of_prefix(items, n + 1);
    } else {
        assert(items.take(n) =~= items);
    }
}

/// Keeps `e` where this client acts on it.
pub fn accept_envelope(e: AnythingSchema) -> (r: Option<AnythingSchema>)
    ensures
        is_accepted(e.schema@, e.instructions_view()) ==> r == Some(e),
        !is_accepted(e.schema@, e.instructions_view()) ==> r is None,
{
    if e.is_supported() {
        Some(e)
    } else {
        None
    }
}

/// Reads the envelope in the JSON tree `j` and keeps it where this client
/// acts on it.
pub fn validate_envelope(j: &Json) -> (r: Option<AnythingSchema>)
    ensures
        match (r, accepted_envelope(*j)) {
            (Some(e), Some((s, is))) => e.schema == s && e.instructions_view() == Some(is),
            (None, None) => true,
            _ => false,
        },
{
    match envelope_from_json(j) {
        Some(e) => accept_envelope(e),
        None => None,
    }
}

/// Reads the envelope in the JSON text `json_str`: `None` where the text is
/// not JSON, has not the envelope's shape, has a schema tag without the
/// supported prefix or carries no instruction list.
pub fn parse_anything_schema(json_str: &str) -> (r: Option<AnythingSchema>)
    ensures
        match json_of_text(json_str@) {
            None => r is None,
            Some(j) => match (r, accepted_envelope(j)) {
                (Some(e), Some((s, is))) => e.schema == s && e.instructions_view() == Some(is),
                (None, None) => true,
                _ => false,
            },
        },
{
    match parse_json(json_str) {
        Some(j) => validate_envelope(&j),
        None => None,
    }
}

/// An accepted envelope, written out again as JSON and read back, is
/// accepted again with the same schema tag and instructions.
pub proof fn reencoded_envelope_accepted(e: AnythingSchema, j: Json)
    requires
        is_accepted(e.schema@, e.instructions_view()),
        envelope_of(j) == Some((e.schema, e.instructions_view())),
    ensures
        accepted_envelope(j) == Some((e.schema, e.instructions_view()->0)),
{
}

} // verus!
