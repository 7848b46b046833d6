//! Advisory check of a request document against the message it is sent as.
use vstd::prelude::*;

use crate::json::{lemma_array_model, lemma_object_model, pairs_model, Json, JsonValue};
use crate::schema::{
    field_index_by_name, find_field_by_name, find_message, message_index, Cardinality, FieldDesc,
    FieldKind, ProtoSchema,
};
use crate::text::{concat, concat3, owned};

verus! {

/// One finding: where in the document, and what is wrong there.
pub struct ValidationError {
    pub path: String,
    pub message: String,
}

/// Outcome of a validation: `valid` exactly when there is no finding.
pub struct ValidationResult {
    pub valid: bool,
    pub errors: Vec<ValidationError>,
}

pub open spec fn error_v(e: ValidationError) -> (Seq<char>, Seq<char>) {
    (e.path@, e.message@)
}

pub open spec fn errors_v(v: Seq<ValidationError>) -> Seq<(Seq<char>, Seq<char>)> {
    v.map_values(|e: ValidationError| error_v(e))
}

/// Path of member `key` below `parent`: dotted, or the key alone at the top.
pub open spec fn child_path(parent: Seq<char>, key: Seq<char>) -> Seq<char> {
    if parent.len() == 0 {
        key
    } else {
        parent + "."@ + key
    }
}

/// Fields of the message named `n`; none when the schema lacks it.
pub open spec fn fields_of(s: ProtoSchema, n: Seq<char>) -> Seq<FieldDesc> {
    match message_index(s, n) {
        Some(j) => s.messages@[j].fields@,
        None => Seq::empty(),
    }
}

pub open spec fn finding(path: Seq<char>, expected: Seq<char>, v: Json) -> Seq<(Seq<char>, Seq<char>)> {
    seq![(path, "expected "@ + expected + ", got "@ + v.kind_name())]
}

/// Findings for a value of a singular field: `null` is always accepted, numbers of
/// any kind stand for every numeric type, and nested messages are checked in turn.
pub open spec fn check_field(s: ProtoSchema, f: FieldDesc, v: Json, path: Seq<char>) -> Seq<(Seq<char>, Seq<char>)>
    decreases v, 0nat,
{
    if v is Null {
        Seq::empty()
    } else {
        match f.kind {
            FieldKind::Str => if v is Str { Seq::empty() } else { finding(path, "string type"@, v) },
            FieldKind::Bool => if v is Bool { Seq::empty() } else { finding(path, "bool type"@, v) },
            FieldKind::Int32 | FieldKind::Int64 | FieldKind::Sint32 | FieldKind::Sint64
            | FieldKind::Sfixed32 | FieldKind::Sfixed64 => if v is Number {
                Seq::empty()
            } else {
                finding(path, "integer type"@, v)
            },
            FieldKind::Uint32 | FieldKind::Uint64 | FieldKind::Fixed32 | FieldKind::Fixed64 => if v is Number {
                Seq::empty()
            } else {
                finding(path, "unsigned integer type"@, v)
            },
            FieldKind::Float | FieldKind::Double => if v is Number {
                Seq::empty()
            } else {
                finding(path, "float type"@, v)
            },
            FieldKind::Bytes => if v is Str { Seq::empty() } else { finding(path, "bytes (Base64 string)"@, v) },
            FieldKind::Enum(_) => if v is Str || v is Number {
                Seq::empty()
            } else {
                finding(path, "enum (string or number)"@, v)
            },
            FieldKind::Message(n) => match v {
                Json::Object(pairs) => object_errors(s, fields_of(s, n@), pairs, path),
                _ => finding(path, "message (JSON object)"@, v),
            },
        }
    }
}

/// Findings for one member `key` of an object checked against `fields`.
pub open spec fn member_errors(s: ProtoSchema, fields: Seq<FieldDesc>, key: Seq<char>, v: Json, path: Seq<char>) -> Seq<(Seq<char>, Seq<char>)>
    decreases v, 1nat,
{
    match field_index_by_name(fields, key) {
        None => seq![(path, "unknown field"@)],
        Some(k) => {
            let f = fields[k];
            if f.is_map {
                if v is Object { Seq::empty() } else { finding(path, "map (JSON object)"@, v) }
            } else if f.cardinality == Cardinality::Repeated {
                if v is Array { Seq::empty() } else { finding(path, "repeated (JSON array)"@, v) }
            } else {
                check_field(s, f, v, path)
            }
        },
    }
}

/// Findings for the members of an object checked against `fields`, member by member.
pub open spec fn object_errors(
    s: ProtoSchema,
    fields: Seq<FieldDesc>,
    pairs: Seq<(Seq<char>, Json)>,
    parent: Seq<char>,
) -> Seq<(Seq<char>, Seq<char>)>
    decreases pairs, 2nat,
{
    if pairs.len() == 0 {
        Seq::empty()
    } else {
        let last = pairs[pairs.len() - 1];
        proof {
            assert(decreases_to!(pairs => pairs[pairs.len() - 1]));
        }
        object_errors(s, fields, pairs.drop_last(), parent) + member_errors(
            s,
            fields,
            last.0,
            last.1,
            child_path(parent, last.0),
        )
    }
}

/// The validation outcome for a parsed document against message `message_name`.
pub open spec fn validation_outcome(
    s: ProtoSchema,
    message_name: Seq<char>,
    parsed: Result<Json, Seq<char>>,
) -> Result<(bool, Seq<(Seq<char>, Seq<char>)>), Seq<char>> {
    match parsed {
        Err(e) => Err("invalid JSON syntax: "@ + e),
        Ok(v) => match message_index(s, message_name) {
            None => Err("message type not found: "@ + message_name),
            Some(j) => match v {
                Json::Object(pairs) => {
                    let errs = object_errors(s, s.messages@[j].fields@, pairs, Seq::empty());
                    Ok((errs.len() == 0, errs))
                },
                _ => Ok((false, seq![(Seq::empty(), "expected JSON object, got another type"@)])),
            },
        },
    }
}

fn push_finding(errors: &mut Vec<ValidationError>, path: String, expected: &str, v: &JsonValue)
    ensures
        errors_v(final(errors)@) == errors_v(old(errors)@) + finding(path@, expected@, v.model()),
{
    let k = v.kind_name();
    let message = concat3("expected ", expected, ", got ");
    let mut message = message;
    message.append(k.as_str());
    let ghost before = errors@;
    errors.push(ValidationError { path, message });
    proof {
        assert(errors_v(errors@) =~= errors_v(before) + finding(path@, expected@, v.model()));
    }
}

/// Checks the value of a singular field.
pub fn check_field_type(
    s: &ProtoSchema,
    f: &FieldDesc,
    value: &JsonValue,
    errors: &mut Vec<ValidationError>,
    field_path: String,
)
    ensures
        errors_v(final(errors)@) == errors_v(old(errors)@) + check_field(*s, *f, value.model(), field_path@),
    decreases value, 0nat,
{
    let ghost before = errors@;
    match value {
        JsonValue::Null => {
            proof {
                assert(errors_v(errors@) =~= errors_v(before) + Seq::empty());
            }
            return;
        },
        _ => {},
    }
    match &f.kind {
        FieldKind::Str => {
            match value {
                JsonValue::Str(_) => {},
                _ => push_finding(errors, field_path, "string type", value),
            }
        },
        FieldKind::Bool => {
            match value {
                JsonValue::Bool(_) => {},
                _ => push_finding(errors, field_path, "bool type", value),
            }
        },
        FieldKind::Int32 | FieldKind::Int64 | FieldKind::Sint32 | FieldKind::Sint64 | FieldKind::Sfixed32
        | FieldKind::Sfixed64 => {
            match value {
                JsonValue::Number(_) => {},
                _ => push_finding(errors, field_path, "integer type", value),
            }
        },
        FieldKind::Uint32 | FieldKind::Uint64 | FieldKind::Fixed32 | FieldKind::Fixed64 => {
            match value {
                JsonValue::Number(_) => {},
                _ => push_finding(errors, field_path, "unsigned integer type", value),
            }
        },
        FieldKind::Float | FieldKind::Double => {
            match value {
                JsonValue::Number(_) => {},
                _ => push_finding(errors, field_path, "float type", value),
            }
        },
        FieldKind::Bytes => {
            match value {
                JsonValue::Str(_) => {},
                _ => push_finding(errors, field_path, "bytes (Base64 string)", value),
            }
        },
        FieldKind::Enum(_) => {
            match value {
                JsonValue::Str(_) | JsonValue::Number(_) => {},
                _ => push_finding(errors, field_path, "enum (string or number)", value),
            }
        },
        FieldKind::Message(n) => {
            match value {
                JsonValue::Object(pairs) => {
                    proof {
                        lemma_object_model(*pairs);
                    }
                    let empty: Vec<FieldDesc> = Vec::new();
                    let fields = match find_message(s, n.as_str()) {
                        Some(j) => &s.messages[j].fields,
                        None => &empty,
                    };
                    validate_json_object(s, fields, pairs, errors, field_path.as_str());
                },
                _ => push_finding(errors, field_path, "message (JSON object)", value),
            }
        },
    }
    proof {
        if errors_v(errors@) == errors_v(before) {
            assert(errors_v(errors@) =~= errors_v(before) + Seq::empty());
        }
    }
}

/// Checks one member of an object against `fields`.
fn validate_member(
    s: &ProtoSchema,
    fields: &Vec<FieldDesc>,
    key: &str,
    value: &JsonValue,
    errors: &mut Vec<ValidationError>,
    field_path: String,
)
    ensures
        errors_v(final(errors)@) == errors_v(old(errors)@) + member_errors(*s, fields@, key@, value.model(), field_path@),
    decreases value, 1nat,
{
    let ghost mid = errors@;
    match find_field_by_name(fields, key) {
        None => {
            errors.push(ValidationError { path: field_path, message: owned("unknown field") });
            proof {
                assert(errors_v(errors@) =~= errors_v(mid) + seq![(field_path@, "unknown field"@)]);
            }
        },
        Some(k) => {
            let fd = &fields[k];
            if fd.is_map {
                if !value.is_object() {
                    push_finding(errors, field_path, "map (JSON object)", value);
                } else {
                    proof {
                        assert(errors_v(errors@) =~= errors_v(mid) + Seq::empty());
                    }
                }
            } else if matches!(fd.cardinality, Cardinality::Repeated) {
                if !value.is_array() {
                    push_finding(errors, field_path, "repeated (JSON array)", value);
                } else {
                    proof {
                        assert(errors_v(errors@) =~= errors_v(mid) + Seq::empty());
                    }
                }
            } else {
                check_field_type(s, fd, value, errors, field_path);
            }
        },
    }
}

/// Checks each member of an object against `fields`.
pub fn validate_json_object(
    s: &ProtoSchema,
    fields: &Vec<FieldDesc>,
    pairs: &Vec<(String, JsonValue)>,
    errors: &mut Vec<ValidationError>,
    parent_path: &str,
)
    ensures
        errors_v(final(errors)@) == errors_v(old(errors)@) + object_errors(
            *s,
            fields@,
            pairs_model(pairs@),
            parent_path@,
        ),
    decreases pairs, 2nat,
{
    let ghost before = errors@;
    let ghost pm = pairs_model(pairs@);
    let mut i: usize = 0;
    proof {
        assert(pm.take(0) =~= Seq::empty());
        assert(errors_v(errors@) =~= errors_v(before) + Seq::empty());
    }
    while i < pairs.len()
        invariant
            i <= pairs@.len(),
            pm == pairs_model(pairs@),
            errors_v(errors@) == errors_v(before) + object_errors(*s, fields@, pm.take(i as int), parent_path@),
        decreases pairs.len() - i,
    {
        let key = &pairs[i].0;
        let value = &pairs[i].1;
        let top = parent_path.is_empty();
        let field_path = if top {
            owned(key.as_str())
        } else {
            concat3(parent_path, ".", key.as_str())
        };
        proof {
            assert(pm.take(i + 1).drop_last() =~= pm.take(i as int));
            assert(pm.take(i + 1)[i as int] == (key@, value.model()));
            assert(field_path@ == child_path(parent_path@, key@));
            assert(decreases_to!(pairs => pairs@));
            assert(decreases_to!(pairs@ => pairs@[i as int]));
            assert(decreases_to!(pairs@[i as int] => pairs@[i as int].1));
        }
        let ghost mid = errors@;
        validate_member(s, fields, key.as_str(), value, errors, field_path);
        proof {
            assert(errors_v(before) + object_errors(*s, fields@, pm.take(i + 1), parent_path@) =~= (errors_v(before)
                + object_errors(*s, fields@, pm.take(i as int), parent_path@)) + member_errors(*s, fields@, key@, value.model(), child_path(parent_path@, key@)));
        }
        i = i + 1;
    }
    proof {
        assert(pm.take(pairs@.len() as int) =~= pm);
    }
}

pub open spec fn parsed_model(p: Result<JsonValue, String>) -> Result<Json, Seq<char>> {
    match p {
        Ok(v) => Ok(v.model()),
        Err(e) => Err(e@),
    }
}

pub open spec fn result_v(r: Result<ValidationResult, String>) -> Result<(bool, Seq<(Seq<char>, Seq<char>)>), Seq<char>> {
    match r {
        Ok(res) => Ok((res.valid, errors_v(res.errors@))),
        Err(e) => Err(e@),
    }
}

fn validate_top(pool: &ProtoSchema, j: usize, value: &JsonValue) -> (r: ValidationResult)
    requires
        j < pool.messages@.len(),
    ensures
        (r.valid, errors_v(r.errors@)) == match value.model() {
            Json::Object(pairs) => {
                let errs = object_errors(*pool, pool.messages@[j as int].fields@, pairs, Seq::empty());
                (errs.len() == 0, errs)
            },
            _ => (false, seq![(Seq::<char>::empty(), "expected JSON object, got another type"@)]),
        },
{
    let mut errors: Vec<ValidationError> = Vec::new();
    match value {
        JsonValue::Object(pairs) => {
            proof {
                lemma_object_model(*pairs);
                assert(errors_v(errors@) =~= Seq::empty());
            }
            validate_json_object(pool, &pool.messages[j].fields, pairs, &mut errors, "");
            proof {
                reveal_strlit("");
                assert(""@ =~= Seq::<char>::empty());
                assert(errors_v(errors@) =~= Seq::empty() + object_errors(*pool, pool.messages@[j as int].fields@, pairs_model(pairs@), Seq::empty()));
            }
            let valid = errors.len() == 0;
            ValidationResult { valid, errors }
        },
        _ => {
            errors.push(ValidationError { path: String::new(), message: owned("expected JSON object, got another type") });
            proof {
                assert(errors_v(errors@) =~= seq![(Seq::<char>::empty(), "expected JSON object, got another type"@)]);
            }
            ValidationResult { valid: false, errors }
        },
    }
}

/// Checks a parsed request document against message `message_name`.
/// `parsed` is the outcome of parsing the document
/// text: the document, or the parser's description of the syntax error.
pub fn validate_request_json(
    pool: &ProtoSchema,
    message_name: &str,
    parsed: Result<JsonValue, String>,
) -> (r: Result<ValidationResult, String>)
    ensures
        result_v(r) == validation_outcome(*pool, message_name@, parsed_model(parsed)),
{
    let value = match parsed {
        Ok(v) => v,
        Err(e) => {
            return Err(concat("invalid JSON syntax: ", e.as_str()));
        },
    };
    match find_message(pool, message_name) {
        Some(j) => Ok(validate_top(pool, j, &value)),
        None => Err(concat("message type not found: ", message_name)),
    }
}

} // verus!
