//! The argument-spec model and the validation engine that builds an
//! [`AnsibleModule`](crate::ansible_module::AnsibleModule) from a spec, a raw
//! input document, the cross-argument constraint groups and an environment
//! snapshot.
use vstd::prelude::*;
use vstd::string::StrSliceExecFns;
use vstd::string::StringExecFns;

use crate::ansible_module::{params_view, AnsibleModuleView, ArgumentValue, ArgumentValueView};
use crate::json::{entries_contain_key, entries_get, json_eq, json_view, json_view_entries,
    json_view_seq, kv_has, kv_lookup, lemma_json_view_entries, lemma_json_view_seq, JsonValue,
    JsonView};
use crate::render::{debug_json_items, json_text, push_char, push_json, render_json_list_debug,
    render_string_list, string_views, strings_debug_text};

verus! {

/// The type an argument is declared with.
#[derive(Debug, Clone, Copy, PartialEq, Eq, Structural)]
pub enum ArgumentType {
    Bool,
    Str,
    Float,
    Int,
    Uint,
    List,
    Dict,
}

/// The name of a type, as failure messages quote it.
pub open spec fn type_name_text(t: ArgumentType) -> Seq<char> {
    match t {
        ArgumentType::Bool => "Bool"@,
        ArgumentType::Str => "Str"@,
        ArgumentType::Float => "Float"@,
        ArgumentType::Int => "Int"@,
        ArgumentType::Uint => "Uint"@,
        ArgumentType::List => "List"@,
        ArgumentType::Dict => "Dict"@,
    }
}

/// Whether a value has the declared type.  A non-negative integer counts as a
/// signed integer when it fits in one; a negative integer never counts as an
/// unsigned one.
pub open spec fn type_matches(t: ArgumentType, v: JsonView) -> bool {
    match t {
        ArgumentType::Bool => v is Bool,
        ArgumentType::Str => v is Str,
        ArgumentType::Float => v is Float,
        ArgumentType::Int => v is Int || (v matches JsonView::Uint(n) && n <= i64::MAX),
        ArgumentType::Uint => v is Uint,
        ArgumentType::List => v is List,
        ArgumentType::Dict => v is Dict,
    }
}

impl ArgumentType {
    /// Whether `val` has this type, as [`type_matches`] says.
    pub fn check_type_correct(&self, val: &JsonValue) -> (r: bool)
        ensures
            r == type_matches(*self, val@),
    {
        match (self, val) {
            (ArgumentType::Bool, JsonValue::Bool(_)) => true,
            (ArgumentType::Str, JsonValue::Str(_)) => true,
            (ArgumentType::Float, JsonValue::Float(_)) => true,
            (ArgumentType::Int, JsonValue::Int(_)) => true,
            (ArgumentType::Int, JsonValue::Uint(n)) => *n <= 9223372036854775807u64,
            (ArgumentType::Uint, JsonValue::Uint(_)) => true,
            (ArgumentType::List, JsonValue::List(_)) => true,
            (ArgumentType::Dict, JsonValue::Dict(_)) => true,
            _ => false,
        }
    }

    fn push_name(&self, out: &mut String)
        ensures
            final(out)@ == old(out)@ + type_name_text(*self),
    {
        match self {
            ArgumentType::Bool => out.append("Bool"),
            ArgumentType::Str => out.append("Str"),
            ArgumentType::Float => out.append("Float"),
            ArgumentType::Int => out.append("Int"),
            ArgumentType::Uint => out.append("Uint"),
            ArgumentType::List => out.append("List"),
            ArgumentType::Dict => out.append("Dict"),
        }
    }
}

/// One declared argument of the spec model.
#[derive(Debug, Clone)]
pub struct Argument {
    /// The declared type of the argument's value.
    pub value_type: ArgumentType,
    /// Whether the argument must be supplied.
    pub required: bool,
    /// Whether the argument's value is a secret that output must mask.
    pub no_log: bool,
    /// The value stored when the argument is absent.
    pub default: Option<JsonValue>,
    /// The environment variable consulted when a required argument is absent.
    pub fallback: Option<String>,
    /// The values the argument may take, when restricted.
    pub choices: Option<Vec<JsonValue>>,
}

/// The mathematical shape of an [`Argument`].
#[verifier::ext_equal]
pub struct ArgumentView {
    pub value_type: ArgumentType,
    pub required: bool,
    pub no_log: bool,
    pub default: Option<JsonView>,
    pub fallback: Option<Seq<char>>,
    pub choices: Option<Seq<JsonView>>,
}

impl View for Argument {
    type V = ArgumentView;

    open spec fn view(&self) -> ArgumentView {
        ArgumentView {
            value_type: self.value_type,
            required: self.required,
            no_log: self.no_log,
            default: match self.default {
                Some(d) => Some(json_view(d)),
                None => None,
            },
            fallback: match self.fallback {
                Some(f) => Some(f@),
                None => None,
            },
            choices: match self.choices {
                Some(c) => Some(json_view_seq(c@)),
                None => None,
            },
        }
    }
}

/// The views of the named entries of a parsed spec model.
pub open spec fn spec_model_view(s: Seq<(String, Argument)>) -> Seq<(Seq<char>, ArgumentView)> {
    Seq::new(s.len(), |i: int| (s[i].0@, s[i].1@))
}

pub open spec fn ascii_lower_char(c: char) -> char {
    if c == 'A' {
        'a'
    } else if c == 'B' {
        'b'
    } else if c == 'C' {
        'c'
    } else if c == 'D' {
        'd'
    } else if c == 'E' {
        'e'
    } else if c == 'F' {
        'f'
    } else if c == 'G' {
        'g'
    } else if c == 'H' {
        'h'
    } else if c == 'I' {
        'i'
    } else if c == 'J' {
        'j'
    } else if c == 'K' {
        'k'
    } else if c == 'L' {
        'l'
    } else if c == 'M' {
        'm'
    } else if c == 'N' {
        'n'
    } else if c == 'O' {
        'o'
    } else if c == 'P' {
        'p'
    } else if c == 'Q' {
        'q'
    } else if c == 'R' {
        'r'
    } else if c == 'S' {
        's'
    } else if c == 'T' {
        't'
    } else if c == 'U' {
        'u'
    } else if c == 'V' {
        'v'
    } else if c == 'W' {
        'w'
    } else if c == 'X' {
        'x'
    } else if c == 'Y' {
        'y'
    } else if c == 'Z' {
        'z'
    } else {
        c
    }
}

/// The text with its ASCII upper-case letters lowered.
pub open spec fn ascii_lower(s: Seq<char>) -> Seq<char> {
    Seq::new(s.len(), |i: int| ascii_lower_char(s[i]))
}

fn ascii_lower_char_exec(c: char) -> (r: char)
    ensures
        r == ascii_lower_char(c),
{
    if c == 'A' {
        'a'
    } else if c == 'B' {
        'b'
    } else if c == 'C' {
        'c'
    } else if c == 'D' {
        'd'
    } else if c == 'E' {
        'e'
    } else if c == 'F' {
        'f'
    } else if c == 'G' {
        'g'
    } else if c == 'H' {
        'h'
    } else if c == 'I' {
        'i'
    } else if c == 'J' {
        'j'
    } else if c == 'K' {
        'k'
    } else if c == 'L' {
        'l'
    } else if c == 'M' {
        'm'
    } else if c == 'N' {
        'n'
    } else if c == 'O' {
        'o'
    } else if c == 'P' {
        'p'
    } else if c == 'Q' {
        'q'
    } else if c == 'R' {
        'r'
    } else if c == 'S' {
        's'
    } else if c == 'T' {
        't'
    } else if c == 'U' {
        'u'
    } else if c == 'V' {
        'v'
    } else if c == 'W' {
        'w'
    } else if c == 'X' {
        'x'
    } else if c == 'Y' {
        'y'
    } else if c == 'Z' {
        'z'
    } else {
        c
    }
}

#[verifier::loop_isolation(false)]
fn ascii_lower_string(s: &str) -> (out: String)
    ensures
        out@ == ascii_lower(s@),
{
    let len = s.unicode_len();
    let mut out = String::new();
    let mut i: usize = 0;
    while i < len
        invariant
            i <= s@.len(),
            len == s@.len(),
            out@ == ascii_lower(s@).subrange(0, i as int),
        decreases len - i,
    {
        let c = ascii_lower_char_exec(s.get_char(i));
        push_char(&mut out, c);
        proof {
            assert(out@ =~= ascii_lower(s@).subrange(0, i as int + 1));
        }
        i += 1;
    }
    proof {
        assert(ascii_lower(s@).subrange(0, s@.len() as int) =~= ascii_lower(s@));
    }
    out
}

/// The argument type a spec names, read case-insensitively.
pub open spec fn parse_type_name(s: Seq<char>) -> Option<ArgumentType> {
    let l = ascii_lower(s);
    if l == "bool"@ {
        Some(ArgumentType::Bool)
    } else if l == "str"@ {
        Some(ArgumentType::Str)
    } else if l == "float"@ {
        Some(ArgumentType::Float)
    } else if l == "int"@ {
        Some(ArgumentType::Int)
    } else if l == "uint"@ {
        Some(ArgumentType::Uint)
    } else if l == "list"@ {
        Some(ArgumentType::List)
    } else if l == "dict"@ {
        Some(ArgumentType::Dict)
    } else {
        None
    }
}

/// Whether a raw input key names internal runtime metadata rather than a
/// candidate argument.
pub open spec fn is_internal_key(k: Seq<char>) -> bool {
    k.len() > 0 && k[0] == '_'
}

/// The candidate-argument entries of the raw input: those whose key does not
/// start with the reserved underscore prefix, in input order.
pub open spec fn candidates(input: Seq<(Seq<char>, JsonView)>) -> Seq<(Seq<char>, JsonView)>
    decreases input.len(),
{
    if input.len() == 0 {
        Seq::empty()
    } else {
        let front = candidates(input.drop_last());
        if is_internal_key(input.last().0) {
            front
        } else {
            front.push(input.last())
        }
    }
}

fn is_internal_key_exec(k: &String) -> (r: bool)
    ensures
        r == is_internal_key(k@),
{
    let s = k.as_str();
    s.unicode_len() > 0 && s.get_char(0) == '_'
}

/// The candidate-argument entries of the raw input, as [`candidates`] says.
#[verifier::loop_isolation(false)]
pub fn filter_candidates(entries: &Vec<(String, JsonValue)>) -> (r: Vec<(String, JsonValue)>)
    ensures
        json_view_entries(r@) == candidates(json_view_entries(entries@)),
{
    proof {
        lemma_json_view_entries(entries@);
    }
    let ghost full = json_view_entries(entries@);
    let mut out: Vec<(String, JsonValue)> = Vec::new();
    let mut i: usize = 0;
    while i < entries.len()
        invariant
            i <= entries@.len(),
            json_view_entries(out@) == candidates(full.subrange(0, i as int)),
        decreases entries@.len() - i,
    {
        let ghost pre_out = out@;
        if !is_internal_key_exec(&entries[i].0) {
            out.push((entries[i].0.clone(), entries[i].1.clone()));
            proof {
                lemma_json_view_entries(pre_out);
                lemma_json_view_entries(out@);
                assert(json_view_entries(out@) =~= json_view_entries(pre_out).push(
                    (entries@[i as int].0@, json_view(entries@[i as int].1)),
                ));
            }
        }
        proof {
            let cur = full.subrange(0, i as int + 1);
            assert(cur.drop_last() =~= full.subrange(0, i as int));
            assert(cur.last() == full[i as int]);
        }
        i += 1;
    }
    proof {
        assert(full.subrange(0, full.len() as int) =~= full);
    }
    out
}

pub open spec fn msg_input_not_object() -> Seq<char> {
    "Input argument is not a JSON object"@
}

pub open spec fn msg_spec_not_object() -> Seq<char> {
    "Wrong argument spec format, must be a valid JSON object"@
}

pub open spec fn msg_entry_not_object(name: Seq<char>) -> Seq<char> {
    "Wrong argument spec format: argument '"@ + name + "' is not a JSON object"@
}

pub open spec fn msg_missing_type(name: Seq<char>) -> Seq<char> {
    "Wrong argument spec format: argument '"@ + name + "' has no 'type' field"@
}

pub open spec fn msg_invalid_type(name: Seq<char>) -> Seq<char> {
    "Wrong argument spec format: argument '"@ + name + "' has an invalid 'type'"@
}

pub open spec fn msg_bad_field(name: Seq<char>, field: Seq<char>) -> Seq<char> {
    "Wrong argument spec format: field '"@ + field + "' of argument '"@ + name
        + "' has the wrong type"@
}

/// One declared argument, parsed from its spec object.
///
/// The object must carry a string `type` naming one of the seven argument
/// types (read case-insensitively); `required` and `no_log` must be booleans
/// when present; `fallback` must be a string and `choices` a list when
/// present; a `default` may be any value.  A `null` counts as an absent
/// `default`, `fallback` or `choices`.  Unknown fields are ignored.
pub open spec fn parse_argument(name: Seq<char>, v: JsonView) -> Result<ArgumentView, Seq<char>> {
    match v {
        JsonView::Dict(fields) => match kv_lookup(fields, "type"@) {
            None => Err(msg_missing_type(name)),
            Some(tv) => match tv {
                JsonView::Str(tname) => match parse_type_name(tname) {
                    None => Err(msg_invalid_type(name)),
                    Some(t) => parse_argument_fields(name, fields, t),
                },
                _ => Err(msg_invalid_type(name)),
            },
        },
        _ => Err(msg_entry_not_object(name)),
    }
}

pub open spec fn parse_argument_fields(
    name: Seq<char>,
    fields: Seq<(Seq<char>, JsonView)>,
    t: ArgumentType,
) -> Result<ArgumentView, Seq<char>> {
    let required_field = kv_lookup(fields, "required"@);
    let no_log_field = kv_lookup(fields, "no_log"@);
    let default_field = kv_lookup(fields, "default"@);
    let fallback_field = kv_lookup(fields, "fallback"@);
    let choices_field = kv_lookup(fields, "choices"@);
    if required_field matches Some(f) && !(f is Bool) {
        Err(msg_bad_field(name, "required"@))
    } else if no_log_field matches Some(f) && !(f is Bool) {
        Err(msg_bad_field(name, "no_log"@))
    } else if fallback_field matches Some(f) && !(f is Str) && !(f is Null) {
        Err(msg_bad_field(name, "fallback"@))
    } else if choices_field matches Some(f) && !(f is List) && !(f is Null) {
        Err(msg_bad_field(name, "choices"@))
    } else {
        Ok(
            ArgumentView {
                value_type: t,
                required: match required_field {
                    Some(JsonView::Bool(b)) => b,
                    _ => false,
                },
                no_log: match no_log_field {
                    Some(JsonView::Bool(b)) => b,
                    _ => false,
                },
                default: match default_field {
                    Some(JsonView::Null) => None,
                    Some(d) => Some(d),
                    None => None,
                },
                fallback: match fallback_field {
                    Some(JsonView::Str(s)) => Some(s),
                    _ => None,
                },
                choices: match choices_field {
                    Some(JsonView::List(c)) => Some(c),
                    _ => None,
                },
            },
        )
    }
}

/// The spec model read from the named spec objects, or the first complaint.
pub open spec fn parse_spec_entries(entries: Seq<(Seq<char>, JsonView)>) -> Result<
    Seq<(Seq<char>, ArgumentView)>,
    Seq<char>,
>
    decreases entries.len(),
{
    if entries.len() == 0 {
        Ok(Seq::empty())
    } else {
        match parse_argument(entries[0].0, entries[0].1) {
            Err(m) => Err(m),
            Ok(a) => match parse_spec_entries(entries.drop_first()) {
                Err(m) => Err(m),
                Ok(rest) => Ok(seq![(entries[0].0, a)] + rest),
            },
        }
    }
}

fn msg_with_name(prefix: &str, name: &str, suffix: &str) -> (m: String)
    ensures
        m@ == prefix@ + name@ + suffix@,
{
    let mut m = String::from_str(prefix);
    m.append(name);
    m.append(suffix);
    m
}

fn parse_argument_exec(name: &String, v: &JsonValue) -> (r: Result<Argument, String>)
    ensures
        match r {
            Ok(a) => parse_argument(name@, v@) == Ok::<ArgumentView, Seq<char>>(a@),
            Err(m) => parse_argument(name@, v@) == Err::<ArgumentView, Seq<char>>(m@),
        },
{
    let fields = match v {
        JsonValue::Dict(fields) => fields,
        _ => {
            return Err(
                msg_with_name(
                    "Wrong argument spec format: argument '",
                    name.as_str(),
                    "' is not a JSON object",
                ),
            );
        },
    };
    let t = match entries_get(fields, &String::from_str("type")) {
        None => {
            return Err(
                msg_with_name(
                    "Wrong argument spec format: argument '",
                    name.as_str(),
                    "' has no 'type' field",
                ),
            );
        },
        Some(tv) => match tv {
            JsonValue::Str(tname) => match parse_type_name_exec(tname.as_str()) {
                Some(t) => t,
                None => {
                    return Err(
                        msg_with_name(
                            "Wrong argument spec format: argument '",
                            name.as_str(),
                            "' has an invalid 'type'",
                        ),
                    );
                },
            },
            _ => {
                return Err(
                    msg_with_name(
                        "Wrong argument spec format: argument '",
                        name.as_str(),
                        "' has an invalid 'type'",
                    ),
                );
            },
        },
    };
    let required: bool = match entries_get(fields, &String::from_str("required")) {
        Some(JsonValue::Bool(b)) => *b,
        Some(_) => {
            return Err(bad_field_msg(name, "required"));
        },
        None => false,
    };
    let no_log: bool = match entries_get(fields, &String::from_str("no_log")) {
        Some(JsonValue::Bool(b)) => *b,
        Some(_) => {
            return Err(bad_field_msg(name, "no_log"));
        },
        None => false,
    };
    let default: Option<JsonValue> = match entries_get(fields, &String::from_str("default")) {
        Some(JsonValue::Null) => None,
        Some(d) => Some(d.clone()),
        None => None,
    };
    let fallback: Option<String> = match entries_get(fields, &String::from_str("fallback")) {
        Some(JsonValue::Str(s)) => Some(s.clone()),
        Some(JsonValue::Null) => None,
        Some(_) => {
            return Err(bad_field_msg(name, "fallback"));
        },
        None => None,
    };
    let choices: Option<Vec<JsonValue>> = match entries_get(fields, &String::from_str("choices")) {
        Some(JsonValue::List(c)) => Some(clone_values(c)),
        Some(JsonValue::Null) => None,
        Some(_) => {
            return Err(bad_field_msg(name, "choices"));
        },
        None => None,
    };
    Ok(Argument { value_type: t, required, no_log, default, fallback, choices })
}

fn bad_field_msg(name: &String, field: &str) -> (m: String)
    ensures
        m@ == msg_bad_field(name@, field@),
{
    let mut m = String::from_str("Wrong argument spec format: field '");
    m.append(field);
    m.append("' of argument '");
    m.append(name.as_str());
    m.append("' has the wrong type");
    m
}

#[verifier::loop_isolation(false)]
fn clone_values(items: &Vec<JsonValue>) -> (r: Vec<JsonValue>)
    ensures
        json_view_seq(r@) == json_view_seq(items@),
{
    proof {
        lemma_json_view_seq(items@);
    }
    let mut out: Vec<JsonValue> = Vec::new();
    let mut i: usize = 0;
    while i < items.len()
        invariant
            i <= items@.len(),
            out@.len() == i as int,
            forall|j: int| 0 <= j < i as int ==> json_view(out@[j]) == json_view(items@[j]),
        decreases items@.len() - i,
    {
        out.push(items[i].clone());
        i += 1;
    }
    proof {
        lemma_json_view_seq(out@);
        assert(json_view_seq(out@) =~= json_view_seq(items@));
    }
    out
}

/// The spec model read from the named spec objects, as [`parse_spec_entries`]
/// says.
pub fn parse_argument_spec(entries: &Vec<(String, JsonValue)>) -> (r: Result<
    Vec<(String, Argument)>,
    String,
>)
    ensures
        match r {
            Ok(model) => parse_spec_entries(json_view_entries(entries@)) == Ok::<
                Seq<(Seq<char>, ArgumentView)>,
                Seq<char>,
            >(spec_model_view(model@)),
            Err(m) => parse_spec_entries(json_view_entries(entries@)) == Err::<
                Seq<(Seq<char>, ArgumentView)>,
                Seq<char>,
            >(m@),
        },
{
    proof {
        lemma_json_view_entries(entries@);
        assert(json_view_entries(entries@).subrange(0, entries@.len() as int) =~= json_view_entries(
            entries@,
        ));
    }
    parse_argument_spec_from(entries, 0)
}

#[verifier::loop_isolation(false)]
fn parse_argument_spec_from(entries: &Vec<(String, JsonValue)>, i: usize) -> (r: Result<
    Vec<(String, Argument)>,
    String,
>)
    requires
        i <= entries@.len(),
    ensures
        ({
            let tail = json_view_entries(entries@).subrange(i as int, entries@.len() as int);
            match r {
                Ok(model) => parse_spec_entries(tail) == Ok::<
                    Seq<(Seq<char>, ArgumentView)>,
                    Seq<char>,
                >(spec_model_view(model@)),
                Err(m) => parse_spec_entries(tail) == Err::<
                    Seq<(Seq<char>, ArgumentView)>,
                    Seq<char>,
                >(m@),
            }
        }),
    decreases entries@.len() - i,
{
    proof {
        lemma_json_view_entries(entries@);
    }
    let ghost full = json_view_entries(entries@);
    let ghost tail = full.subrange(i as int, entries@.len() as int);
    if i == entries.len() {
        let model: Vec<(String, Argument)> = Vec::new();
        proof {
            assert(spec_model_view(model@) =~= Seq::<(Seq<char>, ArgumentView)>::empty());
        }
        return Ok(model);
    }
    proof {
        assert(tail[0] == full[i as int]);
        assert(tail.drop_first() =~= full.subrange(i as int + 1, entries@.len() as int));
    }
    let head = match parse_argument_exec(&entries[i].0, &entries[i].1) {
        Ok(a) => a,
        Err(m) => {
            return Err(m);
        },
    };
    let rest = match parse_argument_spec_from(entries, i + 1) {
        Ok(rest) => rest,
        Err(m) => {
            return Err(m);
        },
    };
    let ghost head_view = head@;
    let ghost rest_view = spec_model_view(rest@);
    let mut model: Vec<(String, Argument)> = Vec::new();
    model.push((entries[i].0.clone(), head));
    let mut rest = rest;
    model.append(&mut rest);
    proof {
        assert(spec_model_view(model@) =~= seq![(tail[0].0, head_view)] + rest_view);
    }
    Ok(model)
}

/// The views of a sequence of name pairs.
pub open spec fn str_pairs_view(s: Seq<(String, String)>) -> Seq<(Seq<char>, Seq<char>)> {
    Seq::new(s.len(), |i: int| (s[i].0@, s[i].1@))
}

/// The views of a sequence of conditional-requirement rules.
pub open spec fn required_if_view(s: Seq<(String, JsonValue, Vec<String>, bool)>) -> Seq<
    (Seq<char>, JsonView, Seq<Seq<char>>, bool),
> {
    Seq::new(s.len(), |i: int| (s[i].0@, json_view(s[i].1), string_views(s[i].2@), s[i].3))
}

/// The views of a sequence of dependency-requirement rules.
pub open spec fn required_by_view(s: Seq<(String, Vec<String>)>) -> Seq<
    (Seq<char>, Seq<Seq<char>>),
> {
    Seq::new(s.len(), |i: int| (s[i].0@, string_views(s[i].1@)))
}

/// Whether an exec message option carries exactly the given message.
pub open spec fn msg_opt_matches(r: Option<String>, m: Option<Seq<char>>) -> bool {
    match r {
        None => m is None,
        Some(s) => m == Some(s@),
    }
}

pub open spec fn msg_mutually_exclusive(a: Seq<char>, b: Seq<char>) -> Seq<char> {
    "Arguments '"@ + a + "' and '"@ + b + "' are mutually exclusive"@
}

pub open spec fn msg_required_together(a: Seq<char>, b: Seq<char>) -> Seq<char> {
    "Arguments '"@ + a + "' and '"@ + b + "' are required together"@
}

pub open spec fn msg_required_one_of(a: Seq<char>, b: Seq<char>) -> Seq<char> {
    "At least one of the arguments '"@ + a + "' and '"@ + b + "' must be present"@
}

pub open spec fn msg_required_if_any(k: Seq<char>, v: JsonView) -> Seq<char> {
    "No arguments required by '"@ + k + "'='"@ + json_text(v) + "' are present"@
}

pub open spec fn msg_required_if_all(k: Seq<char>, v: JsonView) -> Seq<char> {
    "Not all arguments required by '"@ + k + "'='"@ + json_text(v) + "' are present"@
}

pub open spec fn msg_required_by(k: Seq<char>, names: Seq<Seq<char>>) -> Seq<char> {
    "Arguments required by '"@ + k + "' '"@ + strings_debug_text(names) + "' are not present"@
}

/// The complaint of the mutual-exclusion phase: the first pair of which the
/// candidate input holds either name.
pub open spec fn mutually_exclusive_failure(
    pairs: Seq<(Seq<char>, Seq<char>)>,
    args: Seq<(Seq<char>, JsonView)>,
) -> Option<Seq<char>>
    decreases pairs.len(),
{
    if pairs.len() == 0 {
        None
    } else if kv_has(args, pairs[0].0) || kv_has(args, pairs[0].1) {
        Some(msg_mutually_exclusive(pairs[0].0, pairs[0].1))
    } else {
        mutually_exclusive_failure(pairs.drop_first(), args)
    }
}

/// The complaint of the co-requirement phase: the first pair of which the
/// candidate input does not hold both names.
pub open spec fn required_together_failure(
    pairs: Seq<(Seq<char>, Seq<char>)>,
    args: Seq<(Seq<char>, JsonView)>,
) -> Option<Seq<char>>
    decreases pairs.len(),
{
    if pairs.len() == 0 {
        None
    } else if !(kv_has(args, pairs[0].0) && kv_has(args, pairs[0].1)) {
        Some(msg_required_together(pairs[0].0, pairs[0].1))
    } else {
        required_together_failure(pairs.drop_first(), args)
    }
}

/// The complaint of the one-of phase: the first pair of which the candidate
/// input holds neither name.
pub open spec fn required_one_of_failure(
    pairs: Seq<(Seq<char>, Seq<char>)>,
    args: Seq<(Seq<char>, JsonView)>,
) -> Option<Seq<char>>
    decreases pairs.len(),
{
    if pairs.len() == 0 {
        None
    } else if !(kv_has(args, pairs[0].0) || kv_has(args, pairs[0].1)) {
        Some(msg_required_one_of(pairs[0].0, pairs[0].1))
    } else {
        required_one_of_failure(pairs.drop_first(), args)
    }
}

pub open spec fn any_present(names: Seq<Seq<char>>, args: Seq<(Seq<char>, JsonView)>) -> bool {
    exists|i: int| 0 <= i < names.len() && kv_has(args, names[i])
}

pub open spec fn all_present(names: Seq<Seq<char>>, args: Seq<(Seq<char>, JsonView)>) -> bool {
    forall|i: int| 0 <= i < names.len() ==> kv_has(args, names[i])
}

/// Whether one conditional-requirement rule is violated: its trigger key is
/// present with exactly the trigger value, and the named arguments are not
/// present as the rule's mode demands.
pub open spec fn required_if_violation(
    rule: (Seq<char>, JsonView, Seq<Seq<char>>, bool),
    args: Seq<(Seq<char>, JsonView)>,
) -> bool {
    match kv_lookup(args, rule.0) {
        Some(v) => v == rule.1 && (if rule.3 {
            !any_present(rule.2, args)
        } else {
            !all_present(rule.2, args)
        }),
        None => false,
    }
}

/// The complaint of the conditional-requirement phase: the first violated
/// rule.
pub open spec fn required_if_failure(
    rules: Seq<(Seq<char>, JsonView, Seq<Seq<char>>, bool)>,
    args: Seq<(Seq<char>, JsonView)>,
) -> Option<Seq<char>>
    decreases rules.len(),
{
    if rules.len() == 0 {
        None
    } else if required_if_violation(rules[0], args) {
        Some(
            if rules[0].3 {
                msg_required_if_any(rules[0].0, rules[0].1)
            } else {
                msg_required_if_all(rules[0].0, rules[0].1)
            },
        )
    } else {
        required_if_failure(rules.drop_first(), args)
    }
}

/// Whether one dependency-requirement rule is violated: its key is declared
/// in the spec model and some named dependent is missing from the candidate
/// input.
pub open spec fn required_by_violation(
    rule: (Seq<char>, Seq<Seq<char>>),
    model: Seq<(Seq<char>, ArgumentView)>,
    args: Seq<(Seq<char>, JsonView)>,
) -> bool {
    kv_has(model, rule.0) && !all_present(rule.1, args)
}

/// The complaint of the dependency-requirement phase: the first violated
/// rule.
pub open spec fn required_by_failure(
    rules: Seq<(Seq<char>, Seq<Seq<char>>)>,
    model: Seq<(Seq<char>, ArgumentView)>,
    args: Seq<(Seq<char>, JsonView)>,
) -> Option<Seq<char>>
    decreases rules.len(),
{
    if rules.len() == 0 {
        None
    } else if required_by_violation(rules[0], model, args) {
        Some(msg_required_by(rules[0].0, rules[0].1))
    } else {
        required_by_failure(rules.drop_first(), model, args)
    }
}

fn pair_msg(a: &String, mid_is_together: bool, b: &String) -> (m: String)
    ensures
        mid_is_together ==> m@ == msg_required_together(a@, b@),
        !mid_is_together ==> m@ == msg_mutually_exclusive(a@, b@),
{
    let mut m = String::from_str("Arguments '");
    m.append(a.as_str());
    m.append("' and '");
    m.append(b.as_str());
    if mid_is_together {
        m.append("' are required together");
    } else {
        m.append("' are mutually exclusive");
    }
    m
}

/// The mutual-exclusion check, as [`mutually_exclusive_failure`] says.
#[verifier::loop_isolation(false)]
fn check_mutually_exclusive(pairs: &Vec<(String, String)>, args: &Vec<(String, JsonValue)>) -> (r:
    Option<String>)
    ensures
        msg_opt_matches(r, mutually_exclusive_failure(str_pairs_view(pairs@), json_view_entries(args@))),
{
    let ghost pv = str_pairs_view(pairs@);
    let ghost av = json_view_entries(args@);
    proof {
        assert(pv.subrange(0, pv.len() as int) =~= pv);
    }
    let mut i: usize = 0;
    while i < pairs.len()
        invariant
            i <= pairs@.len(),
            mutually_exclusive_failure(pv, av) == mutually_exclusive_failure(
                pv.subrange(i as int, pv.len() as int),
                av,
            ),
        decreases pairs@.len() - i,
    {
        proof {
            assert(pv.subrange(i as int, pv.len() as int).drop_first() =~= pv.subrange(
                i as int + 1,
                pv.len() as int,
            ));
        }
        let a_in = entries_contain_key(args, &pairs[i].0);
        let b_in = entries_contain_key(args, &pairs[i].1);
        if a_in || b_in {
            return Some(pair_msg(&pairs[i].0, false, &pairs[i].1));
        }
        i += 1;
    }
    None
}

/// The co-requirement check, as [`required_together_failure`] says.
#[verifier::loop_isolation(false)]
fn check_required_together(pairs: &Vec<(String, String)>, args: &Vec<(String, JsonValue)>) -> (r:
    Option<String>)
    ensures
        msg_opt_matches(r, required_together_failure(str_pairs_view(pairs@), json_view_entries(args@))),
{
    let ghost pv = str_pairs_view(pairs@);
    let ghost av = json_view_entries(args@);
    proof {
        assert(pv.subrange(0, pv.len() as int) =~= pv);
    }
    let mut i: usize = 0;
    while i < pairs.len()
        invariant
            i <= pairs@.len(),
            required_together_failure(pv, av) == required_together_failure(
                pv.subrange(i as int, pv.len() as int),
                av,
            ),
        decreases pairs@.len() - i,
    {
        proof {
            assert(pv.subrange(i as int, pv.len() as int).drop_first() =~= pv.subrange(
                i as int + 1,
                pv.len() as int,
            ));
        }
        let a_in = entries_contain_key(args, &pairs[i].0);
        let b_in = entries_contain_key(args, &pairs[i].1);
        if !(a_in && b_in) {
            return Some(pair_msg(&pairs[i].0, true, &pairs[i].1));
        }
        i += 1;
    }
    None
}

/// The one-of check, as [`required_one_of_failure`] says.
#[verifier::loop_isolation(false)]
fn check_required_one_of(pairs: &Vec<(String, String)>, args: &Vec<(String, JsonValue)>) -> (r:
    Option<String>)
    ensures
        msg_opt_matches(r, required_one_of_failure(str_pairs_view(pairs@), json_view_entries(args@))),
{
    let ghost pv = str_pairs_view(pairs@);
    let ghost av = json_view_entries(args@);
    proof {
        assert(pv.subrange(0, pv.len() as int) =~= pv);
    }
    let mut i: usize = 0;
    while i < pairs.len()
        invariant
            i <= pairs@.len(),
            required_one_of_failure(pv, av) == required_one_of_failure(
                pv.subrange(i as int, pv.len() as int),
                av,
            ),
        decreases pairs@.len() - i,
    {
        proof {
            assert(pv.subrange(i as int, pv.len() as int).drop_first() =~= pv.subrange(
                i as int + 1,
                pv.len() as int,
            ));
        }
        let a_in = entries_contain_key(args, &pairs[i].0);
        let b_in = entries_contain_key(args, &pairs[i].1);
        if !(a_in || b_in) {
            let mut m = String::from_str("At least one of the arguments '");
            m.append(pairs[i].0.as_str());
            m.append("' and '");
            m.append(pairs[i].1.as_str());
            m.append("' must be present");
            return Some(m);
        }
        i += 1;
    }
    None
}

#[verifier::loop_isolation(false)]
fn any_name_present(names: &Vec<String>, args: &Vec<(String, JsonValue)>) -> (r: bool)
    ensures
        r == any_present(string_views(names@), json_view_entries(args@)),
{
    let mut i: usize = 0;
    while i < names.len()
        invariant
            i <= names@.len(),
            forall|j: int| 0 <= j < i as int ==> !kv_has(
                json_view_entries(args@),
                string_views(names@)[j],
            ),
        decreases names@.len() - i,
    {
        if entries_contain_key(args, &names[i]) {
            proof {
                assert(string_views(names@)[i as int] == names@[i as int]@);
            }
            return true;
        }
        i += 1;
    }
    false
}

#[verifier::loop_isolation(false)]
fn all_names_present(names: &Vec<String>, args: &Vec<(String, JsonValue)>) -> (r: bool)
    ensures
        r == all_present(string_views(names@), json_view_entries(args@)),
{
    let mut i: usize = 0;
    while i < names.len()
        invariant
            i <= names@.len(),
            forall|j: int| 0 <= j < i as int ==> kv_has(
                json_view_entries(args@),
                string_views(names@)[j],
            ),
        decreases names@.len() - i,
    {
        if !entries_contain_key(args, &names[i]) {
            proof {
                assert(string_views(names@)[i as int] == names@[i as int]@);
            }
            return false;
        }
        i += 1;
    }
    true
}

fn required_if_msg(k: &String, v: &JsonValue, any: bool) -> (m: String)
    ensures
        any ==> m@ == msg_required_if_any(k@, v@),
        !any ==> m@ == msg_required_if_all(k@, v@),
{
    let mut m = if any {
        String::from_str("No arguments required by '")
    } else {
        String::from_str("Not all arguments required by '")
    };
    m.append(k.as_str());
    m.append("'='");
    push_json(&mut m, v);
    m.append("' are present");
    m
}

/// The conditional-requirement check, as [`required_if_failure`] says.
#[verifier::loop_isolation(false)]
fn check_required_if(
    rules: &Vec<(String, JsonValue, Vec<String>, bool)>,
    args: &Vec<(String, JsonValue)>,
) -> (r: Option<String>)
    ensures
        msg_opt_matches(r, required_if_failure(required_if_view(rules@), json_view_entries(args@))),
{
    let ghost rv = required_if_view(rules@);
    let ghost av = json_view_entries(args@);
    proof {
        assert(rv.subrange(0, rv.len() as int) =~= rv);
    }
    let mut i: usize = 0;
    while i < rules.len()
        invariant
            i <= rules@.len(),
            required_if_failure(rv, av) == required_if_failure(
                rv.subrange(i as int, rv.len() as int),
                av,
            ),
        decreases rules@.len() - i,
    {
        proof {
            assert(rv.subrange(i as int, rv.len() as int).drop_first() =~= rv.subrange(
                i as int + 1,
                rv.len() as int,
            ));
        }
        let violated: bool = match entries_get(args, &rules[i].0) {
            Some(v) => {
                if json_eq(v, &rules[i].1) {
                    if rules[i].3 {
                        !any_name_present(&rules[i].2, args)
                    } else {
                        !all_names_present(&rules[i].2, args)
                    }
                } else {
                    false
                }
            },
            None => false,
        };
        if violated {
            return Some(required_if_msg(&rules[i].0, &rules[i].1, rules[i].3));
        }
        i += 1;
    }
    None
}

/// Whether the spec model declares an argument named `key`.
#[verifier::loop_isolation(false)]
fn model_contains_key(model: &Vec<(String, Argument)>, key: &String) -> (r: bool)
    ensures
        r == kv_has(spec_model_view(model@), key@),
{
    let mut i: usize = 0;
    while i < model.len()
        invariant
            i <= model@.len(),
            forall|j: int| 0 <= j < i as int ==> model@[j].0@ != key@,
        decreases model@.len() - i,
    {
        if model[i].0 == *key {
            proof {
                assert(spec_model_view(model@)[i as int].0 == key@);
            }
            return true;
        }
        i += 1;
    }
    proof {
        assert(forall|j: int|
            0 <= j < model@.len() ==> spec_model_view(model@)[j].0 == model@[j].0@);
    }
    false
}

/// The dependency-requirement check, as [`required_by_failure`] says.
#[verifier::loop_isolation(false)]
fn check_required_by(
    rules: &Vec<(String, Vec<String>)>,
    model: &Vec<(String, Argument)>,
    args: &Vec<(String, JsonValue)>,
) -> (r: Option<String>)
    ensures
        msg_opt_matches(
            r,
            required_by_failure(
                required_by_view(rules@),
                spec_model_view(model@),
                json_view_entries(args@),
            ),
        ),
{
    let ghost rv = required_by_view(rules@);
    let ghost mv = spec_model_view(model@);
    let ghost av = json_view_entries(args@);
    proof {
        assert(rv.subrange(0, rv.len() as int) =~= rv);
    }
    let mut i: usize = 0;
    while i < rules.len()
        invariant
            i <= rules@.len(),
            required_by_failure(rv, mv, av) == required_by_failure(
                rv.subrange(i as int, rv.len() as int),
                mv,
                av,
            ),
        decreases rules@.len() - i,
    {
        proof {
            assert(rv.subrange(i as int, rv.len() as int).drop_first() =~= rv.subrange(
                i as int + 1,
                rv.len() as int,
            ));
        }
        if model_contains_key(model, &rules[i].0) && !all_names_present(&rules[i].1, args) {
            let mut m = String::from_str("Arguments required by '");
            m.append(rules[i].0.as_str());
            m.append("' '");
            let listing = render_string_list(&rules[i].1);
            m.append(listing.as_str());
            m.append("' are not present");
            return Some(m);
        }
        i += 1;
    }
    None
}

pub open spec fn msg_choices(name: Seq<char>, choices: Seq<JsonView>) -> Seq<char> {
    "Argument '"@ + name + "' can only have '"@ + (seq!['['] + debug_json_items(choices)
        + seq![']']) + "' values"@
}

pub open spec fn msg_missing(names: Seq<Seq<char>>) -> Seq<char> {
    "missing required arguments: "@ + strings_debug_text(names)
}

pub open spec fn msg_type_fail(name: Seq<char>, t: ArgumentType, v: JsonView) -> Seq<char> {
    seq!['\''] + name + "' expected to be of type '"@ + type_name_text(t) + "', but got "@
        + json_text(v)
}

pub open spec fn msg_unknown(names: Seq<Seq<char>>) -> Seq<char> {
    "Unknown arguments for module found: '"@ + strings_debug_text(names) + seq!['\'']
}

pub open spec fn msg_internal_wrap(input: JsonView, detail: Seq<char>) -> Seq<char> {
    "Could not parse internal arguments from "@ + json_text(input) + ": "@ + detail
}

/// Whether a value deep-equals some entry of a list.
pub open spec fn seq_contains_value(cs: Seq<JsonView>, v: JsonView) -> bool {
    exists|i: int| 0 <= i < cs.len() && cs[i] == v
}

#[verifier::loop_isolation(false)]
fn choices_contain(cs: &Vec<JsonValue>, v: &JsonValue) -> (r: bool)
    ensures
        r == seq_contains_value(json_view_seq(cs@), v@),
{
    proof {
        lemma_json_view_seq(cs@);
    }
    let mut i: usize = 0;
    while i < cs.len()
        invariant
            i <= cs@.len(),
            forall|j: int| 0 <= j < i as int ==> json_view_seq(cs@)[j] != v@,
        decreases cs@.len() - i,
    {
        if json_eq(&cs[i], v) {
            proof {
                assert(json_view_seq(cs@)[i as int] == v@);
            }
            return true;
        }
        i += 1;
    }
    false
}

/// The first environment entry named `var`, if any.
#[verifier::loop_isolation(false)]
fn env_get<'a>(env: &'a Vec<(String, String)>, var: &String) -> (r: Option<&'a String>)
    ensures
        match r {
            Some(v) => kv_lookup(str_pairs_view(env@), var@) == Some(v@),
            None => kv_lookup(str_pairs_view(env@), var@) is None,
        },
{
    let ghost ev = str_pairs_view(env@);
    proof {
        assert(ev.subrange(0, ev.len() as int) =~= ev);
    }
    let mut i: usize = 0;
    while i < env.len()
        invariant
            i <= env@.len(),
            kv_lookup(ev, var@) == kv_lookup(ev.subrange(i as int, ev.len() as int), var@),
        decreases env@.len() - i,
    {
        proof {
            assert(ev.subrange(i as int, ev.len() as int).drop_first() =~= ev.subrange(
                i as int + 1,
                ev.len() as int,
            ));
        }
        if env[i].0 == *var {
            return Some(&env[i].1);
        }
        i += 1;
    }
    None
}

/// The first spec-model entry named `key`, if any.
#[verifier::loop_isolation(false)]
fn model_get<'a>(model: &'a Vec<(String, Argument)>, key: &String) -> (r: Option<&'a Argument>)
    ensures
        match r {
            Some(a) => kv_lookup(spec_model_view(model@), key@) == Some(a@),
            None => kv_lookup(spec_model_view(model@), key@) is None,
        },
{
    let ghost mv = spec_model_view(model@);
    proof {
        assert(mv.subrange(0, mv.len() as int) =~= mv);
    }
    let mut i: usize = 0;
    while i < model.len()
        invariant
            i <= model@.len(),
            kv_lookup(mv, key@) == kv_lookup(mv.subrange(i as int, mv.len() as int), key@),
        decreases model@.len() - i,
    {
        proof {
            assert(mv.subrange(i as int, mv.len() as int).drop_first() =~= mv.subrange(
                i as int + 1,
                mv.len() as int,
            ));
        }
        if model[i].0 == *key {
            return Some(&model[i].1);
        }
        i += 1;
    }
    None
}

/// Whether the normalized parameters hold the key `key`.
#[verifier::loop_isolation(false)]
fn params_contain_key(params: &Vec<(String, ArgumentValue)>, key: &String) -> (r: bool)
    ensures
        r == kv_has(params_view(params@), key@),
{
    let mut i: usize = 0;
    while i < params.len()
        invariant
            i <= params@.len(),
            forall|j: int| 0 <= j < i as int ==> params@[j].0@ != key@,
        decreases params@.len() - i,
    {
        if params[i].0 == *key {
            proof {
                assert(params_view(params@)[i as int].0 == key@);
            }
            return true;
        }
        i += 1;
    }
    proof {
        assert(forall|j: int|
            0 <= j < params@.len() ==> params_view(params@)[j].0 == params@[j].0@);
    }
    false
}

/// What reconciling one declared argument against the input and the
/// environment produces: a stored parameter and/or a missing-required mark,
/// or a complaint.
///
/// A required argument that the input lacks is resolved from its fallback
/// environment variable when one is declared and set, storing the variable's
/// text.  With the variable unset, or with no fallback declared, the argument
/// is marked missing.  A supplied value must deep-equal one of the declared
/// choices, when the argument has any.  An argument that is neither supplied
/// nor resolved stores its default, when one is declared.
pub open spec fn reconcile_one(
    name: Seq<char>,
    a: ArgumentView,
    args: Seq<(Seq<char>, JsonView)>,
    env: Seq<(Seq<char>, Seq<char>)>,
) -> Result<(Option<ArgumentValueView>, bool), Seq<char>> {
    if a.required && !kv_has(args, name) {
        match a.fallback {
            Some(var) => match kv_lookup(env, var) {
                Some(val) => Ok(
                    (Some(ArgumentValueView { value: JsonView::Str(val), no_log: a.no_log }), false),
                ),
                None => match a.default {
                    Some(d) => Ok((Some(ArgumentValueView { value: d, no_log: a.no_log }), true)),
                    None => Ok((None, true)),
                },
            },
            None => match a.default {
                Some(d) => Ok((Some(ArgumentValueView { value: d, no_log: a.no_log }), true)),
                None => Ok((None, true)),
            },
        }
    } else {
        match kv_lookup(args, name) {
            Some(v) => match a.choices {
                Some(cs) => if seq_contains_value(cs, v) {
                    Ok((Some(ArgumentValueView { value: v, no_log: a.no_log }), false))
                } else {
                    Err(msg_choices(name, cs))
                },
                None => Ok((Some(ArgumentValueView { value: v, no_log: a.no_log }), false)),
            },
            None => match a.default {
                Some(d) => Ok((Some(ArgumentValueView { value: d, no_log: a.no_log }), false)),
                None => Ok((None, false)),
            },
        }
    }
}

/// What reconciling the whole spec model produces: the stored parameters and
/// the missing-required names, both in spec order, or the first complaint.
#[verifier::ext_equal]
pub struct ReconcileView {
    pub params: Seq<(Seq<char>, ArgumentValueView)>,
    pub missing: Seq<Seq<char>>,
}

pub open spec fn reconcile(
    model: Seq<(Seq<char>, ArgumentView)>,
    args: Seq<(Seq<char>, JsonView)>,
    env: Seq<(Seq<char>, Seq<char>)>,
) -> Result<ReconcileView, Seq<char>>
    decreases model.len(),
{
    if model.len() == 0 {
        Ok(ReconcileView { params: Seq::empty(), missing: Seq::empty() })
    } else {
        match reconcile_one(model[0].0, model[0].1, args, env) {
            Err(m) => Err(m),
            Ok(head) => match reconcile(model.drop_first(), args, env) {
                Err(m) => Err(m),
                Ok(rest) => Ok(
                    ReconcileView {
                        params: match head.0 {
                            Some(p) => seq![(model[0].0, p)] + rest.params,
                            None => rest.params,
                        },
                        missing: if head.1 {
                            seq![model[0].0] + rest.missing
                        } else {
                            rest.missing
                        },
                    },
                ),
            },
        }
    }
}

fn choices_msg(name: &String, choices: &Vec<JsonValue>) -> (m: String)
    ensures
        m@ == msg_choices(name@, json_view_seq(choices@)),
{
    let mut m = String::from_str("Argument '");
    m.append(name.as_str());
    m.append("' can only have '");
    let listing = render_json_list_debug(choices);
    m.append(listing.as_str());
    m.append("' values");
    m
}

fn reconcile_one_exec(name: &String, a: &Argument, args: &Vec<(String, JsonValue)>, env: &Vec<
    (String, String),
>) -> (r: Result<(Option<ArgumentValue>, bool), String>)
    ensures
        ({
            let spec_r = reconcile_one(name@, a@, json_view_entries(args@), str_pairs_view(env@));
            match r {
                Ok((stored, miss)) => spec_r matches Ok(sr) && sr.1 == miss && (match stored {
                    Some(p) => sr.0 == Some(p@),
                    None => sr.0 is None,
                }),
                Err(m) => spec_r == Err::<(Option<ArgumentValueView>, bool), Seq<char>>(m@),
            }
        }),
{
    if a.required && !entries_contain_key(args, name) {
        match &a.fallback {
            Some(var) => match env_get(env, var) {
                Some(val) => Ok(
                    (
                        Some(ArgumentValue { value: JsonValue::Str(val.clone()), no_log: a.no_log }),
                        false,
                    ),
                ),
                None => match &a.default {
                    Some(d) => Ok(
                        (Some(ArgumentValue { value: d.clone(), no_log: a.no_log }), true),
                    ),
                    None => Ok((None, true)),
                },
            },
            None => match &a.default {
                Some(d) => Ok((Some(ArgumentValue { value: d.clone(), no_log: a.no_log }), true)),
                None => Ok((None, true)),
            },
        }
    } else {
        match entries_get(args, name) {
            Some(v) => match &a.choices {
                Some(cs) => {
                    if choices_contain(cs, v) {
                        Ok((Some(ArgumentValue { value: v.clone(), no_log: a.no_log }), false))
                    } else {
                        Err(choices_msg(name, cs))
                    }
                },
                None => Ok((Some(ArgumentValue { value: v.clone(), no_log: a.no_log }), false)),
            },
            None => match &a.default {
                Some(d) => Ok((Some(ArgumentValue { value: d.clone(), no_log: a.no_log }), false)),
                None => Ok((None, false)),
            },
        }
    }
}

/// Reconciliation of the whole spec model, as [`reconcile`] says.
fn reconcile_args(model: &Vec<(String, Argument)>, args: &Vec<(String, JsonValue)>, env: &Vec<
    (String, String),
>) -> (r: Result<(Vec<(String, ArgumentValue)>, Vec<String>), String>)
    ensures
        ({
            let spec_r = reconcile(
                spec_model_view(model@),
                json_view_entries(args@),
                str_pairs_view(env@),
            );
            match r {
                Ok((params, missing)) => spec_r == Ok::<ReconcileView, Seq<char>>(
                    ReconcileView {
                        params: params_view(params@),
                        missing: string_views(missing@),
                    },
                ),
                Err(m) => spec_r == Err::<ReconcileView, Seq<char>>(m@),
            }
        }),
{
    proof {
        assert(spec_model_view(model@).subrange(0, model@.len() as int) =~= spec_model_view(
            model@,
        ));
    }
    reconcile_args_from(model, args, env, 0)
}

#[verifier::loop_isolation(false)]
fn reconcile_args_from(
    model: &Vec<(String, Argument)>,
    args: &Vec<(String, JsonValue)>,
    env: &Vec<(String, String)>,
    i: usize,
) -> (r: Result<(Vec<(String, ArgumentValue)>, Vec<String>), String>)
    requires
        i <= model@.len(),
    ensures
        ({
            let tail = spec_model_view(model@).subrange(i as int, model@.len() as int);
            let spec_r = reconcile(tail, json_view_entries(args@), str_pairs_view(env@));
            match r {
                Ok((params, missing)) => spec_r == Ok::<ReconcileView, Seq<char>>(
                    ReconcileView {
                        params: params_view(params@),
                        missing: string_views(missing@),
                    },
                ),
                Err(m) => spec_r == Err::<ReconcileView, Seq<char>>(m@),
            }
        }),
    decreases model@.len() - i,
{
    let ghost full = spec_model_view(model@);
    let ghost tail = full.subrange(i as int, model@.len() as int);
    if i == model.len() {
        let params: Vec<(String, ArgumentValue)> = Vec::new();
        let missing: Vec<String> = Vec::new();
        proof {
            assert(params_view(params@) =~= Seq::<(Seq<char>, ArgumentValueView)>::empty());
            assert(string_views(missing@) =~= Seq::<Seq<char>>::empty());
        }
        return Ok((params, missing));
    }
    proof {
        assert(tail[0] == full[i as int]);
        assert(tail.drop_first() =~= full.subrange(i as int + 1, model@.len() as int));
    }
    let head = match reconcile_one_exec(&model[i].0, &model[i].1, args, env) {
        Ok(h) => h,
        Err(m) => {
            return Err(m);
        },
    };
    let (rest_params, rest_missing) = match reconcile_args_from(model, args, env, i + 1) {
        Ok(rest) => rest,
        Err(m) => {
            return Err(m);
        },
    };
    let ghost rest_params_view = params_view(rest_params@);
    let ghost rest_missing_view = string_views(rest_missing@);
    let mut params: Vec<(String, ArgumentValue)> = Vec::new();
    let mut missing: Vec<String> = Vec::new();
    match head.0 {
        Some(p) => {
            let ghost pv = p@;
            params.push((model[i].0.clone(), p));
            proof {
                assert(params_view(params@) =~= seq![(tail[0].0, pv)]);
            }
        },
        None => {
            proof {
                assert(params_view(params@) =~= Seq::<(Seq<char>, ArgumentValueView)>::empty());
            }
        },
    }
    if head.1 {
        missing.push(model[i].0.clone());
        proof {
            assert(string_views(missing@) =~= seq![tail[0].0]);
        }
    } else {
        proof {
            assert(string_views(missing@) =~= Seq::<Seq<char>>::empty());
        }
    }
    let ghost head_params_view = params_view(params@);
    let ghost head_missing_view = string_views(missing@);
    let mut rest_params = rest_params;
    let mut rest_missing = rest_missing;
    params.append(&mut rest_params);
    missing.append(&mut rest_missing);
    proof {
        assert(params_view(params@) =~= head_params_view + rest_params_view);
        assert(string_views(missing@) =~= head_missing_view + rest_missing_view);
        if head_params_view.len() == 0 {
            assert(params_view(params@) =~= rest_params_view);
        }
        if head_missing_view.len() == 0 {
            assert(string_views(missing@) =~= rest_missing_view);
        }
    }
    Ok((params, missing))
}

/// The complaint of the type-check phase: the first stored parameter whose
/// value does not match its declared type.
pub open spec fn type_check_failure(
    model: Seq<(Seq<char>, ArgumentView)>,
    params: Seq<(Seq<char>, ArgumentValueView)>,
) -> Option<Seq<char>>
    decreases params.len(),
{
    if params.len() == 0 {
        None
    } else {
        match kv_lookup(model, params[0].0) {
            Some(a) => if !type_matches(a.value_type, params[0].1.value) {
                Some(msg_type_fail(params[0].0, a.value_type, params[0].1.value))
            } else {
                type_check_failure(model, params.drop_first())
            },
            None => type_check_failure(model, params.drop_first()),
        }
    }
}

fn type_fail_msg(name: &String, t: &ArgumentType, v: &JsonValue) -> (m: String)
    ensures
        m@ == msg_type_fail(name@, *t, v@),
{
    let mut m = String::from_str("'");
    m.append(name.as_str());
    m.append("' expected to be of type '");
    t.push_name(&mut m);
    m.append("', but got ");
    push_json(&mut m, v);
    proof {
        reveal_strlit("'");
        assert(m@ =~= msg_type_fail(name@, *t, v@));
    }
    m
}

/// The type check of the stored parameters, as [`type_check_failure`] says.
#[verifier::loop_isolation(false)]
fn check_types(model: &Vec<(String, Argument)>, params: &Vec<(String, ArgumentValue)>) -> (r:
    Option<String>)
    ensures
        msg_opt_matches(r, type_check_failure(spec_model_view(model@), params_view(params@))),
{
    let ghost mv = spec_model_view(model@);
    let ghost pv = params_view(params@);
    proof {
        assert(pv.subrange(0, pv.len() as int) =~= pv);
    }
    let mut i: usize = 0;
    while i < params.len()
        invariant
            i <= params@.len(),
            type_check_failure(mv, pv) == type_check_failure(
                mv,
                pv.subrange(i as int, pv.len() as int),
            ),
        decreases params@.len() - i,
    {
        proof {
            assert(pv.subrange(i as int, pv.len() as int).drop_first() =~= pv.subrange(
                i as int + 1,
                pv.len() as int,
            ));
        }
        match model_get(model, &params[i].0) {
            Some(a) => {
                if !a.value_type.check_type_correct(&params[i].1.value) {
                    return Some(type_fail_msg(&params[i].0, &a.value_type, &params[i].1.value));
                }
            },
            None => {},
        }
        i += 1;
    }
    None
}

/// The candidate keys that validation did not store: unknown to the spec.
pub open spec fn unknown_keys(
    args: Seq<(Seq<char>, JsonView)>,
    params: Seq<(Seq<char>, ArgumentValueView)>,
) -> Seq<Seq<char>>
    decreases args.len(),
{
    if args.len() == 0 {
        Seq::empty()
    } else {
        let front = unknown_keys(args.drop_last(), params);
        if kv_has(params, args.last().0) {
            front
        } else {
            front.push(args.last().0)
        }
    }
}

/// The unknown candidate keys, as [`unknown_keys`] says.
#[verifier::loop_isolation(false)]
fn collect_unknown(args: &Vec<(String, JsonValue)>, params: &Vec<(String, ArgumentValue)>) -> (r:
    Vec<String>)
    ensures
        string_views(r@) == unknown_keys(json_view_entries(args@), params_view(params@)),
{
    proof {
        lemma_json_view_entries(args@);
    }
    let ghost av = json_view_entries(args@);
    let ghost pv = params_view(params@);
    let mut out: Vec<String> = Vec::new();
    let mut i: usize = 0;
    while i < args.len()
        invariant
            i <= args@.len(),
            string_views(out@) == unknown_keys(av.subrange(0, i as int), pv),
        decreases args@.len() - i,
    {
        let ghost pre = out@;
        if !params_contain_key(params, &args[i].0) {
            out.push(args[i].0.clone());
            proof {
                assert(string_views(out@) =~= string_views(pre).push(args@[i as int].0@));
            }
        }
        proof {
            let cur = av.subrange(0, i as int + 1);
            assert(cur.drop_last() =~= av.subrange(0, i as int));
            assert(cur.last() == av[i as int]);
        }
        i += 1;
    }
    proof {
        assert(av.subrange(0, av.len() as int) =~= av);
    }
    out
}

fn parse_type_name_exec(s: &str) -> (r: Option<ArgumentType>)
    ensures
        r == parse_type_name(s@),
{
    let l = ascii_lower_string(s);
    if l == String::from_str("bool") {
        Some(ArgumentType::Bool)
    } else if l == String::from_str("str") {
        Some(ArgumentType::Str)
    } else if l == String::from_str("float") {
        Some(ArgumentType::Float)
    } else if l == String::from_str("int") {
        Some(ArgumentType::Int)
    } else if l == String::from_str("uint") {
        Some(ArgumentType::Uint)
    } else if l == String::from_str("list") {
        Some(ArgumentType::List)
    } else if l == String::from_str("dict") {
        Some(ArgumentType::Dict)
    } else {
        None
    }
}

/// Pairs of argument names of which the input may contain neither.
pub type MutuallyExclusive = Vec<(String, String)>;

/// Pairs of argument names of which the input must contain both.
pub type RequiredTogether = MutuallyExclusive;

/// Pairs of argument names of which the input must contain at least one.
pub type RequiredOneOf = MutuallyExclusive;

/// Rules `(key, trigger value, required names, any)`: when the input carries
/// `key` with exactly the trigger value, the named arguments must be present
/// — any of them when `any` holds, all of them otherwise.
pub type RequiredIf = Vec<(String, JsonValue, Vec<String>, bool)>;

/// Rules `(key, required names)`: when the spec declares `key`, the named
/// arguments must be present in the input.
pub type RequiredBy = Vec<(String, Vec<String>)>;

/// Builds an [`AnsibleModule`] by validating a raw input document against an
/// argument spec, optional constraint groups, and an environment snapshot for
/// fallbacks.
#[derive(Debug)]
pub struct AnsibleModuleBuilder {
    /// The declarative argument spec, a JSON object keyed by argument name.
    pub argument_spec: JsonValue,
    /// The raw input document, a JSON object.
    pub input: JsonValue,
    /// The environment snapshot consulted for fallbacks.
    pub environment: Vec<(String, String)>,
    pub mutually_exclusive: Option<MutuallyExclusive>,
    pub required_together: Option<RequiredTogether>,
    pub required_one_of: Option<RequiredOneOf>,
    pub required_if: Option<RequiredIf>,
    pub required_by: Option<RequiredBy>,
}

/// The mathematical shape of an [`AnsibleModuleBuilder`].
#[verifier::ext_equal]
pub struct BuilderView {
    pub argument_spec: JsonView,
    pub input: JsonView,
    pub environment: Seq<(Seq<char>, Seq<char>)>,
    pub mutually_exclusive: Option<Seq<(Seq<char>, Seq<char>)>>,
    pub required_together: Option<Seq<(Seq<char>, Seq<char>)>>,
    pub required_one_of: Option<Seq<(Seq<char>, Seq<char>)>>,
    pub required_if: Option<Seq<(Seq<char>, JsonView, Seq<Seq<char>>, bool)>>,
    pub required_by: Option<Seq<(Seq<char>, Seq<Seq<char>>)>>,
}

impl View for AnsibleModuleBuilder {
    type V = BuilderView;

    open spec fn view(&self) -> BuilderView {
        BuilderView {
            argument_spec: json_view(self.argument_spec),
            input: json_view(self.input),
            environment: str_pairs_view(self.environment@),
            mutually_exclusive: match self.mutually_exclusive {
                Some(v) => Some(str_pairs_view(v@)),
                None => None,
            },
            required_together: match self.required_together {
                Some(v) => Some(str_pairs_view(v@)),
                None => None,
            },
            required_one_of: match self.required_one_of {
                Some(v) => Some(str_pairs_view(v@)),
                None => None,
            },
            required_if: match self.required_if {
                Some(v) => Some(required_if_view(v@)),
                None => None,
            },
            required_by: match self.required_by {
                Some(v) => Some(required_by_view(v@)),
                None => None,
            },
        }
    }
}

/// The complaint of the five constraint-group phases, tried in their fixed
/// order: mutual exclusion, co-requirement, one-of, conditional requirement,
/// dependency requirement.  An undeclared group checks nothing.
pub open spec fn constraints_failure(
    b: BuilderView,
    model: Seq<(Seq<char>, ArgumentView)>,
    args: Seq<(Seq<char>, JsonView)>,
) -> Option<Seq<char>> {
    let me = match b.mutually_exclusive {
        Some(p) => mutually_exclusive_failure(p, args),
        None => None,
    };
    let rt = match b.required_together {
        Some(p) => required_together_failure(p, args),
        None => None,
    };
    let roo = match b.required_one_of {
        Some(p) => required_one_of_failure(p, args),
        None => None,
    };
    let rif = match b.required_if {
        Some(r) => required_if_failure(r, args),
        None => None,
    };
    let rby = match b.required_by {
        Some(r) => required_by_failure(r, model, args),
        None => None,
    };
    if me is Some {
        me
    } else if rt is Some {
        rt
    } else if roo is Some {
        roo
    } else if rif is Some {
        rif
    } else {
        rby
    }
}

/// What validation answers for a builder: the validated module, or the first
/// failure in the fixed order of the engine.
///
/// The input and the spec must be JSON objects.  The spec model is parsed;
/// the candidate bucket (the input entries without the reserved underscore
/// prefix) is checked against the constraint groups; each declared argument
/// is reconciled against the bucket, the environment and its default; the
/// missing required names are reported together; every stored value must
/// match its declared type; every candidate key must have been stored; and
/// the reserved input fields must parse as internal metadata.
pub open spec fn validation_outcome(b: BuilderView) -> Result<AnsibleModuleView, Seq<char>> {
    match b.input {
        JsonView::Dict(input_entries) => {
            let args = candidates(input_entries);
            match b.argument_spec {
                JsonView::Dict(spec_entries) => match parse_spec_entries(spec_entries) {
                    Err(m) => Err(m),
                    Ok(model) => match constraints_failure(b, model, args) {
                        Some(m) => Err(m),
                        None => match reconcile(model, args, b.environment) {
                            Err(m) => Err(m),
                            Ok(rec) => if rec.missing.len() > 0 {
                                Err(msg_missing(rec.missing))
                            } else {
                                match type_check_failure(model, rec.params) {
                                    Some(m) => Err(m),
                                    None => if unknown_keys(args, rec.params).len() > 0 {
                                        Err(msg_unknown(unknown_keys(args, rec.params)))
                                    } else {
                                        match crate::ansible_module::parse_internal(input_entries) {
                                            Err(d) => Err(msg_internal_wrap(b.input, d)),
                                            Ok(ia) => Ok(
                                                AnsibleModuleView { params: rec.params, internal_params: ia },
                                            ),
                                        }
                                    },
                                }
                            },
                        },
                    },
                },
                _ => Err(msg_spec_not_object()),
            }
        },
        _ => Err(msg_input_not_object()),
    }
}

/// The spec model a builder's argument spec parses into, where it does.
pub open spec fn builder_model(b: BuilderView) -> Seq<(Seq<char>, ArgumentView)> {
    parse_spec_entries(b.argument_spec->Dict_0)->Ok_0
}

/// The candidate bucket of a builder's input, where the input is an object.
pub open spec fn builder_args(b: BuilderView) -> Seq<(Seq<char>, JsonView)> {
    candidates(b.input->Dict_0)
}

impl AnsibleModuleBuilder {
    /// A builder for the given argument spec and raw input document, with no
    /// constraint groups and an empty environment.
    pub fn new(argument_spec: JsonValue, input: JsonValue) -> (r: Self)
        ensures
            r@ == (BuilderView {
                argument_spec: argument_spec@,
                input: input@,
                environment: Seq::<(Seq<char>, Seq<char>)>::empty(),
                mutually_exclusive: None,
                required_together: None,
                required_one_of: None,
                required_if: None,
                required_by: None,
            }),
    {
        let r = AnsibleModuleBuilder {
            argument_spec,
            input,
            environment: Vec::new(),
            mutually_exclusive: None,
            required_together: None,
            required_one_of: None,
            required_if: None,
            required_by: None,
        };
        proof {
            assert(str_pairs_view(r.environment@) =~= Seq::<(Seq<char>, Seq<char>)>::empty());
        }
        r
    }

    /// The environment snapshot that fallbacks read.
    pub fn environment(self, environment: Vec<(String, String)>) -> (r: Self)
        ensures
            r@ == (BuilderView { environment: str_pairs_view(environment@), ..self@ }),
    {
        AnsibleModuleBuilder { environment, ..self }
    }

    pub fn mutually_exclusive(self, mutually_exclusive: MutuallyExclusive) -> (r: Self)
        ensures
            r@ == (BuilderView {
                mutually_exclusive: Some(str_pairs_view(mutually_exclusive@)),
                ..self@
            }),
    {
        AnsibleModuleBuilder { mutually_exclusive: Some(mutually_exclusive), ..self }
    }

    pub fn required_together(self, required_together: RequiredTogether) -> (r: Self)
        ensures
            r@ == (BuilderView {
                required_together: Some(str_pairs_view(required_together@)),
                ..self@
            }),
    {
        AnsibleModuleBuilder { required_together: Some(required_together), ..self }
    }

    pub fn required_one_of(self, required_one_of: RequiredOneOf) -> (r: Self)
        ensures
            r@ == (BuilderView {
                required_one_of: Some(str_pairs_view(required_one_of@)),
                ..self@
            }),
    {
        AnsibleModuleBuilder { required_one_of: Some(required_one_of), ..self }
    }

    pub fn required_if(self, required_if: RequiredIf) -> (r: Self)
        ensures
            r@ == (BuilderView { required_if: Some(required_if_view(required_if@)), ..self@ }),
    {
        AnsibleModuleBuilder { required_if: Some(required_if), ..self }
    }

    pub fn required_by(self, required_by: RequiredBy) -> (r: Self)
        ensures
            r@ == (BuilderView { required_by: Some(required_by_view(required_by@)), ..self@ }),
    {
        AnsibleModuleBuilder { required_by: Some(required_by), ..self }
    }

    /// Validates the input against the spec and the constraint groups, as
    /// [`validation_outcome`] says: the validated module, or the first
    /// failure in the engine's fixed order.
    pub fn build(self) -> (r: Result<crate::ansible_module::AnsibleModule, String>)
        ensures
            match r {
                Ok(m) => validation_outcome(self@) == Ok::<AnsibleModuleView, Seq<char>>(m@),
                Err(e) => validation_outcome(self@) == Err::<AnsibleModuleView, Seq<char>>(e@),
            },
    {
        let ghost bv = self@;
        let AnsibleModuleBuilder {
            argument_spec,
            input,
            environment,
            mutually_exclusive,
            required_together,
            required_one_of,
            required_if,
            required_by,
        } = self;
        let input_entries = match &input {
            JsonValue::Dict(entries) => entries,
            _ => {
                return Err(String::from_str("Input argument is not a JSON object"));
            },
        };
        let module_args = filter_candidates(input_entries);
        let ghost args = candidates(json_view_entries(input_entries@));
        let spec_entries = match &argument_spec {
            JsonValue::Dict(entries) => entries,
            _ => {
                return Err(
                    String::from_str("Wrong argument spec format, must be a valid JSON object"),
                );
            },
        };
        let model = match parse_argument_spec(spec_entries) {
            Ok(model) => model,
            Err(m) => {
                return Err(m);
            },
        };
        let ghost mv = spec_model_view(model@);
        if let Some(pairs) = &mutually_exclusive {
            if let Some(m) = check_mutually_exclusive(pairs, &module_args) {
                return Err(m);
            }
        }
        if let Some(pairs) = &required_together {
            if let Some(m) = check_required_together(pairs, &module_args) {
                return Err(m);
            }
        }
        if let Some(pairs) = &required_one_of {
            if let Some(m) = check_required_one_of(pairs, &module_args) {
                return Err(m);
            }
        }
        if let Some(rules) = &required_if {
            if let Some(m) = check_required_if(rules, &module_args) {
                return Err(m);
            }
        }
        if let Some(rules) = &required_by {
            if let Some(m) = check_required_by(rules, &model, &module_args) {
                return Err(m);
            }
        }
        proof {
            assert(constraints_failure(bv, mv, args) is None);
        }
        let (params, missing) = match reconcile_args(&model, &module_args, &environment) {
            Ok(pm) => pm,
            Err(m) => {
                return Err(m);
            },
        };
        if missing.len() > 0 {
            let mut m = String::from_str("missing required arguments: ");
            let listing = render_string_list(&missing);
            m.append(listing.as_str());
            return Err(m);
        }
        proof {
            assert(string_views(missing@).len() == 0);
        }
        if let Some(m) = check_types(&model, &params) {
            return Err(m);
        }
        let unknown = collect_unknown(&module_args, &params);
        if unknown.len() > 0 {
            let mut m = String::from_str("Unknown arguments for module found: '");
            let listing = render_string_list(&unknown);
            m.append(listing.as_str());
            m.append("'");
            proof {
                reveal_strlit("'");
                assert(m@ =~= msg_unknown(unknown_keys(args, params_view(params@))));
            }
            return Err(m);
        }
        proof {
            assert(unknown_keys(args, params_view(params@)).len() == 0);
        }
        let internal_params = match crate::ansible_module::parse_internal_args(input_entries) {
            Ok(ia) => ia,
            Err(d) => {
                let mut m = String::from_str("Could not parse internal arguments from ");
                push_json(&mut m, &input);
                m.append(": ");
                m.append(d.as_str());
                return Err(m);
            },
        };
        let module = crate::ansible_module::AnsibleModule {
            params: crate::ansible_module::ModuleArgs::from_entries(params),
            internal_params,
        };
        Ok(module)
    }
}

} // verus!
