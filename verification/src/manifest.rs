//! The plugin manifest: the resources, tools and prompts a plugin offers,
//! read from its TOML document.
use vstd::prelude::*;
use crate::permissions::{
    declared_slots, matches_slots, permissions_from_toml, same_permissions, JilebiPermissions,
};
use crate::text::{bool_from_text, cat, cat3, cat4, owned, parse_bool, parse_u32, u32_from_text};
use crate::toml_doc::{
    as_text, parse_toml, entries_model, entry_of, get_spec, lemma_array_model, lemma_table_model, lookup,
    str_spec, toml_parsed, TomlModel, TomlValue,
};

verus! {

broadcast use vstd::std_specs::vec::group_vec_axioms;

/// Joins a plugin's name and the name of one of its tools, resources or
/// prompts into the name the MCP client sees.
pub const SEPARATOR: &'static str = "_";

/// The pattern a tool, resource or prompt key must match as a whole.
pub const NAME_REGEX: &'static str = r"^[a-z0-9\-]+$";

/// A resource a plugin offers: what the client sees of it, the script
/// function that reads it, and what that function may touch.
#[derive(Debug)]
pub struct JilebiResource {
    pub uri: String,
    pub name: String,
    pub description: Option<String>,
    pub mime_type: Option<String>,
    pub size: Option<u32>,
    pub function: String,
    pub permissions: Option<JilebiPermissions>,
}

/// The resources of a plugin, by their key in the manifest.
#[derive(Debug)]
pub struct Resources(pub Vec<(String, JilebiResource)>);

/// A tool a plugin offers: its name as the client sees it, its title,
/// description and schemas, the script function that runs it, and what that
/// function may touch.
#[derive(Debug)]
pub struct JilebiTool {
    pub name: String,
    pub title: String,
    pub description: Option<String>,
    pub input_schema: TomlValue,
    pub output_schema: Option<TomlValue>,
    pub annotations: Option<ToolAnnotations>,
    pub function: String,
    pub permissions: Option<JilebiPermissions>,
}

/// Hints about a tool's behaviour for the client.
#[derive(Debug)]
pub struct ToolAnnotations {
    pub title: Option<String>,
    pub read_only_hint: Option<bool>,
    pub destructive_hint: Option<bool>,
    pub idempotent_hint: Option<bool>,
    pub open_world_hint: Option<bool>,
}

/// The tools of a plugin, by their key in the manifest.
#[derive(Debug)]
pub struct Tools(pub Vec<(String, JilebiTool)>);

/// One argument of a prompt.
#[derive(Debug)]
pub struct PromptArgument {
    pub name: String,
    pub description: Option<String>,
    pub required: Option<bool>,
}

/// Who says a message of a prompt.
#[derive(Debug)]
pub enum PromptRole {
    User,
    Assistant,
}

/// One message of a prompt: a template over the prompt's arguments.
#[derive(Debug)]
pub struct PromptMessage {
    pub role: PromptRole,
    pub text: String,
}

/// A prompt a plugin offers.
#[derive(Debug)]
pub struct JilebiPrompt {
    pub name: String,
    pub description: Option<String>,
    pub arguments: Option<Vec<PromptArgument>>,
    pub content: Vec<PromptMessage>,
}

/// The prompts of a plugin, by their key in the manifest.
#[derive(Debug)]
pub struct Prompts(pub Vec<(String, JilebiPrompt)>);

/// A plugin's manifest.
#[derive(Debug)]
pub struct Manifest {
    pub name: String,
    pub resources: Resources,
    pub tools: Tools,
    pub prompts: Prompts,
}

/// The three sections of a manifest.
#[derive(Debug)]
pub enum Section {
    Resources,
    Tools,
    Prompts,
}

// ---------------------------------------------------------------------------
// What a manifest means.

pub open spec fn opt_view(o: Option<String>) -> Option<Seq<char>> {
    match o {
        Some(s) => Some(s@),
        None => None,
    }
}

pub open spec fn res_view(r: Result<String, String>) -> Result<Seq<char>, Seq<char>> {
    match r {
        Ok(s) => Ok(s@),
        Err(e) => Err(e@),
    }
}

/// A field that must hold a string; the messages name the entry `key`.
pub open spec fn mandatory_spec(t: Seq<(Seq<char>, TomlModel)>, key: Seq<char>, field: Seq<char>) -> Result<
    Seq<char>,
    Seq<char>,
> {
    match entry_of(t, field) {
        None => Err("Missing field "@ + field + " in resource "@ + key),
        Some(TomlModel::Str(s)) => Ok(s),
        Some(_) => Err("Invalid data entered for field "@ + field + " in resource "@ + key),
    }
}

/// A field that may hold a string.
pub open spec fn optional_spec(t: Seq<(Seq<char>, TomlModel)>, field: Seq<char>) -> Option<Seq<char>> {
    str_spec(entry_of(t, field))
}

/// A key of the alphabet `[a-z0-9-]`.
pub open spec fn name_class(c: char) -> bool {
    ('a' <= c && c <= 'z') || ('0' <= c && c <= '9') || c == '-'
}

/// `s` matches `^[a-z0-9\-]+$`: it is not empty and every character is a
/// lowercase letter, a digit or a hyphen.
pub open spec fn key_name_pattern(s: Seq<char>) -> bool {
    s.len() > 0 && forall|i: int| 0 <= i < s.len() ==> name_class(#[trigger] s[i])
}

pub open spec fn invalid_name_text() -> Seq<char> {
    "The name set for the tool, resource or prompt has invalid characters. Only lowercase letters, numbers or hyphens are allowed"@
}

/// The error the entry `key` of a section makes, if any.
pub open spec fn entry_error(section: Section, key: Seq<char>, v: TomlModel) -> Option<Seq<char>> {
    match v {
        TomlModel::Table(t) => {
            let schema_error: Option<Seq<char>> = match section {
                Section::Tools => match entry_of(t, "input_schema"@) {
                    None => Some("Missing field input_schema in tool "@ + key),
                    Some(s) => if s is Table || s is Datetime {
                        None
                    } else {
                        Some("Invalid JSON format for the field input_schema in tool "@ + key)
                    },
                },
                _ => None,
            };
            if schema_error is Some {
                schema_error
            } else {
                match mandatory_spec(t, key, "name"@) {
                    Err(e) => Some(e),
                    Ok(_) => if !key_name_pattern(key) {
                        Some(invalid_name_text())
                    } else {
                        match section {
                            Section::Prompts => None,
                            _ => match mandatory_spec(t, key, "function"@) {
                                Err(e) => Some(e),
                                Ok(_) => None,
                            },
                        }
                    },
                }
            }
        },
        _ => Some(
            match section {
                Section::Resources => "Invalid format for resource definition "@ + key
                    + ", please check the toml file. Refer the docs:"@,
                Section::Tools => "Invalid format for tool definition "@ + key + ", check the toml"@,
                Section::Prompts => "Invalid format for prompt definition "@ + key + ", check the toml"@,
            },
        ),
    }
}

/// The error of the first entry of a section that makes one.
pub open spec fn first_error(section: Section, t: Seq<(Seq<char>, TomlModel)>) -> Option<Seq<char>>
    decreases t.len(),
{
    if t.len() == 0 {
        None
    } else {
        match entry_error(section, t[0].0, t[0].1) {
            Some(e) => Some(e),
            None => first_error(section, t.drop_first()),
        }
    }
}

/// The message for a section that is not a table.
pub open spec fn section_format_text(section: Section) -> Seq<char> {
    match section {
        Section::Resources => "Invalid format for Resources section"@,
        Section::Tools => "Invalid format for Tools section"@,
        Section::Prompts => "Invalid format for Prompts section"@,
    }
}

/// The error a section value makes, if any.
pub open spec fn section_error(section: Section, v: TomlModel) -> Option<Seq<char>> {
    match v {
        TomlModel::Table(t) => first_error(section, t),
        _ => Some(section_format_text(section)),
    }
}

/// `p` holds what the `permissions` value `v` declares (nothing when it is
/// missing or cannot be read).
pub open spec fn permissions_built(p: Option<JilebiPermissions>, v: Option<TomlModel>) -> bool {
    match v {
        None => p is None,
        Some(m) => match declared_slots(m) {
            None => p is None,
            Some(slots) => p matches Some(q) && matches_slots(q, slots),
        },
    }
}

/// The size of a resource: the string under the empty key, read as a `u32`.
pub open spec fn size_spec(t: Seq<(Seq<char>, TomlModel)>) -> Option<u32> {
    match optional_spec(t, Seq::empty()) {
        Some(s) => u32_from_text(s),
        None => None,
    }
}

/// `r` is the resource a valid entry `v` of plugin `plugin` describes.
pub open spec fn resource_built(r: JilebiResource, plugin: Seq<char>, key: Seq<char>, v: TomlModel) -> bool {
    match v {
        TomlModel::Table(t) => {
            &&& r.name@ == mandatory_spec(t, key, "name"@)->Ok_0
            &&& r.uri@ == plugin + "_"@ + r.name@
            &&& opt_view(r.description) == optional_spec(t, "description"@)
            &&& opt_view(r.mime_type) == optional_spec(t, "mime_type"@)
            &&& r.size == size_spec(t)
            &&& r.function@ == mandatory_spec(t, key, "function"@)->Ok_0
            &&& permissions_built(r.permissions, entry_of(t, "permissions"@))
        },
        _ => false,
    }
}

/// A field that may hold a boolean.
pub open spec fn bool_field(t: Seq<(Seq<char>, TomlModel)>, field: Seq<char>) -> Option<bool> {
    match entry_of(t, field) {
        Some(TomlModel::Bool(b)) => Some(b),
        _ => None,
    }
}

/// `a` holds the hints an `annotations` table declares: its title and its
/// four boolean hints, each where given; none without such a table.
pub open spec fn annotations_built(a: Option<ToolAnnotations>, v: Option<TomlModel>) -> bool {
    match v {
        Some(TomlModel::Table(t)) => a matches Some(x) && opt_view(x.title) == optional_spec(t, "title"@)
            && x.read_only_hint == bool_field(t, "read_only_hint"@) && x.destructive_hint == bool_field(
            t,
            "destructive_hint"@,
        ) && x.idempotent_hint == bool_field(t, "idempotent_hint"@) && x.open_world_hint == bool_field(
            t,
            "open_world_hint"@,
        ),
        _ => a is None,
    }
}

/// `t`'s entry at `i` is its first under `key`.
pub open spec fn first_entry_at(t: Seq<(Seq<char>, TomlModel)>, key: Seq<char>, i: int) -> bool {
    0 <= i < t.len() && t[i].0 == key && forall|j: int| 0 <= j < i ==> #[trigger] t[j].0 != key
}

proof fn lemma_entry_of_first(t: Seq<(Seq<char>, TomlModel)>, key: Seq<char>, i: int)
    requires
        first_entry_at(t, key, i),
    ensures
        entry_of(t, key) == Some(t[i].1),
    decreases i,
{
    if i > 0 {
        assert(t[0].0 != key);
        assert forall|j: int| 0 <= j < i - 1 implies #[trigger] t.drop_first()[j].0 != key by {
            assert(t.drop_first()[j] == t[j + 1]);
        }
        lemma_entry_of_first(t.drop_first(), key, i - 1);
    }
}

proof fn lemma_entry_of_absent(t: Seq<(Seq<char>, TomlModel)>, key: Seq<char>)
    requires
        forall|j: int| 0 <= j < t.len() ==> #[trigger] t[j].0 != key,
    ensures
        entry_of(t, key) is None,
    decreases t.len(),
{
    if t.len() > 0 {
        assert(t[0].0 != key);
        assert forall|j: int| 0 <= j < t.len() - 1 implies #[trigger] t.drop_first()[j].0 != key by {
            assert(t.drop_first()[j] == t[j + 1]);
        }
        lemma_entry_of_absent(t.drop_first(), key);
    }
}

/// Each hint of a tool's `annotations` table is read under its own name:
/// where the table's first entry named after a hint holds the boolean `b`,
/// that hint is `b`; where no entry is named after it, the hint is unset.
pub proof fn law_annotation_hints_read_by_name(
    a: Option<ToolAnnotations>,
    t: Seq<(Seq<char>, TomlModel)>,
    i: int,
    b: bool,
)
    requires
        annotations_built(a, Some(TomlModel::Table(t))),
    ensures
        a is Some,
        first_entry_at(t, "read_only_hint"@, i) && t[i].1 == TomlModel::Bool(b) ==> a->Some_0.read_only_hint
            == Some(b),
        first_entry_at(t, "destructive_hint"@, i) && t[i].1 == TomlModel::Bool(b) ==> a->Some_0.destructive_hint
            == Some(b),
        first_entry_at(t, "idempotent_hint"@, i) && t[i].1 == TomlModel::Bool(b) ==> a->Some_0.idempotent_hint
            == Some(b),
        first_entry_at(t, "open_world_hint"@, i) && t[i].1 == TomlModel::Bool(b) ==> a->Some_0.open_world_hint
            == Some(b),
        (forall|j: int| 0 <= j < t.len() ==> #[trigger] t[j].0 != "read_only_hint"@) ==> a->Some_0.read_only_hint
            is None,
        (forall|j: int| 0 <= j < t.len() ==> #[trigger] t[j].0 != "destructive_hint"@)
            ==> a->Some_0.destructive_hint is None,
        (forall|j: int| 0 <= j < t.len() ==> #[trigger] t[j].0 != "idempotent_hint"@)
            ==> a->Some_0.idempotent_hint is None,
        (forall|j: int| 0 <= j < t.len() ==> #[trigger] t[j].0 != "open_world_hint"@)
            ==> a->Some_0.open_world_hint is None,
{
    if first_entry_at(t, "read_only_hint"@, i) {
        lemma_entry_of_first(t, "read_only_hint"@, i);
    }
    if first_entry_at(t, "destructive_hint"@, i) {
        lemma_entry_of_first(t, "destructive_hint"@, i);
    }
    if first_entry_at(t, "idempotent_hint"@, i) {
        lemma_entry_of_first(t, "idempotent_hint"@, i);
    }
    if first_entry_at(t, "open_world_hint"@, i) {
        lemma_entry_of_first(t, "open_world_hint"@, i);
    }
    if forall|j: int| 0 <= j < t.len() ==> #[trigger] t[j].0 != "read_only_hint"@ {
        lemma_entry_of_absent(t, "read_only_hint"@);
    }
    if forall|j: int| 0 <= j < t.len() ==> #[trigger] t[j].0 != "destructive_hint"@ {
        lemma_entry_of_absent(t, "destructive_hint"@);
    }
    if forall|j: int| 0 <= j < t.len() ==> #[trigger] t[j].0 != "idempotent_hint"@ {
        lemma_entry_of_absent(t, "idempotent_hint"@);
    }
    if forall|j: int| 0 <= j < t.len() ==> #[trigger] t[j].0 != "open_world_hint"@ {
        lemma_entry_of_absent(t, "open_world_hint"@);
    }
}

/// `r` is the tool a valid entry `v` of plugin `plugin` describes.
pub open spec fn tool_built(r: JilebiTool, plugin: Seq<char>, key: Seq<char>, v: TomlModel) -> bool {
    match v {
        TomlModel::Table(t) => {
            &&& r.title@ == mandatory_spec(t, key, "name"@)->Ok_0
            &&& r.name@ == plugin + "_"@ + r.title@
            &&& opt_view(r.description) == optional_spec(t, "description"@)
            &&& Some(r.input_schema.model()) == entry_of(t, "input_schema"@)
            &&& match r.output_schema {
                Some(o) => entry_of(t, "output_schema"@) == Some(o.model()),
                None => entry_of(t, "output_schema"@) is None,
            }
            &&& annotations_built(r.annotations, entry_of(t, "annotations"@))
            &&& r.function@ == mandatory_spec(t, key, "function"@)->Ok_0
            &&& permissions_built(r.permissions, entry_of(t, "permissions"@))
        },
        _ => false,
    }
}

/// The table a list element stands for: itself, or the empty table when it
/// is not one.
pub open spec fn table_or_empty(v: TomlModel) -> Seq<(Seq<char>, TomlModel)> {
    match v {
        TomlModel::Table(t) => t,
        _ => Seq::empty(),
    }
}

/// A string field of a list element, or the empty text.
pub open spec fn text_or_empty(t: Seq<(Seq<char>, TomlModel)>, field: Seq<char>) -> Seq<char> {
    match optional_spec(t, field) {
        Some(s) => s,
        None => Seq::empty(),
    }
}

/// Whether an argument is required: a boolean, or the text `true` or
/// `false`; unset otherwise.
pub open spec fn required_spec(t: Seq<(Seq<char>, TomlModel)>) -> Option<bool> {
    match entry_of(t, "required"@) {
        Some(TomlModel::Bool(b)) => Some(b),
        Some(TomlModel::Str(s)) => bool_from_text(s),
        _ => None,
    }
}

/// `a` is the argument an element of `arguments` describes.
pub open spec fn argument_built(a: PromptArgument, v: TomlModel) -> bool {
    let t = table_or_empty(v);
    &&& a.name@ == text_or_empty(t, "name"@)
    &&& opt_view(a.description) == optional_spec(t, "description"@)
    &&& a.required == required_spec(t)
}

/// The text of a message: its `content` when that is a string, or the
/// `content` string of its `content` table (`{ type = "text", content =
/// "..." }`); empty otherwise.
pub open spec fn message_text(t: Seq<(Seq<char>, TomlModel)>) -> Seq<char> {
    match entry_of(t, "content"@) {
        Some(TomlModel::Str(s)) => s,
        Some(TomlModel::Table(c)) => text_or_empty(c, "content"@),
        _ => Seq::empty(),
    }
}

/// `m` is the message an element of `messages` describes: said by the
/// assistant exactly when its `role` is `assistant`.
pub open spec fn message_built(m: PromptMessage, v: TomlModel) -> bool {
    let t = table_or_empty(v);
    &&& (m.role is Assistant <==> optional_spec(t, "role"@) == Some("assistant"@))
    &&& m.text@ == message_text(t)
}

/// `r` is the prompt a valid entry `v` of plugin `plugin` describes.
pub open spec fn prompt_built(r: JilebiPrompt, plugin: Seq<char>, key: Seq<char>, v: TomlModel) -> bool {
    match v {
        TomlModel::Table(t) => {
            &&& r.name@ == plugin + "_"@ + mandatory_spec(t, key, "name"@)->Ok_0
            &&& opt_view(r.description) == optional_spec(t, "description"@)
            &&& match entry_of(t, "arguments"@) {
                Some(TomlModel::Array(items)) => r.arguments matches Some(args) && args@.len()
                    == items.len() && forall|i: int|
                    0 <= i < items.len() ==> argument_built(#[trigger] args@[i], items[i]),
                _ => r.arguments is None,
            }
            &&& match entry_of(t, "messages"@) {
                Some(TomlModel::Array(items)) => r.content@.len() == items.len() && forall|i: int|
                    0 <= i < items.len() ==> message_built(#[trigger] r.content@[i], items[i]),
                _ => r.content@.len() == 0,
            }
        },
        _ => false,
    }
}


/// `res` holds the resources of the valid section `v`, one per entry, in order.
pub open spec fn resources_built(res: Resources, plugin: Seq<char>, v: TomlModel) -> bool {
    match v {
        TomlModel::Table(t) => res.0@.len() == t.len() && forall|i: int|
            0 <= i < t.len() ==> #[trigger] res.0@[i].0@ == t[i].0 && resource_built(
                res.0@[i].1,
                plugin,
                t[i].0,
                t[i].1,
            ),
        _ => false,
    }
}

/// `res` holds the tools of the valid section `v`, one per entry, in order.
pub open spec fn tools_built(res: Tools, plugin: Seq<char>, v: TomlModel) -> bool {
    match v {
        TomlModel::Table(t) => res.0@.len() == t.len() && forall|i: int|
            0 <= i < t.len() ==> #[trigger] res.0@[i].0@ == t[i].0 && tool_built(
                res.0@[i].1,
                plugin,
                t[i].0,
                t[i].1,
            ),
        _ => false,
    }
}

/// `res` holds the prompts of the valid section `v`, one per entry, in order.
pub open spec fn prompts_built(res: Prompts, plugin: Seq<char>, v: TomlModel) -> bool {
    match v {
        TomlModel::Table(t) => res.0@.len() == t.len() && forall|i: int|
            0 <= i < t.len() ==> #[trigger] res.0@[i].0@ == t[i].0 && prompt_built(
                res.0@[i].1,
                plugin,
                t[i].0,
                t[i].1,
            ),
        _ => false,
    }
}

/// The error a manifest document makes, if any: the plugin's name is
/// checked first, then each section in turn.
pub open spec fn manifest_error(v: TomlModel) -> Option<Seq<char>> {
    match get_spec(v, "name"@) {
        None => Some("The name of the plugin is mandatory"@),
        Some(n) => if !(n is Str) {
            Some("The name of the plugin is not convertible to string"@)
        } else {
            match get_spec(v, "resources"@) {
                None => Some("The resources section is mandatory"@),
                Some(r) => if section_error(Section::Resources, r) is Some {
                    section_error(Section::Resources, r)
                } else {
                    match get_spec(v, "tools"@) {
                        None => Some("The tools section is mandatory"@),
                        Some(t) => if section_error(Section::Tools, t) is Some {
                            section_error(Section::Tools, t)
                        } else {
                            match get_spec(v, "prompts"@) {
                                None => Some("The prompts section is mandatory"@),
                                Some(p) => section_error(Section::Prompts, p),
                            }
                        },
                    }
                },
            }
        },
    }
}

/// `m` is the manifest the valid document `v` describes.
pub open spec fn manifest_built(m: Manifest, v: TomlModel) -> bool {
    &&& get_spec(v, "name"@) == Some(TomlModel::Str(m.name@))
    &&& resources_built(m.resources, m.name@, get_spec(v, "resources"@)->Some_0)
    &&& tools_built(m.tools, m.name@, get_spec(v, "tools"@)->Some_0)
    &&& prompts_built(m.prompts, m.name@, get_spec(v, "prompts"@)->Some_0)
}

// ---------------------------------------------------------------------------
// Reading a manifest.

/// A field of `op_table` that must hold a string; the messages name `key`.
pub fn mandatory_extractor(op_table: &Vec<(String, TomlValue)>, key: &str, field: &str) -> (r: Result<String, String>)
    ensures
        res_view(r) == mandatory_spec(entries_model(op_table@), key@, field@),
{
    match lookup(op_table, field) {
        None => {
            Err(cat4("Missing field ", field, " in resource ", key))
        },
        Some(v) => match as_text(v) {
            Some(s) => Ok(s),
            None => Err(cat4("Invalid data entered for field ", field, " in resource ", key)),
        },
    }
}

/// A field of `op_table` that may hold a string.
pub fn optional_extractor(op_table: &Vec<(String, TomlValue)>, field: &str) -> (r: Option<String>)
    ensures
        opt_view(r) == optional_spec(entries_model(op_table@), field@),
{
    match lookup(op_table, field) {
        None => None,
        Some(v) => as_text(v),
    }
}

/// The permissions `op_table` declares under `permissions`, if readable.
pub fn permissions_extractor(op_table: &Vec<(String, TomlValue)>) -> (r: Option<JilebiPermissions>)
    ensures
        permissions_built(r, entry_of(entries_model(op_table@), "permissions"@)),
{
    match lookup(op_table, "permissions") {
        None => None,
        Some(v) => permissions_from_toml(v),
    }
}

/// `regex::Regex::new(NAME_REGEX)` and `Regex::is_match`: the pattern is a
/// valid one, and, anchored at both ends (`^`, `$` match only at the start
/// and the end of the text), it matches a name made of one or more
/// characters of `[a-z0-9-]`.
#[verifier::external_body]
fn key_pattern_matches(name: &str) -> (r: Result<bool, String>)
    ensures
        r is Ok,
        r matches Ok(b) ==> b == key_name_pattern(name@),
{
    match regex::Regex::new(NAME_REGEX) {
        Ok(re) => Ok(re.is_match(name)),
        Err(e) => Err(e.to_string()),
    }
}

fn bool_extractor(op_table: &Vec<(String, TomlValue)>, field: &str) -> (r: Option<bool>)
    ensures
        r == bool_field(entries_model(op_table@), field@),
{
    match lookup(op_table, field) {
        Some(TomlValue::Bool(b)) => Some(*b),
        _ => None,
    }
}

/// The hints `op_table` declares under `annotations`, when that is a table.
pub fn annotations_extractor(op_table: &Vec<(String, TomlValue)>) -> (r: Option<ToolAnnotations>)
    ensures
        annotations_built(r, entry_of(entries_model(op_table@), "annotations"@)),
{
    match lookup(op_table, "annotations") {
        Some(TomlValue::Table(t)) => {
            proof {
                lemma_table_model(*t);
            }
            Some(
                ToolAnnotations {
                    title: optional_extractor(t, "title"),
                    read_only_hint: bool_extractor(t, "read_only_hint"),
                    destructive_hint: bool_extractor(t, "destructive_hint"),
                    idempotent_hint: bool_extractor(t, "idempotent_hint"),
                    open_world_hint: bool_extractor(t, "open_world_hint"),
                },
            )
        },
        _ => None,
    }
}

/// Whether `name` may key a tool, resource or prompt.
pub fn validate_section_key_name(name: &str) -> (r: Result<(), String>)
    ensures
        r is Ok <==> key_name_pattern(name@),
        r matches Err(e) ==> e@ == invalid_name_text(),
{
    match key_pattern_matches(name) {
        Err(e) => Err(e),
        Ok(true) => Ok(()),
        Ok(false) => Err(
            owned(
                "The name set for the tool, resource or prompt has invalid characters. Only lowercase letters, numbers or hyphens are allowed",
            ),
        ),
    }
}

/// The value under `key` when `v` is a table (`toml::Value::get`).
pub fn get_value<'a>(v: &'a TomlValue, key: &str) -> (r: Option<&'a TomlValue>)
    ensures
        match r {
            Some(x) => get_spec(v.model(), key@) == Some(x.model()),
            None => get_spec(v.model(), key@) is None,
        },
{
    match v {
        TomlValue::Table(t) => {
            proof {
                lemma_table_model(*t);
            }
            lookup(t, key)
        },
        _ => None,
    }
}


proof fn lemma_first_error_step(section: Section, es: Seq<(Seq<char>, TomlModel)>, i: int)
    requires
        0 <= i < es.len(),
    ensures
        first_error(section, es.skip(i)) == match entry_error(section, es[i].0, es[i].1) {
            Some(e) => Some(e),
            None => first_error(section, es.skip(i + 1)),
        },
{
    assert(es.skip(i).drop_first() =~= es.skip(i + 1));
    assert(es.skip(i)[0] == es[i]);
}

impl Resources {
    /// Reads the resources section of plugin `plugin_name`: every entry must
    /// be a table with a string `name` and `function` and a valid key; the
    /// first entry that is not makes the error.
    pub fn try_from(value: &TomlValue, plugin_name: &str) -> (r: Result<Resources, String>)
        ensures
            match section_error(Section::Resources, value.model()) {
                Some(e) => r matches Err(m) && m@ == e,
                None => r matches Ok(res) && resources_built(res, plugin_name@, value.model()),
            },
    {
        let t = match value {
            TomlValue::Table(t) => t,
            _ => {
                return Err(owned("Invalid format for Resources section"));
            },
        };
        proof {
            lemma_table_model(*t);
        }
        let ghost es = entries_model(t@);
        let mut out: Vec<(String, JilebiResource)> = Vec::new();
        let mut i: usize = 0;
        assert(es.skip(0) =~= es);
        while i < t.len()
            invariant
                i <= t.len(),
                value.model() == TomlModel::Table(es),
                es == entries_model(t@),
                first_error(Section::Resources, es) == first_error(Section::Resources, es.skip(i as int)),
                out@.len() == i,
                forall|j: int|
                    0 <= j < i ==> #[trigger] out@[j].0@ == es[j].0 && resource_built(
                        out@[j].1,
                        plugin_name@,
                        es[j].0,
                        es[j].1,
                    ),
            decreases t.len() - i,
        {
            proof {
                lemma_first_error_step(Section::Resources, es, i as int);
            }
            let key = t[i].0.as_str();
            assert(es[i as int] == (key@, t@[i as int].1.model()));
            let op = match &t[i].1 {
                TomlValue::Table(op) => op,
                _ => {
                    return Err(
                        cat3(
                            "Invalid format for resource definition ",
                            key,
                            ", please check the toml file. Refer the docs:",
                        ),
                    );
                },
            };
            proof {
                lemma_table_model(*op);
            }
            let name = match mandatory_extractor(op, key, "name") {
                Ok(n) => n,
                Err(e) => {
                    return Err(e);
                },
            };
            match validate_section_key_name(key) {
                Ok(()) => {},
                Err(e) => {
                    return Err(e);
                },
            }
            let description = optional_extractor(op, "description");
            let mime_type = optional_extractor(op, "mime_type");
            proof {
                reveal_strlit("");
            }
            assert(""@ =~= Seq::<char>::empty());
            let size = match optional_extractor(op, "") {
                Some(text) => parse_u32(text.as_str()),
                None => None,
            };
            let function = match mandatory_extractor(op, key, "function") {
                Ok(f) => f,
                Err(e) => {
                    return Err(e);
                },
            };
            let permissions = permissions_extractor(op);
            let resource = JilebiResource {
                uri: cat3(plugin_name, SEPARATOR, name.as_str()),
                name,
                description,
                mime_type,
                size,
                function,
                permissions,
            };
            assert(resource_built(resource, plugin_name@, es[i as int].0, es[i as int].1));
            out.push((t[i].0.clone(), resource));
            i = i + 1;
        }
        Ok(Resources(out))
    }
}


impl Tools {
    /// Reads the tools section of plugin `plugin_name`: every entry must be a
    /// table with an `input_schema` table, a string `name` and `function` and
    /// a valid key; the first entry that is not makes the error.
    pub fn try_from(value: &TomlValue, plugin_name: &str) -> (r: Result<Tools, String>)
        ensures
            match section_error(Section::Tools, value.model()) {
                Some(e) => r matches Err(m) && m@ == e,
                None => r matches Ok(res) && tools_built(res, plugin_name@, value.model()),
            },
    {
        let t = match value {
            TomlValue::Table(t) => t,
            _ => {
                return Err(owned("Invalid format for Tools section"));
            },
        };
        proof {
            lemma_table_model(*t);
        }
        let ghost es = entries_model(t@);
        let mut out: Vec<(String, JilebiTool)> = Vec::new();
        let mut i: usize = 0;
        assert(es.skip(0) =~= es);
        while i < t.len()
            invariant
                i <= t.len(),
                value.model() == TomlModel::Table(es),
                es == entries_model(t@),
                first_error(Section::Tools, es) == first_error(Section::Tools, es.skip(i as int)),
                out@.len() == i,
                forall|j: int|
                    0 <= j < i ==> #[trigger] out@[j].0@ == es[j].0 && tool_built(
                        out@[j].1,
                        plugin_name@,
                        es[j].0,
                        es[j].1,
                    ),
            decreases t.len() - i,
        {
            proof {
                lemma_first_error_step(Section::Tools, es, i as int);
            }
            let key = t[i].0.as_str();
            assert(es[i as int] == (key@, t@[i as int].1.model()));
            let op = match &t[i].1 {
                TomlValue::Table(op) => op,
                _ => {
                    return Err(cat3("Invalid format for tool definition ", key, ", check the toml"));
                },
            };
            proof {
                lemma_table_model(*op);
            }
            let schema = match lookup(op, "input_schema") {
                Some(schema) => schema,
                None => {
                    return Err(cat("Missing field input_schema in tool ", key));
                },
            };
            match schema {
                TomlValue::Table(_) => {},
                TomlValue::Datetime(_) => {},
                _ => {
                    return Err(cat("Invalid JSON format for the field input_schema in tool ", key));
                },
            }
            let output_schema = match lookup(op, "output_schema") {
                Some(o) => Some(o.deep_copy()),
                None => None,
            };
            let tool_name = match mandatory_extractor(op, key, "name") {
                Ok(n) => n,
                Err(e) => {
                    return Err(e);
                },
            };
            match validate_section_key_name(key) {
                Ok(()) => {},
                Err(e) => {
                    return Err(e);
                },
            }
            let description = optional_extractor(op, "description");
            let function = match mandatory_extractor(op, key, "function") {
                Ok(f) => f,
                Err(e) => {
                    return Err(e);
                },
            };
            let permissions = permissions_extractor(op);
            let annotations = annotations_extractor(op);
            let tool = JilebiTool {
                name: cat3(plugin_name, SEPARATOR, tool_name.as_str()),
                title: tool_name,
                description,
                input_schema: schema.deep_copy(),
                output_schema,
                annotations,
                function,
                permissions,
            };
            assert(tool_built(tool, plugin_name@, es[i as int].0, es[i as int].1));
            out.push((t[i].0.clone(), tool));
            i = i + 1;
        }
        Ok(Tools(out))
    }
}

/// The fields of a list element that is a table, or no fields.
fn element_table<'a>(v: &'a TomlValue, empty: &'a Vec<(String, TomlValue)>) -> (r: &'a Vec<(String, TomlValue)>)
    requires
        empty@.len() == 0,
    ensures
        entries_model(r@) == table_or_empty(v.model()),
{
    match v {
        TomlValue::Table(t) => {
            proof {
                lemma_table_model(*t);
            }
            t
        },
        _ => {
            assert(entries_model(empty@) =~= Seq::<(Seq<char>, TomlModel)>::empty());
            empty
        },
    }
}

/// The text of an optional string field, or the empty text.
fn field_text(t: &Vec<(String, TomlValue)>, field: &str) -> (r: String)
    ensures
        r@ == text_or_empty(entries_model(t@), field@),
{
    match optional_extractor(t, field) {
        Some(s) => s,
        None => {
            let e = String::new();
            e
        },
    }
}

/// The text of a message table, as [`message_text`] reads it.
fn message_content(t: &Vec<(String, TomlValue)>) -> (r: String)
    ensures
        r@ == message_text(entries_model(t@)),
{
    match lookup(t, "content") {
        Some(TomlValue::Str(s)) => s.clone(),
        Some(TomlValue::Table(c)) => {
            proof {
                lemma_table_model(*c);
            }
            field_text(c, "content")
        },
        _ => String::new(),
    }
}

/// The arguments a prompt's table declares under `arguments`, when that is
/// an array.
fn prompt_arguments(op: &Vec<(String, TomlValue)>) -> (r: Option<Vec<PromptArgument>>)
    ensures
        match entry_of(entries_model(op@), "arguments"@) {
            Some(TomlModel::Array(items)) => r matches Some(args) && args@.len() == items.len()
                && forall|i: int| 0 <= i < items.len() ==> argument_built(#[trigger] args@[i], items[i]),
            _ => r is None,
        },
{
    let items = match lookup(op, "arguments") {
        Some(TomlValue::Array(items)) => items,
        _ => {
            return None;
        },
    };
    proof {
        lemma_array_model(*items);
    }
    let ghost ms = items@.map_values(|x: TomlValue| x.model());
    let empty: Vec<(String, TomlValue)> = Vec::new();
    let mut out: Vec<PromptArgument> = Vec::new();
    let mut i: usize = 0;
    while i < items.len()
        invariant
            i <= items.len(),
            empty@.len() == 0,
            ms == items@.map_values(|x: TomlValue| x.model()),
            out@.len() == i,
            forall|j: int| 0 <= j < i ==> argument_built(#[trigger] out@[j], ms[j]),
        decreases items.len() - i,
    {
        let t = element_table(&items[i], &empty);
        let required = match lookup(t, "required") {
            Some(TomlValue::Bool(b)) => Some(*b),
            Some(TomlValue::Str(text)) => parse_bool(text.as_str()),
            _ => None,
        };
        let arg = PromptArgument {
            name: field_text(t, "name"),
            description: optional_extractor(t, "description"),
            required,
        };
        assert(argument_built(arg, ms[i as int]));
        out.push(arg);
        i = i + 1;
    }
    Some(out)
}

/// The messages a prompt's table declares under `messages`, when that is an
/// array; none otherwise.
fn prompt_messages(op: &Vec<(String, TomlValue)>) -> (r: Vec<PromptMessage>)
    ensures
        match entry_of(entries_model(op@), "messages"@) {
            Some(TomlModel::Array(items)) => r@.len() == items.len() && forall|i: int|
                0 <= i < items.len() ==> message_built(#[trigger] r@[i], items[i]),
            _ => r@.len() == 0,
        },
{
    let items = match lookup(op, "messages") {
        Some(TomlValue::Array(items)) => items,
        _ => {
            return Vec::new();
        },
    };
    proof {
        lemma_array_model(*items);
    }
    let ghost ms = items@.map_values(|x: TomlValue| x.model());
    let empty: Vec<(String, TomlValue)> = Vec::new();
    let mut out: Vec<PromptMessage> = Vec::new();
    let mut i: usize = 0;
    while i < items.len()
        invariant
            i <= items.len(),
            empty@.len() == 0,
            ms == items@.map_values(|x: TomlValue| x.model()),
            out@.len() == i,
            forall|j: int| 0 <= j < i ==> message_built(#[trigger] out@[j], ms[j]),
        decreases items.len() - i,
    {
        let t = element_table(&items[i], &empty);
        let role = match optional_extractor(t, "role") {
            Some(role) => if crate::text::same_text(role.as_str(), "assistant") {
                PromptRole::Assistant
            } else {
                PromptRole::User
            },
            None => PromptRole::User,
        };
        let message = PromptMessage { role, text: message_content(t) };
        assert(message_built(message, ms[i as int]));
        out.push(message);
        i = i + 1;
    }
    out
}

impl Prompts {
    /// Reads the prompts section of plugin `plugin_name`: every entry must be
    /// a table with a string `name` and a valid key; the first entry that is
    /// not makes the error.
    pub fn try_from(value: &TomlValue, plugin_name: &str) -> (r: Result<Prompts, String>)
        ensures
            match section_error(Section::Prompts, value.model()) {
                Some(e) => r matches Err(m) && m@ == e,
                None => r matches Ok(res) && prompts_built(res, plugin_name@, value.model()),
            },
    {
        let t = match value {
            TomlValue::Table(t) => t,
            _ => {
                return Err(owned("Invalid format for Prompts section"));
            },
        };
        proof {
            lemma_table_model(*t);
        }
        let ghost es = entries_model(t@);
        let mut out: Vec<(String, JilebiPrompt)> = Vec::new();
        let mut i: usize = 0;
        assert(es.skip(0) =~= es);
        while i < t.len()
            invariant
                i <= t.len(),
                value.model() == TomlModel::Table(es),
                es == entries_model(t@),
                first_error(Section::Prompts, es) == first_error(Section::Prompts, es.skip(i as int)),
                out@.len() == i,
                forall|j: int|
                    0 <= j < i ==> #[trigger] out@[j].0@ == es[j].0 && prompt_built(
                        out@[j].1,
                        plugin_name@,
                        es[j].0,
                        es[j].1,
                    ),
            decreases t.len() - i,
        {
            proof {
                lemma_first_error_step(Section::Prompts, es, i as int);
            }
            let key = t[i].0.as_str();
            assert(es[i as int] == (key@, t@[i as int].1.model()));
            let op = match &t[i].1 {
                TomlValue::Table(op) => op,
                _ => {
                    return Err(cat3("Invalid format for prompt definition ", key, ", check the toml"));
                },
            };
            proof {
                lemma_table_model(*op);
            }
            let arguments = prompt_arguments(op);
            let prompt_name = match mandatory_extractor(op, key, "name") {
                Ok(n) => n,
                Err(e) => {
                    return Err(e);
                },
            };
            match validate_section_key_name(key) {
                Ok(()) => {},
                Err(e) => {
                    return Err(e);
                },
            }
            let prompt = JilebiPrompt {
                name: cat3(plugin_name, SEPARATOR, prompt_name.as_str()),
                description: optional_extractor(op, "description"),
                arguments,
                content: prompt_messages(op),
            };
            assert(prompt_built(prompt, plugin_name@, es[i as int].0, es[i as int].1));
            out.push((t[i].0.clone(), prompt));
            i = i + 1;
        }
        Ok(Prompts(out))
    }
}

impl Manifest {
    /// Reads a plugin's manifest document: its `name`, then its `resources`,
    /// `tools` and `prompts` sections, all mandatory; the first problem met
    /// makes the error.
    pub fn try_from(value: &TomlValue) -> (r: Result<Manifest, String>)
        ensures
            match manifest_error(value.model()) {
                Some(e) => r matches Err(m) && m@ == e,
                None => r matches Ok(m) && manifest_built(m, value.model()),
            },
    {
        let name = match get_value(value, "name") {
            None => {
                return Err(owned("The name of the plugin is mandatory"));
            },
            Some(n) => match as_text(n) {
                Some(s) => s,
                None => {
                    return Err(owned("The name of the plugin is not convertible to string"));
                },
            },
        };
        let resources = match get_value(value, "resources") {
            None => {
                return Err(owned("The resources section is mandatory"));
            },
            Some(v) => match Resources::try_from(v, name.as_str()) {
                Ok(r) => r,
                Err(e) => {
                    return Err(e);
                },
            },
        };
        let tools = match get_value(value, "tools") {
            None => {
                return Err(owned("The tools section is mandatory"));
            },
            Some(v) => match Tools::try_from(v, name.as_str()) {
                Ok(t) => t,
                Err(e) => {
                    return Err(e);
                },
            },
        };
        let prompts = match get_value(value, "prompts") {
            None => {
                return Err(owned("The prompts section is mandatory"));
            },
            Some(v) => match Prompts::try_from(v, name.as_str()) {
                Ok(p) => p,
                Err(e) => {
                    return Err(e);
                },
            },
        };
        Ok(Manifest { name, resources, tools, prompts })
    }
}


// ---------------------------------------------------------------------------
// The permissions a manifest asks for.

/// The permission declarations of a manifest in the order they are read:
/// every resource, then every tool, each under its key.
pub open spec fn permission_declarations(m: Manifest) -> Seq<(Seq<char>, Option<JilebiPermissions>)> {
    m.resources.0@.map_values(|e: (String, JilebiResource)| (e.0@, e.1.permissions)) + m.tools.0@.map_values(
        |e: (String, JilebiTool)| (e.0@, e.1.permissions),
    )
}

/// The permissions last declared under `key`, if any: a tool's declaration
/// overrides a resource's under the same key.
pub open spec fn last_declared(c: Seq<(Seq<char>, Option<JilebiPermissions>)>, key: Seq<char>) -> Option<
    JilebiPermissions,
>
    decreases c.len(),
{
    if c.len() == 0 {
        None
    } else if c.last().0 == key && c.last().1 is Some {
        c.last().1
    } else {
        last_declared(c.drop_last(), key)
    }
}

/// `out` holds, once per key, the last permissions `c` declares under it.
pub open spec fn holds_last_declared(out: Seq<(String, JilebiPermissions)>, c: Seq<(Seq<char>, Option<JilebiPermissions>)>) -> bool {
    &&& forall|i: int, j: int| 0 <= i < out.len() && 0 <= j < out.len() && i != j ==> out[i].0@ != out[j].0@
    &&& forall|i: int|
        0 <= i < out.len() ==> (last_declared(c, #[trigger] out[i].0@) matches Some(p) && same_permissions(
            out[i].1,
            p,
        ))
    &&& forall|k: Seq<char>| #[trigger] last_declared(c, k) is Some ==> exists|i: int| 0 <= i < out.len() && out[i].0@ == k
}

fn position_of_key(out: &Vec<(String, JilebiPermissions)>, key: &str) -> (r: Option<usize>)
    ensures
        r matches Some(i) ==> i < out@.len() && out@[i as int].0@ == key@,
        r is None ==> forall|j: int| 0 <= j < out@.len() ==> out@[j].0@ != key@,
{
    let mut idx: usize = 0;
    while idx < out.len()
        invariant
            idx <= out.len(),
            forall|j: int| 0 <= j < idx ==> out@[j].0@ != key@,
        decreases out.len() - idx,
    {
        if crate::text::same_text(out[idx].0.as_str(), key) {
            return Some(idx);
        }
        idx = idx + 1;
    }
    None
}

fn record_declaration(
    out: &mut Vec<(String, JilebiPermissions)>,
    key: &String,
    declared: &Option<JilebiPermissions>,
    Ghost(c): Ghost<Seq<(Seq<char>, Option<JilebiPermissions>)>>,
)
    requires
        holds_last_declared(old(out)@, c),
    ensures
        holds_last_declared(final(out)@, c.push((key@, *declared))),
{
    let ghost c2 = c.push((key@, *declared));
    assert(c2.drop_last() =~= c);
    let p = match declared {
        None => {
            assert forall|k: Seq<char>| last_declared(c2, k) == last_declared(c, k) by {}
            return;
        },
        Some(p) => p,
    };
    assert forall|k: Seq<char>| k != key@ implies last_declared(c2, k) == last_declared(c, k) by {}
    assert(last_declared(c2, key@) == Some(*p));
    let found = position_of_key(out, key.as_str());
    let ghost before = out@;
    if let Some(idx) = found {
        out.set(idx, (key.clone(), p.copy()));
        assert forall|k: Seq<char>| #[trigger] last_declared(c2, k) is Some implies exists|i: int|
            0 <= i < out@.len() && out@[i].0@ == k by {
            if k != key@ {
                let i = choose|i: int| 0 <= i < before.len() && before[i].0@ == k;
                assert(out@[i] == before[i]);
            } else {
                assert(out@[idx as int].0@ == k);
            }
        }
    } else {
        out.push((key.clone(), p.copy()));
        assert forall|k: Seq<char>| #[trigger] last_declared(c2, k) is Some implies exists|i: int|
            0 <= i < out@.len() && out@[i].0@ == k by {
            if k != key@ {
                let i = choose|i: int| 0 <= i < before.len() && before[i].0@ == k;
                assert(out@[i] == before[i]);
            } else {
                assert(out@[before.len() as int].0@ == k);
            }
        }
    }
}

/// The permissions a plugin's tools and resources ask for, once per key; a
/// tool overrides a resource under the same key.
pub fn get_permissions_from_manifest(manifest: &Manifest) -> (r: Vec<(String, JilebiPermissions)>)
    ensures
        holds_last_declared(r@, permission_declarations(*manifest)),
{
    let ghost all = permission_declarations(*manifest);
    let ghost rs = manifest.resources.0@.map_values(|e: (String, JilebiResource)| (e.0@, e.1.permissions));
    let ghost ts = manifest.tools.0@.map_values(|e: (String, JilebiTool)| (e.0@, e.1.permissions));
    let mut out: Vec<(String, JilebiPermissions)> = Vec::new();
    let mut i: usize = 0;
    assert(rs.take(0) =~= Seq::<(Seq<char>, Option<JilebiPermissions>)>::empty());
    while i < manifest.resources.0.len()
        invariant
            i <= manifest.resources.0.len(),
            rs == manifest.resources.0@.map_values(|e: (String, JilebiResource)| (e.0@, e.1.permissions)),
            holds_last_declared(out@, rs.take(i as int)),
        decreases manifest.resources.0.len() - i,
    {
        record_declaration(
            &mut out,
            &manifest.resources.0[i].0,
            &manifest.resources.0[i].1.permissions,
            Ghost(rs.take(i as int)),
        );
        assert(rs.take(i as int).push(rs[i as int]) =~= rs.take(i + 1));
        i = i + 1;
    }
    assert(rs.take(i as int) =~= rs);
    let mut j: usize = 0;
    assert(rs + ts.take(0) =~= rs);
    while j < manifest.tools.0.len()
        invariant
            j <= manifest.tools.0.len(),
            ts == manifest.tools.0@.map_values(|e: (String, JilebiTool)| (e.0@, e.1.permissions)),
            holds_last_declared(out@, rs + ts.take(j as int)),
        decreases manifest.tools.0.len() - j,
    {
        record_declaration(
            &mut out,
            &manifest.tools.0[j].0,
            &manifest.tools.0[j].1.permissions,
            Ghost(rs + ts.take(j as int)),
        );
        assert((rs + ts.take(j as int)).push(ts[j as int]) =~= rs + ts.take(j + 1));
        j = j + 1;
    }
    assert(rs + ts.take(j as int) =~= all);
    out
}

// ---------------------------------------------------------------------------
// From text to manifest.

/// Reads a manifest from its parsed document; a problem is reported as
/// `Could not convert toml to Manifest struct: <problem>`.
pub fn manifest_from_document(doc: &TomlValue) -> (r: Result<Manifest, String>)
    ensures
        match manifest_error(doc.model()) {
            Some(e) => r matches Err(m) && m@ == "Could not convert toml to Manifest struct: "@ + e,
            None => r matches Ok(m) && manifest_built(m, doc.model()),
        },
{
    match Manifest::try_from(doc) {
        Ok(m) => Ok(m),
        Err(e) => Err(cat("Could not convert toml to Manifest struct: ", e.as_str())),
    }
}

/// Reads a manifest from the text of its `manifest.toml`. A text that is not
/// TOML is reported as `Could not parse the plugin manifest toml file: <why>`
/// with `toml`'s reason; a TOML text as [`manifest_from_document`] reports
/// the document `toml` parsed from it.
pub fn manifest_from_text(text: &str) -> (r: Result<Manifest, String>)
    ensures
        match toml_parsed(text@) {
            Err(why) => r matches Err(m) && m@ == "Could not parse the plugin manifest toml file: "@ + why,
            Ok(d) => match manifest_error(d) {
                Some(e) => r matches Err(m) && m@ == "Could not convert toml to Manifest struct: "@ + e,
                None => r matches Ok(m) && manifest_built(m, d),
            },
        },
{
    match parse_toml(text) {
        Err(e) => Err(cat("Could not parse the plugin manifest toml file: ", e.as_str())),
        Ok(doc) => manifest_from_document(&doc),
    }
}

} // verus!
