//! The environment variables and secrets of a plugin: how a manifest
//! declares them, how they are stored, and how they are read back.
use vstd::prelude::*;
use crate::text::{cat, owned, same_text};
use crate::toml_doc::{as_text, entries_model, get_spec, lemma_table_model, str_spec, TomlModel, TomlValue};
use crate::manifest::get_value;

verus! {

broadcast use vstd::std_specs::vec::group_vec_axioms;

/// Whether a variable is an ordinary value or a secret kept in the system's
/// credential store.
#[derive(Clone, Copy, Debug, PartialEq, Eq, Structural, Hash)]
pub enum EnvType {
    Normal,
    Secret,
}

impl Default for EnvType {
    fn default() -> (r: EnvType)
        ensures
            r == EnvType::Normal,
    {
        EnvType::Normal
    }
}

/// One variable of a plugin: its name, value, kind and the JSON schema its
/// value must follow.
#[derive(Clone, Debug, PartialEq, Eq, Hash)]
pub struct PluginEnv {
    pub env_name: String,
    pub value: String,
    pub env_type: EnvType,
    pub schema: String,
}

impl Default for PluginEnv {
    fn default() -> (r: PluginEnv)
        ensures
            r.env_name@ == Seq::<char>::empty(),
            r.value@ == Seq::<char>::empty(),
            r.env_type == EnvType::Normal,
            r.schema@ == Seq::<char>::empty(),
    {
        PluginEnv { env_name: String::new(), value: String::new(), env_type: EnvType::Normal, schema: String::new() }
    }
}

/// The name of a kind as it is displayed: `Normal` or `Secret`.
pub open spec fn kind_label(t: EnvType) -> Seq<char> {
    match t {
        EnvType::Normal => "Normal"@,
        EnvType::Secret => "Secret"@,
    }
}

/// The text a kind is stored as: `normal` or `secret`.
pub open spec fn stored_type_text(t: EnvType) -> Seq<char> {
    match t {
        EnvType::Normal => "normal"@,
        EnvType::Secret => "secret"@,
    }
}

/// What reading a stored kind gives.
pub open spec fn env_type_from_text(s: Seq<char>) -> Result<EnvType, Seq<char>> {
    if s == "secret"@ {
        Ok(EnvType::Secret)
    } else if s == "normal"@ {
        Ok(EnvType::Normal)
    } else {
        Err("Invalid EnvType: "@ + s)
    }
}

impl EnvType {
    /// Reads a stored kind: `secret` or `normal`, nothing else.
    pub fn try_from(value: String) -> (r: Result<EnvType, String>)
        ensures
            match env_type_from_text(value@) {
                Ok(t) => r == Ok::<EnvType, String>(t),
                Err(e) => r matches Err(m) && m@ == e,
            },
    {
        if same_text(value.as_str(), "secret") {
            Ok(EnvType::Secret)
        } else if same_text(value.as_str(), "normal") {
            Ok(EnvType::Normal)
        } else {
            Err(cat("Invalid EnvType: ", value.as_str()))
        }
    }

    /// The displayed name of the kind.
    pub fn to_display(&self) -> (r: String)
        ensures
            r@ == kind_label(*self),
    {
        match self {
            EnvType::Normal => owned("Normal"),
            EnvType::Secret => owned("Secret"),
        }
    }

    /// The text the kind is stored as (its displayed name in lower case).
    pub fn stored_text(&self) -> (r: String)
        ensures
            r@ == stored_type_text(*self),
    {
        match self {
            EnvType::Normal => owned("normal"),
            EnvType::Secret => owned("secret"),
        }
    }
}

impl PluginEnv {
    pub fn new(env_name: String, value: String, env_type: EnvType, schema: String) -> (r: PluginEnv)
        ensures
            r.env_name == env_name,
            r.value == value,
            r.env_type == env_type,
            r.schema == schema,
    {
        PluginEnv { env_name, value, env_type, schema }
    }
}

/// The text stored in place of a secret's value.
pub open spec fn secret_placeholder() -> Seq<char> {
    "set-in-credential-manager"@
}

/// A variable as it is stored: the row of the plugin's variables, and, for a
/// secret, the value to put in the credential store.
#[derive(Debug)]
pub struct StoredEnv {
    pub env_type: String,
    pub env_name: String,
    pub value: String,
    pub schema: String,
    pub secret: Option<String>,
}

/// How `env` is stored: its kind as text, its name and schema; an ordinary
/// value in the row, a secret in the credential store with a placeholder in
/// the row.
pub fn stored_env(env: &PluginEnv) -> (r: StoredEnv)
    ensures
        r.env_type@ == stored_type_text(env.env_type),
        r.env_name@ == env.env_name@,
        r.schema@ == env.schema@,
        env.env_type == EnvType::Normal ==> r.value@ == env.value@ && r.secret is None,
        env.env_type == EnvType::Secret ==> r.value@ == secret_placeholder() && (r.secret matches Some(
            s,
        ) && s@ == env.value@),
{
    match env.env_type {
        EnvType::Secret => StoredEnv {
            env_type: env.env_type.stored_text(),
            env_name: env.env_name.clone(),
            value: owned("set-in-credential-manager"),
            schema: env.schema.clone(),
            secret: Some(env.value.clone()),
        },
        EnvType::Normal => StoredEnv {
            env_type: env.env_type.stored_text(),
            env_name: env.env_name.clone(),
            value: env.value.clone(),
            schema: env.schema.clone(),
            secret: None,
        },
    }
}

/// The value a stored variable reads as: an ordinary value from its row, a
/// secret from the credential store (empty when the store has none).
pub open spec fn read_value(t: EnvType, row_value: Seq<char>, secret: Option<Seq<char>>) -> Seq<char> {
    match t {
        EnvType::Normal => row_value,
        EnvType::Secret => match secret {
            Some(s) => s,
            None => Seq::empty(),
        },
    }
}

/// Reads a stored variable back: its kind from the stored text, its value
/// by [`read_value`] with `secret` the credential store's answer.
pub fn env_from_storage(
    env_name: String,
    row_value: String,
    type_text: String,
    schema: String,
    secret: Option<String>,
) -> (r: Result<PluginEnv, String>)
    ensures
        match env_type_from_text(type_text@) {
            Err(e) => r matches Err(m) && m@ == e,
            Ok(t) => r matches Ok(env) && env.env_name == env_name && env.env_type == t && env.schema
                == schema && env.value@ == read_value(
                t,
                row_value@,
                match secret {
                    Some(s) => Some(s@),
                    None => None,
                },
            ),
        },
{
    let env_type = match EnvType::try_from(type_text) {
        Ok(t) => t,
        Err(e) => {
            return Err(e);
        },
    };
    let value = match env_type {
        EnvType::Normal => row_value,
        EnvType::Secret => match secret {
            Some(s) => s,
            None => String::new(),
        },
    };
    Ok(PluginEnv::new(env_name, value, env_type, schema))
}

/// Storing a variable and reading it back gives the same variable, when the
/// credential store returns what a secret put there.
pub proof fn law_stored_env_reads_back(env: PluginEnv, stored: StoredEnv)
    requires
        stored.env_type@ == stored_type_text(env.env_type),
        stored.env_name@ == env.env_name@,
        stored.schema@ == env.schema@,
        env.env_type == EnvType::Normal ==> stored.value@ == env.value@,
        env.env_type == EnvType::Secret ==> (stored.secret matches Some(s) && s@ == env.value@),
    ensures
        env_type_from_text(stored.env_type@) == Ok::<EnvType, Seq<char>>(env.env_type),
        read_value(
            env.env_type,
            stored.value@,
            match stored.secret {
                Some(s) => Some(s@),
                None => None,
            },
        ) == env.value@,
{
    reveal_strlit("normal");
    reveal_strlit("secret");
    assert("normal"@ != "secret"@) by {
        assert("normal"@[0] != "secret"@[0]);
    }
}

/// A variable as a manifest declares it: its name, default value, kind and
/// schema (the value the app writes out as the schema's JSON text).
#[derive(Debug)]
pub struct EnvDeclaration {
    pub env_name: String,
    pub default_value: String,
    pub env_type: EnvType,
    pub schema: TomlValue,
}

/// The error a declaration `properties` of `name` makes, if any: it must
/// give a `schema`.
pub open spec fn declaration_error(name: Seq<char>, properties: TomlModel) -> Option<Seq<char>> {
    match get_spec(properties, "schema"@) {
        None => Some("Could not find schema for env "@ + name + " in manifest"@),
        Some(_) => None,
    }
}

/// `d` is what the valid declaration `properties` of `name` declares. An
/// ordinary variable takes its `default` text; a secret has no default, so
/// the user always gives its value.
pub open spec fn declaration_built(d: EnvDeclaration, name: Seq<char>, properties: TomlModel, t: EnvType) -> bool {
    &&& d.env_name@ == name
    &&& d.env_type == t
    &&& Some(d.schema.model()) == get_spec(properties, "schema"@)
    &&& d.default_value@ == match (t, str_spec(get_spec(properties, "default"@))) {
        (EnvType::Normal, Some(s)) => s,
        _ => Seq::empty(),
    }
}

/// Reads the declaration of variable `env_name` of kind `env_type`.
pub fn env_declaration(env_name: &str, properties: &TomlValue, env_type: EnvType) -> (r: Result<EnvDeclaration, String>)
    ensures
        match declaration_error(env_name@, properties.model()) {
            Some(e) => r matches Err(m) && m@ == e,
            None => r matches Ok(d) && declaration_built(d, env_name@, properties.model(), env_type),
        },
{
    let schema = match get_value(properties, "schema") {
        Some(s) => s.deep_copy(),
        None => {
            let mut m = cat("Could not find schema for env ", env_name);
            m.append(" in manifest");
            return Err(m);
        },
    };
    let default_value = match (env_type, get_value(properties, "default")) {
        (EnvType::Normal, Some(d)) => match as_text(d) {
            Some(s) => s,
            None => String::new(),
        },
        _ => String::new(),
    };
    Ok(EnvDeclaration { env_name: owned(env_name), default_value, env_type, schema })
}

/// The entries of a table under `key` of the document, none when absent or
/// not a table.
pub open spec fn table_entries(doc: TomlModel, key: Seq<char>) -> Seq<(Seq<char>, TomlModel)> {
    match get_spec(doc, key) {
        Some(TomlModel::Table(t)) => t,
        _ => Seq::empty(),
    }
}

/// The declarations of a manifest in order: every `env` entry (ordinary),
/// then every `secrets` entry.
pub open spec fn all_declarations(doc: TomlModel) -> Seq<(Seq<char>, TomlModel, EnvType)> {
    table_entries(doc, "env"@).map_values(|e: (Seq<char>, TomlModel)| (e.0, e.1, EnvType::Normal))
        + table_entries(doc, "secrets"@).map_values(|e: (Seq<char>, TomlModel)| (e.0, e.1, EnvType::Secret))
}

/// The error of the first declaration that makes one.
pub open spec fn first_declaration_error(ds: Seq<(Seq<char>, TomlModel, EnvType)>) -> Option<Seq<char>>
    decreases ds.len(),
{
    if ds.len() == 0 {
        None
    } else {
        match declaration_error(ds[0].0, ds[0].1) {
            Some(e) => Some(e),
            None => first_declaration_error(ds.drop_first()),
        }
    }
}

proof fn lemma_first_declaration_error_append(a: Seq<(Seq<char>, TomlModel, EnvType)>, b: Seq<(Seq<char>, TomlModel, EnvType)>)
    ensures
        first_declaration_error(a + b) == match first_declaration_error(a) {
            Some(e) => Some(e),
            None => first_declaration_error(b),
        },
    decreases a.len(),
{
    if a.len() == 0 {
        assert(a + b =~= b);
    } else {
        assert((a + b).drop_first() =~= a.drop_first() + b);
        lemma_first_declaration_error_append(a.drop_first(), b);
    }
}

fn table_under<'a>(doc: &'a TomlValue, key: &str, empty: &'a Vec<(String, TomlValue)>) -> (r: &'a Vec<(String, TomlValue)>)
    requires
        empty@.len() == 0,
    ensures
        entries_model(r@) == table_entries(doc.model(), key@),
{
    match get_value(doc, key) {
        Some(TomlValue::Table(t)) => {
            proof {
                lemma_table_model(*t);
            }
            t
        },
        _ => {
            assert(entries_model(empty@) =~= Seq::<(Seq<char>, TomlModel)>::empty());
            empty
        },
    }
}

/// Reads the declarations of one table in order, appending them to `out`.
fn read_declarations(
    t: &Vec<(String, TomlValue)>,
    env_type: EnvType,
    out: &mut Vec<EnvDeclaration>,
) -> (r: Result<(), String>)
    ensures
        match first_declaration_error(
            entries_model(t@).map_values(|e: (Seq<char>, TomlModel)| (e.0, e.1, env_type)),
        ) {
            Some(e) => r matches Err(m) && m@ == e,
            None => r is Ok && final(out)@.len() == old(out)@.len() + t@.len() && (forall|j: int|
                0 <= j < old(out)@.len() ==> #[trigger] final(out)@[j] == old(out)@[j]) && forall|j: int|
                0 <= j < t@.len() ==> declaration_built(
                    #[trigger] final(out)@[old(out)@.len() + j],
                    t@[j].0@,
                    t@[j].1.model(),
                    env_type,
                ),
        },
{
    let ghost ds = entries_model(t@).map_values(|e: (Seq<char>, TomlModel)| (e.0, e.1, env_type));
    let ghost start = out@.len();
    let mut i: usize = 0;
    assert(ds.skip(0) =~= ds);
    while i < t.len()
        invariant
            i <= t.len(),
            ds == entries_model(t@).map_values(|e: (Seq<char>, TomlModel)| (e.0, e.1, env_type)),
            first_declaration_error(ds) == first_declaration_error(ds.skip(i as int)),
            out@.len() == start + i,
            start == old(out)@.len(),
            forall|j: int| 0 <= j < start ==> #[trigger] out@[j] == old(out)@[j],
            forall|j: int|
                0 <= j < i ==> declaration_built(
                    #[trigger] out@[start + j],
                    t@[j].0@,
                    t@[j].1.model(),
                    env_type,
                ),
        decreases t.len() - i,
    {
        assert(ds.skip(i as int).drop_first() =~= ds.skip(i + 1));
        assert(ds.skip(i as int)[0] == (t@[i as int].0@, t@[i as int].1.model(), env_type));
        match env_declaration(t[i].0.as_str(), &t[i].1, env_type) {
            Ok(d) => out.push(d),
            Err(e) => {
                return Err(e);
            },
        }
        i = i + 1;
    }
    assert(ds.skip(i as int) =~= Seq::<(Seq<char>, TomlModel, EnvType)>::empty());
    Ok(())
}

/// The variables and secrets a manifest document declares: every entry of
/// its `env` table as an ordinary variable, then every entry of its
/// `secrets` table as a secret (a missing or non-table section declares
/// none); the first declaration without a schema makes the error.
pub fn get_envs_from_manifest(doc: &TomlValue) -> (r: Result<Vec<EnvDeclaration>, String>)
    ensures
        match first_declaration_error(all_declarations(doc.model())) {
            Some(e) => r matches Err(m) && m@ == e,
            None => r matches Ok(v) && v@.len() == all_declarations(doc.model()).len() && forall|j: int|
                0 <= j < v@.len() ==> declaration_built(
                    #[trigger] v@[j],
                    all_declarations(doc.model())[j].0,
                    all_declarations(doc.model())[j].1,
                    all_declarations(doc.model())[j].2,
                ),
        },
{
    let empty: Vec<(String, TomlValue)> = Vec::new();
    let envs = table_under(doc, "env", &empty);
    let secrets = table_under(doc, "secrets", &empty);
    let ghost a = entries_model(envs@).map_values(|e: (Seq<char>, TomlModel)| (e.0, e.1, EnvType::Normal));
    let ghost b = entries_model(secrets@).map_values(|e: (Seq<char>, TomlModel)| (e.0, e.1, EnvType::Secret));
    assert(all_declarations(doc.model()) =~= a + b);
    proof {
        lemma_first_declaration_error_append(a, b);
    }
    let mut out: Vec<EnvDeclaration> = Vec::new();
    match read_declarations(envs, EnvType::Normal, &mut out) {
        Ok(()) => {},
        Err(e) => {
            return Err(e);
        },
    }
    let ghost mid = out@;
    assert(mid.len() == a.len());
    match read_declarations(secrets, EnvType::Secret, &mut out) {
        Ok(()) => {},
        Err(e) => {
            return Err(e);
        },
    }
    assert forall|j: int| 0 <= j < out@.len() implies declaration_built(
        #[trigger] out@[j],
        (a + b)[j].0,
        (a + b)[j].1,
        (a + b)[j].2,
    ) by {
        if j < a.len() {
            assert((a + b)[j] == a[j]);
            assert(out@[j] == mid[j]);
            assert(mid[0 + j] == mid[j]);
        } else {
            let k = j - a.len();
            assert((a + b)[j] == b[k]);
            assert(out@[mid.len() + k] == out@[j]);
        }
    }
    Ok(out)
}

} // verus!
