//! What the MCP server decides: how a client's name for a tool, resource or
//! prompt splits into a plugin and an entry, how entries are found among the
//! loaded plugins, how a prompt is rendered and what environment a plugin's
//! script is handed.
use vstd::prelude::*;
use crate::env::PluginEnv;
use crate::keyed::{find_by_key, first_with_key, keys_distinct, put_text, text_map};
use crate::manifest::{JilebiPrompt, JilebiResource, JilebiTool, Manifest, PromptMessage, PromptRole};
use crate::text::{
    cat3, lemma_split_from_grows, lemma_split_from_plain, owned, replace_char, replace_char_spec,
    split_char, split_spec,
};

verus! {

broadcast use vstd::std_specs::vec::group_vec_axioms;

/// The kind of entry a client names.
#[derive(Clone, Copy, Debug, PartialEq, Eq, Structural)]
pub enum McpSection {
    Resource,
    Tool,
    Prompt,
}

/// The name of a kind in messages.
pub open spec fn section_label(s: McpSection) -> Seq<char> {
    match s {
        McpSection::Resource => "Resource"@,
        McpSection::Tool => "Tool"@,
        McpSection::Prompt => "Prompt"@,
    }
}

impl McpSection {
    /// The name of the kind in messages: `Resource`, `Tool` or `Prompt`.
    pub fn label(&self) -> (r: String)
        ensures
            r@ == section_label(*self),
    {
        match self {
            McpSection::Resource => owned("Resource"),
            McpSection::Tool => owned("Tool"),
            McpSection::Prompt => owned("Prompt"),
        }
    }
}

/// The two kinds of error the server answers with.
#[derive(Clone, Copy, Debug, PartialEq, Eq, Structural)]
pub enum McpErrorKind {
    InvalidRequest,
    InternalError,
}

/// An error answered to the client: its kind and message.
#[derive(Debug)]
pub struct McpError {
    pub kind: McpErrorKind,
    pub message: String,
}

/// `e` is an error of kind `kind` saying `message`.
pub open spec fn is_error(e: McpError, kind: McpErrorKind, message: Seq<char>) -> bool {
    e.kind == kind && e.message@ == message
}

fn invalid_request(message: &str) -> (e: McpError)
    ensures
        is_error(e, McpErrorKind::InvalidRequest, message@),
{
    McpError { kind: McpErrorKind::InvalidRequest, message: owned(message) }
}

fn internal_error(message: &str) -> (e: McpError)
    ensures
        is_error(e, McpErrorKind::InternalError, message@),
{
    McpError { kind: McpErrorKind::InternalError, message: owned(message) }
}

// ---------------------------------------------------------------------------
// Names.

/// The plugin and entry a client's name stands for: the pieces before the
/// first and second `_`, with spaces in the entry's piece turned into `-`;
/// none when the name has no `_`.
pub open spec fn name_parts(name: Seq<char>) -> Option<(Seq<char>, Seq<char>)> {
    let parts = split_spec(name, '_');
    if parts.len() < 2 {
        None
    } else {
        Some((parts[0], replace_char_spec(parts[1], ' ', '-')))
    }
}

/// The message for a name without an entry piece.
pub open spec fn name_error_text(section: McpSection) -> Seq<char> {
    "The name of the "@ + section_label(section) + " is incorrect"@
}

/// Splits a client's name for an entry of kind `section` into the plugin's
/// name and the entry's key.
pub fn get_plugin_and_section_name(name: &str, section: McpSection) -> (r: Result<(String, String), McpError>)
    ensures
        match name_parts(name@) {
            Some(parts) => r is Ok && r->Ok_0.0@ == parts.0 && r->Ok_0.1@ == parts.1,
            None => r is Err && is_error(r->Err_0, McpErrorKind::InvalidRequest, name_error_text(section)),
        },
{
    let parts = split_char(name, '_');
    proof {
        lemma_split_from_grows(name@, '_', Seq::empty(), Seq::empty());
    }
    if parts.len() < 2 {
        let label = section.label();
        let message = cat3("The name of the ", label.as_str(), " is incorrect");
        return Err(McpError { kind: McpErrorKind::InvalidRequest, message });
    }
    assert(parts@[0]@ == split_spec(name@, '_')[0]);
    assert(parts@[1]@ == split_spec(name@, '_')[1]);
    let entry = replace_char(parts[1].as_str(), ' ', '-');
    Ok((parts[0].clone(), entry))
}

/// A name made of a plugin's name, `_` and an entry's name, neither holding
/// `_`, splits back into the two, the entry's spaces turned into `-`.
pub proof fn law_qualified_name_splits(plugin: Seq<char>, entry: Seq<char>)
    requires
        !plugin.contains('_'),
        !entry.contains('_'),
    ensures
        name_parts(plugin + "_"@ + entry) == Some((plugin, replace_char_spec(entry, ' ', '-'))),
{
    reveal_strlit("_");
    let rest = seq!['_'] + entry;
    assert(plugin + "_"@ + entry =~= plugin + rest);
    lemma_split_from_plain(plugin, rest, '_', Seq::empty(), Seq::empty());
    assert(Seq::<char>::empty() + plugin =~= plugin);
    assert(rest[0] == '_');
    assert(rest.drop_first() =~= entry);
    assert(entry =~= entry + Seq::<char>::empty());
    lemma_split_from_plain(entry, Seq::empty(), '_', Seq::empty(), seq![plugin]);
    assert(Seq::<char>::empty() + entry =~= entry);
    assert(Seq::<Seq<char>>::empty().push(plugin) =~= seq![plugin]);
    assert(split_spec(plugin + "_"@ + entry, '_') =~= seq![plugin, entry]);
}

// ---------------------------------------------------------------------------
// Finding entries among the loaded plugins.

/// The message for a plugin that is not loaded.
pub open spec fn unknown_plugin_text() -> Seq<char> {
    "The plugin name provided is either invalid or has been removed"@
}

/// The message for an entry the plugin does not offer.
pub open spec fn unknown_entry_text(section: McpSection) -> Seq<char> {
    match section {
        McpSection::Resource => "The resource name provided is either invalid or has been removed"@,
        McpSection::Tool => "The tool name provided is either invalid or has been removed"@,
        McpSection::Prompt => "The prompt name provided is either invalid or has been removed"@,
    }
}

/// The loaded plugin named `plugin_name`.
pub fn find_plugin<'a>(plugins: &'a Vec<(String, Manifest)>, plugin_name: &str) -> (r: Result<&'a Manifest, McpError>)
    ensures
        match first_with_key(plugins@, plugin_name@) {
            Some(m) => r is Ok && *r->Ok_0 == m,
            None => r is Err && is_error(r->Err_0, McpErrorKind::InvalidRequest, unknown_plugin_text()),
        },
{
    match find_by_key(plugins, plugin_name) {
        Some(m) => Ok(m),
        None => Err(invalid_request("The plugin name provided is either invalid or has been removed")),
    }
}

/// The tool under `tool_name` of the loaded plugin `plugin_name`.
pub fn find_tool<'a>(plugins: &'a Vec<(String, Manifest)>, plugin_name: &str, tool_name: &str) -> (r: Result<&'a JilebiTool, McpError>)
    ensures
        match first_with_key(plugins@, plugin_name@) {
            None => r is Err && is_error(r->Err_0, McpErrorKind::InvalidRequest, unknown_plugin_text()),
            Some(m) => match first_with_key(m.tools.0@, tool_name@) {
                Some(t) => r is Ok && *r->Ok_0 == t,
                None => r is Err && is_error(
                    r->Err_0,
                    McpErrorKind::InvalidRequest,
                    unknown_entry_text(McpSection::Tool),
                ),
            },
        },
{
    let plugin = find_plugin(plugins, plugin_name)?;
    match find_by_key(&plugin.tools.0, tool_name) {
        Some(t) => Ok(t),
        None => Err(invalid_request("The tool name provided is either invalid or has been removed")),
    }
}

/// The resource under `resource_name` of the loaded plugin `plugin_name`.
pub fn find_resource<'a>(plugins: &'a Vec<(String, Manifest)>, plugin_name: &str, resource_name: &str) -> (r: Result<&'a JilebiResource, McpError>)
    ensures
        match first_with_key(plugins@, plugin_name@) {
            None => r is Err && is_error(r->Err_0, McpErrorKind::InvalidRequest, unknown_plugin_text()),
            Some(m) => match first_with_key(m.resources.0@, resource_name@) {
                Some(t) => r is Ok && *r->Ok_0 == t,
                None => r is Err && is_error(
                    r->Err_0,
                    McpErrorKind::InvalidRequest,
                    unknown_entry_text(McpSection::Resource),
                ),
            },
        },
{
    let plugin = find_plugin(plugins, plugin_name)?;
    match find_by_key(&plugin.resources.0, resource_name) {
        Some(t) => Ok(t),
        None => Err(invalid_request("The resource name provided is either invalid or has been removed")),
    }
}

/// The prompt under `prompt_name` of the loaded plugin `plugin_name`.
pub fn find_prompt<'a>(plugins: &'a Vec<(String, Manifest)>, plugin_name: &str, prompt_name: &str) -> (r: Result<&'a JilebiPrompt, McpError>)
    ensures
        match first_with_key(plugins@, plugin_name@) {
            None => r is Err && is_error(r->Err_0, McpErrorKind::InvalidRequest, unknown_plugin_text()),
            Some(m) => match first_with_key(m.prompts.0@, prompt_name@) {
                Some(t) => r is Ok && *r->Ok_0 == t,
                None => r is Err && is_error(
                    r->Err_0,
                    McpErrorKind::InvalidRequest,
                    unknown_entry_text(McpSection::Prompt),
                ),
            },
        },
{
    let plugin = find_plugin(plugins, plugin_name)?;
    match find_by_key(&plugin.prompts.0, prompt_name) {
        Some(t) => Ok(t),
        None => Err(invalid_request("The prompt name provided is either invalid or has been removed")),
    }
}

/// A tool is served under the name it is listed by: when its plugin is
/// loaded under the manifest's plugin name, the tool's listed name is that
/// name, `_` and the tool's name (neither holding `_`), and its key in the
/// manifest is its name with spaces turned into `-`, then the listed name
/// splits into the plugin and that key, which find the tool again.
pub proof fn law_listed_tool_resolves(plugins: Seq<(String, Manifest)>, i: int, j: int)
    requires
        0 <= i < plugins.len(),
        0 <= j < plugins[i].1.tools.0@.len(),
        first_with_key(plugins, plugins[i].0@) == Some(plugins[i].1),
        first_with_key(plugins[i].1.tools.0@, plugins[i].1.tools.0@[j].0@) == Some(plugins[i].1.tools.0@[j].1),
        plugins[i].1.tools.0@[j].1.name@ == plugins[i].0@ + "_"@ + plugins[i].1.tools.0@[j].1.title@,
        !plugins[i].0@.contains('_'),
        !plugins[i].1.tools.0@[j].1.title@.contains('_'),
        plugins[i].1.tools.0@[j].0@ == replace_char_spec(plugins[i].1.tools.0@[j].1.title@, ' ', '-'),
    ensures
        name_parts(plugins[i].1.tools.0@[j].1.name@) == Some(
            (plugins[i].0@, plugins[i].1.tools.0@[j].0@),
        ),
        first_with_key(plugins, name_parts(plugins[i].1.tools.0@[j].1.name@)->Some_0.0) == Some(plugins[i].1),
        first_with_key(plugins[i].1.tools.0@, name_parts(plugins[i].1.tools.0@[j].1.name@)->Some_0.1) == Some(
            plugins[i].1.tools.0@[j].1,
        ),
{
    law_qualified_name_splits(plugins[i].0@, plugins[i].1.tools.0@[j].1.title@);
}

/// A resource is read under the URI it is listed with, on the same terms as
/// a tool: its URI is the plugin's name, `_` and the resource's name, and its
/// key is that name with spaces turned into `-`.
pub proof fn law_listed_resource_resolves(plugins: Seq<(String, Manifest)>, i: int, j: int)
    requires
        0 <= i < plugins.len(),
        0 <= j < plugins[i].1.resources.0@.len(),
        first_with_key(plugins, plugins[i].0@) == Some(plugins[i].1),
        first_with_key(plugins[i].1.resources.0@, plugins[i].1.resources.0@[j].0@) == Some(
            plugins[i].1.resources.0@[j].1,
        ),
        plugins[i].1.resources.0@[j].1.uri@ == plugins[i].0@ + "_"@ + plugins[i].1.resources.0@[j].1.name@,
        !plugins[i].0@.contains('_'),
        !plugins[i].1.resources.0@[j].1.name@.contains('_'),
        plugins[i].1.resources.0@[j].0@ == replace_char_spec(plugins[i].1.resources.0@[j].1.name@, ' ', '-'),
    ensures
        name_parts(plugins[i].1.resources.0@[j].1.uri@) == Some(
            (plugins[i].0@, plugins[i].1.resources.0@[j].0@),
        ),
        first_with_key(plugins, name_parts(plugins[i].1.resources.0@[j].1.uri@)->Some_0.0) == Some(
            plugins[i].1,
        ),
        first_with_key(
            plugins[i].1.resources.0@,
            name_parts(plugins[i].1.resources.0@[j].1.uri@)->Some_0.1,
        ) == Some(plugins[i].1.resources.0@[j].1),
{
    law_qualified_name_splits(plugins[i].0@, plugins[i].1.resources.0@[j].1.name@);
}

/// A prompt is served under the name it is listed by, on the same terms:
/// its listed name is the plugin's name, `_` and `title`, the prompt's own
/// name, and its key is that name with spaces turned into `-`.
pub proof fn law_listed_prompt_resolves(plugins: Seq<(String, Manifest)>, i: int, j: int, title: Seq<char>)
    requires
        0 <= i < plugins.len(),
        0 <= j < plugins[i].1.prompts.0@.len(),
        first_with_key(plugins, plugins[i].0@) == Some(plugins[i].1),
        first_with_key(plugins[i].1.prompts.0@, plugins[i].1.prompts.0@[j].0@) == Some(
            plugins[i].1.prompts.0@[j].1,
        ),
        plugins[i].1.prompts.0@[j].1.name@ == plugins[i].0@ + "_"@ + title,
        !plugins[i].0@.contains('_'),
        !title.contains('_'),
        plugins[i].1.prompts.0@[j].0@ == replace_char_spec(title, ' ', '-'),
    ensures
        name_parts(plugins[i].1.prompts.0@[j].1.name@) == Some(
            (plugins[i].0@, plugins[i].1.prompts.0@[j].0@),
        ),
        first_with_key(plugins, name_parts(plugins[i].1.prompts.0@[j].1.name@)->Some_0.0) == Some(plugins[i].1),
        first_with_key(plugins[i].1.prompts.0@, name_parts(plugins[i].1.prompts.0@[j].1.name@)->Some_0.1)
            == Some(plugins[i].1.prompts.0@[j].1),
{
    law_qualified_name_splits(plugins[i].0@, title);
}

// ---------------------------------------------------------------------------
// The environment a plugin's script is handed.

/// The variables `envs` as a map: each sets its name to its value, a later
/// one overriding an earlier.
pub open spec fn variables_spec(envs: Seq<PluginEnv>) -> Map<Seq<char>, Seq<char>>
    decreases envs.len(),
{
    if envs.len() == 0 {
        Map::empty()
    } else {
        variables_spec(envs.drop_last()).insert(envs.last().env_name@, envs.last().value@)
    }
}

/// The environment of plugin `plugin` with variables `envs`: the variables,
/// and `id` naming the plugin, whatever a variable of that name holds.
pub open spec fn environment_spec(plugin: Seq<char>, envs: Seq<PluginEnv>) -> Map<Seq<char>, Seq<char>> {
    variables_spec(envs).insert("id"@, plugin)
}

/// The environment a plugin's script is handed, one entry per name.
pub fn plugin_environment(plugin_name: &str, envs: &Vec<PluginEnv>) -> (r: Vec<(String, String)>)
    ensures
        keys_distinct(r@),
        text_map(r@) == environment_spec(plugin_name@, envs@),
{
    let mut out: Vec<(String, String)> = Vec::new();
    assert(text_map(Seq::<(String, String)>::empty()) =~= Map::<Seq<char>, Seq<char>>::empty());
    let mut i: usize = 0;
    while i < envs.len()
        invariant
            i <= envs.len(),
            keys_distinct(out@),
            text_map(out@) == variables_spec(envs@.take(i as int)),
        decreases envs.len() - i,
    {
        put_text(&mut out, envs[i].env_name.clone(), envs[i].value.clone());
        assert(envs@.take(i + 1).drop_last() =~= envs@.take(i as int));
        i = i + 1;
    }
    assert(envs@.take(i as int) =~= envs@);
    put_text(&mut out, owned("id"), owned(plugin_name));
    out
}

/// The script always finds its own plugin under `id`, and every other
/// variable under its name with the value last given to it.
pub proof fn law_environment_names_the_plugin(plugin: Seq<char>, envs: Seq<PluginEnv>, name: Seq<char>)
    ensures
        environment_spec(plugin, envs).contains_key("id"@),
        environment_spec(plugin, envs)["id"@] == plugin,
        name != "id"@ ==> (environment_spec(plugin, envs).contains_key(name) == variables_spec(envs).contains_key(name)),
        name != "id"@ && variables_spec(envs).contains_key(name) ==> environment_spec(plugin, envs)[name]
            == variables_spec(envs)[name],
{
}

// ---------------------------------------------------------------------------
// Prompts.

/// What `handlebars` renders `template` to, with the prompt's arguments
/// given by the JSON text `arguments` (an object of JSON values); none when
/// that text is no JSON object or `handlebars` refuses the template.
pub uninterp spec fn handlebars_render(template: Seq<char>, arguments: Seq<char>) -> Option<Seq<char>>;

/// Renders `template` with a fresh `handlebars::Handlebars` registry
/// (`Registry::render_template`), the data being the JSON object that
/// `serde_json::from_str` reads from `arguments`, its values kept as JSON
/// values. Claimed: the result is [`handlebars_render`] of the template and
/// the arguments' text; no more is claimed of the rendered text.
#[verifier::external_body]
fn render_template(template: &str, arguments: &str) -> (r: Option<String>)
    ensures
        match r {
            Some(s) => handlebars_render(template@, arguments@) == Some(s@),
            None => handlebars_render(template@, arguments@) is None,
        },
{
    let data: serde_json::Map<String, serde_json::Value> = serde_json::from_str(arguments).ok()?;
    handlebars::Handlebars::new().render_template(template, &data).ok()
}

/// The message for a template the renderer refuses.
pub open spec fn render_error_text() -> Seq<char> {
    "error parsing prompt handlerbars"@
}

/// A message whose template rendered to `rendered`: the same speaker with
/// the rendered text; a refused template is an internal error.
pub fn message_from_render(message: &PromptMessage, rendered: Option<String>) -> (r: Result<PromptMessage, McpError>)
    ensures
        match rendered {
            Some(t) => r is Ok && r->Ok_0.role == message.role && r->Ok_0.text@ == t@,
            None => r is Err && is_error(r->Err_0, McpErrorKind::InternalError, render_error_text()),
        },
{
    match rendered {
        Some(text) => {
            let role = match message.role {
                PromptRole::User => PromptRole::User,
                PromptRole::Assistant => PromptRole::Assistant,
            };
            Ok(PromptMessage { role, text })
        },
        None => Err(internal_error("error parsing prompt handlerbars")),
    }
}

/// Every message renders.
pub open spec fn all_render(messages: Seq<PromptMessage>, arguments: Seq<char>) -> bool {
    forall|i: int| 0 <= i < messages.len() ==> #[trigger] handlebars_render(messages[i].text@, arguments) is Some
}

/// `out` holds `messages`, each rendered with `arguments`.
pub open spec fn rendered_messages(
    out: Seq<PromptMessage>,
    messages: Seq<PromptMessage>,
    arguments: Seq<char>,
) -> bool {
    &&& out.len() == messages.len()
    &&& forall|i: int|
        0 <= i < messages.len() ==> (#[trigger] out[i]).role == messages[i].role && handlebars_render(
            messages[i].text@,
            arguments,
        ) == Some(out[i].text@)
}

/// What a client gets for a prompt: its description and its messages.
#[derive(Debug)]
pub struct PromptReply {
    pub description: Option<String>,
    pub messages: Vec<PromptMessage>,
}

/// Renders every message of `prompt` with the arguments whose JSON text is
/// `arguments`.
pub fn render_prompt(prompt: &JilebiPrompt, arguments: &str) -> (r: Result<PromptReply, McpError>)
    ensures
        all_render(prompt.content@, arguments@) ==> r is Ok && r->Ok_0.description
            == prompt.description && rendered_messages(
            r->Ok_0.messages@,
            prompt.content@,
            arguments@,
        ),
        !all_render(prompt.content@, arguments@) ==> r is Err && is_error(
            r->Err_0,
            McpErrorKind::InternalError,
            render_error_text(),
        ),
{
    let mut out: Vec<PromptMessage> = Vec::new();
    let mut i: usize = 0;
    while i < prompt.content.len()
        invariant
            i <= prompt.content.len(),
            all_render(prompt.content@.take(i as int), arguments@),
            rendered_messages(out@, prompt.content@.take(i as int), arguments@),
        decreases prompt.content.len() - i,
    {
        let rendered = render_template(prompt.content[i].text.as_str(), arguments);
        match message_from_render(&prompt.content[i], rendered) {
            Ok(m) => out.push(m),
            Err(e) => {
                assert(!all_render(prompt.content@, arguments@)) by {
                    assert(handlebars_render(prompt.content@[i as int].text@, arguments@) is None);
                }
                return Err(e);
            },
        }
        assert(prompt.content@.take(i + 1).drop_last() =~= prompt.content@.take(i as int));
        i = i + 1;
        assert forall|j: int| 0 <= j < i implies #[trigger] handlebars_render(
            prompt.content@.take(i as int)[j].text@,
            arguments@,
        ) is Some by {
            if j < i - 1 {
                assert(prompt.content@.take(i as int)[j] == prompt.content@.take(i - 1)[j]);
            }
        }
        assert forall|j: int| 0 <= j < i implies (#[trigger] out@[j]).role == prompt.content@.take(
            i as int,
        )[j].role && handlebars_render(prompt.content@.take(i as int)[j].text@, arguments@)
            == Some(out@[j].text@) by {
            if j < i - 1 {
                assert(prompt.content@.take(i as int)[j] == prompt.content@.take(i - 1)[j]);
            }
        }
    }
    assert(prompt.content@.take(i as int) =~= prompt.content@);
    let description = prompt.description.clone();
    Ok(PromptReply { description, messages: out })
}

/// What a request for prompt `request_name` is answered: the prompt's
/// description and its messages rendered with `arguments`, or the first
/// error among a bad name, an unknown plugin, an unknown prompt and a
/// template that does not render.
pub open spec fn prompt_request_ok(
    plugins: Seq<(String, Manifest)>,
    request_name: Seq<char>,
    arguments: Seq<char>,
    reply: PromptReply,
) -> bool {
    match name_parts(request_name) {
        Some(parts) => match first_with_key(plugins, parts.0) {
            Some(m) => match first_with_key(m.prompts.0@, parts.1) {
                Some(p) => all_render(p.content@, arguments) && reply.description == p.description
                    && rendered_messages(reply.messages@, p.content@, arguments),
                None => false,
            },
            None => false,
        },
        None => false,
    }
}

/// The error a request for prompt `request_name` is answered with, if any.
pub open spec fn prompt_request_error(
    plugins: Seq<(String, Manifest)>,
    request_name: Seq<char>,
    arguments: Seq<char>,
) -> Option<(McpErrorKind, Seq<char>)> {
    match name_parts(request_name) {
        None => Some((McpErrorKind::InvalidRequest, name_error_text(McpSection::Prompt))),
        Some(parts) => match first_with_key(plugins, parts.0) {
            None => Some((McpErrorKind::InvalidRequest, unknown_plugin_text())),
            Some(m) => match first_with_key(m.prompts.0@, parts.1) {
                None => Some((McpErrorKind::InvalidRequest, unknown_entry_text(McpSection::Prompt))),
                Some(p) => if all_render(p.content@, arguments) {
                    None
                } else {
                    Some((McpErrorKind::InternalError, render_error_text()))
                },
            },
        },
    }
}

/// Answers a request for the prompt a client names `request_name`.
pub fn get_prompt(plugins: &Vec<(String, Manifest)>, request_name: &str, arguments: &str) -> (r: Result<PromptReply, McpError>)
    ensures
        match prompt_request_error(plugins@, request_name@, arguments@) {
            Some(e) => r is Err && is_error(r->Err_0, e.0, e.1),
            None => r is Ok && prompt_request_ok(plugins@, request_name@, arguments@, r->Ok_0),
        },
{
    let (plugin_name, prompt_name) = get_plugin_and_section_name(request_name, McpSection::Prompt)?;
    let prompt = find_prompt(plugins, plugin_name.as_str(), prompt_name.as_str())?;
    render_prompt(prompt, arguments)
}

// ---------------------------------------------------------------------------
// Listing what the loaded plugins offer.

/// The tools of every loaded plugin, plugin after plugin, each plugin's in
/// the order of its manifest.
pub open spec fn all_tools(plugins: Seq<(String, Manifest)>) -> Seq<JilebiTool>
    decreases plugins.len(),
{
    if plugins.len() == 0 {
        Seq::empty()
    } else {
        all_tools(plugins.drop_last()) + plugins.last().1.tools.0@.map_values(|e: (String, JilebiTool)| e.1)
    }
}

/// The resources of every loaded plugin, in the same order.
pub open spec fn all_resources(plugins: Seq<(String, Manifest)>) -> Seq<JilebiResource>
    decreases plugins.len(),
{
    if plugins.len() == 0 {
        Seq::empty()
    } else {
        all_resources(plugins.drop_last()) + plugins.last().1.resources.0@.map_values(
            |e: (String, JilebiResource)| e.1,
        )
    }
}

/// The prompts of every loaded plugin, in the same order.
pub open spec fn all_prompts(plugins: Seq<(String, Manifest)>) -> Seq<JilebiPrompt>
    decreases plugins.len(),
{
    if plugins.len() == 0 {
        Seq::empty()
    } else {
        all_prompts(plugins.drop_last()) + plugins.last().1.prompts.0@.map_values(
            |e: (String, JilebiPrompt)| e.1,
        )
    }
}

/// The tools the loaded plugins offer.
pub fn list_tools<'a>(plugins: &'a Vec<(String, Manifest)>) -> (r: Vec<&'a JilebiTool>)
    ensures
        r@.len() == all_tools(plugins@).len(),
        forall|i: int| 0 <= i < r@.len() ==> *#[trigger] r@[i] == all_tools(plugins@)[i],
{
    let mut out: Vec<&'a JilebiTool> = Vec::new();
    let mut p: usize = 0;
    while p < plugins.len()
        invariant
            p <= plugins.len(),
            out@.len() == all_tools(plugins@.take(p as int)).len(),
            forall|i: int| 0 <= i < out@.len() ==> *#[trigger] out@[i] == all_tools(plugins@.take(p as int))[i],
        decreases plugins.len() - p,
    {
        let tools = &plugins[p].1.tools.0;
        let ghost before = out@;
        let ghost done = all_tools(plugins@.take(p as int));
        let mut k: usize = 0;
        while k < tools.len()
            invariant
                k <= tools.len(),
                tools@ == plugins@[p as int].1.tools.0@,
                out@.len() == before.len() + k,
                before.len() == done.len(),
                forall|i: int| 0 <= i < before.len() ==> *#[trigger] out@[i] == done[i],
                forall|i: int| 0 <= i < k ==> *#[trigger] out@[before.len() + i] == tools@[i].1,
            decreases tools.len() - k,
        {
            out.push(&tools[k].1);
            k = k + 1;
        }
        assert(plugins@.take(p + 1).drop_last() =~= plugins@.take(p as int));
        p = p + 1;
        let ghost now = all_tools(plugins@.take(p as int));
        assert forall|i: int| 0 <= i < out@.len() implies *#[trigger] out@[i] == now[i] by {
            if i >= before.len() {
                assert(out@[before.len() + (i - before.len())] == out@[i]);
            }
        }
    }
    assert(plugins@.take(p as int) =~= plugins@);
    out
}

/// The resources the loaded plugins offer.
pub fn list_resources<'a>(plugins: &'a Vec<(String, Manifest)>) -> (r: Vec<&'a JilebiResource>)
    ensures
        r@.len() == all_resources(plugins@).len(),
        forall|i: int| 0 <= i < r@.len() ==> *#[trigger] r@[i] == all_resources(plugins@)[i],
{
    let mut out: Vec<&'a JilebiResource> = Vec::new();
    let mut p: usize = 0;
    while p < plugins.len()
        invariant
            p <= plugins.len(),
            out@.len() == all_resources(plugins@.take(p as int)).len(),
            forall|i: int| 0 <= i < out@.len() ==> *#[trigger] out@[i] == all_resources(plugins@.take(p as int))[i],
        decreases plugins.len() - p,
    {
        let entries = &plugins[p].1.resources.0;
        let ghost before = out@;
        let ghost done = all_resources(plugins@.take(p as int));
        let mut k: usize = 0;
        while k < entries.len()
            invariant
                k <= entries.len(),
                entries@ == plugins@[p as int].1.resources.0@,
                out@.len() == before.len() + k,
                before.len() == done.len(),
                forall|i: int| 0 <= i < before.len() ==> *#[trigger] out@[i] == done[i],
                forall|i: int| 0 <= i < k ==> *#[trigger] out@[before.len() + i] == entries@[i].1,
            decreases entries.len() - k,
        {
            out.push(&entries[k].1);
            k = k + 1;
        }
        assert(plugins@.take(p + 1).drop_last() =~= plugins@.take(p as int));
        p = p + 1;
        let ghost now = all_resources(plugins@.take(p as int));
        assert forall|i: int| 0 <= i < out@.len() implies *#[trigger] out@[i] == now[i] by {
            if i >= before.len() {
                assert(out@[before.len() + (i - before.len())] == out@[i]);
            }
        }
    }
    assert(plugins@.take(p as int) =~= plugins@);
    out
}

/// The prompts the loaded plugins offer.
pub fn list_prompts<'a>(plugins: &'a Vec<(String, Manifest)>) -> (r: Vec<&'a JilebiPrompt>)
    ensures
        r@.len() == all_prompts(plugins@).len(),
        forall|i: int| 0 <= i < r@.len() ==> *#[trigger] r@[i] == all_prompts(plugins@)[i],
{
    let mut out: Vec<&'a JilebiPrompt> = Vec::new();
    let mut p: usize = 0;
    while p < plugins.len()
        invariant
            p <= plugins.len(),
            out@.len() == all_prompts(plugins@.take(p as int)).len(),
            forall|i: int| 0 <= i < out@.len() ==> *#[trigger] out@[i] == all_prompts(plugins@.take(p as int))[i],
        decreases plugins.len() - p,
    {
        let entries = &plugins[p].1.prompts.0;
        let ghost before = out@;
        let ghost done = all_prompts(plugins@.take(p as int));
        let mut k: usize = 0;
        while k < entries.len()
            invariant
                k <= entries.len(),
                entries@ == plugins@[p as int].1.prompts.0@,
                out@.len() == before.len() + k,
                before.len() == done.len(),
                forall|i: int| 0 <= i < before.len() ==> *#[trigger] out@[i] == done[i],
                forall|i: int| 0 <= i < k ==> *#[trigger] out@[before.len() + i] == entries@[i].1,
            decreases entries.len() - k,
        {
            out.push(&entries[k].1);
            k = k + 1;
        }
        assert(plugins@.take(p + 1).drop_last() =~= plugins@.take(p as int));
        p = p + 1;
        let ghost now = all_prompts(plugins@.take(p as int));
        assert forall|i: int| 0 <= i < out@.len() implies *#[trigger] out@[i] == now[i] by {
            if i >= before.len() {
                assert(out@[before.len() + (i - before.len())] == out@[i]);
            }
        }
    }
    assert(plugins@.take(p as int) =~= plugins@);
    out
}

} // verus!
