//! The command line: its commands, and the small decisions its handlers
//! make (the manifest a new plugin starts from, the language chosen, how
//! listings are laid out, which release file fits the machine, whether an
//! update is due, and the server's HTTP settings).
use vstd::prelude::*;
use crate::store::{check_version, semver_after, semver_error, version_after};
use crate::text::{
    cat, cat3, owned, replace_spec, replace_text, same_text, split_char, split_spec, trim, trim_spec, views,
};

verus! {

broadcast use vstd::std_specs::vec::group_vec_axioms;

/// The commands of the program.
#[allow(inconsistent_fields)]
#[derive(Debug)]
pub enum SubCommands {
    /// Run the MCP server over standard input and output, with the plugins
    /// of the named context or all enabled plugins.
    Stdio { name: Option<String> },
    /// Manage application contexts.
    Context { subcommand: ApplicationContextCommands },
    /// Manage plugins.
    Plugins { subcommand: PluginSubCommands },
    /// Read or clear the server's log.
    Log { clear: bool },
    /// Show the version.
    Version,
    /// Update the program.
    Update,
}

/// The commands that manage plugins.
#[derive(Debug)]
pub enum PluginSubCommands {
    /// Create a new plugin from a template.
    Create { name: Option<String>, path: Option<String>, language: Option<String>, complex_plugin: Option<bool> },
    /// Install plugins from the store.
    Add { ids: Vec<String>, accept_permissions: bool, version: Option<String> },
    /// Set up a plugin's variables and permissions again.
    Setup { id: String, accept_permissions: bool },
    /// List installed plugins, or those of the store.
    List { remote: bool },
    /// Enable a plugin.
    Enable { id: String },
    /// Disable a plugin, keeping its state.
    Disable { id: String },
    /// Remove a plugin.
    Remove { id: String },
    /// Change a plugin's variables.
    Env { id: String },
    /// Change a plugin's permissions.
    Permissions { id: String, accept_permissions: bool },
    /// Read or clear a plugin's log.
    Log { id: String, clear: bool },
    /// Install another version of a plugin.
    Update { id: String, version: Option<String> },
}

/// The commands that manage application contexts.
#[derive(Debug)]
pub enum ApplicationContextCommands {
    /// Create a context with the given plugins.
    Create { name: String, plugins: Vec<String> },
    /// Add a plugin to a context.
    Add { name: String, plugin: String },
    /// Remove a plugin from a context.
    Remove { name: String, plugin: String },
    /// Delete a context.
    Delete { name: String },
    /// List the contexts.
    List,
}

/// The program's command line.
#[derive(Debug)]
pub struct JilebiCli {
    pub subcommand: SubCommands,
}

// ---------------------------------------------------------------------------
// A new plugin.

/// The manifest a new plugin starts with, before its name.
pub const MANIFEST_HEAD: &'static str = "\nname = \"";

/// The manifest a new plugin starts with, after its name.
pub const MANIFEST_TAIL: &'static str = "\"\nversion = \"1.0.0\"\nhomepage = \"\"\ncreator = \"\"\ncontact = \"\"\n\n[resources]\n\n[prompts]\n\n[tools]\n";

/// The manifest of a new plugin named `plugin_name`.
pub fn manifest_code(plugin_name: &str) -> (r: String)
    ensures
        r@ == MANIFEST_HEAD@ + plugin_name@ + MANIFEST_TAIL@,
{
    cat3(MANIFEST_HEAD, plugin_name, MANIFEST_TAIL)
}

/// Where plugins and templates are downloaded from.
pub const DOWNLOAD_URL: &'static str = "https://jilebi.ai/api/download";

/// The address of the downloadable plugin `id`.
pub fn plugin_download_url(id: &str) -> (r: String)
    ensures
        r@ == DOWNLOAD_URL@ + "/plugins/"@ + id@,
{
    cat3(DOWNLOAD_URL, "/plugins/", id)
}

/// The address of the template file `file_name`.
pub fn template_url(file_name: &str) -> (r: String)
    ensures
        r@ == DOWNLOAD_URL@ + "/templates/"@ + file_name@,
{
    cat3(DOWNLOAD_URL, "/templates/", file_name)
}

/// The address of the release file `file_name` of the program itself.
pub fn release_download_url(file_name: &str) -> (r: String)
    ensures
        r@ == DOWNLOAD_URL@ + "/bin/"@ + file_name@,
{
    cat3(DOWNLOAD_URL, "/bin/", file_name)
}

/// The name of the starter archive for a plugin written in `language`.
pub fn template_archive_name(language: &str) -> (r: String)
    ensures
        r@ == language@ + ".zip"@,
{
    cat(language, ".zip")
}

/// The `package.json` of a new plugin: the template's, with every
/// `replace` in it turned into the plugin's name.
pub fn package_json_for(template: &str, plugin_name: &str) -> (r: String)
    ensures
        r@ == replace_spec(template@, "replace"@, plugin_name@),
{
    proof {
        reveal_strlit("replace");
    }
    replace_text(template, "replace", plugin_name)
}

/// `str::to_lowercase` of `s` (lower case by the Unicode `Lowercase`
/// property).
pub uninterp spec fn lowercase(s: Seq<char>) -> Seq<char>;

/// `str::to_lowercase`. Claimed: the result is [`lowercase`] of the text.
#[verifier::external_body]
fn to_lowercase(s: &str) -> (r: String)
    ensures
        r@ == lowercase(s@),
{
    s.to_lowercase()
}

/// The languages a plugin can be written in, in the order they are offered.
pub open spec fn languages() -> Seq<Seq<char>> {
    seq!["JavaScript"@, "TypeScript"@]
}

/// The position of the first language whose lower case is that of `choice`.
pub open spec fn language_position(choice: Seq<char>) -> Option<int> {
    if lowercase(languages()[0]) == lowercase(choice) {
        Some(0)
    } else if lowercase(languages()[1]) == lowercase(choice) {
        Some(1)
    } else {
        None
    }
}

/// The language a lower-cased choice `wanted` names, given the lower-cased
/// names of the two languages: the first that equals it, else refused.
pub fn language_from_lowercase(wanted: &str, javascript: String, typescript: String) -> (r: Result<String, String>)
    ensures
        javascript@ == wanted@ ==> r is Ok && r->Ok_0@ == javascript@,
        javascript@ != wanted@ && typescript@ == wanted@ ==> r is Ok && r->Ok_0@ == typescript@,
        javascript@ != wanted@ && typescript@ != wanted@ ==> r is Err && r->Err_0@ == "Invalid language selected"@,
{
    if same_text(javascript.as_str(), wanted) {
        Ok(javascript)
    } else if same_text(typescript.as_str(), wanted) {
        Ok(typescript)
    } else {
        Err(owned("Invalid language selected"))
    }
}

/// The language a plugin is created in from the name given on the command
/// line, in lower case; a name that is no language, in any case, is refused.
pub fn language_choice(choice: &str) -> (r: Result<String, String>)
    ensures
        match language_position(choice@) {
            Some(i) => r is Ok && r->Ok_0@ == lowercase(languages()[i]),
            None => r is Err && r->Err_0@ == "Invalid language selected"@,
        },
{
    let wanted = to_lowercase(choice);
    let javascript = to_lowercase("JavaScript");
    let typescript = to_lowercase("TypeScript");
    language_from_lowercase(wanted.as_str(), javascript, typescript)
}

/// The language chosen from a menu of [`languages`] by position, in lower
/// case.
pub fn language_at(index: usize) -> (r: String)
    requires
        index < 2,
    ensures
        r@ == lowercase(languages()[index as int]),
{
    if index == 0 {
        to_lowercase("JavaScript")
    } else {
        to_lowercase("TypeScript")
    }
}

// ---------------------------------------------------------------------------
// Listings.

/// `s` padded with spaces on the right to `width` characters (`{:<width}`).
pub open spec fn padded(s: Seq<char>, width: nat) -> Seq<char> {
    if s.len() < width {
        s + Seq::new((width - s.len()) as nat, |i: int| ' ')
    } else {
        s
    }
}

/// Pads `s` with spaces on the right to `width` characters.
pub fn pad_right(s: &str, width: usize) -> (r: String)
    ensures
        r@ == padded(s@, width as nat),
{
    let n = s.unicode_len();
    let mut r = owned(s);
    let mut k: usize = n;
    while k < width
        invariant
            n == s@.len(),
            n <= k <= width || (k == n && n >= width),
            r@ == s@ + Seq::new((k - n) as nat, |i: int| ' '),
        decreases width - k,
    {
        r.append(" ");
        proof {
            reveal_strlit(" ");
        }
        assert(s@ + Seq::new((k + 1 - n) as nat, |i: int| ' ') =~= s@ + Seq::new((k - n) as nat, |i: int| ' ')
            + " "@);
        k = k + 1;
    }
    assert(s@ + Seq::new(0, |i: int| ' ') =~= s@);
    r
}

/// One line of a plugin listing: the columns padded to 30, 10 and 10
/// characters, separated by a space.
pub fn listing_line(name: &str, version: &str, state: &str) -> (r: String)
    ensures
        r@ == padded(name@, 30) + " "@ + padded(version@, 10) + " "@ + padded(state@, 10),
{
    let mut r = pad_right(name, 30);
    r.append(" ");
    let v = pad_right(version, 10);
    r.append(v.as_str());
    r.append(" ");
    let s = pad_right(state, 10);
    r.append(s.as_str());
    r
}

/// The rule under a listing's header: `width` dashes.
pub fn rule_line(width: usize) -> (r: String)
    ensures
        r@ == Seq::new(width as nat, |i: int| '-'),
{
    proof {
        reveal_strlit("-");
    }
    let mut r = String::new();
    let mut k: usize = 0;
    while k < width
        invariant
            k <= width,
            "-"@ == seq!['-'],
            r@ == Seq::new(k as nat, |i: int| '-'),
        decreases width - k,
    {
        r.append("-");
        k = k + 1;
        assert(r@ =~= Seq::new(k as nat, |i: int| '-'));
    }
    r
}

// ---------------------------------------------------------------------------
// Updates.

/// The name a release uses for an operating system.
pub open spec fn release_target_of(os: Seq<char>) -> Option<Seq<char>> {
    if os == "linux"@ {
        Some("unknown-linux-gnu"@)
    } else if os == "windows"@ {
        Some("pc-windows-msvc"@)
    } else if os == "macos"@ || os == "apple"@ {
        Some("apple-darwin"@)
    } else {
        None
    }
}

/// The release name of operating system `os`; others are not supported.
pub fn release_target(os: &str) -> (r: Result<String, String>)
    ensures
        match release_target_of(os@) {
            Some(t) => r is Ok && r->Ok_0@ == t,
            None => r is Err && r->Err_0@ == "Unsupported OS: "@ + os@,
        },
{
    if same_text(os, "linux") {
        Ok(owned("unknown-linux-gnu"))
    } else if same_text(os, "windows") {
        Ok(owned("pc-windows-msvc"))
    } else if same_text(os, "macos") || same_text(os, "apple") {
        Ok(owned("apple-darwin"))
    } else {
        Err(cat("Unsupported OS: ", os))
    }
}

/// The file of a release for an architecture and target.
pub fn release_file_name(arch: &str, target: &str) -> (r: String)
    ensures
        r@ == "jilebi-"@ + arch@ + "-"@ + target@ + ".zip"@,
{
    let mut r = cat3("jilebi-", arch, "-");
    r.append(target);
    r.append(".zip");
    r
}

/// Whether release `latest` is newer than the running `current` one; either
/// not being a version is an error with `semver`'s message, `current`
/// checked first.
pub fn update_available(current: &str, latest: &str) -> (r: Result<bool, String>)
    ensures
        match (semver_error(current@), semver_error(latest@)) {
            (Some(e), _) => r is Err && r->Err_0@ == e,
            (None, Some(e)) => r is Err && r->Err_0@ == e,
            (None, None) => r is Ok && r->Ok_0 == semver_after(latest@, current@),
        },
{
    check_version(current)?;
    check_version(latest)?;
    Ok(version_after(latest, current))
}

// ---------------------------------------------------------------------------
// The server's HTTP settings.

/// The path the MCP endpoint is mounted at: the configured path, with a
/// leading `/` added when it has none; a blank path is refused.
pub fn mcp_path(configured: &str) -> (r: Result<String, String>)
    ensures
        trim_spec(configured@).len() == 0 ==> r is Err && r->Err_0@ == "MCP path cannot be empty"@,
        trim_spec(configured@).len() > 0 && configured@[0] == '/' ==> r is Ok && r->Ok_0@ == configured@,
        trim_spec(configured@).len() > 0 && configured@[0] != '/' ==> r is Ok && r->Ok_0@ == "/"@
            + configured@,
{
    let t = trim(configured);
    if t.unicode_len() == 0 {
        return Err(owned("MCP path cannot be empty"));
    }
    proof {
        lemma_trim_nonempty(configured@);
    }
    if configured.get_char(0) == '/' {
        Ok(owned(configured))
    } else {
        Ok(cat("/", configured))
    }
}

proof fn lemma_trim_nonempty(s: Seq<char>)
    ensures
        trim_spec(s).len() > 0 ==> s.len() > 0,
{
    if s.len() == 0 {
        assert(crate::text::trim_start_spec(s) == s);
        assert(crate::text::trim_end_spec(s) == s);
    }
}

/// The values of a comma-separated setting, as they are.
pub fn cors_env_values(value: &str) -> (r: Vec<String>)
    ensures
        views(r@) == split_spec(value@, ','),
{
    split_char(value, ',')
}

/// Whether the allowed origins let any origin in: one of them is `*`.
pub fn allows_any_origin(origins: &Vec<String>) -> (r: bool)
    ensures
        r == views(origins@).contains("*"@),
{
    crate::permissions::contains_text(origins, "*")
}

} // verus!
