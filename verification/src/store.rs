//! The plugin store: which object a download names, which version of a
//! plugin or release is the newest, what the plugin listing shows and what a
//! plugin's page returns. Objects are named by keys such as
//! `plugins/<name>/<version>/plugin.zip` and `bin/<version>/<file>`.
use vstd::prelude::*;
use crate::keyed::key_position;
use crate::text::{
    cat, cat3, is_prefix, lemma_split_from_grows, owned, same_text, split_char, split_spec, starts_with,
    views,
};
use crate::toml_doc::{entries_model, lemma_table_model, TomlModel, TomlValue};

verus! {

broadcast use vstd::std_specs::vec::group_vec_axioms;

/// The three kinds of file the store serves.
#[derive(Clone, Copy, Debug, PartialEq, Eq, Structural)]
pub enum FileType {
    Plugins,
    Bin,
    Templates,
}

/// The text a kind of file is named by, in paths and in the statistics.
pub open spec fn file_type_text(t: FileType) -> Seq<char> {
    match t {
        FileType::Plugins => "plugins"@,
        FileType::Bin => "bin"@,
        FileType::Templates => "templates"@,
    }
}

/// The kind of file a path segment names, if any.
pub open spec fn file_type_from_text(s: Seq<char>) -> Option<FileType> {
    if s == "plugins"@ {
        Some(FileType::Plugins)
    } else if s == "bin"@ {
        Some(FileType::Bin)
    } else if s == "templates"@ {
        Some(FileType::Templates)
    } else {
        None
    }
}

impl FileType {
    /// The kind's name in lower case.
    pub fn to_display(&self) -> (r: String)
        ensures
            r@ == file_type_text(*self),
    {
        match self {
            FileType::Plugins => owned("plugins"),
            FileType::Bin => owned("bin"),
            FileType::Templates => owned("templates"),
        }
    }

    /// Reads a kind from its lower-case name.
    pub fn from_text(s: &str) -> (r: Option<FileType>)
        ensures
            r == file_type_from_text(s@),
    {
        if same_text(s, "plugins") {
            Some(FileType::Plugins)
        } else if same_text(s, "bin") {
            Some(FileType::Bin)
        } else if same_text(s, "templates") {
            Some(FileType::Templates)
        } else {
            None
        }
    }
}

/// A kind of file reads back from its name.
pub proof fn law_file_type_reads_back(t: FileType)
    ensures
        file_type_from_text(file_type_text(t)) == Some(t),
{
    reveal_strlit("plugins");
    reveal_strlit("bin");
    reveal_strlit("templates");
    assert("plugins"@ != "bin"@) by {
        assert("plugins"@.len() != "bin"@.len());
    }
    assert("plugins"@ != "templates"@) by {
        assert("plugins"@.len() != "templates"@.len());
    }
    assert("bin"@ != "templates"@) by {
        assert("bin"@.len() != "templates"@.len());
    }
}

/// How often a file was downloaded.
#[derive(Debug)]
pub struct DownloadStat {
    pub id: i64,
    pub name: String,
    pub count: i64,
    pub file_type: FileType,
}

/// The optional version a request asks for.
#[derive(Debug)]
pub struct PluginQuery {
    pub version: Option<String>,
}

/// What can go wrong in the store.
#[derive(Debug)]
pub enum AppError {
    PluginNotFound(String),
    BinaryNotFound(String),
    TemplateNotFound(String),
    BadRequest(String),
    D1Error(String),
    R2Error(String),
    InternalError(String),
}

/// The HTTP status an error is answered with.
pub open spec fn error_status(e: AppError) -> u16 {
    match e {
        AppError::PluginNotFound(_) | AppError::BinaryNotFound(_) | AppError::TemplateNotFound(_) => 404,
        AppError::BadRequest(_) => 400,
        _ => 500,
    }
}

/// The message an error carries.
pub open spec fn error_message(e: AppError) -> Seq<char> {
    match e {
        AppError::PluginNotFound(m) => m@,
        AppError::BinaryNotFound(m) => m@,
        AppError::TemplateNotFound(m) => m@,
        AppError::BadRequest(m) => m@,
        AppError::D1Error(m) => m@,
        AppError::R2Error(m) => m@,
        AppError::InternalError(m) => m@,
    }
}

/// `e` is an internal error saying `m`.
pub open spec fn internal_error_saying(e: AppError, m: Seq<char>) -> bool {
    e matches AppError::InternalError(x) && x@ == m
}

impl AppError {
    /// The status and body an error is answered with: not found for a
    /// missing plugin, binary or template, bad request for a bad request,
    /// an internal error otherwise; the body is the error's message.
    pub fn status_and_message(&self) -> (r: (u16, String))
        ensures
            r.0 == error_status(*self),
            r.1@ == error_message(*self),
    {
        match self {
            AppError::PluginNotFound(m) => (404, m.clone()),
            AppError::BinaryNotFound(m) => (404, m.clone()),
            AppError::TemplateNotFound(m) => (404, m.clone()),
            AppError::BadRequest(m) => (400, m.clone()),
            AppError::D1Error(m) => (500, m.clone()),
            AppError::R2Error(m) => (500, m.clone()),
            AppError::InternalError(m) => (500, m.clone()),
        }
    }
}

// ---------------------------------------------------------------------------
// Versions.

/// What `semver::Version::parse` reports of `text`: none when it reads as a
/// version, otherwise the message of its error.
pub uninterp spec fn semver_error(text: Seq<char>) -> Option<Seq<char>>;

/// Whether the version in `a` orders after the version in `b` (`semver`'s
/// `Ord` for `Version`).
pub uninterp spec fn semver_after(a: Seq<char>, b: Seq<char>) -> bool;

/// The text `semver` displays the version in `text` as.
pub uninterp spec fn semver_display(text: Seq<char>) -> Seq<char>;

/// `semver::Version::parse`. Claimed: it succeeds exactly when
/// [`semver_error`] is none, and otherwise fails with that message; a
/// version it reads does not order after itself (`Version`'s `Ord` is a
/// total order).
#[verifier::external_body]
pub(crate) fn check_version(text: &str) -> (r: Result<(), String>)
    ensures
        match semver_error(text@) {
            None => r is Ok,
            Some(e) => r is Err && r->Err_0@ == e,
        },
        r is Ok ==> !semver_after(text@, text@),
{
    match semver::Version::parse(text) {
        Ok(_) => Ok(()),
        Err(e) => Err(e.to_string()),
    }
}

/// `>` on `semver::Version`, for two texts that parse. Claimed: the result
/// is [`semver_after`] of the texts; and, as `Version`'s `Ord` is a total
/// order, when `a` orders after `b` then `b` does not order after `a`, and
/// when it does not, every version after `b` is after `a` too.
#[verifier::external_body]
pub(crate) fn version_after(a: &str, b: &str) -> (r: bool)
    requires
        semver_error(a@) is None,
        semver_error(b@) is None,
    ensures
        r == semver_after(a@, b@),
        r ==> !semver_after(b@, a@),
        !r ==> forall|s: Seq<char>|
            semver_error(s) is None && #[trigger] semver_after(s, b@) ==> semver_after(s, a@),
{
    match (semver::Version::parse(a), semver::Version::parse(b)) {
        (Ok(x), Ok(y)) => x > y,
        _ => false,
    }
}

/// `Display` of the `semver::Version` a text parses to. Claimed: the result
/// is [`semver_display`] of the text.
#[verifier::external_body]
fn version_text(text: &str) -> (r: String)
    requires
        semver_error(text@) is None,
    ensures
        r@ == semver_display(text@),
{
    match semver::Version::parse(text) {
        Ok(v) => v.to_string(),
        Err(_) => String::new(),
    }
}

/// The greatest of `versions` in `semver`'s order, read left to right as
/// `Iterator::max` does: on a tie the later one.
pub open spec fn newest(versions: Seq<Seq<char>>) -> Option<Seq<char>>
    decreases versions.len(),
{
    if versions.len() == 0 {
        None
    } else {
        match newest(versions.drop_last()) {
            None => Some(versions.last()),
            Some(best) => if semver_after(best, versions.last()) {
                Some(best)
            } else {
                Some(versions.last())
            },
        }
    }
}

/// The `n`-th `/`-separated piece of a key, if it has one.
pub open spec fn key_piece(key: Seq<char>, n: int) -> Option<Seq<char>> {
    let pieces = split_spec(key, '/');
    if 0 <= n < pieces.len() {
        Some(pieces[n])
    } else {
        None
    }
}

/// The version a key gives a plugin, if any: keys that start with
/// `plugins/<plugin>` give their third piece when it is a version.
pub open spec fn plugin_version_of(plugin: Seq<char>, key: Seq<char>) -> Option<Seq<char>> {
    if is_prefix("plugins/"@ + plugin, key) {
        match key_piece(key, 2) {
            Some(v) => if semver_error(v) is None {
                Some(v)
            } else {
                None
            },
            None => None,
        }
    } else {
        None
    }
}

/// The version a key gives a release, if any: keys of more than two pieces
/// give their second piece when it is a version.
pub open spec fn release_version_of(key: Seq<char>) -> Option<Seq<char>> {
    if split_spec(key, '/').len() > 2 && semver_error(split_spec(key, '/')[1]) is None {
        Some(split_spec(key, '/')[1])
    } else {
        None
    }
}

/// The versions the keys give a plugin, in order.
pub open spec fn plugin_versions(plugin: Seq<char>, keys: Seq<Seq<char>>) -> Seq<Seq<char>>
    decreases keys.len(),
{
    if keys.len() == 0 {
        Seq::empty()
    } else {
        let front = plugin_versions(plugin, keys.drop_last());
        match plugin_version_of(plugin, keys.last()) {
            Some(v) => front.push(v),
            None => front,
        }
    }
}

/// The versions the keys give releases, in order.
pub open spec fn release_versions(keys: Seq<Seq<char>>) -> Seq<Seq<char>>
    decreases keys.len(),
{
    if keys.len() == 0 {
        Seq::empty()
    } else {
        let front = release_versions(keys.drop_last());
        match release_version_of(keys.last()) {
            Some(v) => front.push(v),
            None => front,
        }
    }
}

/// No version of `versions` orders after `v`.
pub open spec fn none_after(versions: Seq<Seq<char>>, v: Seq<char>) -> bool {
    forall|i: int| 0 <= i < versions.len() ==> !semver_after(#[trigger] versions[i], v)
}

/// Keeps the newer of `best` and `candidate` as `Iterator::max` does.
fn keep_newest(best: Option<String>, candidate: String, Ghost(seen): Ghost<Seq<Seq<char>>>) -> (r: Option<String>)
    requires
        match best {
            None => newest(seen) is None,
            Some(b) => newest(seen) == Some(b@) && none_after(seen, b@),
        },
        forall|i: int| 0 <= i < seen.len() ==> semver_error(#[trigger] seen[i]) is None,
        semver_error(candidate@) is None,
        !semver_after(candidate@, candidate@),
    ensures
        r is Some && newest(seen.push(candidate@)) == Some(r->Some_0@),
        r is Some && none_after(seen.push(candidate@), r->Some_0@),
{
    assert(seen.push(candidate@).drop_last() =~= seen);
    match best {
        None => {
            proof {
                lemma_newest_empty(seen);
            }
            assert(seen.push(candidate@) =~= seq![candidate@]);
            Some(candidate)
        },
        Some(b) => {
            proof {
                lemma_newest_valid(seen);
            }
            let after = version_after(b.as_str(), candidate.as_str());
            if after {
                assert forall|i: int| 0 <= i < seen.push(candidate@).len() implies !semver_after(
                    #[trigger] seen.push(candidate@)[i],
                    b@,
                ) by {
                    if i < seen.len() {
                        assert(seen.push(candidate@)[i] == seen[i]);
                    }
                }
                Some(b)
            } else {
                assert forall|i: int| 0 <= i < seen.push(candidate@).len() implies !semver_after(
                    #[trigger] seen.push(candidate@)[i],
                    candidate@,
                ) by {
                    if i < seen.len() {
                        assert(seen.push(candidate@)[i] == seen[i]);
                        assert(semver_error(seen[i]) is None);
                        assert(!semver_after(seen[i], b@));
                    }
                }
                Some(candidate)
            }
        },
    }
}

proof fn lemma_newest_empty(versions: Seq<Seq<char>>)
    requires
        newest(versions) is None,
    ensures
        versions.len() == 0,
{
    if versions.len() > 0 {
        match newest(versions.drop_last()) {
            None => {},
            Some(_) => {},
        }
    }
}

proof fn lemma_newest_valid(versions: Seq<Seq<char>>)
    requires
        forall|i: int| 0 <= i < versions.len() ==> semver_error(#[trigger] versions[i]) is None,
    ensures
        newest(versions) matches Some(v) ==> semver_error(v) is None,
    decreases versions.len(),
{
    if versions.len() > 0 {
        assert forall|i: int| 0 <= i < versions.drop_last().len() implies semver_error(
            #[trigger] versions.drop_last()[i],
        ) is None by {
            assert(versions.drop_last()[i] == versions[i]);
        }
        lemma_newest_valid(versions.drop_last());
        assert(semver_error(versions[versions.len() - 1]) is None);
    }
}

proof fn lemma_plugin_versions_valid(plugin: Seq<char>, keys: Seq<Seq<char>>)
    ensures
        forall|i: int| 0 <= i < plugin_versions(plugin, keys).len() ==> semver_error(
            #[trigger] plugin_versions(plugin, keys)[i],
        ) is None,
    decreases keys.len(),
{
    if keys.len() > 0 {
        lemma_plugin_versions_valid(plugin, keys.drop_last());
    }
}

proof fn lemma_release_versions_valid(keys: Seq<Seq<char>>)
    ensures
        forall|i: int| 0 <= i < release_versions(keys).len() ==> semver_error(
            #[trigger] release_versions(keys)[i],
        ) is None,
    decreases keys.len(),
{
    if keys.len() > 0 {
        lemma_release_versions_valid(keys.drop_last());
    }
}

/// The version key `key` gives plugin `plugin`, if any.
fn plugin_version_in(prefix: &str, key: &str, Ghost(plugin): Ghost<Seq<char>>) -> (r: Option<String>)
    requires
        prefix@ == "plugins/"@ + plugin,
    ensures
        match plugin_version_of(plugin, key@) {
            Some(v) => r is Some && r->Some_0@ == v,
            None => r is None,
        },
        r is Some ==> !semver_after(r->Some_0@, r->Some_0@),
{
    if !starts_with(key, prefix) {
        return None;
    }
    let pieces = split_char(key, '/');
    if pieces.len() <= 2 {
        return None;
    }
    assert(pieces@[2]@ == split_spec(key@, '/')[2]);
    match check_version(pieces[2].as_str()) {
        Ok(()) => Some(pieces[2].clone()),
        Err(_) => None,
    }
}

/// The newest version of plugin `plugin_name` among the store's keys, as
/// `semver` displays it; an internal error when no key gives one. No
/// version the keys give the plugin orders after the one chosen.
pub fn parse_latest_plugin_version(plugin_name: &str, keys: &Vec<String>) -> (r: Result<String, AppError>)
    ensures
        match newest(plugin_versions(plugin_name@, views(keys@))) {
            Some(v) => r is Ok && r->Ok_0@ == semver_display(v) && none_after(
                plugin_versions(plugin_name@, views(keys@)),
                v,
            ),
            None => r is Err && internal_error_saying(r->Err_0, "Failed to parse plugin version"@),
        },
{
    let prefix = cat("plugins/", plugin_name);
    let mut best: Option<String> = None;
    let mut i: usize = 0;
    while i < keys.len()
        invariant
            i <= keys.len(),
            prefix@ == "plugins/"@ + plugin_name@,
            match best {
                None => newest(plugin_versions(plugin_name@, views(keys@.take(i as int)))) is None,
                Some(b) => newest(plugin_versions(plugin_name@, views(keys@.take(i as int)))) == Some(b@)
                    && none_after(plugin_versions(plugin_name@, views(keys@.take(i as int))), b@),
            },
        decreases keys.len() - i,
    {
        let ghost seen = plugin_versions(plugin_name@, views(keys@.take(i as int)));
        assert(views(keys@.take(i + 1)).drop_last() =~= views(keys@.take(i as int)));
        assert(views(keys@.take(i + 1)).last() == keys@[i as int]@);
        proof {
            lemma_plugin_versions_valid(plugin_name@, views(keys@.take(i as int)));
        }
        match plugin_version_in(prefix.as_str(), keys[i].as_str(), Ghost(plugin_name@)) {
            Some(v) => {
                best = keep_newest(best, v, Ghost(seen));
            },
            None => {},
        }
        i = i + 1;
    }
    assert(keys@.take(i as int) =~= keys@);
    match best {
        Some(b) => {
            proof {
                lemma_plugin_versions_valid(plugin_name@, views(keys@));
                lemma_newest_valid(plugin_versions(plugin_name@, views(keys@)));
            }
            Ok(version_text(b.as_str()))
        },
        None => Err(AppError::InternalError(owned("Failed to parse plugin version"))),
    }
}

/// The newest release among the store's `bin` keys, as `semver` displays
/// it; an internal error when no key gives one. No release the keys give
/// orders after the one chosen.
pub fn latest_release_version(keys: &Vec<String>) -> (r: Result<String, AppError>)
    ensures
        match newest(release_versions(views(keys@))) {
            Some(v) => r is Ok && r->Ok_0@ == semver_display(v) && none_after(release_versions(views(keys@)), v),
            None => r is Err && internal_error_saying(r->Err_0, "Failed to parse release version"@),
        },
{
    let mut best: Option<String> = None;
    let mut i: usize = 0;
    while i < keys.len()
        invariant
            i <= keys.len(),
            match best {
                None => newest(release_versions(views(keys@.take(i as int)))) is None,
                Some(b) => newest(release_versions(views(keys@.take(i as int)))) == Some(b@) && none_after(
                    release_versions(views(keys@.take(i as int))),
                    b@,
                ),
            },
        decreases keys.len() - i,
    {
        let ghost seen = release_versions(views(keys@.take(i as int)));
        assert(views(keys@.take(i + 1)).drop_last() =~= views(keys@.take(i as int)));
        assert(views(keys@.take(i + 1)).last() == keys@[i as int]@);
        proof {
            lemma_release_versions_valid(views(keys@.take(i as int)));
        }
        let pieces = split_char(keys[i].as_str(), '/');
        if pieces.len() > 2 {
            assert(pieces@[1]@ == split_spec(keys@[i as int]@, '/')[1]);
            match check_version(pieces[1].as_str()) {
                Ok(()) => {
                    best = keep_newest(best, pieces[1].clone(), Ghost(seen));
                },
                Err(_) => {},
            }
        }
        i = i + 1;
    }
    assert(keys@.take(i as int) =~= keys@);
    match best {
        Some(b) => {
            proof {
                lemma_release_versions_valid(views(keys@));
                lemma_newest_valid(release_versions(views(keys@)));
            }
            Ok(version_text(b.as_str()))
        },
        None => Err(AppError::InternalError(owned("Failed to parse release version"))),
    }
}

// ---------------------------------------------------------------------------
// Downloads.

/// The plugin a download name stands for: the name up to its first `.`.
pub fn plugin_base_name(name: &str) -> (r: String)
    ensures
        r@ == split_spec(name@, '.')[0],
{
    let pieces = split_char(name, '.');
    proof {
        lemma_split_from_grows(name@, '.', Seq::empty(), Seq::empty());
    }
    assert(pieces@[0]@ == split_spec(name@, '.')[0]);
    pieces[0].clone()
}

/// The key of the object a download serves: a plugin's package at the
/// given version, a release's file at the given version, or a template.
pub open spec fn object_key(file_type: FileType, name: Seq<char>, version: Seq<char>) -> Seq<char> {
    match file_type {
        FileType::Plugins => "plugins/"@ + split_spec(name, '.')[0] + "/"@ + version + "/plugin.zip"@,
        FileType::Bin => "bin/"@ + version + "/"@ + name,
        FileType::Templates => "templates/"@ + name,
    }
}

/// The key of the object a download of `name` serves, at `version` (which
/// a template does not use).
pub fn download_object_key(file_type: FileType, name: &str, version: &str) -> (r: String)
    ensures
        r@ == object_key(file_type, name@, version@),
{
    match file_type {
        FileType::Plugins => {
            let base = plugin_base_name(name);
            let mut r = cat3("plugins/", base.as_str(), "/");
            r.append(version);
            r.append("/plugin.zip");
            r
        },
        FileType::Bin => {
            let mut r = cat3("bin/", version, "/");
            r.append(name);
            r
        },
        FileType::Templates => cat("templates/", name),
    }
}

/// The downloads a plugin's page shows: the first recorded count, or none.
pub fn first_download_count(stats: &Vec<DownloadStat>) -> (r: i64)
    ensures
        r == (if stats@.len() > 0 {
            stats@[0].count
        } else {
            0
        }),
{
    if stats.len() > 0 {
        stats[0].count
    } else {
        0
    }
}

/// The count a served download is recorded with: one more than the first
/// recorded count, or one when none was recorded.
pub fn download_count_after(stats: &Vec<DownloadStat>) -> (r: i64)
    requires
        stats@.len() > 0 ==> stats@[0].count < i64::MAX,
    ensures
        r == (if stats@.len() > 0 {
            stats@[0].count + 1
        } else {
            1
        }),
{
    if stats.len() > 0 {
        stats[0].count + 1
    } else {
        1
    }
}

/// How the store answers a download request.
#[derive(Debug)]
pub enum DownloadReply {
    /// Status 200: the stored file's bytes with `content_type`, the file's
    /// download count being recorded as `count`.
    Serve { status: u16, content_type: String, count: i64 },
    /// Status 404 with `body`; nothing is recorded.
    NotFound { status: u16, body: String },
}

/// The answer to a download: `stored` is the file's stored content type
/// where the file was found (itself `None` when the file records none), and
/// `stats` the download records of the file. A found file is served with
/// its content type, `application/octet-stream` by default, and its count
/// goes up by one; a missing one is answered `404 File not found`.
pub fn download_reply(stored: Option<Option<String>>, stats: &Vec<DownloadStat>) -> (r: DownloadReply)
    requires
        stored is Some && stats@.len() > 0 ==> stats@[0].count < i64::MAX,
    ensures
        match stored {
            Some(ct) => r matches DownloadReply::Serve { status, content_type, count } && status == 200
                && content_type@ == (match ct {
                Some(t) => t@,
                None => "application/octet-stream"@,
            }) && count == (if stats@.len() > 0 {
                stats@[0].count + 1
            } else {
                1
            }),
            None => r matches DownloadReply::NotFound { status, body } && status == 404 && body@
                == "File not found"@,
        },
{
    match stored {
        Some(ct) => {
            let content_type = match ct {
                Some(t) => t,
                None => owned("application/octet-stream"),
            };
            DownloadReply::Serve { status: 200, content_type, count: download_count_after(stats) }
        },
        None => DownloadReply::NotFound { status: 404, body: owned("File not found") },
    }
}

// ---------------------------------------------------------------------------
// The listing of plugins.

/// The plugin a key names, if any: keys of more than two pieces name their
/// second piece.
pub open spec fn listed_plugin_of(key: Seq<char>) -> Option<Seq<char>> {
    if split_spec(key, '/').len() > 2 {
        Some(split_spec(key, '/')[1])
    } else {
        None
    }
}

/// The plugins the keys name, each once, in order of first appearance.
pub open spec fn listed_plugins(keys: Seq<Seq<char>>) -> Seq<Seq<char>>
    decreases keys.len(),
{
    if keys.len() == 0 {
        Seq::empty()
    } else {
        let front = listed_plugins(keys.drop_last());
        match listed_plugin_of(keys.last()) {
            Some(p) => if front.contains(p) {
                front
            } else {
                front.push(p)
            },
            None => front,
        }
    }
}

/// The count last recorded under `name`, if any.
pub open spec fn recorded_count(stats: Seq<DownloadStat>, name: Seq<char>) -> Option<i64>
    decreases stats.len(),
{
    if stats.len() == 0 {
        None
    } else if stats.last().name@ == name {
        Some(stats.last().count)
    } else {
        recorded_count(stats.drop_last(), name)
    }
}

/// One plugin as the listing shows it.
#[derive(Debug)]
pub struct PluginSummary {
    pub name: String,
    pub version: String,
    pub download_count: i64,
}

/// `s` shows plugin `p`: its newest version and the downloads recorded for
/// its package.
pub open spec fn summary_of(s: PluginSummary, p: Seq<char>, keys: Seq<Seq<char>>, stats: Seq<DownloadStat>) -> bool {
    &&& s.name@ == p
    &&& newest(plugin_versions(p, keys)) matches Some(v) && s.version@ == semver_display(v)
    &&& s.download_count == match recorded_count(stats, p + ".zip"@) {
        Some(c) => c,
        None => 0,
    }
}

fn recorded_downloads(stats: &Vec<DownloadStat>, name: &str) -> (r: i64)
    ensures
        r == match recorded_count(stats@, name@) {
            Some(c) => c,
            None => 0,
        },
{
    let mut i: usize = stats.len();
    assert(stats@.take(i as int) =~= stats@);
    while i > 0
        invariant
            i <= stats.len(),
            recorded_count(stats@, name@) == recorded_count(stats@.take(i as int), name@),
        decreases i,
    {
        assert(stats@.take(i as int).drop_last() =~= stats@.take(i - 1));
        if same_text(stats[i - 1].name.as_str(), name) {
            return stats[i - 1].count;
        }
        i = i - 1;
    }
    assert(stats@.take(0) =~= Seq::<DownloadStat>::empty());
    0
}

fn listed_plugin_names(keys: &Vec<String>) -> (r: Vec<String>)
    ensures
        views(r@) == listed_plugins(views(keys@)),
{
    let mut out: Vec<String> = Vec::new();
    let mut i: usize = 0;
    while i < keys.len()
        invariant
            i <= keys.len(),
            views(out@) == listed_plugins(views(keys@.take(i as int))),
        decreases keys.len() - i,
    {
        assert(views(keys@.take(i + 1)).drop_last() =~= views(keys@.take(i as int)));
        assert(views(keys@.take(i + 1)).last() == keys@[i as int]@);
        let pieces = split_char(keys[i].as_str(), '/');
        if pieces.len() > 2 {
            assert(pieces@[1]@ == split_spec(keys@[i as int]@, '/')[1]);
            if !crate::permissions::contains_text(&out, pieces[1].as_str()) {
                let ghost before = out@;
                out.push(pieces[1].clone());
                assert(views(out@) =~= views(before).push(pieces@[1]@));
            }
        }
        i = i + 1;
    }
    assert(keys@.take(i as int) =~= keys@);
    out
}

/// The listing of the store's plugins: each plugin the keys name, once, in
/// order of first appearance, with its newest version and the downloads
/// recorded for `<name>.zip` (the last record under that name); an
/// internal error when a listed plugin has no version.
pub fn plugin_listing(keys: &Vec<String>, stats: &Vec<DownloadStat>) -> (r: Result<Vec<PluginSummary>, AppError>)
    ensures
        (forall|j: int|
            0 <= j < listed_plugins(views(keys@)).len() ==> #[trigger] newest(
                plugin_versions(listed_plugins(views(keys@))[j], views(keys@)),
            ) is Some) ==> r is Ok && r->Ok_0@.len() == listed_plugins(views(keys@)).len() && forall|j: int|
            0 <= j < r->Ok_0@.len() ==> summary_of(
                #[trigger] r->Ok_0@[j],
                listed_plugins(views(keys@))[j],
                views(keys@),
                stats@,
            ),
        !(forall|j: int|
            0 <= j < listed_plugins(views(keys@)).len() ==> #[trigger] newest(
                plugin_versions(listed_plugins(views(keys@))[j], views(keys@)),
            ) is Some) ==> r is Err && internal_error_saying(r->Err_0, "Failed to parse plugin version"@),
{
    let names = listed_plugin_names(keys);
    let ghost listed = listed_plugins(views(keys@));
    let mut out: Vec<PluginSummary> = Vec::new();
    let mut i: usize = 0;
    while i < names.len()
        invariant
            i <= names.len(),
            views(names@) == listed,
            listed == listed_plugins(views(keys@)),
            out@.len() == i,
            forall|j: int| 0 <= j < i ==> #[trigger] newest(plugin_versions(listed[j], views(keys@))) is Some,
            forall|j: int| 0 <= j < i ==> summary_of(#[trigger] out@[j], listed[j], views(keys@), stats@),
        decreases names.len() - i,
    {
        assert(listed[i as int] == names@[i as int]@);
        let version = match parse_latest_plugin_version(names[i].as_str(), keys) {
            Ok(v) => v,
            Err(e) => {
                return Err(e);
            },
        };
        let package = cat(names[i].as_str(), ".zip");
        let download_count = recorded_downloads(stats, package.as_str());
        out.push(PluginSummary { name: names[i].clone(), version, download_count });
        i = i + 1;
    }
    Ok(out)
}

// ---------------------------------------------------------------------------
// A plugin's page.

/// The key of a plugin's manifest at a version.
pub fn manifest_object_key(name: &str, version: &str) -> (r: String)
    ensures
        r@ == "plugins/"@ + name@ + "/"@ + version@ + "/manifest.toml"@,
{
    let mut r = cat3("plugins/", name, "/");
    r.append(version);
    r.append("/manifest.toml");
    r
}

/// The entries of a table with `key` set to `value`: the first entry under
/// `key` takes the value, or a new entry is added at the end.
pub open spec fn put_entry(t: Seq<(Seq<char>, TomlModel)>, key: Seq<char>, value: TomlModel) -> Seq<(Seq<char>, TomlModel)>
    decreases t.len(),
{
    if t.len() == 0 {
        seq![(key, value)]
    } else if t[0].0 == key {
        seq![(key, value)] + t.drop_first()
    } else {
        seq![t[0]] + put_entry(t.drop_first(), key, value)
    }
}

proof fn lemma_put_entry_at(t: Seq<(Seq<char>, TomlModel)>, key: Seq<char>, value: TomlModel, i: int)
    requires
        0 <= i < t.len(),
        t[i].0 == key,
        forall|j: int| 0 <= j < i ==> t[j].0 != key,
    ensures
        put_entry(t, key, value) == t.update(i, (key, value)),
    decreases i,
{
    if i == 0 {
        assert(seq![(key, value)] + t.drop_first() =~= t.update(0, (key, value)));
    } else {
        assert(t[0].0 != key);
        lemma_put_entry_at(t.drop_first(), key, value, i - 1);
        assert(seq![t[0]] + t.drop_first().update(i - 1, (key, value)) =~= t.update(i, (key, value)));
    }
}

proof fn lemma_put_entry_new(t: Seq<(Seq<char>, TomlModel)>, key: Seq<char>, value: TomlModel)
    requires
        forall|j: int| 0 <= j < t.len() ==> t[j].0 != key,
    ensures
        put_entry(t, key, value) == t.push((key, value)),
    decreases t.len(),
{
    if t.len() > 0 {
        assert(t[0].0 != key);
        lemma_put_entry_new(t.drop_first(), key, value);
        assert(seq![t[0]] + t.drop_first().push((key, value)) =~= t.push((key, value)));
    } else {
        assert(seq![(key, value)] =~= t.push((key, value)));
    }
}

/// A plugin's manifest document with its download count added under
/// `downloads`; an internal error when the document is not a table.
pub fn manifest_with_downloads(doc: TomlValue, downloads: i64) -> (r: Result<Vec<(String, TomlValue)>, AppError>)
    ensures
        match doc.model() {
            TomlModel::Table(t) => r is Ok && entries_model(r->Ok_0@) == put_entry(
                t,
                "downloads"@,
                TomlModel::Int(downloads),
            ),
            _ => r is Err && internal_error_saying(r->Err_0, "could not parse to hashmap"@),
        },
{
    match doc {
        TomlValue::Table(t) => {
            proof {
                lemma_table_model(t);
            }
            let mut t = t;
            let ghost before = entries_model(t@);
            match key_position(&t, "downloads") {
                Some(i) => {
                    t.set(i, (owned("downloads"), TomlValue::Int(downloads)));
                    proof {
                        lemma_put_entry_at(before, "downloads"@, TomlModel::Int(downloads), i as int);
                    }
                    assert(entries_model(t@) =~= before.update(i as int, ("downloads"@, TomlModel::Int(downloads))));
                },
                None => {
                    t.push((owned("downloads"), TomlValue::Int(downloads)));
                    proof {
                        lemma_put_entry_new(before, "downloads"@, TomlModel::Int(downloads));
                    }
                    assert(entries_model(t@) =~= before.push(("downloads"@, TomlModel::Int(downloads))));
                },
            }
            Ok(t)
        },
        _ => Err(AppError::InternalError(owned("could not parse to hashmap"))),
    }
}

} // verus!
