//! What a plugin function may touch: the six permission sets of a tool or a
//! resource, the decisions the script runtime asks of them, how a manifest
//! declares them, and how the user grants them.
use vstd::prelude::*;
use crate::text::{
    cat, cat3, cat4, is_prefix, owned, same_text, split_char, split_spec, starts_with, trim,
    trim_spec, views,
};
use crate::origin::{law_url_names_its_host, plain_host_char, same_url_host, url_host};
use crate::toml_doc::{entries_model, lemma_array_model, lemma_table_model, TomlModel, TomlValue};

verus! {

broadcast use vstd::std_specs::vec::group_vec_axioms;

/// The permissions of one tool or resource. Each field is a set of texts;
/// order and repetition carry no meaning.
#[derive(Debug)]
pub struct JilebiPermissions {
    pub hosts: Vec<String>,
    pub urls: Vec<String>,
    pub read_files: Vec<String>,
    pub write_files: Vec<String>,
    pub read_dirs: Vec<String>,
    pub write_dirs: Vec<String>,
}

/// The six permission sets, in the order in which the user is asked.
#[derive(Debug)]
pub enum PermissionKind {
    Hosts,
    ReadDirs,
    WriteDirs,
    Urls,
    ReadFiles,
    WriteFiles,
}

/// Why the runtime refused an operation.
#[derive(Debug)]
pub enum DenialReason {
    UrlNotDeclared,
    FileReadNotDeclared,
    FileWriteNotDeclared,
    HostNotDeclared,
    SystemCall,
    EnvironmentRead,
    Execution,
    Socket,
}

/// A refusal: what was refused (`access`) and why.
#[derive(Debug)]
pub struct PermissionDenied {
    pub access: String,
    pub reason: DenialReason,
}

pub open spec fn reason_text(r: DenialReason) -> Seq<char> {
    match r {
        DenialReason::UrlNotDeclared => "The url is not allowed to be accessed by your plugin. Declare these permissions in your plugin manifest"@,
        DenialReason::FileReadNotDeclared => "the file cannot be read because it was not declared in the plugin manifest under read_files, read_dirs"@,
        DenialReason::FileWriteNotDeclared => "the file cannot be written to since it has not been declared in the plugin manifest under write_files, write_dirs"@,
        DenialReason::HostNotDeclared => "The url is not allowed to be accessed by your plugin. Declare these permissions in your plugin manifest under hosts"@,
        DenialReason::SystemCall => "system calls are not allowed"@,
        DenialReason::EnvironmentRead => "Environment variables cannot be read"@,
        DenialReason::Execution => "Execution commands are not allowed"@,
        DenialReason::Socket => "socket commands are not allowed"@,
    }
}

impl DenialReason {
    /// The explanation shown to the plugin.
    pub fn message(&self) -> (r: &'static str)
        ensures
            r@ == reason_text(*self),
    {
        match self {
            DenialReason::UrlNotDeclared => "The url is not allowed to be accessed by your plugin. Declare these permissions in your plugin manifest",
            DenialReason::FileReadNotDeclared => "the file cannot be read because it was not declared in the plugin manifest under read_files, read_dirs",
            DenialReason::FileWriteNotDeclared => "the file cannot be written to since it has not been declared in the plugin manifest under write_files, write_dirs",
            DenialReason::HostNotDeclared => "The url is not allowed to be accessed by your plugin. Declare these permissions in your plugin manifest under hosts",
            DenialReason::SystemCall => "system calls are not allowed",
            DenialReason::EnvironmentRead => "Environment variables cannot be read",
            DenialReason::Execution => "Execution commands are not allowed",
            DenialReason::Socket => "socket commands are not allowed",
        }
    }
}

/// `s` is one of the texts in `v`.
pub open spec fn holds(v: Vec<String>, s: Seq<char>) -> bool {
    views(v@).contains(s)
}

/// Some text in `v` is a prefix of `s`.
pub open spec fn under_some(v: Vec<String>, s: Seq<char>) -> bool {
    exists|i: int| 0 <= i < v@.len() && is_prefix(v@[i]@, s)
}

/// A declared host `entry` grants `url`: the URL starts with the entry's
/// text (and so with its scheme), and both name the same host, so that a
/// longer host such as `site.com.evil.io` is not granted by `site.com`.
pub open spec fn host_grants(entry: Seq<char>, url: Seq<char>) -> bool {
    is_prefix(entry, url) && url_host(entry) is Some && url_host(entry) == url_host(url)
}

/// Some declared host in `v` grants `url`.
pub open spec fn host_covers(v: Vec<String>, url: Seq<char>) -> bool {
    exists|i: int| 0 <= i < v@.len() && host_grants(v@[i]@, url)
}

/// A URL may be fetched: a declared host grants it or it is a declared URL.
pub open spec fn url_allowed(p: JilebiPermissions, url: Seq<char>) -> bool {
    host_covers(p.hosts, url) || holds(p.urls, url)
}

/// A path may be read: it is a declared read file or lies under a declared
/// read directory (by text prefix).
pub open spec fn read_allowed(p: JilebiPermissions, path: Seq<char>) -> bool {
    holds(p.read_files, path) || under_some(p.read_dirs, path)
}

/// A path may be written: it is a declared write file or lies under a
/// declared write directory (by text prefix).
pub open spec fn write_allowed(p: JilebiPermissions, path: Seq<char>) -> bool {
    holds(p.write_files, path) || under_some(p.write_dirs, path)
}

/// A path may be opened for reading and/or writing: each access asked for
/// needs its own permission; an open that asks for neither needs some file
/// or directory permission to cover the path.
pub open spec fn open_allowed(p: JilebiPermissions, read: bool, write: bool, path: Seq<char>) -> bool {
    if read || write {
        (read ==> read_allowed(p, path)) && (write ==> write_allowed(p, path))
    } else {
        read_allowed(p, path) || write_allowed(p, path)
    }
}

/// A host may be connected to: it is a declared host.
pub open spec fn host_allowed(p: JilebiPermissions, host: Seq<char>) -> bool {
    holds(p.hosts, host)
}

/// `r` is a refusal of `access` for `reason`.
pub open spec fn denied(r: Result<(), PermissionDenied>, access: Seq<char>, reason: DenialReason) -> bool {
    match r {
        Ok(_) => false,
        Err(d) => d.access@ == access && d.reason == reason,
    }
}

/// Whether `s` is one of the texts in `v`.
pub fn contains_text(v: &Vec<String>, s: &str) -> (r: bool)
    ensures
        r == holds(*v, s@),
{
    let mut i: usize = 0;
    while i < v.len()
        invariant
            i <= v.len(),
            forall|j: int| 0 <= j < i ==> v@[j]@ != s@,
        decreases v.len() - i,
    {
        if same_text(v[i].as_str(), s) {
            assert(views(v@)[i as int] == s@);
            return true;
        }
        i = i + 1;
    }
    assert(!views(v@).contains(s@)) by {
        if views(v@).contains(s@) {
            let k = choose|k: int| 0 <= k < views(v@).len() && views(v@)[k] == s@;
            assert(v@[k]@ == s@);
        }
    }
    false
}

/// Whether some declared host in `v` grants `url`.
pub fn host_in(v: &Vec<String>, url: &str) -> (r: bool)
    ensures
        r == host_covers(*v, url@),
{
    let mut i: usize = 0;
    while i < v.len()
        invariant
            i <= v.len(),
            forall|j: int| 0 <= j < i ==> !host_grants(#[trigger] v@[j]@, url@),
        decreases v.len() - i,
    {
        if starts_with(url, v[i].as_str()) && same_url_host(v[i].as_str(), url) {
            return true;
        }
        i = i + 1;
    }
    false
}

/// Whether some text in `v` is a prefix of `s`.
pub fn prefix_in(v: &Vec<String>, s: &str) -> (r: bool)
    ensures
        r == under_some(*v, s@),
{
    let mut i: usize = 0;
    while i < v.len()
        invariant
            i <= v.len(),
            forall|j: int| 0 <= j < i ==> !is_prefix(v@[j]@, s@),
        decreases v.len() - i,
    {
        if starts_with(s, v[i].as_str()) {
            return true;
        }
        i = i + 1;
    }
    false
}

/// An independent copy of a list of texts.
pub fn copy_texts(v: &Vec<String>) -> (r: Vec<String>)
    ensures
        r@ == v@,
{
    let mut r: Vec<String> = Vec::new();
    let mut i: usize = 0;
    while i < v.len()
        invariant
            i <= v.len(),
            r@ == v@.take(i as int),
        decreases v.len() - i,
    {
        r.push(v[i].clone());
        i = i + 1;
        assert(r@ =~= v@.take(i as int));
    }
    assert(v@.take(v.len() as int) =~= v@);
    r
}

/// No text occurs twice in `s`.
pub open spec fn no_repeats(s: Seq<Seq<char>>) -> bool {
    forall|i: int, j: int| 0 <= i < j < s.len() ==> s[i] != s[j]
}

/// The texts of `s` with every repetition dropped, each kept where it first
/// occurs: `s` read as a set.
pub open spec fn first_occurrences(s: Seq<Seq<char>>) -> Seq<Seq<char>>
    decreases s.len(),
{
    if s.len() == 0 {
        Seq::empty()
    } else {
        let d = first_occurrences(s.drop_last());
        if d.contains(s.last()) {
            d
        } else {
            d.push(s.last())
        }
    }
}

/// Dropping repetitions keeps exactly the texts there were, once each, and
/// leaves a sequence without repetitions as it is.
pub proof fn law_first_occurrences(s: Seq<Seq<char>>)
    ensures
        no_repeats(first_occurrences(s)),
        forall|x: Seq<char>| #[trigger] first_occurrences(s).contains(x) <==> s.contains(x),
        no_repeats(s) ==> first_occurrences(s) == s,
    decreases s.len(),
{
    if s.len() > 0 {
        let t = s.drop_last();
        law_first_occurrences(t);
        let d = first_occurrences(t);
        assert forall|x: Seq<char>| #[trigger] first_occurrences(s).contains(x) <==> s.contains(x) by {
            if s.contains(x) && x != s.last() {
                let k = choose|k: int| 0 <= k < s.len() && s[k] == x;
                assert(t[k] == x);
                assert(t.contains(x));
            }
            if t.contains(x) {
                let k = choose|k: int| 0 <= k < t.len() && t[k] == x;
                assert(s[k] == x);
            }
            if d.contains(x) {
                let k = choose|k: int| 0 <= k < d.len() && d[k] == x;
                assert(d.push(s.last())[k] == x);
            }
            assert(s[s.len() - 1] == s.last());
            if !d.contains(s.last()) {
                assert(d.push(s.last())[d.len() as int] == s.last());
            }
        }
        if no_repeats(s) {
            assert(no_repeats(t));
            assert(!t.contains(s.last())) by {
                if t.contains(s.last()) {
                    let k = choose|k: int| 0 <= k < t.len() && t[k] == s.last();
                    assert(s[k] == s[s.len() - 1]);
                }
            }
            assert(s =~= t.push(s.last()));
        }
    }
}

/// The texts of `v`, each once, where it first occurs.
pub fn distinct_texts(v: &Vec<String>) -> (r: Vec<String>)
    ensures
        views(r@) == first_occurrences(views(v@)),
{
    let mut out: Vec<String> = Vec::new();
    let mut i: usize = 0;
    while i < v.len()
        invariant
            i <= v.len(),
            views(out@) == first_occurrences(views(v@).take(i as int)),
        decreases v.len() - i,
    {
        assert(views(v@).take(i + 1).drop_last() =~= views(v@).take(i as int));
        assert(views(v@).take(i + 1).last() == v@[i as int]@);
        if !contains_text(&out, v[i].as_str()) {
            let ghost before = views(out@);
            out.push(v[i].clone());
            assert(views(out@) =~= before.push(v@[i as int]@));
        }
        i = i + 1;
    }
    assert(views(v@).take(i as int) =~= views(v@));
    out
}

/// Each of the six sets holds every text at most once.
pub open spec fn well_formed(p: JilebiPermissions) -> bool {
    &&& no_repeats(views(p.hosts@))
    &&& no_repeats(views(p.urls@))
    &&& no_repeats(views(p.read_files@))
    &&& no_repeats(views(p.write_files@))
    &&& no_repeats(views(p.read_dirs@))
    &&& no_repeats(views(p.write_dirs@))
}

impl JilebiPermissions {
    /// No permission at all.
    pub fn empty() -> (r: JilebiPermissions)
        ensures
            well_formed(r),
            r.hosts@.len() == 0,
            r.urls@.len() == 0,
            r.read_files@.len() == 0,
            r.write_files@.len() == 0,
            r.read_dirs@.len() == 0,
            r.write_dirs@.len() == 0,
    {
        JilebiPermissions {
            hosts: Vec::new(),
            urls: Vec::new(),
            read_files: Vec::new(),
            write_files: Vec::new(),
            read_dirs: Vec::new(),
            write_dirs: Vec::new(),
        }
    }

    /// An independent copy.
    pub fn copy(&self) -> (r: JilebiPermissions)
        ensures
            same_permissions(r, *self),
            well_formed(*self) ==> well_formed(r),
    {
        JilebiPermissions {
            hosts: copy_texts(&self.hosts),
            urls: copy_texts(&self.urls),
            read_files: copy_texts(&self.read_files),
            write_files: copy_texts(&self.write_files),
            read_dirs: copy_texts(&self.read_dirs),
            write_dirs: copy_texts(&self.write_dirs),
        }
    }

    /// High-resolution time is always available to plugins.
    pub fn allow_hrtime(&self) -> (r: bool)
        ensures
            r,
    {
        true
    }

    /// May a plugin fetch `url`? Refused with `NETWORK_FETCH_DENIED: <api>`.
    pub fn check_url(&self, url: &str, api_name: &str) -> (r: Result<(), PermissionDenied>)
        ensures
            r is Ok <==> url_allowed(*self, url@),
            !url_allowed(*self, url@) ==> denied(
                r,
                "NETWORK_FETCH_DENIED: "@ + api_name@,
                DenialReason::UrlNotDeclared,
            ),
    {
        let hostname_match = host_in(&self.hosts, url);
        let url_match = contains_text(&self.urls, url);
        if hostname_match || url_match {
            Ok(())
        } else {
            Err(
                PermissionDenied {
                    access: cat("NETWORK_FETCH_DENIED: ", api_name),
                    reason: DenialReason::UrlNotDeclared,
                },
            )
        }
    }

    /// May a plugin open `path` for reading (`read`) and/or writing
    /// (`write`)? A path that is not valid UTF-8 comes as `None` and is never
    /// allowed.
    pub fn check_open(&self, read: bool, write: bool, path: Option<&str>) -> (r: bool)
        ensures
            r == match path {
                Some(p) => open_allowed(*self, read, write, p@),
                None => false,
            },
    {
        match path {
            None => false,
            Some(p) => {
                let can_read = contains_text(&self.read_files, p) || prefix_in(&self.read_dirs, p);
                let can_write = contains_text(&self.write_files, p) || prefix_in(&self.write_dirs, p);
                if read || write {
                    (!read || can_read) && (!write || can_write)
                } else {
                    can_read || can_write
                }
            },
        }
    }

    /// May a plugin read `path`? A path that is not valid UTF-8 is checked as
    /// the empty text, a missing API name is the empty text. Refused with
    /// `FILE_READ_DENIED: <api>`.
    pub fn check_read(&self, path: Option<&str>, api_name: Option<&str>) -> (r: Result<
        (),
        PermissionDenied,
    >)
        ensures
            r is Ok <==> read_allowed(*self, text_or_empty(path)),
            !read_allowed(*self, text_or_empty(path)) ==> denied(
                r,
                "FILE_READ_DENIED: "@ + text_or_empty(api_name),
                DenialReason::FileReadNotDeclared,
            ),
    {
        proof {
            reveal_strlit("");
        }
        let p = match path {
            Some(p) => p,
            None => "",
        };
        let api = match api_name {
            Some(a) => a,
            None => "",
        };
        assert(""@ =~= Seq::<char>::empty());
        assert(p@ == text_or_empty(path));
        assert(api@ == text_or_empty(api_name));
        if contains_text(&self.read_files, p) || prefix_in(&self.read_dirs, p) {
            Ok(())
        } else {
            Err(
                PermissionDenied {
                    access: cat("FILE_READ_DENIED: ", api),
                    reason: DenialReason::FileReadNotDeclared,
                },
            )
        }
    }

    /// May a plugin read the whole file system? Only a grant that covers the
    /// root `/` allows it. Refused as [`Self::check_read`] refuses.
    pub fn check_read_all(&self, api_name: Option<&str>) -> (r: Result<(), PermissionDenied>)
        ensures
            r is Ok <==> read_allowed(*self, "/"@),
            !read_allowed(*self, "/"@) ==> denied(
                r,
                "FILE_READ_DENIED: "@ + text_or_empty(api_name),
                DenialReason::FileReadNotDeclared,
            ),
    {
        self.check_read(Some("/"), api_name)
    }

    /// A read whose path is not shown: decided as [`Self::check_read`].
    pub fn check_read_blind(&self, path: Option<&str>, display: &str, api_name: &str) -> (r: Result<
        (),
        PermissionDenied,
    >)
        ensures
            r is Ok <==> read_allowed(*self, text_or_empty(path)),
            !read_allowed(*self, text_or_empty(path)) ==> denied(
                r,
                "FILE_READ_DENIED: "@ + api_name@,
                DenialReason::FileReadNotDeclared,
            ),
    {
        self.check_read(path, Some(api_name))
    }

    /// May a plugin write `path`? Refused with `FILE_WRITE_DENIED <api>`.
    pub fn check_write(&self, path: Option<&str>, api_name: Option<&str>) -> (r: Result<
        (),
        PermissionDenied,
    >)
        ensures
            r is Ok <==> write_allowed(*self, text_or_empty(path)),
            !write_allowed(*self, text_or_empty(path)) ==> denied(
                r,
                "FILE_WRITE_DENIED "@ + text_or_empty(api_name),
                DenialReason::FileWriteNotDeclared,
            ),
    {
        proof {
            reveal_strlit("");
        }
        let p = match path {
            Some(p) => p,
            None => "",
        };
        let api = match api_name {
            Some(a) => a,
            None => "",
        };
        assert(""@ =~= Seq::<char>::empty());
        assert(p@ == text_or_empty(path));
        assert(api@ == text_or_empty(api_name));
        if contains_text(&self.write_files, p) || prefix_in(&self.write_dirs, p) {
            Ok(())
        } else {
            Err(
                PermissionDenied {
                    access: cat("FILE_WRITE_DENIED ", api),
                    reason: DenialReason::FileWriteNotDeclared,
                },
            )
        }
    }

    /// May a plugin write the whole file system? Only a grant that covers
    /// the root `/` allows it. Refused as [`Self::check_write`] refuses.
    pub fn check_write_all(&self, api_name: &str) -> (r: Result<(), PermissionDenied>)
        ensures
            r is Ok <==> write_allowed(*self, "/"@),
            !write_allowed(*self, "/"@) ==> denied(
                r,
                "FILE_WRITE_DENIED "@ + api_name@,
                DenialReason::FileWriteNotDeclared,
            ),
    {
        self.check_write(Some("/"), Some(api_name))
    }

    /// A write whose path is not shown: decided as [`Self::check_write`].
    pub fn check_write_blind(&self, path: Option<&str>, display: &str, api_name: &str) -> (r: Result<
        (),
        PermissionDenied,
    >)
        ensures
            r is Ok <==> write_allowed(*self, text_or_empty(path)),
            !write_allowed(*self, text_or_empty(path)) ==> denied(
                r,
                "FILE_WRITE_DENIED "@ + api_name@,
                DenialReason::FileWriteNotDeclared,
            ),
    {
        self.check_write(path, Some(api_name))
    }

    /// A partial write: decided as [`Self::check_write`].
    pub fn check_write_partial(&self, path: Option<&str>, api_name: &str) -> (r: Result<
        (),
        PermissionDenied,
    >)
        ensures
            r is Ok <==> write_allowed(*self, text_or_empty(path)),
            !write_allowed(*self, text_or_empty(path)) ==> denied(
                r,
                "FILE_WRITE_DENIED "@ + api_name@,
                DenialReason::FileWriteNotDeclared,
            ),
    {
        self.check_write(path, Some(api_name))
    }

    /// May a plugin connect to `host` (any port)? Only declared hosts, by
    /// exact text.
    pub fn check_host(&self, host: &str, port: Option<u16>, api_name: &str) -> (r: Result<
        (),
        PermissionDenied,
    >)
        ensures
            r is Ok <==> host_allowed(*self, host@),
            !host_allowed(*self, host@) ==> denied(
                r,
                "NETWORK_FETCH_DENIED: "@ + api_name@,
                DenialReason::HostNotDeclared,
            ),
    {
        if contains_text(&self.hosts, host) {
            Ok(())
        } else {
            Err(
                PermissionDenied {
                    access: cat("NETWORK_FETCH_DENIED: ", api_name),
                    reason: DenialReason::HostNotDeclared,
                },
            )
        }
    }

    /// System information is never available.
    pub fn check_sys(&self, api_name: &str) -> (r: Result<(), PermissionDenied>)
        ensures
            denied(r, "SYS_OP_DENIED: "@ + api_name@, DenialReason::SystemCall),
    {
        Err(
            PermissionDenied {
                access: cat("SYS_OP_DENIED: ", api_name),
                reason: DenialReason::SystemCall,
            },
        )
    }

    /// Environment variables are never readable.
    pub fn check_env(&self, var: &str) -> (r: Result<(), PermissionDenied>)
        ensures
            denied(r, "ENV_READ_DENIED "@ + var@, DenialReason::EnvironmentRead),
    {
        Err(
            PermissionDenied {
                access: cat("ENV_READ_DENIED ", var),
                reason: DenialReason::EnvironmentRead,
            },
        )
    }

    /// Running commands is never allowed.
    pub fn check_exec(&self) -> (r: Result<(), PermissionDenied>)
        ensures
            denied(r, "EXEC_DENIED"@, DenialReason::Execution),
    {
        Err(PermissionDenied { access: owned("EXEC_DENIED"), reason: DenialReason::Execution })
    }

    /// Virtual sockets are never allowed.
    pub fn check_vsock(&self, cid: u32, port: u32, api_name: &str) -> (r: Result<
        (),
        PermissionDenied,
    >)
        ensures
            denied(r, "VSOCK_DENIED"@, DenialReason::Socket),
    {
        Err(PermissionDenied { access: owned("VSOCK_DENIED"), reason: DenialReason::Socket })
    }
}

/// Two permission values hold the same texts in the same places.
pub open spec fn same_permissions(a: JilebiPermissions, b: JilebiPermissions) -> bool {
    &&& a.hosts@ == b.hosts@
    &&& a.urls@ == b.urls@
    &&& a.read_files@ == b.read_files@
    &&& a.write_files@ == b.write_files@
    &&& a.read_dirs@ == b.read_dirs@
    &&& a.write_dirs@ == b.write_dirs@
}


// ---------------------------------------------------------------------------
// Laws of the checks.

/// `a` grants no more than `b`: every text of each set of `a` is in the same
/// set of `b`.
pub open spec fn granted_within(a: JilebiPermissions, b: JilebiPermissions) -> bool {
    &&& forall|s: Seq<char>| holds(a.hosts, s) ==> holds(b.hosts, s)
    &&& forall|s: Seq<char>| holds(a.urls, s) ==> holds(b.urls, s)
    &&& forall|s: Seq<char>| holds(a.read_files, s) ==> holds(b.read_files, s)
    &&& forall|s: Seq<char>| holds(a.write_files, s) ==> holds(b.write_files, s)
    &&& forall|s: Seq<char>| holds(a.read_dirs, s) ==> holds(b.read_dirs, s)
    &&& forall|s: Seq<char>| holds(a.write_dirs, s) ==> holds(b.write_dirs, s)
}

proof fn lemma_under_some_within(a: Vec<String>, b: Vec<String>, s: Seq<char>)
    requires
        forall|x: Seq<char>| holds(a, x) ==> holds(b, x),
        under_some(a, s),
    ensures
        under_some(b, s),
{
    let i = choose|i: int| 0 <= i < a@.len() && is_prefix(a@[i]@, s);
    assert(views(a@)[i] == a@[i]@);
    assert(holds(a, a@[i]@));
    assert(holds(b, a@[i]@));
    let j = choose|j: int| 0 <= j < views(b@).len() && views(b@)[j] == a@[i]@;
    assert(b@[j]@ == a@[i]@);
}

proof fn lemma_host_covers_within(a: Vec<String>, b: Vec<String>, s: Seq<char>)
    requires
        forall|x: Seq<char>| holds(a, x) ==> holds(b, x),
        host_covers(a, s),
    ensures
        host_covers(b, s),
{
    let i = choose|i: int| 0 <= i < a@.len() && host_grants(a@[i]@, s);
    assert(views(a@)[i] == a@[i]@);
    assert(holds(a, a@[i]@));
    assert(holds(b, a@[i]@));
    let j = choose|j: int| 0 <= j < views(b@).len() && views(b@)[j] == a@[i]@;
    assert(b@[j]@ == a@[i]@);
    assert(host_grants(b@[j]@, s));
}

/// Granting more never refuses more: whatever `a` allows, every `b` that
/// holds at least the texts of `a` allows too.
pub proof fn law_more_permissions_allow_more(a: JilebiPermissions, b: JilebiPermissions, s: Seq<char>)
    requires
        granted_within(a, b),
    ensures
        url_allowed(a, s) ==> url_allowed(b, s),
        read_allowed(a, s) ==> read_allowed(b, s),
        write_allowed(a, s) ==> write_allowed(b, s),
        forall|read: bool, write: bool| open_allowed(a, read, write, s) ==> #[trigger] open_allowed(b, read, write, s),
        host_allowed(a, s) ==> host_allowed(b, s),
{
    if host_covers(a.hosts, s) {
        lemma_host_covers_within(a.hosts, b.hosts, s);
    }
    if under_some(a.read_dirs, s) {
        lemma_under_some_within(a.read_dirs, b.read_dirs, s);
    }
    if under_some(a.write_dirs, s) {
        lemma_under_some_within(a.write_dirs, b.write_dirs, s);
    }
}

/// Reading is granted by the read sets only, writing by the write sets
/// only: a path may be read exactly when it is a declared read file or lies
/// under a declared read directory, and written exactly when it is a
/// declared write file or lies under a declared write directory.
pub proof fn law_access_comes_from_its_own_sets(p: JilebiPermissions, path: Seq<char>)
    ensures
        read_allowed(p, path) <==> (views(p.read_files@).contains(path) || exists|i: int|
            0 <= i < p.read_dirs@.len() && is_prefix(#[trigger] p.read_dirs@[i]@, path)),
        write_allowed(p, path) <==> (views(p.write_files@).contains(path) || exists|i: int|
            0 <= i < p.write_dirs@.len() && is_prefix(#[trigger] p.write_dirs@[i]@, path)),
{
}

/// A declared host `scheme://host` lets a plugin fetch that very address and
/// every path under it, whatever the scheme (`http` as well as `https`).
pub proof fn law_declared_host_grants_its_paths(
    p: JilebiPermissions,
    scheme: Seq<char>,
    host: Seq<char>,
    rest: Seq<char>,
)
    requires
        forall|i: int| 0 <= i < scheme.len() ==> #[trigger] scheme[i] != ':',
        forall|i: int| 0 <= i < host.len() ==> plain_host_char(#[trigger] host[i]),
        rest.len() == 0 || rest[0] == '/',
        holds(p.hosts, scheme + "://"@ + host),
    ensures
        url_allowed(p, scheme + "://"@ + host + rest),
{
    let entry = scheme + "://"@ + host;
    let url = entry + rest;
    law_url_names_its_host(scheme, host, rest);
    law_url_names_its_host(scheme, host, Seq::empty());
    assert(entry + Seq::<char>::empty() =~= entry);
    assert(url.take(entry.len() as int) =~= entry);
    let k = choose|k: int| 0 <= k < views(p.hosts@).len() && views(p.hosts@)[k] == entry;
    assert(p.hosts@[k]@ == entry);
    assert(host_grants(p.hosts@[k]@, url));
}

/// A URL that is not itself declared is fetched only where a declared host
/// names the very host the URL names, and the URL starts with that entry.
pub proof fn law_url_needs_its_own_host(p: JilebiPermissions, url: Seq<char>)
    requires
        url_allowed(p, url),
        !holds(p.urls, url),
    ensures
        url_host(url) is Some,
        exists|i: int|
            0 <= i < p.hosts@.len() && is_prefix(p.hosts@[i]@, url) && #[trigger] url_host(p.hosts@[i]@)
                == url_host(url),
{
}

/// Opening a path for reading is allowed exactly when reading it is, for
/// writing exactly when writing it is, and for both exactly when both are:
/// a read permission alone never opens a path for writing.
pub proof fn law_open_follows_access(p: JilebiPermissions, path: Seq<char>)
    ensures
        open_allowed(p, true, false, path) == read_allowed(p, path),
        open_allowed(p, false, true, path) == write_allowed(p, path),
        open_allowed(p, true, true, path) == (read_allowed(p, path) && write_allowed(p, path)),
        open_allowed(p, false, false, path) == (read_allowed(p, path) || write_allowed(p, path)),
{
}

/// Without any permission, no URL, path or host is allowed.
pub proof fn law_no_permissions_allow_nothing(p: JilebiPermissions, s: Seq<char>)
    requires
        p.hosts@.len() == 0,
        p.urls@.len() == 0,
        p.read_files@.len() == 0,
        p.write_files@.len() == 0,
        p.read_dirs@.len() == 0,
        p.write_dirs@.len() == 0,
    ensures
        !url_allowed(p, s),
        !read_allowed(p, s),
        !write_allowed(p, s),
        forall|read: bool, write: bool| !#[trigger] open_allowed(p, read, write, s),
        !host_allowed(p, s),
{
    assert(views(p.hosts@) =~= Seq::<Seq<char>>::empty());
    assert(views(p.urls@) =~= Seq::<Seq<char>>::empty());
    assert(views(p.read_files@) =~= Seq::<Seq<char>>::empty());
    assert(views(p.write_files@) =~= Seq::<Seq<char>>::empty());
}

// ---------------------------------------------------------------------------
// Permissions declared in a manifest.

/// The slot of a permission set named by a table key: 0 `hosts`, 1 `urls`,
/// 2 `read_files`, 3 `write_files`, 4 `read_dirs`, 5 `write_dirs`, and 6 for
/// any other key.
pub open spec fn slot_of(k: Seq<char>) -> int {
    if k == "hosts"@ {
        0
    } else if k == "urls"@ {
        1
    } else if k == "read_files"@ {
        2
    } else if k == "write_files"@ {
        3
    } else if k == "read_dirs"@ {
        4
    } else if k == "write_dirs"@ {
        5
    } else {
        6
    }
}

/// The text a list element gives a set of texts: strings, and datetimes by
/// their text.
pub open spec fn item_text(x: TomlModel) -> Seq<char> {
    match x {
        TomlModel::Str(s) => s,
        TomlModel::Datetime(d) => d,
        _ => Seq::empty(),
    }
}

/// A value that reads as a set of texts: an array of strings (or datetimes).
pub open spec fn text_list_spec(v: TomlModel) -> Option<Seq<Seq<char>>> {
    match v {
        TomlModel::Array(items) => if forall|i: int|
            0 <= i < items.len() ==> (#[trigger] items[i] is Str || items[i] is Datetime) {
            Some(items.map_values(|x: TomlModel| item_text(x)))
        } else {
            None
        },
        _ => None,
    }
}

/// Reads the entries of a permissions table in order into the six slots
/// (`None` where a set has not been given yet). A set given twice, or given
/// by a value that is not a list of texts, makes the table unreadable; other
/// keys are ignored.
pub open spec fn fill_slots(t: Seq<(Seq<char>, TomlModel)>, acc: Seq<Option<Seq<Seq<char>>>>) -> Option<
    Seq<Option<Seq<Seq<char>>>>,
>
    decreases t.len(),
{
    if t.len() == 0 {
        Some(acc)
    } else {
        let slot = slot_of(t[0].0);
        if slot == 6 {
            fill_slots(t.drop_first(), acc)
        } else if acc[slot] is Some {
            None
        } else {
            match text_list_spec(t[0].1) {
                Some(l) => fill_slots(t.drop_first(), acc.update(slot, Some(l))),
                None => None,
            }
        }
    }
}

/// Six empty slots.
pub open spec fn no_slots() -> Seq<Option<Seq<Seq<char>>>> {
    seq![None, None, None, None, None, None]
}

/// The slots an array gives: its elements fill the sets in order; at most six.
pub open spec fn array_slots(items: Seq<TomlModel>) -> Option<Seq<Option<Seq<Seq<char>>>>> {
    if items.len() <= 6 && forall|i: int| 0 <= i < items.len() ==> text_list_spec(#[trigger] items[i]) is Some {
        Some(Seq::new(6, |i: int| if i < items.len() { text_list_spec(items[i]) } else { None }))
    } else {
        None
    }
}

/// The six sets a `permissions` value declares, as `toml`'s deserializer
/// reads it into the permissions struct: a table by field names, an array by
/// position; any other value declares nothing readable.
pub open spec fn declared_slots(v: TomlModel) -> Option<Seq<Option<Seq<Seq<char>>>>> {
    match v {
        TomlModel::Table(t) => fill_slots(t, no_slots()),
        TomlModel::Array(items) => array_slots(items),
        _ => None,
    }
}

/// The texts of a slot; an empty slot is the empty set.
pub open spec fn slot_texts(s: Option<Seq<Seq<char>>>) -> Seq<Seq<char>> {
    match s {
        Some(l) => l,
        None => Seq::empty(),
    }
}

/// `p` holds exactly the sets of the six slots, each text once, where it
/// first occurs in its slot.
pub open spec fn matches_slots(p: JilebiPermissions, slots: Seq<Option<Seq<Seq<char>>>>) -> bool {
    &&& views(p.hosts@) == first_occurrences(slot_texts(slots[0]))
    &&& views(p.urls@) == first_occurrences(slot_texts(slots[1]))
    &&& views(p.read_files@) == first_occurrences(slot_texts(slots[2]))
    &&& views(p.write_files@) == first_occurrences(slot_texts(slots[3]))
    &&& views(p.read_dirs@) == first_occurrences(slot_texts(slots[4]))
    &&& views(p.write_dirs@) == first_occurrences(slot_texts(slots[5]))
}

/// The views of the slots held so far.
pub open spec fn slots_view(s: Seq<Option<Vec<String>>>) -> Seq<Option<Seq<Seq<char>>>> {
    s.map_values(
        |o: Option<Vec<String>>|
            match o {
                Some(v) => Some(views(v@)),
                None => None,
            },
    )
}

fn slot_index(k: &str) -> (r: usize)
    ensures
        r == slot_of(k@),
{
    if same_text(k, "hosts") {
        0
    } else if same_text(k, "urls") {
        1
    } else if same_text(k, "read_files") {
        2
    } else if same_text(k, "write_files") {
        3
    } else if same_text(k, "read_dirs") {
        4
    } else if same_text(k, "write_dirs") {
        5
    } else {
        6
    }
}

/// The texts of a value that is a list of texts.
pub fn text_list(v: &TomlValue) -> (r: Option<Vec<String>>)
    ensures
        match r {
            Some(l) => text_list_spec(v.model()) == Some(views(l@)),
            None => text_list_spec(v.model()) is None,
        },
{
    match v {
        TomlValue::Array(items) => {
            proof {
                lemma_array_model(*items);
            }
            let ghost ms = items@.map_values(|x: TomlValue| x.model());
            let mut out: Vec<String> = Vec::new();
            let mut i: usize = 0;
            while i < items.len()
                invariant
                    i <= items.len(),
                    *v == TomlValue::Array(*items),
                    v.model() == TomlModel::Array(ms),
                    ms == items@.map_values(|x: TomlValue| x.model()),
                    forall|j: int| 0 <= j < i ==> (#[trigger] ms[j] is Str || ms[j] is Datetime),
                    views(out@) == ms.take(i as int).map_values(|x: TomlModel| item_text(x)),
                decreases items.len() - i,
            {
                let ghost before = out@;
                match &items[i] {
                    TomlValue::Str(s) => out.push(s.clone()),
                    TomlValue::Datetime(d) => out.push(d.clone()),
                    _ => {
                        assert(ms[i as int] == items@[i as int].model());
                        assert(!(ms[i as int] is Str || ms[i as int] is Datetime));
                        assert(v.model() == TomlModel::Array(ms));
                        assert(!(forall|k: int|
                            0 <= k < ms.len() ==> (#[trigger] ms[k] is Str || ms[k] is Datetime)));
                        return None;
                    },
                }
                assert(views(out@) =~= views(before).push(item_text(ms[i as int])));
                i = i + 1;
                assert(ms.take(i as int).map_values(|x: TomlModel| item_text(x)) =~= ms.take(
                    i - 1,
                ).map_values(|x: TomlModel| item_text(x)).push(item_text(ms[i - 1])));
            }
            assert(ms.take(items.len() as int) =~= ms);
            Some(out)
        },
        _ => None,
    }
}

fn slot_contents(s: &Option<Vec<String>>) -> (r: Vec<String>)
    ensures
        views(r@) == first_occurrences(
            slot_texts(
                match s {
                    Some(v) => Some(views(v@)),
                    None => None,
                },
            ),
        ),
{
    match s {
        Some(v) => distinct_texts(v),
        None => {
            let r: Vec<String> = Vec::new();
            assert(views(r@) =~= Seq::<Seq<char>>::empty());
            r
        },
    }
}

fn from_slots(slots: &Vec<Option<Vec<String>>>) -> (r: JilebiPermissions)
    requires
        slots.len() == 6,
    ensures
        matches_slots(r, slots_view(slots@)),
{
    JilebiPermissions {
        hosts: slot_contents(&slots[0]),
        urls: slot_contents(&slots[1]),
        read_files: slot_contents(&slots[2]),
        write_files: slot_contents(&slots[3]),
        read_dirs: slot_contents(&slots[4]),
        write_dirs: slot_contents(&slots[5]),
    }
}

fn empty_slots() -> (r: Vec<Option<Vec<String>>>)
    ensures
        r.len() == 6,
        slots_view(r@) == no_slots(),
{
    let r: Vec<Option<Vec<String>>> = vec![None, None, None, None, None, None];
    assert(slots_view(r@) =~= no_slots());
    r
}

/// The permissions a manifest's `permissions` value declares, read as the
/// permissions struct is deserialized from TOML; `None` where it cannot be
/// read.
pub fn permissions_from_toml(v: &TomlValue) -> (r: Option<JilebiPermissions>)
    ensures
        match declared_slots(v.model()) {
            Some(slots) => r matches Some(p) && matches_slots(p, slots),
            None => r is None,
        },
        r matches Some(p) ==> well_formed(p),
{
    let r = permissions_from_toml_slots(v);
    proof {
        if r is Some {
            law_slots_are_well_formed(r->Some_0, declared_slots(v.model())->Some_0);
        }
    }
    r
}

/// The texts of a list of TOML strings.
pub open spec fn string_items(items: Seq<TomlModel>) -> Seq<Seq<char>> {
    items.map_values(|x: TomlModel| x->Str_0)
}

/// The sets read from a permissions table with one list of strings, under
/// `key`: the list lands, each text once, in the set that `key` names
/// (`hosts`, `urls`, `read_files`, `write_files`, `read_dirs` or
/// `write_dirs`), and every other set is empty; under any other key every
/// set is empty.
pub proof fn law_permission_keys_name_their_sets(p: JilebiPermissions, key: Seq<char>, items: Seq<TomlModel>)
    requires
        forall|i: int| 0 <= i < items.len() ==> #[trigger] items[i] is Str,
        declared_slots(TomlModel::Table(seq![(key, TomlModel::Array(items))])) is Some,
        matches_slots(p, declared_slots(TomlModel::Table(seq![(key, TomlModel::Array(items))]))->Some_0),
    ensures
        key == "hosts"@ ==> views(p.hosts@) == first_occurrences(string_items(items)) && p.urls@.len() == 0
            && p.read_files@.len() == 0 && p.write_files@.len() == 0 && p.read_dirs@.len() == 0
            && p.write_dirs@.len() == 0,
        key == "urls"@ ==> views(p.urls@) == first_occurrences(string_items(items)) && p.hosts@.len() == 0
            && p.read_files@.len() == 0 && p.write_files@.len() == 0 && p.read_dirs@.len() == 0
            && p.write_dirs@.len() == 0,
        key == "read_files"@ ==> views(p.read_files@) == first_occurrences(string_items(items)) && p.hosts@.len()
            == 0 && p.urls@.len() == 0 && p.write_files@.len() == 0 && p.read_dirs@.len() == 0
            && p.write_dirs@.len() == 0,
        key == "write_files"@ ==> views(p.write_files@) == first_occurrences(string_items(items))
            && p.hosts@.len() == 0 && p.urls@.len() == 0 && p.read_files@.len() == 0 && p.read_dirs@.len() == 0
            && p.write_dirs@.len() == 0,
        key == "read_dirs"@ ==> views(p.read_dirs@) == first_occurrences(string_items(items)) && p.hosts@.len()
            == 0 && p.urls@.len() == 0 && p.read_files@.len() == 0 && p.write_files@.len() == 0
            && p.write_dirs@.len() == 0,
        key == "write_dirs"@ ==> views(p.write_dirs@) == first_occurrences(string_items(items))
            && p.hosts@.len() == 0 && p.urls@.len() == 0 && p.read_files@.len() == 0 && p.write_files@.len() == 0
            && p.read_dirs@.len() == 0,
        key != "hosts"@ && key != "urls"@ && key != "read_files"@ && key != "write_files"@ && key
            != "read_dirs"@ && key != "write_dirs"@ ==> p.hosts@.len() == 0 && p.urls@.len() == 0
            && p.read_files@.len() == 0 && p.write_files@.len() == 0 && p.read_dirs@.len() == 0
            && p.write_dirs@.len() == 0,
{
    reveal_strlit("hosts");
    reveal_strlit("urls");
    reveal_strlit("read_files");
    reveal_strlit("write_files");
    reveal_strlit("read_dirs");
    reveal_strlit("write_dirs");
    let t = seq![(key, TomlModel::Array(items))];
    assert(t.drop_first() =~= Seq::<(Seq<char>, TomlModel)>::empty());
    assert(items.map_values(|x: TomlModel| item_text(x)) =~= string_items(items));
    let empty = Seq::<Seq<char>>::empty();
    assert(first_occurrences(empty) == empty);
    assert(views(p.hosts@).len() == p.hosts@.len());
    assert(views(p.urls@).len() == p.urls@.len());
    assert(views(p.read_files@).len() == p.read_files@.len());
    assert(views(p.write_files@).len() == p.write_files@.len());
    assert(views(p.read_dirs@).len() == p.read_dirs@.len());
    assert(views(p.write_dirs@).len() == p.write_dirs@.len());
    assert("hosts"@ != "urls"@ && "hosts"@ != "read_files"@ && "hosts"@ != "write_files"@ && "hosts"@
        != "read_dirs"@ && "hosts"@ != "write_dirs"@) by {
        assert("hosts"@[0] != "urls"@[0] && "hosts"@[0] != "read_files"@[0] && "hosts"@[0] != "write_files"@[0]
            && "hosts"@[0] != "read_dirs"@[0] && "hosts"@[0] != "write_dirs"@[0]);
    }
    assert("urls"@ != "read_files"@ && "urls"@ != "write_files"@ && "urls"@ != "read_dirs"@ && "urls"@
        != "write_dirs"@) by {
        assert("urls"@[0] != "read_files"@[0] && "urls"@[0] != "write_files"@[0] && "urls"@[0]
            != "read_dirs"@[0] && "urls"@[0] != "write_dirs"@[0]);
    }
    assert("read_files"@ != "write_files"@ && "read_files"@ != "read_dirs"@ && "read_files"@
        != "write_dirs"@) by {
        assert("read_files"@[0] != "write_files"@[0] && "read_files"@[5] != "read_dirs"@[5]
            && "read_files"@[0] != "write_dirs"@[0]);
    }
    assert("write_files"@ != "read_dirs"@ && "write_files"@ != "write_dirs"@) by {
        assert("write_files"@[0] != "read_dirs"@[0] && "write_files"@[6] != "write_dirs"@[6]);
    }
    assert("read_dirs"@ != "write_dirs"@) by {
        assert("read_dirs"@[0] != "write_dirs"@[0]);
    }
    let texts = string_items(items);
    assert(text_list_spec(TomlModel::Array(items)) == Some(texts));
    let slot = slot_of(key);
    let slots = declared_slots(TomlModel::Table(t))->Some_0;
    assert(fill_slots(t.drop_first(), no_slots()) == Some(no_slots()));
    if slot == 6 {
        assert(slots == no_slots());
    } else {
        let acc = no_slots().update(slot, Some(texts));
        assert(fill_slots(t.drop_first(), acc) == Some(acc));
        assert(slots == acc);
        assert(slots[slot] == Some(texts));
    }
}

/// All elements of `items` are TOML strings.
pub open spec fn all_strings(items: Seq<TomlModel>) -> bool {
    forall|i: int| 0 <= i < items.len() ==> #[trigger] items[i] is Str
}

/// A permissions value written as an array of six lists of strings gives
/// the sets by position, in the order of the permissions struct's fields:
/// hosts, URLs, read files, write files, read directories, write
/// directories (each text once).
pub proof fn law_permission_array_is_read_by_position(
    p: JilebiPermissions,
    a0: Seq<TomlModel>,
    a1: Seq<TomlModel>,
    a2: Seq<TomlModel>,
    a3: Seq<TomlModel>,
    a4: Seq<TomlModel>,
    a5: Seq<TomlModel>,
)
    requires
        all_strings(a0) && all_strings(a1) && all_strings(a2) && all_strings(a3) && all_strings(a4)
            && all_strings(a5),
        declared_slots(
            TomlModel::Array(
                seq![TomlModel::Array(a0), TomlModel::Array(a1), TomlModel::Array(a2), TomlModel::Array(a3), TomlModel::Array(a4), TomlModel::Array(a5)],
            ),
        ) is Some,
        matches_slots(
            p,
            declared_slots(
                TomlModel::Array(
                    seq![TomlModel::Array(a0), TomlModel::Array(a1), TomlModel::Array(a2), TomlModel::Array(a3), TomlModel::Array(a4), TomlModel::Array(a5)],
                ),
            )->Some_0,
        ),
    ensures
        views(p.hosts@) == first_occurrences(string_items(a0)),
        views(p.urls@) == first_occurrences(string_items(a1)),
        views(p.read_files@) == first_occurrences(string_items(a2)),
        views(p.write_files@) == first_occurrences(string_items(a3)),
        views(p.read_dirs@) == first_occurrences(string_items(a4)),
        views(p.write_dirs@) == first_occurrences(string_items(a5)),
{
    let items = seq![TomlModel::Array(a0), TomlModel::Array(a1), TomlModel::Array(a2), TomlModel::Array(a3), TomlModel::Array(a4), TomlModel::Array(a5)];
    assert(a0.map_values(|x: TomlModel| item_text(x)) =~= string_items(a0));
    assert(a1.map_values(|x: TomlModel| item_text(x)) =~= string_items(a1));
    assert(a2.map_values(|x: TomlModel| item_text(x)) =~= string_items(a2));
    assert(a3.map_values(|x: TomlModel| item_text(x)) =~= string_items(a3));
    assert(a4.map_values(|x: TomlModel| item_text(x)) =~= string_items(a4));
    assert(a5.map_values(|x: TomlModel| item_text(x)) =~= string_items(a5));
    let slots = declared_slots(TomlModel::Array(items))->Some_0;
    assert(slots[0] == text_list_spec(items[0]));
    assert(slots[1] == text_list_spec(items[1]));
    assert(slots[2] == text_list_spec(items[2]));
    assert(slots[3] == text_list_spec(items[3]));
    assert(slots[4] == text_list_spec(items[4]));
    assert(slots[5] == text_list_spec(items[5]));
}

/// Whatever matches six slots holds each text once per set.
pub proof fn law_slots_are_well_formed(p: JilebiPermissions, slots: Seq<Option<Seq<Seq<char>>>>)
    requires
        matches_slots(p, slots),
    ensures
        well_formed(p),
{
    law_first_occurrences(slot_texts(slots[0]));
    law_first_occurrences(slot_texts(slots[1]));
    law_first_occurrences(slot_texts(slots[2]));
    law_first_occurrences(slot_texts(slots[3]));
    law_first_occurrences(slot_texts(slots[4]));
    law_first_occurrences(slot_texts(slots[5]));
}

fn permissions_from_toml_slots(v: &TomlValue) -> (r: Option<JilebiPermissions>)
    ensures
        match declared_slots(v.model()) {
            Some(slots) => r matches Some(p) && matches_slots(p, slots),
            None => r is None,
        },
{
    match v {
        TomlValue::Table(t) => {
            proof {
                lemma_table_model(*t);
            }
            let ghost es = entries_model(t@);
            let mut slots = empty_slots();
            let mut i: usize = 0;
            assert(es.skip(0) =~= es);
            while i < t.len()
                invariant
                    i <= t.len(),
                    *v == TomlValue::Table(*t),
                    v.model() == TomlModel::Table(es),
                    es == entries_model(t@),
                    slots.len() == 6,
                    fill_slots(es, no_slots()) == fill_slots(es.skip(i as int), slots_view(slots@)),
                decreases t.len() - i,
            {
                assert(es.skip(i as int).drop_first() =~= es.skip(i + 1));
                assert(es.skip(i as int)[0] == (t@[i as int].0@, t@[i as int].1.model()));
                let slot = slot_index(t[i].0.as_str());
                if slot < 6 {
                    if slots[slot].is_some() {
                        assert(slots_view(slots@)[slot as int] is Some);
                        assert(fill_slots(es.skip(i as int), slots_view(slots@)) is None);
                        return None;
                    }
                    match text_list(&t[i].1) {
                        Some(l) => {
                            let ghost lv = views(l@);
                            let ghost before = slots_view(slots@);
                            slots.set(slot, Some(l));
                            assert(slots_view(slots@) =~= before.update(slot as int, Some(lv)));
                        },
                        None => {
                            assert(fill_slots(es.skip(i as int), slots_view(slots@)) is None);
                            return None;
                        },
                    }
                }
                i = i + 1;
            }
            Some(from_slots(&slots))
        },
        TomlValue::Array(items) => {
            proof {
                lemma_array_model(*items);
            }
            let ghost ms = items@.map_values(|x: TomlValue| x.model());
            if items.len() > 6 {
                return None;
            }
            let mut slots = empty_slots();
            let mut i: usize = 0;
            while i < items.len()
                invariant
                    i <= items.len() <= 6,
                    *v == TomlValue::Array(*items),
                    v.model() == TomlModel::Array(ms),
                    ms == items@.map_values(|x: TomlValue| x.model()),
                    slots.len() == 6,
                    forall|j: int| 0 <= j < i ==> text_list_spec(#[trigger] ms[j]) is Some,
                    forall|j: int|
                        0 <= j < 6 ==> #[trigger] slots_view(slots@)[j] == if j < i {
                            text_list_spec(ms[j])
                        } else {
                            None
                        },
                decreases items.len() - i,
            {
                match text_list(&items[i]) {
                    Some(l) => {
                        let ghost lv = views(l@);
                        let ghost before = slots_view(slots@);
                        slots.set(i, Some(l));
                        assert(slots_view(slots@) =~= before.update(i as int, Some(lv)));
                    },
                    None => {
                        assert(ms[i as int] == items@[i as int].model());
                        assert(text_list_spec(ms[i as int]) is None);
                        assert(v.model() == TomlModel::Array(ms));
                        return None;
                    },
                }
                i = i + 1;
            }
            let ghost want = Seq::new(
                6,
                |j: int|
                    if j < ms.len() {
                        text_list_spec(ms[j])
                    } else {
                        None
                    },
            );
            assert(slots_view(slots@) =~= want);
            Some(from_slots(&slots))
        },
        TomlValue::Str(_) => None,
        TomlValue::Int(_) => None,
        TomlValue::Float(_) => None,
        TomlValue::Bool(_) => None,
        TomlValue::Datetime(_) => None,
    }
}


// ---------------------------------------------------------------------------
// Granting permissions when a plugin is set up.

/// A set the manifest leaves to the user becomes `replacement` alone; any
/// other set stays as declared.
pub open spec fn defaulted(requested: Vec<String>, replacement: Seq<char>) -> Seq<Seq<char>> {
    if holds(requested, "user_defined"@) {
        seq![replacement]
    } else {
        views(requested@)
    }
}

/// `d` is what accepting `p` without questions grants when the user's home
/// directory is `home`: every host and URL (`*`) and the home directory
/// where the user was to choose, the declared sets elsewhere, and no files.
pub open spec fn accepted_defaults(p: JilebiPermissions, home: Seq<char>, d: JilebiPermissions) -> bool {
    &&& views(d.hosts@) == defaulted(p.hosts, "*"@)
    &&& views(d.urls@) == defaulted(p.urls, "*"@)
    &&& views(d.read_dirs@) == defaulted(p.read_dirs, home)
    &&& views(d.write_dirs@) == defaulted(p.write_dirs, home)
    &&& d.read_files@.len() == 0
    &&& d.write_files@.len() == 0
}

/// Accepting without questions: a directory set left to the user
/// (`user_defined`) becomes the user's home directory alone, for reading and
/// for writing, so everything under the home directory may be read and
/// written; a host or URL set left to the user becomes `*`; a set the
/// manifest spells out is kept as declared; no file is granted.
pub proof fn law_defaults_follow_the_request(p: JilebiPermissions, home: Seq<char>, d: JilebiPermissions, below: Seq<char>)
    requires
        accepted_defaults(p, home, d),
    ensures
        holds(p.read_dirs, "user_defined"@) ==> views(d.read_dirs@) == seq![home] && read_allowed(d, home + below),
        holds(p.write_dirs, "user_defined"@) ==> views(d.write_dirs@) == seq![home] && write_allowed(d, home + below),
        holds(p.hosts, "user_defined"@) ==> views(d.hosts@) == seq!["*"@],
        holds(p.urls, "user_defined"@) ==> views(d.urls@) == seq!["*"@],
        !holds(p.read_dirs, "user_defined"@) ==> views(d.read_dirs@) == views(p.read_dirs@),
        !holds(p.write_dirs, "user_defined"@) ==> views(d.write_dirs@) == views(p.write_dirs@),
        !holds(p.hosts, "user_defined"@) ==> views(d.hosts@) == views(p.hosts@),
        !holds(p.urls, "user_defined"@) ==> views(d.urls@) == views(p.urls@),
        d.read_files@.len() == 0,
        d.write_files@.len() == 0,
{
    if holds(p.read_dirs, "user_defined"@) {
        assert(views(d.read_dirs@) == seq![home]);
        assert(views(d.read_dirs@).len() == d.read_dirs@.len());
        assert(d.read_dirs@[0]@ == views(d.read_dirs@)[0]);
        assert((home + below).take(home.len() as int) =~= home);
        assert(is_prefix(d.read_dirs@[0]@, home + below));
    }
    if holds(p.write_dirs, "user_defined"@) {
        assert(views(d.write_dirs@) == seq![home]);
        assert(views(d.write_dirs@).len() == d.write_dirs@.len());
        assert(d.write_dirs@[0]@ == views(d.write_dirs@)[0]);
        assert((home + below).take(home.len() as int) =~= home);
        assert(is_prefix(d.write_dirs@[0]@, home + below));
    }
}

fn defaulted_set(requested: &Vec<String>, replacement: &str) -> (r: Vec<String>)
    ensures
        views(r@) == defaulted(*requested, replacement@),
{
    if contains_text(requested, "user_defined") {
        let r = vec![owned(replacement)];
        assert(views(r@) =~= seq![replacement@]);
        r
    } else {
        copy_texts(requested)
    }
}

/// The permissions granted when the user accepts a plugin's requests without
/// being asked, with `home` as the user's home directory.
pub fn defaults_with_home(permissions: &JilebiPermissions, home: &str) -> (r: JilebiPermissions)
    ensures
        accepted_defaults(*permissions, home@, r),
        well_formed(*permissions) ==> well_formed(r),
{
    let r = JilebiPermissions {
        hosts: defaulted_set(&permissions.hosts, "*"),
        read_dirs: defaulted_set(&permissions.read_dirs, home),
        write_dirs: defaulted_set(&permissions.write_dirs, home),
        urls: defaulted_set(&permissions.urls, "*"),
        read_files: Vec::new(),
        write_files: Vec::new(),
    };
    assert(views(r.read_files@) =~= Seq::<Seq<char>>::empty());
    assert(views(r.write_files@) =~= Seq::<Seq<char>>::empty());
    r
}

/// `directories::UserDirs::home_dir`, as text; the empty text where there is
/// no home directory or it is not valid UTF-8. It depends on the machine, so
/// nothing is stated of it.
#[verifier::external_body]
fn home_directory() -> (r: String)
{
    match directories::UserDirs::new() {
        Some(dirs) => match dirs.home_dir().to_str() {
            Some(s) => s.to_string(),
            None => String::new(),
        },
        None => String::new(),
    }
}

/// The permissions granted when the user accepts a plugin's requests without
/// being asked: as [`defaults_with_home`] with this machine's home directory.
pub fn set_default_permissions(permissions: &JilebiPermissions) -> (r: Result<JilebiPermissions, String>)
    ensures
        r is Ok,
        exists|h: Seq<char>| #[trigger] accepted_defaults(*permissions, h, r->Ok_0),
        well_formed(*permissions) ==> well_formed(r->Ok_0),
{
    let home = home_directory();
    let d = defaults_with_home(permissions, home.as_str());
    assert(accepted_defaults(*permissions, home@, d));
    let r: Result<JilebiPermissions, String> = Ok(d);
    assert(accepted_defaults(*permissions, home@, r->Ok_0));
    r
}

/// What the user is asked about one permission set of `entity`.
#[derive(Debug)]
pub enum PermissionQuestion {
    /// The manifest leaves the set to the user: ask for a comma-separated list.
    FreeForm(String),
    /// Ask to grant each requested text: `(text, question)` pairs.
    Confirm(Vec<(String, String)>),
}

pub open spec fn kind_field(p: JilebiPermissions, kind: PermissionKind) -> Vec<String> {
    match kind {
        PermissionKind::Hosts => p.hosts,
        PermissionKind::ReadDirs => p.read_dirs,
        PermissionKind::WriteDirs => p.write_dirs,
        PermissionKind::Urls => p.urls,
        PermissionKind::ReadFiles => p.read_files,
        PermissionKind::WriteFiles => p.write_files,
    }
}

/// Each kind of permission is the set of that name: what is asked and
/// granted for a kind is read from and written to that very field.
pub proof fn law_kinds_name_their_sets(p: JilebiPermissions)
    ensures
        kind_field(p, PermissionKind::Hosts) == p.hosts,
        kind_field(p, PermissionKind::Urls) == p.urls,
        kind_field(p, PermissionKind::ReadFiles) == p.read_files,
        kind_field(p, PermissionKind::WriteFiles) == p.write_files,
        kind_field(p, PermissionKind::ReadDirs) == p.read_dirs,
        kind_field(p, PermissionKind::WriteDirs) == p.write_dirs,
{
}

/// The start of the request for a free-form list.
pub open spec fn free_form_head(kind: PermissionKind) -> Seq<char> {
    match kind {
        PermissionKind::Hosts => "Enter hosts for "@,
        PermissionKind::ReadDirs => "Enter directories that the plugin is allowed to read from for "@,
        PermissionKind::WriteDirs => "Enter directories that the plugin is allowed to write to for "@,
        PermissionKind::Urls => "Enter URLs that the plugin is allowed to access for "@,
        PermissionKind::ReadFiles => "Enter files that the plugin is allowed to read from for "@,
        PermissionKind::WriteFiles => "Enter files that the plugin is allowed to write to for "@,
    }
}

/// The request for a free-form list of `kind` for `entity`.
pub open spec fn free_form_prompt(kind: PermissionKind, entity: Seq<char>) -> Seq<char> {
    free_form_head(kind) + entity + ", use a comma to separate multiple entries"@
}

/// The middle of a yes/no question.
pub open spec fn confirm_middle(kind: PermissionKind) -> Seq<char> {
    match kind {
        PermissionKind::Hosts => " to make requests to the host "@,
        PermissionKind::ReadDirs => " to read from the directory "@,
        PermissionKind::WriteDirs => " to write to the directory "@,
        PermissionKind::Urls => " to access the URL "@,
        PermissionKind::ReadFiles => " to read the file "@,
        PermissionKind::WriteFiles => " to write to the file "@,
    }
}

/// The yes/no question for granting `item` of `kind` to `entity`. For hosts
/// it names the entity first; for the other sets it names the item first.
pub open spec fn confirm_prompt(kind: PermissionKind, entity: Seq<char>, item: Seq<char>) -> Seq<char> {
    match kind {
        PermissionKind::Hosts => "Allow "@ + entity + confirm_middle(kind) + item + "?"@,
        _ => "Allow "@ + item + confirm_middle(kind) + entity + "?"@,
    }
}

fn free_form_head_text(kind: &PermissionKind) -> (r: &'static str)
    ensures
        r@ == free_form_head(*kind),
{
    match kind {
        PermissionKind::Hosts => "Enter hosts for ",
        PermissionKind::ReadDirs => "Enter directories that the plugin is allowed to read from for ",
        PermissionKind::WriteDirs => "Enter directories that the plugin is allowed to write to for ",
        PermissionKind::Urls => "Enter URLs that the plugin is allowed to access for ",
        PermissionKind::ReadFiles => "Enter files that the plugin is allowed to read from for ",
        PermissionKind::WriteFiles => "Enter files that the plugin is allowed to write to for ",
    }
}

fn confirm_middle_text(kind: &PermissionKind) -> (r: &'static str)
    ensures
        r@ == confirm_middle(*kind),
{
    match kind {
        PermissionKind::Hosts => " to make requests to the host ",
        PermissionKind::ReadDirs => " to read from the directory ",
        PermissionKind::WriteDirs => " to write to the directory ",
        PermissionKind::Urls => " to access the URL ",
        PermissionKind::ReadFiles => " to read the file ",
        PermissionKind::WriteFiles => " to write to the file ",
    }
}

impl JilebiPermissions {
    /// The set of `kind`.
    pub fn requested(&self, kind: &PermissionKind) -> (r: &Vec<String>)
        ensures
            *r == kind_field(*self, *kind),
    {
        match kind {
            PermissionKind::Hosts => &self.hosts,
            PermissionKind::ReadDirs => &self.read_dirs,
            PermissionKind::WriteDirs => &self.write_dirs,
            PermissionKind::Urls => &self.urls,
            PermissionKind::ReadFiles => &self.read_files,
            PermissionKind::WriteFiles => &self.write_files,
        }
    }

    /// These permissions with the set of `kind` replaced by `granted`.
    pub fn with_granted(self, kind: &PermissionKind, granted: Vec<String>) -> (r: JilebiPermissions)
        ensures
            kind_field(r, *kind) == granted,
            forall|k: PermissionKind| k != *kind ==> kind_field(r, k) == kind_field(self, k),
            well_formed(self) && no_repeats(views(granted@)) ==> well_formed(r),
    {
        let mut r = self;
        match kind {
            PermissionKind::Hosts => r.hosts = granted,
            PermissionKind::ReadDirs => r.read_dirs = granted,
            PermissionKind::WriteDirs => r.write_dirs = granted,
            PermissionKind::Urls => r.urls = granted,
            PermissionKind::ReadFiles => r.read_files = granted,
            PermissionKind::WriteFiles => r.write_files = granted,
        }
        r
    }
}

/// What to ask the user about the `requested` set of `kind` for `entity`: a
/// free-form list when the manifest leaves the set to the user, otherwise
/// one yes/no question per requested text, in the order given.
pub fn permission_question(kind: &PermissionKind, entity: &str, requested: &Vec<String>) -> (q: PermissionQuestion)
    ensures
        holds(*requested, "user_defined"@) ==> (q matches PermissionQuestion::FreeForm(p) && p@
            == free_form_prompt(*kind, entity@)),
        !holds(*requested, "user_defined"@) ==> (q matches PermissionQuestion::Confirm(items)
            && items@.len() == requested@.len() && forall|i: int|
            0 <= i < items@.len() ==> #[trigger] items@[i].0@ == requested@[i]@ && items@[i].1@
                == confirm_prompt(*kind, entity@, requested@[i]@)),
{
    if contains_text(requested, "user_defined") {
        return PermissionQuestion::FreeForm(
            cat3(free_form_head_text(kind), entity, ", use a comma to separate multiple entries"),
        );
    }
    let mut items: Vec<(String, String)> = Vec::new();
    let mut i: usize = 0;
    while i < requested.len()
        invariant
            i <= requested.len(),
            items@.len() == i,
            forall|j: int|
                0 <= j < i ==> #[trigger] items@[j].0@ == requested@[j]@ && items@[j].1@
                    == confirm_prompt(*kind, entity@, requested@[j]@),
        decreases requested.len() - i,
    {
        let item = requested[i].as_str();
        let question = match kind {
            PermissionKind::Hosts => {
                let mut q = cat4("Allow ", entity, confirm_middle_text(kind), item);
                q.append("?");
                q
            },
            _ => {
                let mut q = cat4("Allow ", item, confirm_middle_text(kind), entity);
                q.append("?");
                q
            },
        };
        assert(question@ == confirm_prompt(*kind, entity@, requested@[i as int]@));
        items.push((requested[i].clone(), question));
        i = i + 1;
    }
    PermissionQuestion::Confirm(items)
}

/// The texts of a comma-separated answer, each trimmed.
pub open spec fn free_form_texts(input: Seq<char>) -> Seq<Seq<char>> {
    split_spec(input, ',').map_values(|x: Seq<char>| trim_spec(x))
}

/// The set the user granted by typing `input`: its comma-separated texts,
/// each trimmed, each once.
pub fn granted_from_free_form(input: &str) -> (r: Vec<String>)
    ensures
        views(r@) == first_occurrences(free_form_texts(input@)),
{
    let all = free_form_list(input);
    distinct_texts(&all)
}

fn free_form_list(input: &str) -> (r: Vec<String>)
    ensures
        views(r@) == free_form_texts(input@),
{
    let pieces = split_char(input, ',');
    let mut out: Vec<String> = Vec::new();
    let mut i: usize = 0;
    while i < pieces.len()
        invariant
            i <= pieces.len(),
            views(pieces@) == split_spec(input@, ','),
            views(out@) == views(pieces@).take(i as int).map_values(|x: Seq<char>| trim_spec(x)),
        decreases pieces.len() - i,
    {
        let t = trim(pieces[i].as_str());
        let ghost before = views(out@);
        out.push(t);
        assert(views(out@) =~= before.push(trim_spec(views(pieces@)[i as int])));
        i = i + 1;
        assert(views(out@) =~= views(pieces@).take(i as int).map_values(|x: Seq<char>| trim_spec(x)));
    }
    assert(views(pieces@).take(pieces.len() as int) =~= views(pieces@));
    out
}

/// The texts whose question was answered yes, in order.
pub open spec fn answered_yes(asked: Seq<(String, String)>, answers: Seq<bool>) -> Seq<Seq<char>>
    decreases asked.len(),
{
    if asked.len() == 0 || answers.len() == 0 {
        Seq::empty()
    } else {
        let rest = answered_yes(asked.drop_last(), answers.drop_last());
        if answers.last() {
            rest.push(asked.last().0@)
        } else {
            rest
        }
    }
}

/// Each answer decides its own question: a text is among those answered
/// yes exactly when some question about it, at the same position as a yes
/// among the answers, asked it.
pub proof fn law_answers_decide_their_questions(asked: Seq<(String, String)>, answers: Seq<bool>, x: Seq<char>)
    requires
        asked.len() == answers.len(),
    ensures
        answered_yes(asked, answers).contains(x) <==> exists|i: int|
            0 <= i < asked.len() && #[trigger] answers[i] && asked[i].0@ == x,
    decreases asked.len(),
{
    if asked.len() > 0 {
        let n = asked.len() - 1;
        law_answers_decide_their_questions(asked.drop_last(), answers.drop_last(), x);
        let rest = answered_yes(asked.drop_last(), answers.drop_last());
        if answered_yes(asked, answers).contains(x) {
            if rest.contains(x) {
                let i = choose|i: int| 0 <= i < n && #[trigger] answers.drop_last()[i] && asked.drop_last()[i].0@ == x;
                assert(answers[i] && asked[i].0@ == x);
            } else {
                let k = choose|k: int| 0 <= k < answered_yes(asked, answers).len() && answered_yes(asked, answers)[k] == x;
                assert(answers[n]);
                assert(k == rest.len());
                assert(answers[n] && asked[n].0@ == x);
            }
        }
        if exists|i: int| 0 <= i < asked.len() && #[trigger] answers[i] && asked[i].0@ == x {
            let i = choose|i: int| 0 <= i < asked.len() && #[trigger] answers[i] && asked[i].0@ == x;
            if i < n {
                assert(answers.drop_last()[i] && asked.drop_last()[i].0@ == x);
                let k = choose|k: int| 0 <= k < rest.len() && rest[k] == x;
                if answers.last() {
                    assert(rest.push(asked.last().0@)[k] == x);
                }
            } else {
                assert(answered_yes(asked, answers) == rest.push(asked.last().0@));
                assert(rest.push(asked.last().0@)[rest.len() as int] == x);
            }
        }
    }
}

/// Answering yes or no grants a requested text exactly when the answer at
/// the position of some request for it is yes.
pub proof fn law_confirmations_decide_their_requests(requested: Seq<String>, answers: Seq<bool>, x: Seq<char>)
    requires
        requested.len() == answers.len(),
    ensures
        confirmed_texts(requested, answers).contains(x) <==> exists|i: int|
            0 <= i < requested.len() && #[trigger] answers[i] && requested[i]@ == x,
    decreases requested.len(),
{
    if requested.len() > 0 {
        let n = requested.len() - 1;
        law_confirmations_decide_their_requests(requested.drop_last(), answers.drop_last(), x);
        let rest = confirmed_texts(requested.drop_last(), answers.drop_last());
        if confirmed_texts(requested, answers).contains(x) {
            if rest.contains(x) {
                let i = choose|i: int| 0 <= i < n && #[trigger] answers.drop_last()[i] && requested.drop_last()[i]@ == x;
                assert(answers[i] && requested[i]@ == x);
            } else {
                let k = choose|k: int| 0 <= k < confirmed_texts(requested, answers).len() && confirmed_texts(requested, answers)[k] == x;
                assert(answers[n]);
                assert(k == rest.len());
                assert(answers[n] && requested[n]@ == x);
            }
        }
        if exists|i: int| 0 <= i < requested.len() && #[trigger] answers[i] && requested[i]@ == x {
            let i = choose|i: int| 0 <= i < requested.len() && #[trigger] answers[i] && requested[i]@ == x;
            if i < n {
                assert(answers.drop_last()[i] && requested.drop_last()[i]@ == x);
                let k = choose|k: int| 0 <= k < rest.len() && rest[k] == x;
                if answers.last() {
                    assert(rest.push(requested.last()@)[k] == x);
                }
            } else {
                assert(confirmed_texts(requested, answers) == rest.push(requested.last()@));
                assert(rest.push(requested.last()@)[rest.len() as int] == x);
            }
        }
    }
}

/// The set the user granted by answering the questions of `asked` with
/// `answers`, one answer per question; each text once.
pub fn granted_from_answers(asked: &Vec<(String, String)>, answers: &Vec<bool>) -> (r: Vec<String>)
    requires
        answers.len() == asked.len(),
    ensures
        views(r@) == first_occurrences(answered_yes(asked@, answers@)),
{
    let all = answered_list(asked, answers);
    distinct_texts(&all)
}

fn answered_list(asked: &Vec<(String, String)>, answers: &Vec<bool>) -> (r: Vec<String>)
    requires
        answers.len() == asked.len(),
    ensures
        views(r@) == answered_yes(asked@, answers@),
{
    let mut out: Vec<String> = Vec::new();
    let mut i: usize = 0;
    while i < asked.len()
        invariant
            i <= asked.len(),
            answers.len() == asked.len(),
            views(out@) == answered_yes(asked@.take(i as int), answers@.take(i as int)),
        decreases asked.len() - i,
    {
        assert(asked@.take(i + 1).drop_last() =~= asked@.take(i as int));
        assert(answers@.take(i + 1).drop_last() =~= answers@.take(i as int));
        let ghost before = views(out@);
        if answers[i] {
            out.push(asked[i].0.clone());
            assert(views(out@) =~= before.push(asked@[i as int].0@));
        }
        i = i + 1;
    }
    assert(asked@.take(asked.len() as int) =~= asked@);
    assert(answers@.take(answers.len() as int) =~= answers@);
    out
}

// ---------------------------------------------------------------------------
// The interview that grants one entity's permissions.

/// The set settled at each step of the interview, in the order the user is
/// asked: hosts, read directories, write directories, URLs, read files,
/// write files.
pub open spec fn kind_at(step: int) -> PermissionKind {
    if step == 0 {
        PermissionKind::Hosts
    } else if step == 1 {
        PermissionKind::ReadDirs
    } else if step == 2 {
        PermissionKind::WriteDirs
    } else if step == 3 {
        PermissionKind::Urls
    } else if step == 4 {
        PermissionKind::ReadFiles
    } else {
        PermissionKind::WriteFiles
    }
}

fn kind_for_step(step: usize) -> (k: PermissionKind)
    requires
        step < 6,
    ensures
        k == kind_at(step as int),
{
    if step == 0 {
        PermissionKind::Hosts
    } else if step == 1 {
        PermissionKind::ReadDirs
    } else if step == 2 {
        PermissionKind::WriteDirs
    } else if step == 3 {
        PermissionKind::Urls
    } else if step == 4 {
        PermissionKind::ReadFiles
    } else {
        PermissionKind::WriteFiles
    }
}

/// The user's answer to one question: a typed list, or one yes or no per
/// requested text.
#[derive(Debug)]
pub enum PermissionAnswer {
    Typed(String),
    Confirmed(Vec<bool>),
}

/// The requested texts answered yes, in the order asked.
pub open spec fn confirmed_texts(requested: Seq<String>, answers: Seq<bool>) -> Seq<Seq<char>>
    decreases answers.len(),
{
    if requested.len() == 0 || answers.len() == 0 {
        Seq::empty()
    } else {
        let rest = confirmed_texts(requested.drop_last(), answers.drop_last());
        if answers.last() {
            rest.push(requested.last()@)
        } else {
            rest
        }
    }
}

/// Answering yes or no never grants a text that was not requested.
pub proof fn law_confirmed_within_requested(requested: Seq<String>, answers: Seq<bool>, t: Seq<char>)
    ensures
        confirmed_texts(requested, answers).contains(t) ==> views(requested).contains(t),
    decreases answers.len(),
{
    if requested.len() > 0 && answers.len() > 0 {
        law_confirmed_within_requested(requested.drop_last(), answers.drop_last(), t);
        let rest = confirmed_texts(requested.drop_last(), answers.drop_last());
        if confirmed_texts(requested, answers).contains(t) {
            if rest.contains(t) {
                let k = choose|k: int| 0 <= k < views(requested.drop_last()).len() && views(requested.drop_last())[k] == t;
                assert(views(requested)[k] == t);
            } else {
                assert(answers.last());
                let k = choose|k: int| 0 <= k < rest.push(requested.last()@).len() && rest.push(requested.last()@)[k] == t;
                assert(k == rest.len());
                assert(views(requested)[requested.len() - 1] == t);
            }
        }
    }
}

/// `answer` fits the question about `requested`: a typed list where the
/// manifest leaves the set to the user, one answer per requested text
/// otherwise.
pub open spec fn answer_fits(requested: Vec<String>, answer: PermissionAnswer) -> bool {
    if holds(requested, "user_defined"@) {
        answer is Typed
    } else {
        answer matches PermissionAnswer::Confirmed(bs) && bs@.len() == requested@.len()
    }
}

/// The set an answer grants, each text once.
pub open spec fn answer_grants(requested: Vec<String>, answer: PermissionAnswer) -> Seq<Seq<char>> {
    match answer {
        PermissionAnswer::Typed(t) => first_occurrences(free_form_texts(t@)),
        PermissionAnswer::Confirmed(bs) => first_occurrences(confirmed_texts(requested@, bs@)),
    }
}

/// `q` is the question about the `requested` set of `kind` for `entity`.
pub open spec fn is_question(q: PermissionQuestion, kind: PermissionKind, entity: Seq<char>, requested: Vec<String>) -> bool {
    &&& holds(requested, "user_defined"@) ==> (q matches PermissionQuestion::FreeForm(p) && p@ == free_form_prompt(
        kind,
        entity,
    ))
    &&& !holds(requested, "user_defined"@) ==> (q matches PermissionQuestion::Confirm(items) && items@.len()
        == requested@.len() && forall|i: int|
        0 <= i < items@.len() ==> #[trigger] items@[i].0@ == requested@[i]@ && items@[i].1@ == confirm_prompt(
            kind,
            entity,
            requested@[i]@,
        ))
}

fn confirmed(requested: &Vec<String>, answers: &Vec<bool>) -> (r: Vec<String>)
    requires
        answers@.len() == requested@.len(),
    ensures
        views(r@) == confirmed_texts(requested@, answers@),
{
    let mut out: Vec<String> = Vec::new();
    let mut i: usize = 0;
    while i < requested.len()
        invariant
            i <= requested.len(),
            answers@.len() == requested@.len(),
            views(out@) == confirmed_texts(requested@.take(i as int), answers@.take(i as int)),
        decreases requested.len() - i,
    {
        assert(requested@.take(i + 1).drop_last() =~= requested@.take(i as int));
        assert(answers@.take(i + 1).drop_last() =~= answers@.take(i as int));
        let ghost before = views(out@);
        if answers[i] {
            out.push(requested[i].clone());
            assert(views(out@) =~= before.push(requested@[i as int]@));
        }
        i = i + 1;
    }
    assert(requested@.take(i as int) =~= requested@);
    assert(answers@.take(i as int) =~= answers@);
    out
}

/// Granting one entity's permissions, one set at a time: what was asked
/// for, what has been granted so far, and how many sets are settled.
#[derive(Debug)]
pub struct PermissionInterview {
    pub entity: String,
    pub requested: JilebiPermissions,
    pub granted: JilebiPermissions,
    pub step: usize,
}

impl PermissionInterview {
    /// An interview about `requested` for `entity`, nothing granted yet.
    pub fn start(entity: &str, requested: JilebiPermissions) -> (r: PermissionInterview)
        ensures
            r.entity@ == entity@,
            r.requested == requested,
            r.step == 0,
            well_formed(r.granted),
            forall|k: PermissionKind| (#[trigger] kind_field(r.granted, k))@.len() == 0,
    {
        PermissionInterview { entity: owned(entity), requested, granted: JilebiPermissions::empty(), step: 0 }
    }

    /// The next question, with the set it settles; none once all six sets
    /// are settled.
    pub fn next_question(&self) -> (r: Option<(PermissionKind, PermissionQuestion)>)
        ensures
            self.step >= 6 <==> r is None,
            r matches Some(x) ==> x.0 == kind_at(self.step as int) && is_question(
                x.1,
                x.0,
                self.entity@,
                kind_field(self.requested, x.0),
            ),
    {
        if self.step >= 6 {
            return None;
        }
        let kind = kind_for_step(self.step);
        let requested = self.requested.requested(&kind);
        let q = permission_question(&kind, self.entity.as_str(), requested);
        Some((kind, q))
    }

    /// Settles the current set with the user's answer.
    pub fn answer(self, answer: PermissionAnswer) -> (r: PermissionInterview)
        requires
            self.step < 6,
            answer_fits(kind_field(self.requested, kind_at(self.step as int)), answer),
        ensures
            r.step == self.step + 1,
            r.entity == self.entity,
            r.requested == self.requested,
            well_formed(self.granted) ==> well_formed(r.granted),
            views(kind_field(r.granted, kind_at(self.step as int))@) == answer_grants(
                kind_field(self.requested, kind_at(self.step as int)),
                answer,
            ),
            forall|k: PermissionKind|
                k != kind_at(self.step as int) ==> #[trigger] kind_field(r.granted, k) == kind_field(
                    self.granted,
                    k,
                ),
    {
        let kind = kind_for_step(self.step);
        let set = match &answer {
            PermissionAnswer::Typed(t) => {
                proof {
                    law_first_occurrences(free_form_texts(t@));
                }
                granted_from_free_form(t.as_str())
            },
            PermissionAnswer::Confirmed(bs) => {
                let all = confirmed(self.requested.requested(&kind), bs);
                proof {
                    law_first_occurrences(views(all@));
                }
                distinct_texts(&all)
            },
        };
        let PermissionInterview { entity, requested, granted, step } = self;
        let granted = granted.with_granted(&kind, set);
        PermissionInterview { entity, requested, granted, step: step + 1 }
    }

    /// The permissions granted.
    pub fn finish(self) -> (r: JilebiPermissions)
        ensures
            r == self.granted,
    {
        self.granted
    }
}

/// The text of an optional text, or the empty text.
pub open spec fn text_or_empty(s: Option<&str>) -> Seq<char> {
    match s {
        Some(t) => t@,
        None => Seq::empty(),
    }
}

} // verus!
