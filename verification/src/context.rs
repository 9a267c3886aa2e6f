//! Application contexts: named groups of plugins that a server can be
//! started with. A context's plugins are stored as one text, each name in
//! single quotes, separated by commas.
use vstd::prelude::*;
use crate::permissions::contains_text;
use crate::text::{
    cat, cat3, join, join_spec, lemma_split_from_plain, owned, split_char, split_from, split_spec, trim,
    trim_char, trim_char_end_spec, trim_char_spec, trim_char_start_spec, trim_end_spec, trim_spec,
    trim_start_spec, views,
};

verus! {

broadcast use vstd::std_specs::vec::group_vec_axioms;

/// A named group of plugins.
#[derive(Debug)]
pub struct ApplicationContext {
    pub name: String,
    pub plugins: Vec<String>,
}

// ---------------------------------------------------------------------------
// The stored text.

/// A plugin's name as stored: trimmed and put in single quotes.
pub open spec fn quoted(p: Seq<char>) -> Seq<char> {
    seq!['\''] + trim_spec(p) + seq!['\'']
}

/// The stored form of each name.
pub open spec fn quoted_all(ps: Seq<Seq<char>>) -> Seq<Seq<char>> {
    ps.map_values(|p: Seq<char>| quoted(p))
}

/// A name read back from one comma-separated piece of the stored text:
/// white space, then single quotes, cut from both ends.
pub open spec fn context_entry(piece: Seq<char>) -> Seq<char> {
    trim_char_spec(trim_spec(piece), '\'')
}

/// The names a stored text holds.
pub open spec fn parse_spec(text: Seq<char>) -> Seq<Seq<char>> {
    split_spec(text, ',').map_values(|piece: Seq<char>| context_entry(piece))
}

/// Reads the names a stored text holds: one per comma-separated piece.
pub fn parse_context_plugins(text: &str) -> (r: Vec<String>)
    ensures
        views(r@) == parse_spec(text@),
{
    let pieces = split_char(text, ',');
    let mut out: Vec<String> = Vec::new();
    let mut i: usize = 0;
    while i < pieces.len()
        invariant
            i <= pieces.len(),
            views(pieces@) == split_spec(text@, ','),
            views(out@) == views(pieces@.take(i as int)).map_values(|piece: Seq<char>| context_entry(piece)),
        decreases pieces.len() - i,
    {
        let ghost before = views(out@);
        let t = trim(pieces[i].as_str());
        let e = trim_char(t.as_str(), '\'');
        out.push(e);
        assert(views(out@) =~= before.push(context_entry(pieces@[i as int]@)));
        assert(views(pieces@.take(i + 1)) =~= views(pieces@.take(i as int)).push(pieces@[i as int]@));
        i = i + 1;
        assert(views(out@) =~= views(pieces@.take(i as int)).map_values(
            |piece: Seq<char>| context_entry(piece),
        ));
    }
    assert(pieces@.take(i as int) =~= pieces@);
    out
}

/// A context as stored: its name and the text of its plugins.
pub fn context_from_row(name: String, plugins_text: &str) -> (r: ApplicationContext)
    ensures
        r.name == name,
        views(r.plugins@) == parse_spec(plugins_text@),
{
    ApplicationContext { name, plugins: parse_context_plugins(plugins_text) }
}

/// The stored text of `plugins`: each name quoted, joined with `sep`.
pub fn quoted_plugin_list(plugins: &Vec<String>, sep: &str) -> (r: String)
    ensures
        r@ == join_spec(quoted_all(views(plugins@)), sep@),
{
    proof {
        reveal_strlit("'");
    }
    let mut parts: Vec<String> = Vec::new();
    let mut i: usize = 0;
    while i < plugins.len()
        invariant
            i <= plugins.len(),
            "'"@ == seq!['\''],
            views(parts@) == quoted_all(views(plugins@.take(i as int))),
        decreases plugins.len() - i,
    {
        let ghost before = views(parts@);
        let t = trim(plugins[i].as_str());
        parts.push(cat3("'", t.as_str(), "'"));
        assert(views(parts@) =~= before.push(quoted(plugins@[i as int]@)));
        assert(views(plugins@.take(i + 1)) =~= views(plugins@.take(i as int)).push(plugins@[i as int]@));
        i = i + 1;
        assert(views(parts@) =~= quoted_all(views(plugins@.take(i as int))));
    }
    assert(plugins@.take(i as int) =~= plugins@);
    join(&parts, sep)
}

// ---------------------------------------------------------------------------
// Reading back what was stored.

proof fn lemma_split_last(x: Seq<char>, y: Seq<char>, sep: char, cur: Seq<char>, done: Seq<Seq<char>>)
    requires
        !y.contains(sep),
    ensures
        split_from(x + seq![sep] + y, sep, cur, done) == split_from(x, sep, cur, done).push(y),
    decreases x.len(),
{
    if x.len() == 0 {
        assert(x + seq![sep] + y =~= seq![sep] + y);
        assert((seq![sep] + y).drop_first() =~= y);
        lemma_split_from_plain(y, Seq::empty(), sep, Seq::empty(), done.push(cur));
        assert(y + Seq::<char>::empty() =~= y);
        assert(Seq::<char>::empty() + y =~= y);
    } else {
        assert((x + seq![sep] + y)[0] == x[0]);
        assert((x + seq![sep] + y).drop_first() =~= x.drop_first() + seq![sep] + y);
        if x[0] == sep {
            lemma_split_last(x.drop_first(), y, sep, Seq::empty(), done.push(cur));
        } else {
            lemma_split_last(x.drop_first(), y, sep, cur.push(x[0]), done);
        }
    }
}

proof fn lemma_trim_quoted(t: Seq<char>, lead: Seq<char>)
    requires
        lead == Seq::<char>::empty() || lead == seq![' '],
    ensures
        trim_spec(lead + seq!['\''] + t + seq!['\'']) == seq!['\''] + t + seq!['\''],
{
    let q = seq!['\''] + t + seq!['\''];
    let s = lead + seq!['\''] + t + seq!['\''];
    assert(q[0] == '\'');
    assert(q.last() == '\'');
    assert(!crate::text::is_white_space('\'')) by {
        assert(('\'' as u32) == 0x27);
    }
    assert(crate::text::is_white_space(' ')) by {
        assert((' ' as u32) == 0x20);
    }
    assert(trim_start_spec(q) == q);
    assert(trim_end_spec(q) == q);
    if lead.len() == 0 {
        assert(s =~= q);
    } else {
        assert(s[0] == ' ');
        assert(s.drop_first() =~= q);
        assert(trim_start_spec(s) == trim_start_spec(s.drop_first()));
    }
    assert(trim_start_spec(s) == q);
}

proof fn lemma_unquote(t: Seq<char>)
    requires
        t.len() == 0 || (t[0] != '\'' && t.last() != '\''),
    ensures
        trim_char_spec(seq!['\''] + t + seq!['\''], '\'') == t,
{
    let q = seq!['\''] + t + seq!['\''];
    let rest = t + seq!['\''];
    assert(q.drop_first() =~= rest);
    if t.len() == 0 {
        assert(rest =~= seq!['\'']);
        assert(rest.drop_first() =~= Seq::<char>::empty());
        assert(trim_char_start_spec(Seq::<char>::empty(), '\'') == Seq::<char>::empty());
        assert(trim_char_start_spec(rest, '\'') == Seq::<char>::empty());
        assert(trim_char_start_spec(q, '\'') == Seq::<char>::empty());
        assert(t =~= Seq::<char>::empty());
    } else {
        assert(rest[0] == t[0]);
        assert(q[0] == '\'');
        assert(trim_char_start_spec(rest, '\'') == rest);
        assert(trim_char_start_spec(q, '\'') == trim_char_start_spec(q.drop_first(), '\''));
        assert(trim_char_start_spec(q, '\'') == rest);
        assert(rest.last() == '\'');
        assert(rest.drop_last() =~= t);
        assert(trim_char_end_spec(t, '\'') == t);
    }
}

/// The names of a context are stored so that reading the text back gives
/// each name trimmed, in order, provided there is at least one name and no
/// trimmed name holds a comma or starts or ends with a single quote.
pub proof fn law_stored_plugins_read_back(ps: Seq<Seq<char>>)
    requires
        ps.len() > 0,
        forall|i: int| 0 <= i < ps.len() ==> !(#[trigger] trim_spec(ps[i])).contains(','),
        forall|i: int|
            0 <= i < ps.len() ==> #[trigger] trim_spec(ps[i]).len() == 0 || (trim_spec(ps[i])[0] != '\''
                && trim_spec(ps[i]).last() != '\''),
    ensures
        parse_spec(join_spec(quoted_all(ps), ", "@)) == ps.map_values(|p: Seq<char>| trim_spec(p)),
    decreases ps.len(),
{
    reveal_strlit(", ");
    let t = trim_spec(ps.last());
    let q = quoted(ps.last());
    assert(q =~= seq!['\''] + t + seq!['\'']);
    assert(!q.contains(',')) by {
        if q.contains(',') {
            let k = choose|k: int| 0 <= k < q.len() && q[k] == ',';
            assert(t[k - 1] == ',');
        }
    }
    assert(!(seq![' '] + q).contains(',')) by {
        if (seq![' '] + q).contains(',') {
            let k = choose|k: int| 0 <= k < (seq![' '] + q).len() && (seq![' '] + q)[k] == ',';
            assert(q[k - 1] == ',');
        }
    }
    lemma_unquote(t);
    if ps.len() == 1 {
        assert(quoted_all(ps) =~= seq![q]);
        assert(join_spec(quoted_all(ps), ", "@) == q);
        assert(q =~= Seq::<char>::empty() + q);
        lemma_split_from_plain(q, Seq::empty(), ',', Seq::empty(), Seq::empty());
        assert(q + Seq::<char>::empty() =~= q);
        assert(split_spec(q, ',') =~= seq![q]);
        lemma_trim_quoted(t, Seq::empty());
        assert(Seq::<char>::empty() + seq!['\''] + t + seq!['\''] =~= q);
        assert(parse_spec(q) =~= seq![t]);
        assert(ps.map_values(|p: Seq<char>| trim_spec(p)) =~= seq![t]);
    } else {
        let front = ps.drop_last();
        assert forall|i: int| 0 <= i < front.len() implies !(#[trigger] trim_spec(front[i])).contains(',') by {
            assert(front[i] == ps[i]);
        }
        assert forall|i: int| 0 <= i < front.len() implies #[trigger] trim_spec(front[i]).len() == 0 || (
        trim_spec(front[i])[0] != '\'' && trim_spec(front[i]).last() != '\'') by {
            assert(front[i] == ps[i]);
        }
        law_stored_plugins_read_back(front);
        assert(quoted_all(ps).drop_last() =~= quoted_all(front));
        assert(quoted_all(ps).last() == q);
        let x = join_spec(quoted_all(front), ", "@);
        assert(join_spec(quoted_all(ps), ", "@) == x + ", "@ + q);
        assert(", "@ =~= seq![',', ' ']);
        assert(x + ", "@ + q =~= x + seq![','] + (seq![' '] + q));
        lemma_split_last(x, seq![' '] + q, ',', Seq::empty(), Seq::empty());
        lemma_trim_quoted(t, seq![' ']);
        assert(seq![' '] + seq!['\''] + t + seq!['\''] =~= seq![' '] + q);
        assert(parse_spec(join_spec(quoted_all(ps), ", "@)) =~= parse_spec(x).push(t));
        assert(ps.map_values(|p: Seq<char>| trim_spec(p)) =~= front.map_values(|p: Seq<char>| trim_spec(p)).push(t));
    }
}

// ---------------------------------------------------------------------------
// Changing a context's plugins.

/// The names a list holds.
pub open spec fn name_set(v: Seq<String>) -> Set<Seq<char>> {
    views(v).to_set()
}

/// No name appears twice.
pub open spec fn names_distinct(v: Seq<String>) -> bool {
    views(v).no_duplicates()
}

proof fn lemma_push_distinct(s: Seq<Seq<char>>, x: Seq<char>)
    requires
        s.no_duplicates(),
        !s.contains(x),
    ensures
        s.push(x).no_duplicates(),
        s.push(x).to_set() == s.to_set().insert(x),
{
    s.lemma_push_to_set_commute(x);
    assert forall|i: int, j: int| 0 <= i < s.push(x).len() && 0 <= j < s.push(x).len() && i != j implies s.push(
        x,
    )[i] != s.push(x)[j] by {
        if i < s.len() && j == s.len() {
            assert(s.contains(s[i]));
        }
        if j < s.len() && i == s.len() {
            assert(s.contains(s[j]));
        }
    }
}

/// Each name of `names` once, in order of first appearance, leaving out
/// `skip` when given.
pub open spec fn first_occurrences(names: Seq<Seq<char>>, skip: Option<Seq<char>>) -> Seq<Seq<char>>
    decreases names.len(),
{
    if names.len() == 0 {
        Seq::empty()
    } else {
        let front = first_occurrences(names.drop_last(), skip);
        let x = names.last();
        if front.contains(x) || skip == Some(x) {
            front
        } else {
            front.push(x)
        }
    }
}

/// The plugins of a context with `plugin` added, each name once.
pub fn with_plugin(plugins: &Vec<String>, plugin: &str) -> (r: Vec<String>)
    ensures
        views(r@) == if first_occurrences(views(plugins@), None).contains(plugin@) {
            first_occurrences(views(plugins@), None)
        } else {
            first_occurrences(views(plugins@), None).push(plugin@)
        },
        names_distinct(r@),
        name_set(r@) == name_set(plugins@).insert(plugin@),
{
    let mut out = distinct_names(plugins);
    if !contains_text(&out, plugin) {
        let ghost before = out@;
        out.push(owned(plugin));
        assert(views(out@) =~= views(before).push(plugin@));
        proof {
            lemma_push_distinct(views(before), plugin@);
        }
    } else {
        assert(name_set(out@) =~= name_set(out@).insert(plugin@));
    }
    out
}

/// The plugins of a context with `plugin` taken out, each name once.
pub fn without_plugin(plugins: &Vec<String>, plugin: &str) -> (r: Vec<String>)
    ensures
        views(r@) == first_occurrences(views(plugins@), Some(plugin@)),
        names_distinct(r@),
        name_set(r@) == name_set(plugins@).remove(plugin@),
{
    let mut out: Vec<String> = Vec::new();
    let mut i: usize = 0;
    assert(views(out@) =~= Seq::<Seq<char>>::empty());
    assert(views(plugins@.take(0)) =~= Seq::<Seq<char>>::empty());
    assert(name_set(out@) =~= name_set(plugins@.take(0)).remove(plugin@));
    while i < plugins.len()
        invariant
            i <= plugins.len(),
            names_distinct(out@),
            views(out@) == first_occurrences(views(plugins@.take(i as int)), Some(plugin@)),
            name_set(out@) == name_set(plugins@.take(i as int)).remove(plugin@),
        decreases plugins.len() - i,
    {
        let ghost before = views(out@);
        let ghost prev = views(plugins@.take(i as int));
        let name = &plugins[i];
        assert(views(plugins@.take(i + 1)) =~= prev.push(name@));
        assert(views(plugins@.take(i + 1)).drop_last() =~= prev);
        proof {
            prev.lemma_push_to_set_commute(name@);
        }
        if !crate::text::same_text(name.as_str(), plugin) && !contains_text(&out, name.as_str()) {
            out.push(name.clone());
            assert(views(out@) =~= before.push(name@));
            proof {
                lemma_push_distinct(before, name@);
            }
        }
        i = i + 1;
        assert(name_set(out@) =~= name_set(plugins@.take(i as int)).remove(plugin@));
    }
    assert(plugins@.take(i as int) =~= plugins@);
    out
}

/// Each name of `plugins` once, in order of first appearance.
pub fn distinct_names(plugins: &Vec<String>) -> (r: Vec<String>)
    ensures
        views(r@) == first_occurrences(views(plugins@), None),
        names_distinct(r@),
        name_set(r@) == name_set(plugins@),
{
    let mut out: Vec<String> = Vec::new();
    let mut i: usize = 0;
    assert(views(out@) =~= Seq::<Seq<char>>::empty());
    assert(views(plugins@.take(0)) =~= Seq::<Seq<char>>::empty());
    assert(name_set(out@) =~= name_set(plugins@.take(0)));
    while i < plugins.len()
        invariant
            i <= plugins.len(),
            names_distinct(out@),
            views(out@) == first_occurrences(views(plugins@.take(i as int)), None),
            name_set(out@) == name_set(plugins@.take(i as int)),
        decreases plugins.len() - i,
    {
        let ghost before = views(out@);
        let ghost prev = views(plugins@.take(i as int));
        let name = &plugins[i];
        assert(views(plugins@.take(i + 1)) =~= prev.push(name@));
        assert(views(plugins@.take(i + 1)).drop_last() =~= prev);
        proof {
            prev.lemma_push_to_set_commute(name@);
        }
        if !contains_text(&out, name.as_str()) {
            out.push(name.clone());
            assert(views(out@) =~= before.push(name@));
            proof {
                lemma_push_distinct(before, name@);
            }
        }
        i = i + 1;
        assert(name_set(out@) =~= name_set(plugins@.take(i as int)));
    }
    assert(plugins@.take(i as int) =~= plugins@);
    out
}

// ---------------------------------------------------------------------------
// Checking that the plugins of a context are installed.

/// The requested names that are not installed, each once, in the order they
/// are first requested.
pub open spec fn missing_in_order(requested: Seq<Seq<char>>, installed: Seq<Seq<char>>) -> Seq<Seq<char>>
    decreases requested.len(),
{
    if requested.len() == 0 {
        Seq::empty()
    } else {
        let front = missing_in_order(requested.drop_last(), installed);
        let x = requested.last();
        if installed.contains(x) || front.contains(x) {
            front
        } else {
            front.push(x)
        }
    }
}

/// The requested names that are not installed, each once, in the order they
/// are first requested.
pub fn missing_plugins(requested: &Vec<String>, installed: &Vec<String>) -> (r: Vec<String>)
    ensures
        views(r@) == missing_in_order(views(requested@), views(installed@)),
        names_distinct(r@),
        name_set(r@) == name_set(requested@).difference(name_set(installed@)),
{
    let mut out: Vec<String> = Vec::new();
    let mut i: usize = 0;
    assert(views(out@) =~= Seq::<Seq<char>>::empty());
    assert(views(requested@.take(0)) =~= Seq::<Seq<char>>::empty());
    assert(name_set(out@) =~= name_set(requested@.take(0)).difference(name_set(installed@)));
    while i < requested.len()
        invariant
            i <= requested.len(),
            names_distinct(out@),
            views(out@) == missing_in_order(views(requested@.take(i as int)), views(installed@)),
            name_set(out@) == name_set(requested@.take(i as int)).difference(name_set(installed@)),
        decreases requested.len() - i,
    {
        let ghost before = views(out@);
        let ghost prev = views(requested@.take(i as int));
        let name = &requested[i];
        assert(views(requested@.take(i + 1)) =~= prev.push(name@));
        assert(views(requested@.take(i + 1)).drop_last() =~= prev);
        proof {
            prev.lemma_push_to_set_commute(name@);
        }
        if !contains_text(installed, name.as_str()) && !contains_text(&out, name.as_str()) {
            out.push(name.clone());
            assert(views(out@) =~= before.push(name@));
            proof {
                lemma_push_distinct(before, name@);
            }
        }
        i = i + 1;
        assert(name_set(out@) =~= name_set(requested@.take(i as int)).difference(name_set(installed@)));
    }
    assert(requested@.take(i as int) =~= requested@);
    out
}

/// Whether every requested plugin is installed; otherwise the message that
/// lists the missing ones, in the order first requested, separated by `, `.
pub fn check_plugins_installed(requested: &Vec<String>, installed: &Vec<String>) -> (r: Result<(), String>)
    ensures
        name_set(requested@).difference(name_set(installed@)).is_empty() ==> r is Ok,
        !name_set(requested@).difference(name_set(installed@)).is_empty() ==> r is Err && r->Err_0@
            == "The following plugins are not installed: "@ + join_spec(
            missing_in_order(views(requested@), views(installed@)),
            ", "@,
        ),
{
    let missing = missing_plugins(requested, installed);
    if missing.len() == 0 {
        assert(views(missing@) =~= Seq::<Seq<char>>::empty());
        assert(name_set(missing@) =~= Set::<Seq<char>>::empty());
        return Ok(());
    }
    assert(views(missing@).contains(views(missing@)[0]));
    assert(name_set(missing@).contains(views(missing@)[0]));
    let listed = join(&missing, ", ");
    Err(cat("The following plugins are not installed: ", listed.as_str()))
}

/// The query for the enabled plugins to load: those of the context whose
/// stored plugin text is `context_plugins`, or all when no context is named.
pub fn enabled_plugins_query(context_plugins: Option<&str>) -> (r: String)
    ensures
        match context_plugins {
            Some(list) => r@ == "SELECT name, path FROM plugins WHERE name IN ("@ + list@
                + ") AND state = 'enabled'"@,
            None => r@ == "SELECT name, path FROM plugins WHERE state = 'enabled'"@,
        },
{
    match context_plugins {
        Some(list) => cat3("SELECT name, path FROM plugins WHERE name IN (", list, ") AND state = 'enabled'"),
        None => owned("SELECT name, path FROM plugins WHERE state = 'enabled'"),
    }
}

/// The query that finds which of `plugins` are installed.
pub fn installed_plugins_query(plugins: &Vec<String>) -> (r: String)
    ensures
        r@ == "SELECT name FROM plugins WHERE name IN ("@ + join_spec(quoted_all(views(plugins@)), ","@) + ")"@,
{
    let list = quoted_plugin_list(plugins, ",");
    cat3("SELECT name FROM plugins WHERE name IN (", list.as_str(), ")")
}

} // verus!
