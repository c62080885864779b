//! Discovery of extension libraries in a flat directory.
use vstd::prelude::*;

verus! {

/// The platform's naming convention for dynamic libraries, e.g. `lib` and `.so`.
pub struct DylibNaming {
    pub prefix: String,
    pub suffix: String,
}

/// What a directory listing tells about one entry.
pub struct DirEntryInfo<P> {
    /// The file name, or `None` when it is not valid Unicode.
    pub file_name: Option<String>,
    /// Whether the entry is a regular file.
    pub is_file: bool,
    /// The full path of the entry.
    pub path: P,
}

/// A listing of a directory path.
pub struct DirListing<P> {
    /// Whether the listed path denotes a directory.
    pub is_dir: bool,
    /// The entries in listing order; `None` stands for an entry that could not be read.
    pub entries: Vec<Option<DirEntryInfo<P>>>,
}

/// Why discovery failed.
#[derive(Debug, PartialEq, Eq, Structural)]
pub enum DiscoveryError {
    /// The given path does not denote a directory.
    InvalidDirectory,
}

pub open spec fn has_prefix(s: Seq<char>, p: Seq<char>) -> bool {
    p.len() <= s.len() && s.subrange(0, p.len() as int) == p
}

pub open spec fn has_suffix(s: Seq<char>, p: Seq<char>) -> bool {
    p.len() <= s.len() && s.subrange(s.len() - p.len(), s.len() as int) == p
}

/// The identifier of a file name: the name without the library prefix and
/// suffix, when it carries both without overlap.
pub open spec fn spec_exex_id(name: Seq<char>, prefix: Seq<char>, suffix: Seq<char>) -> Option<
    Seq<char>,
> {
    if name.len() >= prefix.len() + suffix.len() && has_prefix(name, prefix) && has_suffix(
        name,
        suffix,
    ) {
        Some(name.subrange(prefix.len() as int, name.len() - suffix.len()))
    } else {
        None
    }
}

/// The identifier that an entry of a listing is loaded under, if any.
pub open spec fn entry_id<P>(
    entry: Option<DirEntryInfo<P>>,
    prefix: Seq<char>,
    suffix: Seq<char>,
) -> Option<Seq<char>> {
    match entry {
        Some(e) => if e.is_file {
            match e.file_name {
                Some(name) => spec_exex_id(name@, prefix, suffix),
                None => None,
            }
        } else {
            None
        },
        None => None,
    }
}

pub open spec fn has_id<P>(found: Seq<(Seq<char>, P)>, id: Seq<char>) -> bool {
    exists|i: int| 0 <= i < found.len() && #[trigger] found[i].0 == id
}

/// The libraries found in a sequence of entries, in listing order; of two
/// entries with one identifier the first one wins.
pub open spec fn discovered<P>(
    entries: Seq<Option<DirEntryInfo<P>>>,
    prefix: Seq<char>,
    suffix: Seq<char>,
) -> Seq<(Seq<char>, P)>
    decreases entries.len(),
{
    if entries.len() == 0 {
        Seq::empty()
    } else {
        let prev = discovered(entries.drop_last(), prefix, suffix);
        match entry_id(entries.last(), prefix, suffix) {
            Some(id) => if has_id(prev, id) {
                prev
            } else {
                prev.push((id, entries.last().unwrap().path))
            },
            None => prev,
        }
    }
}

/// Relies on `str::strip_prefix`: the rest after `p` exactly when `s` starts with `p`.
#[verifier::external_body]
fn strip_prefix_of<'a>(s: &'a str, p: &str) -> (r: Option<&'a str>)
    ensures
        match r {
            Some(rest) => s@ == p@ + rest@,
            None => !has_prefix(s@, p@),
        },
{
    s.strip_prefix(p)
}

/// Relies on `str::strip_suffix`: the part before `p` exactly when `s` ends with `p`.
#[verifier::external_body]
fn strip_suffix_of<'a>(s: &'a str, p: &str) -> (r: Option<&'a str>)
    ensures
        match r {
            Some(rest) => s@ == rest@ + p@,
            None => !has_suffix(s@, p@),
        },
{
    s.strip_suffix(p)
}

/// The identifier of the library file `name`: `name` without the platform's
/// prefix and suffix, or `None` when it does not carry both without overlap.
pub fn exex_id_of(naming: &DylibNaming, name: &str) -> (r: Option<String>)
    ensures
        match r {
            Some(id) => spec_exex_id(name@, naming.prefix@, naming.suffix@) == Some(id@),
            None => spec_exex_id(name@, naming.prefix@, naming.suffix@).is_none(),
        },
{
    let prefix = naming.prefix.as_str();
    let suffix = naming.suffix.as_str();
    match strip_prefix_of(name, prefix) {
        None => None,
        Some(rest) => {
            assert(name@.subrange(0, prefix@.len() as int) =~= prefix@);
            assert(rest@ =~= name@.subrange(prefix@.len() as int, name@.len() as int));
            match strip_suffix_of(rest, suffix) {
                None => {
                    proof {
                        if has_suffix(name@, suffix@) && name@.len() >= prefix@.len()
                            + suffix@.len() {
                            assert(rest@.subrange(rest@.len() - suffix@.len(), rest@.len() as int)
                                =~= name@.subrange(
                                name@.len() - suffix@.len(),
                                name@.len() as int,
                            ));
                        }
                    }
                    None
                },
                Some(id) => {
                    assert(id@ =~= name@.subrange(
                        prefix@.len() as int,
                        name@.len() - suffix@.len(),
                    ));
                    assert(name@.subrange(name@.len() - suffix@.len(), name@.len() as int)
                        =~= suffix@);
                    Some(String::from_str(id))
                },
            }
        },
    }
}


/// Whether `found` already holds a library under `id`.
fn contains_id<P>(found: &Vec<(String, P)>, id: &String) -> (r: bool)
    ensures
        r == has_id(view_found(found@), id@),
{
    let mut i: usize = 0;
    while i < found.len()
        invariant
            i <= found@.len(),
            forall|k: int| 0 <= k < i ==> view_found(found@)[k].0 != id@,
        decreases found@.len() - i,
    {
        if found[i].0 == *id {
            assert(view_found(found@)[i as int].0 == id@);
            return true;
        }
        i += 1;
    }
    false
}

/// The found libraries with each identifier given by its characters.
pub open spec fn view_found<P>(found: Seq<(String, P)>) -> Seq<(Seq<char>, P)> {
    found.map_values(|f: (String, P)| (f.0@, f.1))
}


/// The order of identifiers: character by character by code point, a proper
/// prefix first. This is the order of `String`.
pub open spec fn id_lt(a: Seq<char>, b: Seq<char>) -> bool
    decreases a.len(),
{
    if a.len() == 0 {
        b.len() > 0
    } else if b.len() == 0 {
        false
    } else if a[0] != b[0] {
        (a[0] as int) < (b[0] as int)
    } else {
        id_lt(a.drop_first(), b.drop_first())
    }
}

proof fn lemma_id_lt_irreflexive(a: Seq<char>)
    ensures
        !id_lt(a, a),
    decreases a.len(),
{
    if a.len() > 0 {
        lemma_id_lt_irreflexive(a.drop_first());
    }
}

proof fn lemma_id_lt_total(a: Seq<char>, b: Seq<char>)
    ensures
        a != b ==> id_lt(a, b) || id_lt(b, a),
        !(id_lt(a, b) && id_lt(b, a)),
    decreases a.len(),
{
    if a.len() > 0 && b.len() > 0 {
        lemma_id_lt_total(a.drop_first(), b.drop_first());
        if a[0] == b[0] && a != b {
            assert(a =~= seq![a[0]] + a.drop_first());
            assert(b =~= seq![b[0]] + b.drop_first());
        }
        if a[0] != b[0] {
            assert((a[0] as int) != (b[0] as int));
        }
    } else if a.len() == 0 && b.len() == 0 {
        assert(a =~= b);
    }
}

proof fn lemma_id_lt_transitive(a: Seq<char>, b: Seq<char>, c: Seq<char>)
    requires
        id_lt(a, b),
        id_lt(b, c),
    ensures
        id_lt(a, c),
    decreases a.len(),
{
    if a.len() > 0 && b.len() > 0 && c.len() > 0 {
        if a[0] == b[0] && b[0] == c[0] {
            lemma_id_lt_transitive(a.drop_first(), b.drop_first(), c.drop_first());
        }
    }
}

/// Whether identifier `a` comes before identifier `b`.
fn id_less(a: &str, b: &str) -> (r: bool)
    ensures
        r == id_lt(a@, b@),
{
    let la = a.unicode_len();
    let lb = b.unicode_len();
    let mut i: usize = 0;
    assert(a@.subrange(0, la as int) =~= a@);
    assert(b@.subrange(0, lb as int) =~= b@);
    while i < la && i < lb
        invariant
            la == a@.len(),
            lb == b@.len(),
            i <= la,
            i <= lb,
            id_lt(a@, b@) == id_lt(a@.subrange(i as int, la as int), b@.subrange(i as int, lb as int)),
        decreases la - i,
    {
        let ca = a.get_char(i);
        let cb = b.get_char(i);
        let ghost sa = a@.subrange(i as int, la as int);
        let ghost sb = b@.subrange(i as int, lb as int);
        assert(sa[0] == ca && sb[0] == cb);
        if ca != cb {
            return (ca as u32) < (cb as u32);
        }
        assert(sa.drop_first() =~= a@.subrange(i + 1, la as int));
        assert(sb.drop_first() =~= b@.subrange(i + 1, lb as int));
        i += 1;
    }
    la < lb
}

/// Whether the identifiers of `found` strictly increase.
pub open spec fn ids_increasing<P>(found: Seq<(Seq<char>, P)>) -> bool {
    forall|i: int, j: int| 0 <= i < j < found.len() ==> id_lt(#[trigger] found[i].0, #[trigger] found[j].0)
}

/// Sorts `found`, whose identifiers are distinct, by identifier.
fn sort_by_id<P>(found: Vec<(String, P)>) -> (r: Vec<(String, P)>)
    requires
        forall|i: int, j: int|
            0 <= i < j < found@.len() ==> #[trigger] found@[i].0@ != #[trigger] found@[j].0@,
    ensures
        ids_increasing(view_found(r@)),
        r@.len() == found@.len(),
        forall|x: (Seq<char>, P)| view_found(r@).contains(x) <==> view_found(found@).contains(x),
{
    let ghost all = view_found(found@);
    let ghost n = found@.len();
    let mut rest = found;
    let mut sorted: Vec<(String, P)> = Vec::new();
    let ghost k: int = 0;
    while rest.len() > 0
        invariant
            0 <= k <= n,
            n == all.len(),
            forall|i: int, j: int| 0 <= i < j < n ==> #[trigger] all[i].0 != #[trigger] all[j].0,
            view_found(rest@) == all.subrange(k, n as int),
            sorted@.len() == k,
            ids_increasing(view_found(sorted@)),
            forall|x: (Seq<char>, P)|
                view_found(sorted@).contains(x) <==> all.subrange(0, k).contains(x),
        decreases rest@.len(),
    {
        let ghost before = rest@;
        let item = rest.remove(0);
        let ghost cur = view_found(sorted@);
        let ghost new = (item.0@, item.1);
        assert(k < n) by {
            assert(view_found(before).len() == before.len());
        }
        assert(all[k] == new) by {
            assert(view_found(before)[0] == new);
            assert(all.subrange(k, n as int)[0] == all[k]);
        }
        assert(view_found(rest@) =~= all.subrange(k + 1, n as int)) by {
            assert(rest@ =~= before.drop_first());
            assert forall|i: int| 0 <= i < rest@.len() implies view_found(rest@)[i] == all.subrange(
                k + 1,
                n as int,
            )[i] by {
                assert(view_found(before).len() == n - k);
                assert(rest@[i] == before[i + 1]);
                assert(view_found(before)[i + 1] == all.subrange(k, n as int)[i + 1]);
            }
            assert(view_found(before).len() == n - k);
            assert(view_found(rest@).len() == rest@.len());
        }
        let mut pos: usize = 0;
        while pos < sorted.len() && id_less(sorted[pos].0.as_str(), item.0.as_str())
            invariant
                pos <= sorted@.len(),
                cur == view_found(sorted@),
                new == (item.0@, item.1),
                forall|i: int| 0 <= i < pos ==> id_lt(#[trigger] cur[i].0, new.0),
            decreases sorted@.len() - pos,
        {
            assert(cur[pos as int].0 == sorted@[pos as int].0@);
            pos += 1;
        }
        proof {
            assert forall|i: int| 0 <= i < cur.len() implies #[trigger] cur[i].0 != new.0 by {
                assert(all.subrange(0, k).contains(cur[i]));
                let j = choose|j: int| 0 <= j < k && #[trigger] all.subrange(0, k)[j] == cur[i];
                assert(all[j] == cur[i]);
            }
            if pos < cur.len() {
                assert(cur[pos as int].0 == sorted@[pos as int].0@);
                lemma_id_lt_total(cur[pos as int].0, new.0);
            }
            assert forall|m: int| pos <= m < cur.len() implies id_lt(new.0, #[trigger] cur[m].0) by {
                if m > pos {
                    lemma_id_lt_transitive(new.0, cur[pos as int].0, cur[m].0);
                }
            }
        }
        sorted.insert(pos, item);
        proof {
            let next = view_found(sorted@);
            assert(next =~= cur.insert(pos as int, new));
            assert forall|i: int, j: int| 0 <= i < j < next.len() implies id_lt(
                #[trigger] next[i].0,
                #[trigger] next[j].0,
            ) by {
                if j < pos {
                } else if j == pos {
                } else if i < pos {
                    assert(id_lt(new.0, cur[j - 1].0));
                    lemma_id_lt_transitive(next[i].0, new.0, next[j].0);
                } else if i == pos {
                    assert(id_lt(new.0, cur[j - 1].0));
                }
            }
            assert(all.subrange(0, k + 1) =~= all.subrange(0, k).push(new));
            assert forall|x: (Seq<char>, P)| next.contains(x) <==> all.subrange(0, k + 1).contains(x) by {
                if next.contains(x) {
                    let i = choose|i: int| 0 <= i < next.len() && next[i] == x;
                    if i < pos {
                        assert(cur[i] == x);
                    } else if i > pos {
                        assert(cur[i - 1] == x);
                    }
                    if x != new {
                        assert(cur.contains(x));
                        let j = choose|j: int| 0 <= j < k && #[trigger] all.subrange(0, k)[j] == x;
                        assert(all.subrange(0, k + 1)[j] == x);
                    } else {
                        assert(all.subrange(0, k + 1)[k] == x);
                    }
                }
                if all.subrange(0, k + 1).contains(x) {
                    let j = choose|j: int| 0 <= j < k + 1 && #[trigger] all.subrange(0, k + 1)[j] == x;
                    if j == k {
                        assert(next[pos as int] == x);
                    } else {
                        assert(all.subrange(0, k)[j] == x);
                        assert(cur.contains(x));
                        let i = choose|i: int| 0 <= i < cur.len() && cur[i] == x;
                        if i < pos {
                            assert(next[i] == x);
                        } else {
                            assert(next[i + 1] == x);
                        }
                    }
                }
            }
            k = k + 1;
        }
    }
    assert(all.subrange(0, k) =~= all);
    sorted
}

/// Lists the extension libraries of a directory: each regular file whose name
/// is `<prefix><id><suffix>` yields `id` with its path, sorted by `id`.
/// Entries that are not such files, and entries that could not be read, are
/// skipped. Of two files with one identifier the first one listed wins.
pub fn load_library_paths<P>(directory: DirListing<P>, naming: &DylibNaming) -> (r: Result<
    Vec<(String, P)>,
    DiscoveryError,
>)
    ensures
        !directory.is_dir ==> r == Err::<Vec<(String, P)>, DiscoveryError>(
            DiscoveryError::InvalidDirectory,
        ),
        directory.is_dir ==> r.is_ok() && ids_increasing(view_found(r.unwrap()@)),
        directory.is_dir ==> r.is_ok() && r.unwrap()@.len() == discovered(
            directory.entries@,
            naming.prefix@,
            naming.suffix@,
        ).len(),
        directory.is_dir ==> r.is_ok() && forall|x: (Seq<char>, P)|
            view_found(r.unwrap()@).contains(x) <==> discovered(
                directory.entries@,
                naming.prefix@,
                naming.suffix@,
            ).contains(x),
{
    if !directory.is_dir {
        return Err(DiscoveryError::InvalidDirectory);
    }
    let ghost all = directory.entries@;
    let ghost prefix = naming.prefix@;
    let ghost suffix = naming.suffix@;
    let mut entries = directory.entries;
    let mut found: Vec<(String, P)> = Vec::new();
    let ghost done: int = 0;
    while entries.len() > 0
        invariant
            0 <= done <= all.len(),
            entries@ == all.subrange(done, all.len() as int),
            view_found(found@) == discovered(all.subrange(0, done), prefix, suffix),
            prefix == naming.prefix@,
            suffix == naming.suffix@,
        decreases entries@.len(),
    {
        let entry = entries.remove(0);
        proof {
            assert(all.subrange(0, done + 1).drop_last() =~= all.subrange(0, done));
            assert(all.subrange(0, done + 1).last() == entry);
        }
        if let Some(info) = entry {
            if info.is_file {
                if let Some(name) = info.file_name {
                    if let Some(id) = exex_id_of(naming, name.as_str()) {
                        if !contains_id(&found, &id) {
                            let ghost before = found@;
                            found.push((id, info.path));
                            proof {
                                assert(view_found(found@) =~= view_found(before).push(
                                    (id@, info.path),
                                ));
                            }
                        }
                    }
                }
            }
        }
        proof {
            done = done + 1;
            assert(entries@ =~= all.subrange(done, all.len() as int));
        }
    }
    assert(all.subrange(0, done) =~= all);
    proof {
        lemma_found_ids_distinct(all, prefix, suffix);
        assert forall|i: int, j: int| 0 <= i < j < found@.len() implies #[trigger] found@[i].0@
            != #[trigger] found@[j].0@ by {
            assert(view_found(found@)[i].0 == found@[i].0@);
            assert(view_found(found@)[j].0 == found@[j].0@);
        }
    }
    Ok(sort_by_id(found))
}


/// Nothing but a matching file is found: each library found stands for a
/// regular file of the listing whose name is `<prefix><id><suffix>`, under
/// that `id` and with that file's path.
pub proof fn lemma_found_only_matching<P>(
    entries: Seq<Option<DirEntryInfo<P>>>,
    prefix: Seq<char>,
    suffix: Seq<char>,
    i: int,
)
    requires
        0 <= i < discovered(entries, prefix, suffix).len(),
    ensures
        exists|j: int|
            0 <= j < entries.len() && entries[j].is_some() && entries[j].unwrap().is_file
                && #[trigger] entry_id(entries[j], prefix, suffix) == Some(
                discovered(entries, prefix, suffix)[i].0,
            ) && entries[j].unwrap().path == discovered(entries, prefix, suffix)[i].1,
    decreases entries.len(),
{
    let prev = discovered(entries.drop_last(), prefix, suffix);
    let d = discovered(entries, prefix, suffix);
    if i < prev.len() {
        lemma_found_only_matching(entries.drop_last(), prefix, suffix, i);
        let j = choose|j: int|
            0 <= j < entries.drop_last().len() && entries.drop_last()[j].is_some()
                && entries.drop_last()[j].unwrap().is_file && #[trigger] entry_id(
                entries.drop_last()[j],
                prefix,
                suffix,
            ) == Some(prev[i].0) && entries.drop_last()[j].unwrap().path == prev[i].1;
        assert(entries[j] == entries.drop_last()[j]);
        assert(d[i] == prev[i]);
    } else {
        let j = entries.len() - 1;
        assert(entries[j] == entries.last());
    }
}

/// Every matching file is found: a regular file named `<prefix><id><suffix>`
/// yields `id` paired with its path, unless an earlier file of the listing
/// already yielded `id`.
pub proof fn lemma_matching_found<P>(
    entries: Seq<Option<DirEntryInfo<P>>>,
    prefix: Seq<char>,
    suffix: Seq<char>,
    j: int,
)
    requires
        0 <= j < entries.len(),
        entry_id(entries[j], prefix, suffix).is_some(),
        forall|k: int|
            0 <= k < j ==> #[trigger] entry_id(entries[k], prefix, suffix) != entry_id(
                entries[j],
                prefix,
                suffix,
            ),
    ensures
        exists|i: int|
            0 <= i < discovered(entries, prefix, suffix).len() && #[trigger] discovered(
                entries,
                prefix,
                suffix,
            )[i] == (entry_id(entries[j], prefix, suffix).unwrap(), entries[j].unwrap().path),
    decreases entries.len(),
{
    let prev = discovered(entries.drop_last(), prefix, suffix);
    let d = discovered(entries, prefix, suffix);
    if j < entries.len() - 1 {
        assert forall|k: int| 0 <= k < j implies #[trigger] entry_id(
            entries.drop_last()[k],
            prefix,
            suffix,
        ) != entry_id(entries.drop_last()[j], prefix, suffix) by {
            assert(entries.drop_last()[k] == entries[k]);
        }
        assert(entries.drop_last()[j] == entries[j]);
        lemma_matching_found(entries.drop_last(), prefix, suffix, j);
        let i = choose|i: int|
            0 <= i < prev.len() && #[trigger] prev[i] == (
                entry_id(entries[j], prefix, suffix).unwrap(),
                entries[j].unwrap().path,
            );
        assert(d[i] == prev[i]);
    } else {
        let id = entry_id(entries[j], prefix, suffix).unwrap();
        assert(entries[j] == entries.last());
        if has_id(prev, id) {
            let i = choose|i: int| 0 <= i < prev.len() && #[trigger] prev[i].0 == id;
            lemma_found_only_matching(entries.drop_last(), prefix, suffix, i);
            let k = choose|k: int|
                0 <= k < entries.drop_last().len() && entries.drop_last()[k].is_some()
                    && entries.drop_last()[k].unwrap().is_file && #[trigger] entry_id(
                    entries.drop_last()[k],
                    prefix,
                    suffix,
                ) == Some(prev[i].0) && entries.drop_last()[k].unwrap().path == prev[i].1;
            assert(entries.drop_last()[k] == entries[k]);
            assert(entry_id(entries[k], prefix, suffix) == entry_id(entries[j], prefix, suffix));
        }
        assert(d[prev.len() as int] == (id, entries[j].unwrap().path));
    }
}


/// The readable entries of a listing have pairwise distinct paths, as the
/// entries of one directory do.
pub open spec fn paths_distinct<P>(entries: Seq<Option<DirEntryInfo<P>>>) -> bool {
    forall|i: int, j: int|
        0 <= i < entries.len() && 0 <= j < entries.len() && i != j && entries[i].is_some()
            && entries[j].is_some() ==> #[trigger] entries[i].unwrap().path
            != #[trigger] entries[j].unwrap().path
}

/// No non-matching entry is found: a directory, or a file whose name lacks the
/// library prefix or suffix, never has its path in the result.
pub proof fn lemma_non_matching_excluded<P>(
    entries: Seq<Option<DirEntryInfo<P>>>,
    prefix: Seq<char>,
    suffix: Seq<char>,
    k: int,
)
    requires
        paths_distinct(entries),
        0 <= k < entries.len(),
        entries[k].is_some(),
        entry_id(entries[k], prefix, suffix).is_none(),
    ensures
        forall|i: int|
            0 <= i < discovered(entries, prefix, suffix).len() ==> #[trigger] discovered(
                entries,
                prefix,
                suffix,
            )[i].1 != entries[k].unwrap().path,
{
    let d = discovered(entries, prefix, suffix);
    assert forall|i: int| 0 <= i < d.len() implies #[trigger] d[i].1 != entries[k].unwrap().path by {
        lemma_found_only_matching(entries, prefix, suffix, i);
        let j = choose|j: int|
            0 <= j < entries.len() && entries[j].is_some() && entries[j].unwrap().is_file
                && #[trigger] entry_id(entries[j], prefix, suffix) == Some(d[i].0)
                && entries[j].unwrap().path == d[i].1;
        assert(j != k);
    }
}

/// No identifier is found twice.
pub proof fn lemma_found_ids_distinct<P>(
    entries: Seq<Option<DirEntryInfo<P>>>,
    prefix: Seq<char>,
    suffix: Seq<char>,
)
    ensures
        forall|i: int, k: int|
            0 <= i < k < discovered(entries, prefix, suffix).len() ==> #[trigger] discovered(
                entries,
                prefix,
                suffix,
            )[i].0 != #[trigger] discovered(entries, prefix, suffix)[k].0,
    decreases entries.len(),
{
    if entries.len() > 0 {
        lemma_found_ids_distinct(entries.drop_last(), prefix, suffix);
        let prev = discovered(entries.drop_last(), prefix, suffix);
        let d = discovered(entries, prefix, suffix);
        assert forall|i: int, k: int| 0 <= i < k < d.len() implies #[trigger] d[i].0
            != #[trigger] d[k].0 by {
            if k < prev.len() {
                assert(d[i] == prev[i] && d[k] == prev[k]);
            } else {
                assert(d[i] == prev[i]);
            }
        }
    }
}

} // verus!
