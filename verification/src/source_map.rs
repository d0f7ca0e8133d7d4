//! Source maps for the generated CSS.
//!
//! The maps themselves are built and encoded by the `sourcemap` crate; this
//! module keeps track of which sources and names have been registered,
//! converts the 1-based positions of the syntax tree to the 0-based ones of
//! source maps, and rewrites source paths the way less.js writes them.

use crate::ast::Position;
use crate::text::{chars_of, push_char, push_str, string_from_range, trim, trim_string};
use sourcemap::{RewriteOptions, SourceMap, SourceMapBuilder};
use std::path::{Path, PathBuf};
use vstd::prelude::*;

verus! {

#[verifier::external_type_specification]
#[verifier::external_body]
pub struct ExSourceMapBuilder(SourceMapBuilder);

#[verifier::external_type_specification]
#[verifier::external_body]
pub struct ExSourceMap(SourceMap);

#[verifier::external_type_specification]
#[verifier::external_body]
pub struct ExPathBuf(PathBuf);

/// The sources a builder has registered, by id.
pub uninterp spec fn builder_sources(b: SourceMapBuilder) -> Seq<Seq<char>>;

/// The names a builder has registered, by id.
pub uninterp spec fn builder_names(b: SourceMapBuilder) -> Seq<Seq<char>>;

/// The mappings a builder holds, in the order they were added: generated
/// line and column, source line and column, source id, name id, range flag.
pub uninterp spec fn builder_tokens(b: SourceMapBuilder) -> Seq<(u32, u32, u32, u32, u32, u32, bool)>;

/// The `file` field a builder will write.
pub uninterp spec fn builder_file(b: SourceMapBuilder) -> Option<Seq<char>>;

/// The `sourceRoot` field a builder will write.
pub uninterp spec fn builder_source_root(b: SourceMapBuilder) -> Option<Seq<char>>;

/// The sources of a map as stored, without the source root.
pub uninterp spec fn map_raw_sources(m: SourceMap) -> Seq<Seq<char>>;

/// The names of a map.
pub uninterp spec fn map_names(m: SourceMap) -> Seq<Seq<char>>;

/// The mappings of a map, in its order.
pub uninterp spec fn map_tokens(m: SourceMap) -> Seq<(u32, u32, u32, u32, u32, u32, bool)>;

/// The `file` field of a map.
pub uninterp spec fn map_file(m: SourceMap) -> Option<Seq<char>>;

/// The `sourceRoot` field of a map.
pub uninterp spec fn map_source_root(m: SourceMap) -> Option<Seq<char>>;

/// The view of an optional string.
pub open spec fn opt_view(o: Option<String>) -> Option<Seq<char>> {
    match o {
        Some(s) => Some(s@),
        None => None,
    }
}

/// The view of an optional string slice.
pub open spec fn opt_str_view(o: Option<&str>) -> Option<Seq<char>> {
    match o {
        Some(s) => Some(s@),
        None => None,
    }
}

/// Whether `s` begins with `p`.
pub open spec fn has_prefix(s: Seq<char>, p: Seq<char>) -> bool {
    p.len() <= s.len() && s.subrange(0, p.len() as int) == p
}

/// `s` without the trailing characters equal to `c`.
pub open spec fn drop_trailing(s: Seq<char>, c: char) -> Seq<char>
    decreases s.len(),
{
    if s.len() > 0 && s.last() == c {
        drop_trailing(s.drop_last(), c)
    } else {
        s
    }
}

/// `s` without the leading characters equal to `c`.
pub open spec fn drop_leading(s: Seq<char>, c: char) -> Seq<char>
    decreases s.len(),
{
    if s.len() > 0 && s[0] == c {
        drop_leading(s.drop_first(), c)
    } else {
        s
    }
}

/// Whether a source already names a location on its own: an absolute path
/// or an http(s) URL.
pub open spec fn is_rooted_source(source: Seq<char>) -> bool {
    has_prefix(source, seq!['/']) || has_prefix(source, "http:"@) || has_prefix(source, "https:"@)
}

/// How a map with source root `root` reports the source `source`: unchanged
/// when it is empty or already rooted, else behind the root (without the
/// root's trailing slash) and a slash.
pub open spec fn prefixed_source(root: Seq<char>, source: Seq<char>) -> Seq<char> {
    let r = if root.len() > 0 && root.last() == '/' {
        root.drop_last()
    } else {
        root
    };
    if source.len() > 0 && is_rooted_source(source) {
        source
    } else {
        r + seq!['/'] + source
    }
}

/// The sources as a map reports them (`get_source`): behind its source root
/// when that is set and not empty.
pub open spec fn map_sources(m: SourceMap) -> Seq<Seq<char>> {
    let raw = map_raw_sources(m);
    match map_source_root(m) {
        Some(r) => if r.len() > 0 {
            Seq::new(raw.len(), |i: int| prefixed_source(r, raw[i]))
        } else {
            raw
        },
        None => raw,
    }
}

/// Whether mappings are ordered by generated line, then generated column.
pub open spec fn sorted_by_generated(t: Seq<(u32, u32, u32, u32, u32, u32, bool)>) -> bool {
    forall|i: int, j: int|
        0 <= i < j < t.len() ==> (t[i].0 < t[j].0 || (t[i].0 == t[j].0 && t[i].1 <= t[j].1))
}

/// `SourceMapBuilder::new`: an empty builder with the given `file` field and
/// no source root.
#[verifier::external_body]
fn new_builder(file: Option<&str>) -> (res: SourceMapBuilder)
    ensures
        builder_sources(res) == Seq::<Seq<char>>::empty(),
        builder_names(res) == Seq::<Seq<char>>::empty(),
        builder_tokens(res) == Seq::<(u32, u32, u32, u32, u32, u32, bool)>::empty(),
        builder_file(res) == opt_str_view(file),
        builder_source_root(res) == None::<Seq<char>>,
{
    SourceMapBuilder::new(file)
}

/// `SourceMapBuilder::set_file`: replaces the `file` field only.
#[verifier::external_body]
fn builder_set_file(b: &mut SourceMapBuilder, value: Option<String>)
    ensures
        builder_file(*final(b)) == opt_view(value),
        builder_source_root(*final(b)) == builder_source_root(*old(b)),
        builder_sources(*final(b)) == builder_sources(*old(b)),
        builder_names(*final(b)) == builder_names(*old(b)),
        builder_tokens(*final(b)) == builder_tokens(*old(b)),
{
    b.set_file(value);
}

/// `SourceMapBuilder::set_source_root`: replaces the `sourceRoot` field
/// only.
#[verifier::external_body]
fn builder_set_source_root(b: &mut SourceMapBuilder, value: Option<String>)
    ensures
        builder_source_root(*final(b)) == opt_view(value),
        builder_file(*final(b)) == builder_file(*old(b)),
        builder_sources(*final(b)) == builder_sources(*old(b)),
        builder_names(*final(b)) == builder_names(*old(b)),
        builder_tokens(*final(b)) == builder_tokens(*old(b)),
{
    b.set_source_root(value);
}

/// `SourceMapBuilder::add_source` for a source not registered yet: it is
/// appended and its id is its index. (The builder's lookup table holds
/// exactly the registered sources, as nothing here renames a source of a
/// builder.)
#[verifier::external_body]
fn builder_add_source(b: &mut SourceMapBuilder, src: &str) -> (id: u32)
    requires
        !builder_sources(*old(b)).contains(src@),
        builder_sources(*old(b)).len() < u32::MAX,
    ensures
        id == builder_sources(*old(b)).len(),
        builder_sources(*final(b)) == builder_sources(*old(b)).push(src@),
        builder_names(*final(b)) == builder_names(*old(b)),
        builder_tokens(*final(b)) == builder_tokens(*old(b)),
        builder_file(*final(b)) == builder_file(*old(b)),
        builder_source_root(*final(b)) == builder_source_root(*old(b)),
{
    b.add_source(src)
}

/// `SourceMapBuilder::add_name`: a name seen before keeps its id and the
/// names stay as they were; a new name is appended and gets its index.
#[verifier::external_body]
fn builder_add_name(b: &mut SourceMapBuilder, name: &str) -> (id: u32)
    requires
        builder_names(*old(b)).no_duplicates(),
        builder_names(*old(b)).contains(name@) || builder_names(*old(b)).len() < u32::MAX,
    ensures
        builder_names(*old(b)).contains(name@) ==> builder_names(*final(b)) == builder_names(
            *old(b),
        ),
        !builder_names(*old(b)).contains(name@) ==> builder_names(*final(b)) == builder_names(
            *old(b),
        ).push(name@),
        id < builder_names(*final(b)).len(),
        builder_names(*final(b))[id as int] == name@,
        builder_sources(*final(b)) == builder_sources(*old(b)),
        builder_tokens(*final(b)) == builder_tokens(*old(b)),
        builder_file(*final(b)) == builder_file(*old(b)),
        builder_source_root(*final(b)) == builder_source_root(*old(b)),
{
    b.add_name(name)
}

/// `SourceMapBuilder::add_raw`: appends one mapping; a missing source or
/// name id is written as `u32::MAX`.
#[verifier::external_body]
fn builder_add_raw(
    b: &mut SourceMapBuilder,
    dst_line: u32,
    dst_col: u32,
    src_line: u32,
    src_col: u32,
    source: Option<u32>,
    name: Option<u32>,
    is_range: bool,
)
    ensures
        builder_tokens(*final(b)) == builder_tokens(*old(b)).push(
            (
                dst_line,
                dst_col,
                src_line,
                src_col,
                match source {
                    Some(s) => s,
                    None => u32::MAX,
                },
                match name {
                    Some(n) => n,
                    None => u32::MAX,
                },
                is_range,
            ),
        ),
        builder_sources(*final(b)) == builder_sources(*old(b)),
        builder_names(*final(b)) == builder_names(*old(b)),
        builder_file(*final(b)) == builder_file(*old(b)),
        builder_source_root(*final(b)) == builder_source_root(*old(b)),
{
    b.add_raw(dst_line, dst_col, src_line, src_col, source, name, is_range);
}

/// `SourceMapBuilder::into_sourcemap`: the map holds the builder's sources,
/// names, file and source root, and its mappings sorted by generated
/// position.
#[verifier::external_body]
fn builder_into_sourcemap(b: SourceMapBuilder) -> (res: SourceMap)
    ensures
        map_raw_sources(res) == builder_sources(b),
        map_names(res) == builder_names(b),
        map_tokens(res).to_multiset() == builder_tokens(b).to_multiset(),
        sorted_by_generated(map_tokens(res)),
        map_file(res) == builder_file(b),
        map_source_root(res) == builder_source_root(b),
{
    b.into_sourcemap()
}


/// `Path::is_absolute` of `source`. What it answers depends on the platform,
/// so nothing is stated of it.
#[verifier::external_body]
fn path_is_absolute(source: &str) -> (res: bool) {
    Path::new(source).is_absolute()
}

/// `Path::strip_prefix` of `source` by `base`, the rest written lossily as
/// text; `None` when `base` is not a prefix. Platform-dependent, so nothing
/// is stated of it.
#[verifier::external_body]
fn path_strip_prefix(source: &str, base: &PathBuf) -> (res: Option<String>) {
    match Path::new(source).strip_prefix(base) {
        Ok(rest) => Some(rest.to_string_lossy().into_owned()),
        Err(_) => None,
    }
}

/// The characters after the last `/` of `p` (all of `p` when it has none).
pub open spec fn after_last_slash(p: Seq<char>) -> Seq<char>
    decreases p.len(),
{
    if p.len() == 0 {
        p
    } else if p.last() == '/' {
        seq![]
    } else {
        after_last_slash(p.drop_last()).push(p.last())
    }
}

/// Whether `n` can be a path's final normal component: not empty, and
/// neither `.` nor `..`.
pub open spec fn is_component_name(n: Seq<char>) -> bool {
    n.len() > 0 && n != seq!['.'] && n != seq!['.', '.']
}

/// Whether every platform reads the text after the last `/` of `p` as its
/// file name: that text is a component name, and `p` holds no backslash or
/// colon and does not begin with two slashes (so no platform finds a drive,
/// UNC or verbatim prefix or another separator in it).
pub open spec fn plain_file_name_path(p: Seq<char>) -> bool {
    &&& is_component_name(after_last_slash(p))
    &&& !p.contains('\\')
    &&& !p.contains(':')
    &&& !has_prefix(p, seq!['/', '/'])
}

/// `Path::file_name` of `source`, written lossily as text (the text is
/// valid UTF-8, so nothing is replaced). A file name is always the path's
/// final normal component, so never empty, `.` or `..`; where `/` is the
/// last separator on every platform (see `plain_file_name_path`), it is the
/// text after the last `/`. Which other characters separate components, and
/// which prefixes a path may have, depends on the platform and is not
/// stated.
#[verifier::external_body]
pub(crate) fn path_file_name(source: &str) -> (res: Option<String>)
    ensures
        res is Some ==> is_component_name(res.unwrap()@),
        plain_file_name_path(source@) ==> res is Some && res.unwrap()@ == after_last_slash(
            source@,
        ),
{
    match Path::new(source).file_name() {
        Some(name) => Some(name.to_string_lossy().into_owned()),
        None => None,
    }
}

/// `s` with every backslash turned into a slash.
pub open spec fn slashes_normalized(s: Seq<char>) -> Seq<char> {
    Seq::new(s.len(), |i: int| if s[i] == '\\' { '/' } else { s[i] })
}

/// Replaces every backslash by a slash.
pub fn normalize_path_slashes(input: &str) -> (res: String)
    ensures
        res@ == slashes_normalized(input@),
{
    let mut res = String::new();
    for c in it: input.chars()
        invariant
            res@ == slashes_normalized(it.seq().take(it.index() as int)),
            it.seq() == input@,
    {
        let ghost before = res@;
        if c == '\\' {
            push_char(&mut res, '/');
        } else {
            push_char(&mut res, c);
        }
        proof {
            let k = it.index() as int;
            assert(res@ =~= slashes_normalized(it.seq().take(k + 1)));
        }
    }
    proof {
        assert(input@.take(input@.len() as int) =~= input@);
    }
    res
}

/// How less.js writes a source path, given what the platform answered: a
/// path that is absolute is made relative to the base path when it lies
/// below it (and the rest is not empty), else reduced to its file name;
/// backslashes become slashes.
pub open spec fn lessjs_source_spec(
    source: Seq<char>,
    absolute: bool,
    relative: Option<Seq<char>>,
    file_name: Option<Seq<char>>,
) -> Seq<char> {
    if absolute && relative is Some && slashes_normalized(relative->0).len() > 0 {
        slashes_normalized(relative->0)
    } else if absolute && file_name is Some {
        slashes_normalized(file_name->0)
    } else {
        slashes_normalized(source)
    }
}

/// Writes a source path the way less.js does, from what the platform
/// answered about it: whether it is absolute, the part below the base path
/// (if it lies below it) and its file name.
pub fn lessjs_source_from(
    source: &str,
    absolute: bool,
    relative: Option<String>,
    file_name: Option<String>,
) -> (res: String)
    ensures
        res@ == lessjs_source_spec(source@, absolute, opt_view(relative), opt_view(file_name)),
{
    if absolute {
        if let Some(rel) = relative {
            let rel = normalize_path_slashes(rel.as_str());
            if !rel.as_str().is_empty() {
                return rel;
            }
        }
        if let Some(name) = file_name {
            return normalize_path_slashes(name.as_str());
        }
    }
    normalize_path_slashes(source)
}

/// Writes a source path the way less.js does (see `lessjs_source_from`),
/// asking the platform about the path.
fn normalize_source_for_lessjs(source: &str, source_base_path: Option<&PathBuf>) -> (res: String)
    ensures
        exists|a: bool, r: Option<Seq<char>>, f: Option<Seq<char>>|
            res@ == #[trigger] lessjs_source_spec(source@, a, r, f),
{
    let absolute = path_is_absolute(source);
    let relative = match source_base_path {
        Some(base) => path_strip_prefix(source, base),
        None => None,
    };
    let file_name = path_file_name(source);
    let ghost r = opt_view(relative);
    let ghost f = opt_view(file_name);
    let res = lessjs_source_from(source, absolute, relative, file_name);
    assert(res@ == lessjs_source_spec(source@, absolute, r, f));
    res
}

/// Where less.js puts a source given the configured source root: unchanged
/// without a root (or with one that is blank after trimming), or when the
/// source is already rooted, or when the root is only slashes; else the
/// trimmed root without trailing slashes, a slash, and the source without
/// leading slashes.
pub open spec fn lessjs_rooted_spec(source_root: Option<Seq<char>>, source: Seq<char>) -> Seq<char> {
    match source_root {
        None => source,
        Some(root) => {
            let t = trim(root);
            if t.len() == 0 || is_rooted_source(source) {
                source
            } else {
                let r = drop_trailing(t, '/');
                if r.len() == 0 {
                    source
                } else {
                    r + seq!['/'] + drop_leading(source, '/')
                }
            }
        },
    }
}

/// Whether `cs` begins with `p`.
fn chars_start_with(cs: &Vec<char>, p: &str) -> (res: bool)
    ensures
        res == has_prefix(cs@, p@),
{
    let pc = chars_of(p);
    if pc.len() > cs.len() {
        return false;
    }
    let mut i: usize = 0;
    while i < pc.len()
        invariant
            0 <= i <= pc.len() <= cs.len(),
            pc@ == p@,
            forall|k: int| 0 <= k < i ==> cs@[k] == pc@[k],
        decreases pc.len() - i,
    {
        if cs[i] != pc[i] {
            assert(cs@.subrange(0, pc@.len() as int)[i as int] != pc@[i as int]);
            return false;
        }
        i = i + 1;
    }
    assert(cs@.subrange(0, pc@.len() as int) =~= pc@);
    true
}

/// Dropping trailing `c`s keeps the prefix up to the last other character.
pub proof fn lemma_drop_trailing_prefix(s: Seq<char>, c: char, n: int)
    requires
        0 <= n <= s.len(),
        forall|k: int| n <= k < s.len() ==> s[k] == c,
        n == 0 || s[n - 1] != c,
    ensures
        drop_trailing(s, c) == s.subrange(0, n),
    decreases s.len(),
{
    if s.len() > n {
        lemma_drop_trailing_prefix(s.drop_last(), c, n);
        assert(s.drop_last().subrange(0, n) =~= s.subrange(0, n));
    } else {
        assert(s.subrange(0, n) =~= s);
    }
}

/// Dropping leading `c`s keeps the suffix from the first other character.
pub proof fn lemma_drop_leading_suffix(s: Seq<char>, c: char, n: int)
    requires
        0 <= n <= s.len(),
        forall|k: int| 0 <= k < n ==> s[k] == c,
        n == s.len() || s[n] != c,
    ensures
        drop_leading(s, c) == s.subrange(n, s.len() as int),
    decreases n,
{
    if n > 0 {
        lemma_drop_leading_suffix(s.drop_first(), c, n - 1);
        assert(s.drop_first().subrange(n - 1, s.len() - 1) =~= s.subrange(n, s.len() as int));
    } else {
        assert(s.subrange(0, s.len() as int) =~= s);
    }
}

/// Puts `source` behind the source root the way less.js does.
fn apply_lessjs_source_root(source_root: Option<&str>, source: &str) -> (res: String)
    ensures
        res@ == lessjs_rooted_spec(opt_str_view(source_root), source@),
{
    let root_text = match source_root {
        Some(r) => r,
        None => {
            return source.to_string();
        },
    };
    let root = trim_string(root_text);
    let sc = chars_of(source);
    if root.as_str().is_empty() {
        return source.to_string();
    }
    if chars_start_with(&sc, "/") || chars_start_with(&sc, "http:") || chars_start_with(
        &sc,
        "https:",
    ) {
        proof {
            reveal_strlit("/");
            assert("/"@ =~= seq!['/']);
        }
        return source.to_string();
    }
    proof {
        reveal_strlit("/");
        assert("/"@ =~= seq!['/']);
    }
    let rc = chars_of(root.as_str());
    let mut end: usize = rc.len();
    while end > 0 && rc[end - 1] == '/'
        invariant
            0 <= end <= rc.len(),
            forall|k: int| end <= k < rc@.len() ==> rc@[k] == '/',
        decreases end,
    {
        end = end - 1;
    }
    proof {
        lemma_drop_trailing_prefix(rc@, '/', end as int);
    }
    if end == 0 {
        return source.to_string();
    }
    let mut start: usize = 0;
    while start < sc.len() && sc[start] == '/'
        invariant
            0 <= start <= sc.len(),
            forall|k: int| 0 <= k < start ==> sc@[k] == '/',
        decreases sc.len() - start,
    {
        start = start + 1;
    }
    proof {
        lemma_drop_leading_suffix(sc@, '/', start as int);
    }
    let mut res = string_from_range(rc.as_slice(), 0, end);
    push_char(&mut res, '/');
    let tail = string_from_range(sc.as_slice(), start, sc.len());
    push_str(&mut res, tail.as_str());
    proof {
        assert(res@ =~= rc@.subrange(0, end as int) + seq!['/'] + sc@.subrange(
            start as int,
            sc@.len() as int,
        ));
    }
    res
}


/// `SourceMap::set_source_root` with no root: the map then reports its
/// sources as stored.
#[verifier::external_body]
fn map_clear_source_root(m: &mut SourceMap)
    ensures
        map_source_root(*final(m)) == None::<Seq<char>>,
        map_raw_sources(*final(m)) == map_raw_sources(*old(m)),
        map_names(*final(m)) == map_names(*old(m)),
        map_tokens(*final(m)) == map_tokens(*old(m)),
        map_file(*final(m)) == map_file(*old(m)),
{
    m.set_source_root::<String>(None);
}

/// `SourceMap::get_source_count`: the number of sources.
#[verifier::external_body]
fn map_source_count(m: &SourceMap) -> (res: u32)
    requires
        map_raw_sources(*m).len() <= u32::MAX,
    ensures
        res == map_raw_sources(*m).len(),
{
    m.get_source_count()
}

/// `SourceMap::get_source`: the source of that index as the map reports it,
/// `None` past the last one.
#[verifier::external_body]
fn map_source_at(m: &SourceMap, idx: u32) -> (res: Option<String>)
    ensures
        idx < map_sources(*m).len() ==> res is Some && res.unwrap()@ == map_sources(*m)[idx as int],
        idx >= map_sources(*m).len() ==> res is None,
{
    match m.get_source(idx) {
        Some(s) => Some(s.to_string()),
        None => None,
    }
}

/// `SourceMap::set_source`: replaces the stored source of that index.
#[verifier::external_body]
fn map_set_source(m: &mut SourceMap, idx: u32, value: &str)
    requires
        idx < map_raw_sources(*old(m)).len(),
    ensures
        map_raw_sources(*final(m)) == map_raw_sources(*old(m)).update(idx as int, value@),
        map_source_root(*final(m)) == map_source_root(*old(m)),
        map_names(*final(m)) == map_names(*old(m)),
        map_tokens(*final(m)) == map_tokens(*old(m)),
        map_file(*final(m)) == map_file(*old(m)),
{
    m.set_source(idx, value);
}

/// The first index of `x` in `s` (the length of `s` when it is absent).
pub open spec fn first_index(s: Seq<Seq<char>>, x: Seq<char>) -> int
    decreases s.len(),
{
    if s.len() == 0 || s[0] == x {
        0
    } else {
        1 + first_index(s.drop_first(), x)
    }
}

/// The sources that the mappings `t` refer to, looked up in `srcs`, each
/// once, in the order of their first use.
pub open spec fn used_sources(srcs: Seq<Seq<char>>, t: Seq<MappingEntry>) -> Seq<Seq<char>>
    decreases t.len(),
{
    if t.len() == 0 {
        seq![]
    } else {
        let prev = used_sources(srcs, t.drop_last());
        let id = t.last().4;
        if id < srcs.len() && !prev.contains(srcs[id as int]) {
            prev.push(srcs[id as int])
        } else {
            prev
        }
    }
}

/// A mapping as a rewrite without names writes it: the same positions and
/// range flag, its source looked up in `srcs` and renumbered by its place
/// in `used` (no source when its id names none), and no name.
pub open spec fn rewritten_token(
    srcs: Seq<Seq<char>>,
    used: Seq<Seq<char>>,
    t: MappingEntry,
) -> MappingEntry {
    (
        t.0,
        t.1,
        t.2,
        t.3,
        if t.4 < srcs.len() {
            first_index(used, srcs[t.4 as int]) as u32
        } else {
            u32::MAX
        },
        u32::MAX,
        t.6,
    )
}

/// Whether `r` is the map `m` rewritten without names: the sources that
/// `m`'s mappings use (as `m` reports them), once each in order of first
/// use; no names and no source root; the same file; and `m`'s mappings,
/// each rewritten by `rewritten_token`, sorted by generated position.
pub open spec fn rewritten_without_names(m: SourceMap, r: SourceMap) -> bool {
    let srcs = map_sources(m);
    let t = map_tokens(m);
    let used = used_sources(srcs, t);
    &&& map_raw_sources(r) == used
    &&& map_raw_sources(r).len() <= map_raw_sources(m).len()
    &&& map_names(r) == Seq::<Seq<char>>::empty()
    &&& map_source_root(r) == None::<Seq<char>>
    &&& map_file(r) == map_file(m)
    &&& map_tokens(r).to_multiset() == Seq::new(
        t.len(),
        |i: int| rewritten_token(srcs, used, t[i]),
    ).to_multiset()
    &&& sorted_by_generated(map_tokens(r))
}

/// `SourceMap::rewrite` without names (keeping source contents, stripping
/// no prefixes). With these options it does not fail. It feeds each mapping
/// in turn to a fresh builder with the map's file: the mapping's source, as
/// the map reports it, is registered (a source seen before keeps its id),
/// its name is dropped, and the builder's map sorts the mappings by
/// generated position. So the result is `rewritten_without_names`. The
/// source count must fit the builder's 32-bit ids.
#[verifier::external_body]
fn map_rewrite_without_names(m: SourceMap) -> (res: Option<SourceMap>)
    requires
        map_raw_sources(m).len() <= u32::MAX,
    ensures
        res is Some,
        rewritten_without_names(m, res.unwrap()),
{
    match m.rewrite(&RewriteOptions { with_names: false, ..Default::default() }) {
        Ok(r) => Some(r),
        Err(_) => None,
    }
}

/// Whether no mapping of `t` is a range mapping.
pub open spec fn no_range_mappings(t: Seq<MappingEntry>) -> bool {
    forall|i: int| 0 <= i < t.len() ==> !(#[trigger] t[i]).6
}

/// The JSON text (as UTF-8 bytes) that `SourceMap::to_writer` writes for a
/// map: a function of the map alone.
pub uninterp spec fn map_json(m: SourceMap) -> Seq<u8>;

/// `SourceMap::to_writer` into a byte buffer: the JSON encoding of the map.
/// Writing into a vector cannot fail and the map serialises to plain JSON
/// values, so it always succeeds; the encoding itself is named `map_json`.
/// It goes through `serde_json::to_writer`, which only feeds valid UTF-8 to
/// the writer, so the bytes are valid UTF-8. The encoder walks the mappings
/// line by line, so they must be ordered by generated line; and it marks
/// range mappings in a bit buffer that is too short for some of them, so
/// the map must hold none.
#[verifier::external_body]
fn map_to_json_bytes(m: &SourceMap) -> (res: Option<Vec<u8>>)
    requires
        sorted_by_generated(map_tokens(*m)),
        no_range_mappings(map_tokens(*m)),
    ensures
        res is Some,
        res.unwrap()@ == map_json(*m),
        vstd::utf8::valid_utf8(res.unwrap()@),
{
    let mut out: Vec<u8> = Vec::new();
    match m.to_writer(&mut out) {
        Ok(()) => Some(out),
        Err(_) => None,
    }
}

/// The text of some bytes when they are valid UTF-8.
pub open spec fn utf8_text(bytes: Seq<u8>) -> Option<Seq<char>> {
    if vstd::utf8::valid_utf8(bytes) {
        Some(vstd::utf8::decode_utf8(bytes))
    } else {
        None
    }
}

/// `String::from_utf8`: the characters the bytes encode when they are valid
/// UTF-8, `None` otherwise.
#[verifier::external_body]
fn utf8_to_string(bytes: Vec<u8>) -> (res: Option<String>)
    ensures
        opt_view(res) == utf8_text(bytes@),
{
    match String::from_utf8(bytes) {
        Ok(s) => Some(s),
        Err(_) => None,
    }
}

/// A mapping as recorded: generated line and column, source line and
/// column, source id, name id, range flag.
pub type MappingEntry = (u32, u32, u32, u32, u32, u32, bool);

/// What a source map generator holds.
pub struct GeneratorState {
    /// Whether mappings are recorded at all
    pub enabled: bool,
    /// Whether JSON output follows less.js
    pub lessjs_compat: bool,
    /// The `file` field
    pub file: Option<Seq<char>>,
    /// The `sourceRoot` field
    pub source_root: Option<Seq<char>>,
    /// The sources registered since the last reset, by id
    pub sources: Seq<Seq<char>>,
    /// The names registered since the last reset, by id
    pub names: Seq<Seq<char>>,
    /// The mappings added since the last reset
    pub tokens: Seq<MappingEntry>,
}

/// The state with nothing registered.
pub open spec fn cleared(s: GeneratorState) -> GeneratorState {
    GeneratorState {
        sources: Seq::empty(),
        names: Seq::empty(),
        tokens: Seq::empty(),
        ..s
    }
}

/// A 1-based line or column as a 0-based one (0 stays 0), truncated to 32
/// bits.
pub open spec fn zero_based(n: usize) -> u32 {
    (if n > 0 { n - 1 } else { 0 }) as u32
}

/// The state after recording a mapping from `pos` in `file` (with an
/// optional `name`) to generated line `gen_line` and column `gen_col`: the
/// file and the name are registered if new, and one mapping is appended
/// that carries their ids.
pub open spec fn mapping_added(
    before: GeneratorState,
    after: GeneratorState,
    file: Seq<char>,
    pos: Position,
    gen_line: u32,
    gen_col: u32,
    name: Option<Seq<char>>,
) -> bool {
    if !before.enabled {
        after == before
    } else {
        let sources = if before.sources.contains(file) {
            before.sources
        } else {
            before.sources.push(file)
        };
        let names = match name {
            Some(n) => if before.names.contains(n) {
                before.names
            } else {
                before.names.push(n)
            },
            None => before.names,
        };
        let t = after.tokens.last();
        &&& after == GeneratorState { sources, names, tokens: before.tokens.push(t), ..before }
        &&& t.0 == gen_line && t.1 == gen_col
        &&& t.2 == zero_based(pos.line) && t.3 == zero_based(pos.column)
        &&& t.4 < sources.len() && sources[t.4 as int] == file
        &&& match name {
            Some(n) => t.5 < names.len() && names[t.5 as int] == n,
            None => t.5 == u32::MAX,
        }
        &&& !t.6
    }
}

/// Whether map `m` holds what state `s` registered: its sources, names,
/// file and source root, and its mappings sorted by generated position.
pub open spec fn map_of(m: SourceMap, s: GeneratorState) -> bool {
    &&& map_raw_sources(m) == s.sources
    &&& map_names(m) == s.names
    &&& map_tokens(m).to_multiset() == s.tokens.to_multiset()
    &&& sorted_by_generated(map_tokens(m))
    &&& map_file(m) == s.file
    &&& map_source_root(m) == s.source_root
}

/// Source map generator: records mappings between source positions and
/// positions in the generated CSS.
pub struct SourceMapGenerator {
    builder: SourceMapBuilder,
    file_ids: Vec<String>,
    output_file: Option<String>,
    source_root: Option<String>,
    source_base_path: Option<PathBuf>,
    lessjs_compat: bool,
    enabled: bool,
}

impl View for SourceMapGenerator {
    type V = GeneratorState;

    closed spec fn view(&self) -> GeneratorState {
        GeneratorState {
            enabled: self.enabled,
            lessjs_compat: self.lessjs_compat,
            file: opt_view(self.output_file),
            source_root: opt_view(self.source_root),
            sources: builder_sources(self.builder),
            names: builder_names(self.builder),
            tokens: builder_tokens(self.builder),
        }
    }
}

/// Copies an optional string slice.
fn owned_opt(o: Option<&str>) -> (res: Option<String>)
    ensures
        opt_view(res) == opt_str_view(o),
{
    match o {
        Some(s) => Some(s.to_string()),
        None => None,
    }
}

impl SourceMapGenerator {
    /// The generator is consistent: the file ids are the builder's sources
    /// by index, sources and names occur once each, no mapping is a range
    /// mapping, and the builder writes the configured file and source root.
    pub closed spec fn wf(&self) -> bool {
        &&& self.file_ids@.len() == builder_sources(self.builder).len()
        &&& forall|k: int|
            0 <= k < self.file_ids@.len() ==> #[trigger] self.file_ids@[k]@ == builder_sources(
                self.builder,
            )[k]
        &&& builder_sources(self.builder).no_duplicates()
        &&& builder_names(self.builder).no_duplicates()
        &&& no_range_mappings(builder_tokens(self.builder))
        &&& builder_sources(self.builder).len() <= u32::MAX
        &&& builder_names(self.builder).len() <= u32::MAX
        &&& builder_file(self.builder) == opt_view(self.output_file)
        &&& builder_source_root(self.builder) == opt_view(self.source_root)
    }

    /// The base path against which less.js-style output makes sources
    /// relative.
    pub closed spec fn base_path(&self) -> Option<PathBuf> {
        self.source_base_path
    }

    fn build_builder(output_file: Option<&str>, source_root: Option<&str>) -> (res:
        SourceMapBuilder)
        ensures
            builder_sources(res) == Seq::<Seq<char>>::empty(),
            builder_names(res) == Seq::<Seq<char>>::empty(),
            builder_tokens(res) == Seq::<MappingEntry>::empty(),
            builder_file(res) == opt_str_view(output_file),
            builder_source_root(res) == opt_str_view(source_root),
    {
        let mut builder = new_builder(output_file);
        if let Some(root) = source_root {
            builder_set_source_root(&mut builder, Some(root.to_string()));
        }
        builder
    }

    fn new_builder_from_config(&self) -> (res: SourceMapBuilder)
        ensures
            builder_sources(res) == Seq::<Seq<char>>::empty(),
            builder_names(res) == Seq::<Seq<char>>::empty(),
            builder_tokens(res) == Seq::<MappingEntry>::empty(),
            builder_file(res) == opt_view(self.output_file),
            builder_source_root(res) == opt_view(self.source_root),
    {
        let output_file = match &self.output_file {
            Some(f) => Some(f.as_str()),
            None => None,
        };
        let source_root = match &self.source_root {
            Some(r) => Some(r.as_str()),
            None => None,
        };
        Self::build_builder(output_file, source_root)
    }

    /// Creates a generator; when `enabled` is false it records nothing.
    pub fn new(enabled: bool) -> (res: Self)
        ensures
            res.wf(),
            res@ == (GeneratorState {
                enabled,
                lessjs_compat: false,
                file: None,
                source_root: None,
                sources: Seq::empty(),
                names: Seq::empty(),
                tokens: Seq::empty(),
            }),
            res.base_path() is None,
    {
        SourceMapGenerator {
            builder: Self::build_builder(None, None),
            file_ids: Vec::new(),
            output_file: None,
            source_root: None,
            source_base_path: None,
            lessjs_compat: false,
            enabled,
        }
    }

    /// Whether source map generation is enabled.
    pub fn is_enabled(&self) -> (res: bool)
        ensures
            res == self@.enabled,
    {
        self.enabled
    }

    /// Sets the `file` field (the generated CSS file).
    pub fn set_file(&mut self, output_file: Option<&str>)
        requires
            old(self).wf(),
        ensures
            final(self)@.enabled == old(self)@.enabled,
            final(self).wf(),
            final(self)@ == (GeneratorState { file: opt_str_view(output_file), ..old(self)@ }),
            final(self).base_path() == old(self).base_path(),
    {
        let output_file = owned_opt(output_file);
        let for_builder = match &output_file {
            Some(f) => Some(f.clone()),
            None => None,
        };
        self.output_file = output_file;
        builder_set_file(&mut self.builder, for_builder);
    }

    /// Sets the `sourceRoot` field.
    pub fn set_source_root(&mut self, source_root: Option<&str>)
        requires
            old(self).wf(),
        ensures
            final(self)@.enabled == old(self)@.enabled,
            final(self).wf(),
            final(self)@ == (GeneratorState {
                source_root: opt_str_view(source_root),
                ..old(self)@
            }),
            final(self).base_path() == old(self).base_path(),
    {
        let source_root = owned_opt(source_root);
        let for_builder = match &source_root {
            Some(r) => Some(r.clone()),
            None => None,
        };
        self.source_root = source_root;
        builder_set_source_root(&mut self.builder, for_builder);
    }

    /// Sets the base path against which less.js-style output makes source
    /// paths relative.
    pub fn set_source_base_path(&mut self, source_base_path: Option<PathBuf>)
        requires
            old(self).wf(),
        ensures
            final(self)@.enabled == old(self)@.enabled,
            final(self).wf(),
            final(self)@ == old(self)@,
            final(self).base_path() == source_base_path,
    {
        self.source_base_path = source_base_path;
    }

    /// Turns less.js-compatible JSON output on or off.
    pub fn set_lessjs_compat_mode(&mut self, enabled: bool)
        requires
            old(self).wf(),
        ensures
            final(self)@.enabled == old(self)@.enabled,
            final(self).wf(),
            final(self)@ == (GeneratorState { lessjs_compat: enabled, ..old(self)@ }),
            final(self).base_path() == old(self).base_path(),
    {
        self.lessjs_compat = enabled;
    }

    /// Records a mapping from `source_pos` (1-based) in `source_file` to the
    /// 0-based generated line `gen_line` and column `gen_col`, with an
    /// optional name. Does nothing when generation is disabled.
    pub fn add_mapping(
        &mut self,
        source_file: &str,
        source_pos: &Position,
        gen_line: u32,
        gen_col: u32,
        name: Option<&str>,
    )
        requires
            old(self).wf(),
            old(self)@.sources.contains(source_file@) || old(self)@.sources.len() < u32::MAX,
            match name {
                Some(n) => old(self)@.names.contains(n@) || old(self)@.names.len() < u32::MAX,
                None => true,
            },
        ensures
            final(self)@.enabled == old(self)@.enabled,
            final(self).wf(),
            mapping_added(
                old(self)@,
                final(self)@,
                source_file@,
                *source_pos,
                gen_line,
                gen_col,
                opt_str_view(name),
            ),
            final(self)@.sources.no_duplicates(),
            final(self)@.names.no_duplicates(),
            final(self).base_path() == old(self).base_path(),
    {
        if !self.enabled {
            return;
        }
        let ghost before = self@;
        let mut k: usize = 0;
        let mut found = false;
        while k < self.file_ids.len()
            invariant_except_break
                !found,
                forall|j: int| 0 <= j < k ==> self.file_ids@[j]@ != source_file@,
            invariant
                self.wf(),
                self@ == before,
                0 <= k <= self.file_ids.len(),
                self.base_path() == old(self).base_path(),
            ensures
                found ==> k < self.file_ids.len() && self.file_ids@[k as int]@ == source_file@,
                !found ==> forall|j: int|
                    0 <= j < self.file_ids@.len() ==> self.file_ids@[j]@ != source_file@,
            decreases self.file_ids.len() - k,
        {
            if crate::text::str_eq(self.file_ids[k].as_str(), source_file) {
                found = true;
                break;
            }
            k = k + 1;
        }
        let file_id: u32 = if found {
            k as u32
        } else {
            proof {
                if builder_sources(self.builder).contains(source_file@) {
                    let j = choose|j: int|
                        0 <= j < builder_sources(self.builder).len() && builder_sources(
                            self.builder,
                        )[j] == source_file@;
                    assert(self.file_ids@[j]@ == source_file@);
                }
            }
            let id = builder_add_source(&mut self.builder, source_file);
            self.file_ids.push(source_file.to_string());
            id
        };
        let src_line: usize = if source_pos.line > 0 {
            source_pos.line - 1
        } else {
            0
        };
        let src_col: usize = if source_pos.column > 0 {
            source_pos.column - 1
        } else {
            0
        };
        let name_id = match name {
            Some(n) => Some(builder_add_name(&mut self.builder, n)),
            None => None,
        };
        builder_add_raw(
            &mut self.builder,
            gen_line,
            gen_col,
            src_line as u32,
            src_col as u32,
            Some(file_id),
            name_id,
            false,
        );
        proof {
            let s = builder_sources(self.builder);
            if !found {
                assert forall|i: int, j: int|
                    0 <= i < s.len() && 0 <= j < s.len() && i != j implies s[i] != s[j] by {
                    if i < s.len() - 1 && j < s.len() - 1 {
                        assert(before.sources[i] == s[i] && before.sources[j] == s[j]);
                    }
                }
            }
            if let Some(n) = name {
                let m = builder_names(self.builder);
                if !before.names.contains(n@) {
                    assert forall|i: int, j: int|
                        0 <= i < m.len() && 0 <= j < m.len() && i != j implies m[i] != m[j] by {
                        if i < m.len() - 1 && j < m.len() - 1 {
                            assert(before.names[i] == m[i] && before.names[j] == m[j]);
                        } else if i == m.len() - 1 {
                            assert(m[j] == before.names[j]);
                        } else {
                            assert(m[i] == before.names[i]);
                        }
                    }
                }
            }
            assert(self@.tokens.last() == builder_tokens(self.builder).last());
        }
    }

    /// Hands out the source map of what was recorded and starts afresh with
    /// the same configuration; `None` when generation is disabled.
    pub fn generate(&mut self) -> (res: Option<SourceMap>)
        requires
            old(self).wf(),
        ensures
            final(self)@.enabled == old(self)@.enabled,
            final(self).wf(),
            final(self).base_path() == old(self).base_path(),
            !old(self)@.enabled ==> res is None && final(self)@ == old(self)@,
            old(self)@.enabled ==> (res matches Some(m) && map_of(m, old(self)@)) && final(self)@
                == cleared(old(self)@),
            res matches Some(m) ==> map_raw_sources(m).no_duplicates(),
    {
        if !self.enabled {
            return None;
        }
        let mut builder = self.new_builder_from_config();
        core::mem::swap(&mut builder, &mut self.builder);
        self.file_ids = Vec::new();
        proof {
            assert(self@ =~= cleared(old(self)@));
        }
        Some(builder_into_sourcemap(builder))
    }

    /// Forgets what was recorded, keeping the configuration; does nothing
    /// when generation is disabled.
    pub fn reset(&mut self)
        requires
            old(self).wf(),
        ensures
            final(self)@.enabled == old(self)@.enabled,
            final(self).wf(),
            final(self).base_path() == old(self).base_path(),
            !old(self)@.enabled ==> final(self)@ == old(self)@,
            old(self)@.enabled ==> final(self)@ == cleared(old(self)@),
    {
        if !self.enabled {
            return;
        }
        self.builder = self.new_builder_from_config();
        self.file_ids = Vec::new();
        proof {
            assert(self@ =~= cleared(old(self)@));
        }
    }
}


/// Whether `out` is a way less.js writes `source` under the source root
/// `root`, for some answer of the platform about the path.
pub open spec fn lessjs_entry(root: Option<Seq<char>>, source: Seq<char>, out: Seq<char>) -> bool {
    exists|a: bool, r: Option<Seq<char>>, f: Option<Seq<char>>|
        out == lessjs_rooted_spec(root, #[trigger] lessjs_source_spec(source, a, r, f))
}

impl SourceMapGenerator {
    /// Writes the sources of `sm` the way less.js does: no `sourceRoot`
    /// field, and each source rewritten by `normalize_source_for_lessjs`
    /// and then put behind the configured root.
    fn rewrite_sources_for_lessjs_compat(&self, sm: &mut SourceMap)
        requires
            map_raw_sources(*old(sm)).len() <= u32::MAX,
        ensures
            map_source_root(*final(sm)) == None::<Seq<char>>,
            map_names(*final(sm)) == map_names(*old(sm)),
            map_tokens(*final(sm)) == map_tokens(*old(sm)),
            map_file(*final(sm)) == map_file(*old(sm)),
            map_raw_sources(*final(sm)).len() == map_raw_sources(*old(sm)).len(),
            forall|i: int|
                0 <= i < map_raw_sources(*old(sm)).len() ==> lessjs_entry(
                    opt_view(self.source_root),
                    map_raw_sources(*old(sm))[i],
                    #[trigger] map_raw_sources(*final(sm))[i],
                ),
    {
        let source_root = match &self.source_root {
            Some(r) => Some(r.as_str()),
            None => None,
        };
        let base = match &self.source_base_path {
            Some(b) => Some(b),
            None => None,
        };
        map_clear_source_root(sm);
        let ghost raw = map_raw_sources(*sm);
        let source_count = map_source_count(sm);
        let mut idx: u32 = 0;
        while idx < source_count
            invariant
                0 <= idx <= source_count,
                source_count == raw.len(),
                raw == map_raw_sources(*old(sm)),
                map_source_root(*sm) == None::<Seq<char>>,
                map_names(*sm) == map_names(*old(sm)),
                map_tokens(*sm) == map_tokens(*old(sm)),
                map_file(*sm) == map_file(*old(sm)),
                map_raw_sources(*sm).len() == raw.len(),
                opt_str_view(source_root) == opt_view(self.source_root),
                forall|j: int|
                    0 <= j < idx ==> lessjs_entry(
                        opt_view(self.source_root),
                        raw[j],
                        #[trigger] map_raw_sources(*sm)[j],
                    ),
                forall|j: int| idx <= j < raw.len() ==> #[trigger] map_raw_sources(*sm)[j] == raw[j],
            decreases source_count - idx,
        {
            let raw_source = match map_source_at(sm, idx) {
                Some(s) => s,
                None => {
                    idx = idx + 1;
                    continue;
                },
            };
            assert(raw_source@ == raw[idx as int]);
            let normalized = normalize_source_for_lessjs(raw_source.as_str(), base);
            let with_root = apply_lessjs_source_root(source_root, normalized.as_str());
            let ghost before = map_raw_sources(*sm);
            map_set_source(sm, idx, with_root.as_str());
            proof {
                let (a, r, f) = choose|a: bool, r: Option<Seq<char>>, f: Option<Seq<char>>|
                    normalized@ == #[trigger] lessjs_source_spec(raw_source@, a, r, f);
                assert(with_root@ == lessjs_rooted_spec(
                    opt_view(self.source_root),
                    lessjs_source_spec(raw[idx as int], a, r, f),
                ));
                assert(lessjs_entry(
                    opt_view(self.source_root),
                    raw[idx as int],
                    map_raw_sources(*sm)[idx as int],
                ));
                assert forall|j: int| 0 <= j < idx + 1 implies lessjs_entry(
                    opt_view(self.source_root),
                    raw[j],
                    #[trigger] map_raw_sources(*sm)[j],
                ) by {
                    if j < idx {
                        assert(map_raw_sources(*sm)[j] == before[j]);
                    }
                }
            }
            idx = idx + 1;
        }
    }

    /// The source map of what was recorded, as JSON, starting afresh as
    /// `generate` does; in less.js-compatible mode the map is first rewritten
    /// without names and its sources written the less.js way. `None` exactly
    /// when generation is disabled.
    pub fn generate_json(&mut self) -> (res: Option<String>)
        requires
            old(self).wf(),
        ensures
            final(self)@.enabled == old(self)@.enabled,
            final(self).wf(),
            final(self).base_path() == old(self).base_path(),
            !old(self)@.enabled ==> res is None && final(self)@ == old(self)@,
            old(self)@.enabled ==> final(self)@ == cleared(old(self)@),
            old(self)@.enabled && !old(self)@.lessjs_compat ==> exists|m: SourceMap|
                map_of(m, old(self)@) && opt_view(res) == Some(
                    vstd::utf8::decode_utf8(#[trigger] map_json(m)),
                ),
            old(self)@.enabled && old(self)@.lessjs_compat ==> exists|m: SourceMap, r: SourceMap|
                map_of(m, old(self)@) && #[trigger] lessjs_output(m, r, old(self)@.source_root)
                    && opt_view(res) == Some(vstd::utf8::decode_utf8(map_json(r))),
    {
        if !self.enabled {
            return None;
        }
        let ghost before = self@;
        let mut sm = match self.generate() {
            Some(sm) => sm,
            None => {
                return None;
            },
        };
        let ghost m = sm;
        proof {
            lemma_no_range_by_multiset(map_tokens(m), before.tokens);
        }
        if self.lessjs_compat {
            sm = match map_rewrite_without_names(sm) {
                Some(r) => r,
                None => {
                    return None;
                },
            };
            let ghost r0 = sm;
            proof {
                let srcs = map_sources(m);
                let t = map_tokens(m);
                let nt = Seq::new(
                    t.len(),
                    |i: int| rewritten_token(srcs, used_sources(srcs, t), t[i]),
                );
                assert(no_range_mappings(nt)) by {
                    assert forall|i: int| 0 <= i < nt.len() implies !(#[trigger] nt[i]).6 by {
                        assert(!t[i].6);
                    }
                }
                lemma_no_range_by_multiset(map_tokens(r0), nt);
            }
            self.rewrite_sources_for_lessjs_compat(&mut sm);
            proof {
                assert(lessjs_rewrite_of(r0, sm, before.source_root));
                assert(lessjs_output(m, sm, before.source_root));
            }
        }
        let ghost out = sm;
        let bytes = match map_to_json_bytes(&sm) {
            Some(b) => b,
            None => {
                return None;
            },
        };
        let res = utf8_to_string(bytes);
        proof {
            assert(opt_view(res) == utf8_text(map_json(out)));
        }
        res
    }
}

/// Whether `r` is `r0` with its sources written the less.js way under the
/// root `root`: no source root, the same names, mappings and file, and each
/// source rewritten from the one at the same index.
pub open spec fn lessjs_rewrite_of(r0: SourceMap, r: SourceMap, root: Option<Seq<char>>) -> bool {
    &&& map_source_root(r) == None::<Seq<char>>
    &&& map_names(r) == map_names(r0)
    &&& map_tokens(r) == map_tokens(r0)
    &&& map_file(r) == map_file(r0)
    &&& map_raw_sources(r).len() == map_raw_sources(r0).len()
    &&& forall|i: int|
        0 <= i < map_raw_sources(r0).len() ==> lessjs_entry(
            root,
            map_raw_sources(r0)[i],
            #[trigger] map_raw_sources(r)[i],
        )
}

/// Whether `r` is what less.js mode writes for the map `m`: `m` rewritten
/// without names, then its sources written the less.js way under `root`.
pub open spec fn lessjs_output(m: SourceMap, r: SourceMap, root: Option<Seq<char>>) -> bool {
    exists|r0: SourceMap| #[trigger] rewritten_without_names(m, r0) && lessjs_rewrite_of(r0, r, root)
}

/// Mappings that hold the same entries as mappings without range mappings
/// hold none either.
proof fn lemma_no_range_by_multiset(a: Seq<MappingEntry>, b: Seq<MappingEntry>)
    requires
        a.to_multiset() == b.to_multiset(),
        no_range_mappings(b),
    ensures
        no_range_mappings(a),
{
    broadcast use vstd::seq_lib::to_multiset_contains;

    assert forall|i: int| 0 <= i < a.len() implies !(#[trigger] a[i]).6 by {
        assert(a.contains(a[i]));
        assert(b.to_multiset().count(a[i]) > 0);
        assert(b.contains(a[i]));
        let j = choose|j: int| 0 <= j < b.len() && b[j] == a[i];
        assert(!b[j].6);
    }
}

impl Default for SourceMapGenerator {
    fn default() -> (res: Self)
        ensures
            res.wf(),
            res@ == (GeneratorState {
                enabled: false,
                lessjs_compat: false,
                file: None,
                source_root: None,
                sources: Seq::empty(),
                names: Seq::empty(),
                tokens: Seq::empty(),
            }),
    {
        Self::new(false)
    }
}


/// Mapping twice from the same file registers the file once: the second
/// mapping reuses the source id of the first.
pub proof fn lemma_same_file_same_source_id(
    s0: GeneratorState,
    s1: GeneratorState,
    s2: GeneratorState,
    file: Seq<char>,
    p1: Position,
    p2: Position,
    line1: u32,
    col1: u32,
    line2: u32,
    col2: u32,
    n1: Option<Seq<char>>,
    n2: Option<Seq<char>>,
)
    requires
        s0.enabled,
        s0.sources.no_duplicates(),
        mapping_added(s0, s1, file, p1, line1, col1, n1),
        mapping_added(s1, s2, file, p2, line2, col2, n2),
    ensures
        s2.sources == s1.sources,
        s1.sources.len() <= s0.sources.len() + 1,
        s2.tokens.last().4 == s1.tokens.last().4,
        s2.tokens.len() == s0.tokens.len() + 2,
{
    assert(s1.sources.contains(file)) by {
        if !s0.sources.contains(file) {
            assert(s1.sources[s0.sources.len() as int] == file);
        }
    }
    assert(s1.sources.no_duplicates()) by {
        if !s0.sources.contains(file) {
            assert forall|i: int, j: int|
                0 <= i < s1.sources.len() && 0 <= j < s1.sources.len() && i != j implies s1.sources[i]
                != s1.sources[j] by {
                if i < s0.sources.len() && j < s0.sources.len() {
                    assert(s0.sources[i] == s1.sources[i] && s0.sources[j] == s1.sources[j]);
                } else if i < s0.sources.len() {
                    assert(s0.sources[i] == s1.sources[i]);
                } else if j < s0.sources.len() {
                    assert(s0.sources[j] == s1.sources[j]);
                }
            }
        }
    }
    assert(s2.tokens.last() == s2.tokens[s2.tokens.len() - 1]);
    assert(s1.tokens[s1.tokens.len() - 1] == s2.tokens[s1.tokens.len() - 1]);
}

/// Whether generation is turned on is fixed when the generator is made:
/// along any run of operations, each of which keeps the flag (as every
/// operation of `SourceMapGenerator` ensures), the flag stays what it was at
/// the start.
pub proof fn lemma_enabled_fixed_along_run(run: Seq<GeneratorState>)
    requires
        forall|i: int| 0 <= i < run.len() - 1 ==> #[trigger] run[i + 1].enabled == run[i].enabled,
    ensures
        forall|i: int| 0 <= i < run.len() ==> #[trigger] run[i].enabled == run[0].enabled,
    decreases run.len(),
{
    if run.len() > 1 {
        let p = run.drop_last();
        assert forall|i: int| 0 <= i < p.len() - 1 implies #[trigger] p[i + 1].enabled
            == p[i].enabled by {
            assert(p[i + 1] == run[i + 1] && p[i] == run[i]);
        }
        lemma_enabled_fixed_along_run(p);
        assert forall|i: int| 0 <= i < run.len() implies #[trigger] run[i].enabled
            == run[0].enabled by {
            if i < run.len() - 1 {
                assert(p[i] == run[i]);
            } else {
                assert(p[i - 1] == run[i - 1]);
                assert(run[(i - 1) + 1].enabled == run[i - 1].enabled);
            }
        }
    }
}

/// The `file` field is whatever `set_file` last set: along any run of
/// operations none of which is `set_file` (each of the others keeps the
/// field, as their contracts say), every state has the file of the first.
pub proof fn lemma_file_fixed_along_run(run: Seq<GeneratorState>)
    requires
        forall|i: int| 0 <= i < run.len() - 1 ==> #[trigger] run[i + 1].file == run[i].file,
    ensures
        forall|i: int| 0 <= i < run.len() ==> #[trigger] run[i].file == run[0].file,
    decreases run.len(),
{
    if run.len() > 1 {
        let p = run.drop_last();
        assert forall|i: int| 0 <= i < p.len() - 1 implies #[trigger] p[i + 1].file
            == p[i].file by {
            assert(p[i + 1] == run[i + 1] && p[i] == run[i]);
        }
        lemma_file_fixed_along_run(p);
        assert forall|i: int| 0 <= i < run.len() implies #[trigger] run[i].file
            == run[0].file by {
            if i < run.len() - 1 {
                assert(p[i] == run[i]);
            } else {
                assert(p[i - 1] == run[i - 1]);
                assert(run[(i - 1) + 1].file == run[i - 1].file);
            }
        }
    }
}

} // verus!
