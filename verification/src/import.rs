//! The decisions of `@import` that do not touch the file system: which
//! file name an import path stands for, and whether a resolved file is
//! compiled again.

use crate::extend::strings_view;
use crate::source_map::{drop_leading, drop_trailing, lemma_drop_leading_suffix, lemma_drop_trailing_prefix};
use crate::text::{chars_of, push_str, str_eq, string_from_range};
use vstd::prelude::*;

verus! {

/// `s` without the `ch`s at either end (`str::trim_matches`).
pub open spec fn strip_char(s: Seq<char>, ch: char) -> Seq<char> {
    drop_trailing(drop_leading(s, ch), ch)
}

/// Whether `s` ends with `t`.
pub open spec fn has_suffix(s: Seq<char>, t: Seq<char>) -> bool {
    t.len() <= s.len() && s.subrange(s.len() - t.len(), s.len() as int) == t
}

/// The import path without its quotes: double quotes stripped from both
/// ends, then single quotes.
pub open spec fn unquoted_import_path(path: Seq<char>) -> Seq<char> {
    strip_char(strip_char(path, '"'), '\'')
}

/// The file an import path names: the unquoted path, with `.less` added
/// unless it already ends in `.less` or `.css`.
pub open spec fn import_file_name_spec(path: Seq<char>) -> Seq<char> {
    let p = unquoted_import_path(path);
    if has_suffix(p, ".less"@) || has_suffix(p, ".css"@) {
        p
    } else {
        p + ".less"@
    }
}

fn strip_char_exec(s: &str, ch: char) -> (res: String)
    ensures
        res@ == strip_char(s@, ch),
{
    let cs = chars_of(s);
    let mut start: usize = 0;
    while start < cs.len() && cs[start] == ch
        invariant
            0 <= start <= cs.len(),
            forall|k: int| 0 <= k < start ==> cs@[k] == ch,
        decreases cs.len() - start,
    {
        start = start + 1;
    }
    proof {
        lemma_drop_leading_suffix(cs@, ch, start as int);
    }
    let ghost rest = cs@.subrange(start as int, cs@.len() as int);
    let mut end: usize = cs.len();
    while end > start && cs[end - 1] == ch
        invariant
            start <= end <= cs.len(),
            forall|k: int| end <= k < cs@.len() ==> cs@[k] == ch,
        decreases end,
    {
        end = end - 1;
    }
    proof {
        assert forall|k: int| end - start <= k < rest.len() implies rest[k] == ch by {
            assert(rest[k] == cs@[start + k]);
        }
        if end > start {
            assert(rest[end - start - 1] == cs@[end - 1]);
        }
        lemma_drop_trailing_prefix(rest, ch, end - start);
        assert(rest.subrange(0, end - start) =~= cs@.subrange(start as int, end as int));
    }
    string_from_range(cs.as_slice(), start, end)
}

fn ends_with(s: &Vec<char>, t: &str) -> (res: bool)
    ensures
        res == has_suffix(s@, t@),
{
    let tc = chars_of(t);
    if tc.len() > s.len() {
        return false;
    }
    let off = s.len() - tc.len();
    let mut i: usize = 0;
    while i < tc.len()
        invariant
            0 <= i <= tc@.len(),
            off + tc@.len() == s@.len(),
            tc@.len() == tc.len(),
            tc@ == t@,
            off == s@.len() - tc@.len(),
            s@.len() == s.len(),
            forall|k: int| 0 <= k < i ==> s@[off + k] == tc@[k],
        decreases tc@.len() - i,
    {
        if s[off + i] != tc[i] {
            let ghost sub = s@.subrange(off as int, s@.len() as int);
            assert(sub[i as int] == s@[off + i]);
            assert(sub != tc@);
            return false;
        }
        i = i + 1;
    }
    assert(s@.subrange(off as int, s@.len() as int) =~= tc@);
    true
}

/// The file name an `@import` path stands for: the path without
/// surrounding double quotes and then single quotes, with `.less` added
/// unless it ends in `.less` or `.css`.
pub fn import_file_name(import_path: &str) -> (res: String)
    ensures
        res@ == import_file_name_spec(import_path@),
{
    let once = strip_char_exec(import_path, '"');
    let p = strip_char_exec(once.as_str(), '\'');
    let pc = chars_of(p.as_str());
    proof {
        reveal_strlit(".less");
        reveal_strlit(".css");
    }
    if ends_with(&pc, ".less") || ends_with(&pc, ".css") {
        p
    } else {
        let mut out = p;
        push_str(&mut out, ".less");
        out
    }
}

/// Whether a resolved file is compiled for an import, and the files
/// imported so far afterwards: an import marked `multiple` always compiles
/// and records nothing; any other compiles only a file not imported yet,
/// which it records.
pub fn import_once(imported: &mut Vec<String>, resolved: &str, multiple: bool) -> (res: bool)
    ensures
        res == (multiple || !strings_view(old(imported)@).contains(resolved@)),
        strings_view(final(imported)@) == if !multiple && res {
            strings_view(old(imported)@).push(resolved@)
        } else {
            strings_view(old(imported)@)
        },
{
    if multiple {
        return true;
    }
    let mut i: usize = 0;
    while i < imported.len()
        invariant
            0 <= i <= imported@.len(),
            imported@ == old(imported)@,
            !multiple,
            forall|k: int| 0 <= k < i ==> imported@[k]@ != resolved@,
        decreases imported@.len() - i,
    {
        if str_eq(imported[i].as_str(), resolved) {
            assert(strings_view(imported@)[i as int] == resolved@);
            assert(strings_view(imported@).contains(resolved@));
            return false;
        }
        i = i + 1;
    }
    assert forall|k: int| 0 <= k < strings_view(imported@).len() implies strings_view(imported@)[k]
        != resolved@ by {
        assert(strings_view(imported@)[k] == imported@[k]@);
    }
    let ghost before = strings_view(imported@);
    imported.push(resolved.to_string());
    assert(strings_view(imported@) =~= before.push(resolved@));
    true
}

/// Importing a file a second time without `multiple` compiles nothing and
/// records nothing: after an import of `resolved` compiled, the same import
/// is skipped.
pub proof fn lemma_import_once_then_skipped(
    before: Seq<Seq<char>>,
    after: Seq<Seq<char>>,
    resolved: Seq<char>,
)
    requires
        !before.contains(resolved),
        after == before.push(resolved),
    ensures
        after.contains(resolved),
{
    assert(after[before.len() as int] == resolved);
}

} // verus!
