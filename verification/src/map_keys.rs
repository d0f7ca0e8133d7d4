//! Keys of LESS maps: a quoted key and the same key unquoted name one entry.

use crate::text::{chars_of, str_eq, string_from_range};
use vstd::prelude::*;

verus! {

/// Whether `key` is written in double quotes (at least two characters, a
/// quote at each end).
pub open spec fn is_quoted_key(key: Seq<char>) -> bool {
    key.len() >= 2 && key[0] == '"' && key.last() == '"'
}

/// The key without its surrounding double quotes, when it has them.
pub fn unquote_map_key(key: &str) -> (res: Option<String>)
    ensures
        match res {
            Some(s) => is_quoted_key(key@) && s@ == key@.subrange(1, key@.len() - 1),
            None => !is_quoted_key(key@),
        },
{
    let cs = chars_of(key);
    if cs.len() >= 2 && cs[0] == '"' && cs[cs.len() - 1] == '"' {
        Some(string_from_range(cs.as_slice(), 1, cs.len() - 1))
    } else {
        None
    }
}

/// The key as compared: unquoted when quoted.
pub open spec fn canonical_key(key: Seq<char>) -> Seq<char> {
    if is_quoted_key(key) {
        key.subrange(1, key.len() - 1)
    } else {
        key
    }
}

/// The key as compared: without its surrounding double quotes, if any.
pub fn canonical_map_key(key: &str) -> (res: String)
    ensures
        res@ == canonical_key(key@),
{
    match unquote_map_key(key) {
        Some(s) => s,
        None => key.to_string(),
    }
}

/// Whether two map keys name the same entry.
pub fn map_keys_equal(left: &str, right: &str) -> (res: bool)
    ensures
        res == (canonical_key(left@) == canonical_key(right@)),
{
    let l = canonical_map_key(left);
    let r = canonical_map_key(right);
    str_eq(l.as_str(), r.as_str())
}

/// Key equality is an equivalence: reflexive, symmetric and transitive.
pub proof fn lemma_map_keys_equivalence(a: Seq<char>, b: Seq<char>, c: Seq<char>)
    ensures
        canonical_key(a) == canonical_key(a),
        (canonical_key(a) == canonical_key(b)) == (canonical_key(b) == canonical_key(a)),
        canonical_key(a) == canonical_key(b) && canonical_key(b) == canonical_key(c)
            ==> canonical_key(a) == canonical_key(c),
{
}

/// A key in double quotes names the same entry as the key without them.
pub proof fn lemma_quoted_key_matches_bare(k: Seq<char>)
    requires
        !is_quoted_key(k),
    ensures
        canonical_key(seq!['"'] + k + seq!['"']) == canonical_key(k),
{
    let q = seq!['"'] + k + seq!['"'];
    assert(q.subrange(1, q.len() - 1) =~= k);
}

} // verus!
