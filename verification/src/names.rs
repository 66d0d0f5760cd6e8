//! Raw file names and the ordering the scanner sorts them by.
//!
//! Paths are plain strings; the name of an entry is the portion of its path
//! after the last separator. Scan results are sorted by comparing these raw
//! names codepoint by codepoint.

use vstd::prelude::*;

verus! {

/// Index right after the last `/` of `s`, or `0` if `s` has none.
pub open spec fn spec_name_start(s: Seq<char>) -> int
    decreases s.len(),
{
    if s.len() == 0 {
        0
    } else if s[s.len() - 1] == '/' {
        s.len() as int
    } else {
        spec_name_start(s.drop_last())
    }
}

/// The raw name of the entry at path `s`: everything after the last `/`.
pub open spec fn spec_file_name(s: Seq<char>) -> Seq<char> {
    s.subrange(spec_name_start(s), s.len() as int)
}

/// The name start is a position within the path.
pub proof fn lemma_name_start_bounds(s: Seq<char>)
    ensures
        0 <= spec_name_start(s) <= s.len(),
    decreases s.len(),
{
    if s.len() > 0 && s[s.len() - 1] != '/' {
        lemma_name_start_bounds(s.drop_last());
    }
}

/// The name starts right after a `/` that no later `/` follows.
proof fn lemma_name_start_after_slash(s: Seq<char>, k: int)
    requires
        0 <= k < s.len(),
        s[k] == '/',
        forall|j: int| k < j < s.len() ==> s[j] != '/',
    ensures
        spec_name_start(s) == k + 1,
    decreases s.len(),
{
    if k == s.len() - 1 {
    } else {
        lemma_name_start_after_slash(s.drop_last(), k);
    }
}

/// A path without any `/` is its own name.
proof fn lemma_name_start_no_slash(s: Seq<char>)
    requires
        forall|j: int| 0 <= j < s.len() ==> s[j] != '/',
    ensures
        spec_name_start(s) == 0,
    decreases s.len(),
{
    if s.len() > 0 {
        lemma_name_start_no_slash(s.drop_last());
    }
}

/// Extracts the raw file name from a path: the portion after the last `/`,
/// or the whole path if it has none.
pub fn file_name_of(path: &str) -> (r: String)
    ensures
        r@ == spec_file_name(path@),
{
    proof {
        lemma_name_start_bounds(path@);
    }
    let len = path.unicode_len();
    let mut i: usize = len;
    while i > 0
        invariant
            i <= len,
            len == path@.len(),
            forall|j: int| i <= j < len ==> path@[j] != '/',
        decreases i,
    {
        let c = path.get_char(i - 1);
        if c == '/' {
            proof {
                lemma_name_start_after_slash(path@, i - 1);
            }
            let name = path.substring_char(i, len);
            return name.to_owned();
        }
        i = i - 1;
    }
    proof {
        lemma_name_start_no_slash(path@);
    }
    let name = path.substring_char(0, len);
    name.to_owned()
}

/// Strict lexicographic order on character sequences, by codepoint.
pub open spec fn lex_lt(a: Seq<char>, b: Seq<char>) -> bool
    decreases a.len(),
{
    if b.len() == 0 {
        false
    } else if a.len() == 0 {
        true
    } else if a[0] != b[0] {
        (a[0] as u32) < (b[0] as u32)
    } else {
        lex_lt(a.skip(1), b.skip(1))
    }
}

/// `lex_lt` with equality allowed.
pub open spec fn lex_le(a: Seq<char>, b: Seq<char>) -> bool {
    lex_lt(a, b) || a == b
}

/// The sequence of names is in ascending `lex_le` order.
pub open spec fn sorted_names(keys: Seq<Seq<char>>) -> bool {
    forall|i: int, j: int| 0 <= i <= j < keys.len() ==> lex_le(#[trigger] keys[i], #[trigger] keys[j])
}

/// Dropping a common prefix of length `i` does not change how two sequences
/// compare.
proof fn lemma_lex_skip_prefix(a: Seq<char>, b: Seq<char>, i: int)
    requires
        0 <= i <= a.len(),
        i <= b.len(),
        forall|j: int| 0 <= j < i ==> a[j] == b[j],
    ensures
        lex_lt(a, b) == lex_lt(a.skip(i), b.skip(i)),
        (a == b) == (a.skip(i) == b.skip(i) && a.len() == b.len()),
    decreases i,
{
    if i > 0 {
        assert(a.len() > 0 && b.len() > 0);
        assert(a[0] == b[0]);
        lemma_lex_skip_prefix(a.skip(1), b.skip(1), i - 1);
        assert(a.skip(1).skip(i - 1) =~= a.skip(i));
        assert(b.skip(1).skip(i - 1) =~= b.skip(i));
        if a.skip(1) == b.skip(1) && a.len() == b.len() {
            assert forall|j: int| 0 <= j < a.len() implies a[j] == b[j] by {
                if j > 0 {
                    assert(a[j] == a.skip(1)[j - 1]);
                    assert(b[j] == b.skip(1)[j - 1]);
                }
            }
            assert(a =~= b);
        }
        if a == b {
            assert(a.skip(1) =~= b.skip(1));
        }
    } else {
        assert(a.skip(0) =~= a);
        assert(b.skip(0) =~= b);
    }
}

/// Trichotomy: two names are ordered one way, the other way, or equal.
pub proof fn lemma_lex_total(a: Seq<char>, b: Seq<char>)
    ensures
        lex_lt(a, b) || lex_lt(b, a) || a == b,
    decreases a.len(),
{
    if a.len() == 0 {
        if b.len() == 0 {
            assert(a =~= b);
        }
    } else if b.len() == 0 {
    } else if a[0] != b[0] {
        assert((a[0] as u32) != (b[0] as u32)) by {
            if (a[0] as u32) == (b[0] as u32) {
                vstd::utf8::char_u32_cast(a[0], a[0] as u32);
                vstd::utf8::char_u32_cast(b[0], b[0] as u32);
            }
        }
        if (a[0] as u32) < (b[0] as u32) {
            assert(lex_lt(a, b));
        } else {
            assert((b[0] as u32) < (a[0] as u32));
            assert(lex_lt(b, a));
        }
    } else {
        lemma_lex_total(a.skip(1), b.skip(1));
        if lex_lt(a.skip(1), b.skip(1)) {
            assert(lex_lt(a, b));
        } else if lex_lt(b.skip(1), a.skip(1)) {
            assert(lex_lt(b, a));
        } else {
            lemma_lex_skip_prefix(a, b, 1);
        }
    }
}

/// The strict order on names is transitive.
pub proof fn lemma_lex_lt_trans(a: Seq<char>, b: Seq<char>, c: Seq<char>)
    requires
        lex_lt(a, b),
        lex_lt(b, c),
    ensures
        lex_lt(a, c),
    decreases a.len(),
{
    if a.len() == 0 {
    } else {
        assert(b.len() > 0 && c.len() > 0);
        if a[0] == b[0] && b[0] == c[0] {
            lemma_lex_lt_trans(a.skip(1), b.skip(1), c.skip(1));
        }
    }
}

/// The reflexive order on names is transitive.
pub proof fn lemma_lex_le_trans(a: Seq<char>, b: Seq<char>, c: Seq<char>)
    requires
        lex_le(a, b),
        lex_le(b, c),
    ensures
        lex_le(a, c),
{
    if lex_lt(a, b) && lex_lt(b, c) {
        lemma_lex_lt_trans(a, b, c);
    }
}

/// Compares two character sequences given as strings, by codepoint.
pub fn lex_cmp(a: &str, b: &str) -> (r: core::cmp::Ordering)
    ensures
        (r == core::cmp::Ordering::Less) == lex_lt(a@, b@),
        (r == core::cmp::Ordering::Equal) == (a@ == b@),
        (r == core::cmp::Ordering::Greater) == lex_lt(b@, a@),
{
    let alen = a.unicode_len();
    let blen = b.unicode_len();
    let mut i: usize = 0;
    while i < alen && i < blen
        invariant
            i <= alen,
            i <= blen,
            alen == a@.len(),
            blen == b@.len(),
            forall|j: int| 0 <= j < i ==> a@[j] == b@[j],
        decreases alen - i,
    {
        let ca = a.get_char(i);
        let cb = b.get_char(i);
        if (ca as u32) < (cb as u32) {
            proof {
                lemma_lex_skip_prefix(a@, b@, i as int);
                lemma_lex_skip_prefix(b@, a@, i as int);
            }
            return core::cmp::Ordering::Less;
        }
        if (cb as u32) < (ca as u32) {
            proof {
                lemma_lex_skip_prefix(a@, b@, i as int);
                lemma_lex_skip_prefix(b@, a@, i as int);
            }
            return core::cmp::Ordering::Greater;
        }
        proof {
            assert(ca == cb);
        }
        i = i + 1;
    }
    proof {
        lemma_lex_skip_prefix(a@, b@, i as int);
        lemma_lex_skip_prefix(b@, a@, i as int);
    }
    if alen == blen {
        proof {
            assert(a@ =~= b@);
        }
        core::cmp::Ordering::Equal
    } else if alen < blen {
        core::cmp::Ordering::Less
    } else {
        core::cmp::Ordering::Greater
    }
}

/// Compares two paths by the raw names of their final components, the order
/// directory scans are sorted in.
pub fn compare_names(a: &str, b: &str) -> (r: core::cmp::Ordering)
    ensures
        (r == core::cmp::Ordering::Less) == lex_lt(spec_file_name(a@), spec_file_name(b@)),
        (r == core::cmp::Ordering::Equal) == (spec_file_name(a@) == spec_file_name(b@)),
        (r == core::cmp::Ordering::Greater) == lex_lt(spec_file_name(b@), spec_file_name(a@)),
{
    let na = file_name_of(a);
    let nb = file_name_of(b);
    lex_cmp(na.as_str(), nb.as_str())
}

} // verus!
