//! Character-level helpers: comparison, file-name components, extensions.
use vstd::prelude::*;

verus! {

/// `/` and `\` both separate path components in a file name sent by a peer.
pub open spec fn is_separator(c: char) -> bool {
    c == '/' || c == '\\'
}

/// Index of the last separator in `s`, or -1 when there is none.
pub open spec fn last_separator(s: Seq<char>) -> int
    decreases s.len(),
{
    if s.len() == 0 {
        -1
    } else if is_separator(s.last()) {
        s.len() - 1
    } else {
        last_separator(s.drop_last())
    }
}

/// The final path component of `s`: everything after its last separator.
pub open spec fn basename(s: Seq<char>) -> Seq<char> {
    s.subrange(last_separator(s) + 1, s.len() as int)
}

/// A single path component that names an entry inside a directory.
pub open spec fn is_plain_component(s: Seq<char>) -> bool {
    &&& s.len() > 0
    &&& s != seq!['.']
    &&& s != seq!['.', '.']
    &&& forall|i: int| 0 <= i < s.len() ==> !is_separator(#[trigger] s[i])
}

/// Index of the last `.` in `s`, or -1 when there is none.
pub open spec fn last_dot(s: Seq<char>) -> int
    decreases s.len(),
{
    if s.len() == 0 {
        -1
    } else if s.last() == '.' {
        s.len() - 1
    } else {
        last_dot(s.drop_last())
    }
}

/// The extension of a file name: what follows its last `.`, unless that dot
/// opens the name (a hidden file) or there is none, in which case it is empty.
pub open spec fn extension(s: Seq<char>) -> Seq<char> {
    if last_dot(s) <= 0 {
        Seq::empty()
    } else {
        s.subrange(last_dot(s) + 1, s.len() as int)
    }
}

pub proof fn lemma_last_separator_bounds(s: Seq<char>)
    ensures
        -1 <= last_separator(s) < s.len(),
        last_separator(s) >= 0 ==> is_separator(s[last_separator(s)]),
        forall|i: int| last_separator(s) < i < s.len() ==> !is_separator(#[trigger] s[i]),
    decreases s.len(),
{
    if s.len() > 0 && !is_separator(s.last()) {
        lemma_last_separator_bounds(s.drop_last());
        assert forall|i: int| last_separator(s) < i < s.len() implies !is_separator(#[trigger] s[i]) by {
            if i < s.len() - 1 {
                assert(s[i] == s.drop_last()[i]);
            }
        }
    }
}

/// A file name reduced by `basename` is its last component: it holds no
/// separator, and what it drops is empty or ends with a separator.
pub proof fn lemma_basename_is_last_component(s: Seq<char>)
    ensures
        forall|i: int| 0 <= i < basename(s).len() ==> !is_separator(#[trigger] basename(s)[i]),
        s == s.subrange(0, s.len() - basename(s).len()) + basename(s),
        s.len() > basename(s).len() ==> is_separator(s[s.len() - basename(s).len() - 1]),
        basename(basename(s)) == basename(s),
{
    lemma_last_separator_bounds(s);
    let b = basename(s);
    assert forall|i: int| 0 <= i < b.len() implies !is_separator(#[trigger] b[i]) by {
        assert(b[i] == s[last_separator(s) + 1 + i]);
    }
    assert(s =~= s.subrange(0, s.len() - b.len()) + b);
    lemma_last_separator_bounds(b);
    if last_separator(b) >= 0 {
        assert(!is_separator(b[last_separator(b)]));
    }
    assert(basename(b) =~= b);
}

/// Two strings hold the same characters.
pub fn str_eq(a: &str, b: &str) -> (r: bool)
    ensures
        r == (a@ == b@),
{
    let n = a.unicode_len();
    let m = b.unicode_len();
    if n != m {
        return false;
    }
    let mut i: usize = 0;
    while i < n
        invariant
            n == a@.len(),
            m == b@.len(),
            n == m,
            i <= n,
            forall|j: int| 0 <= j < i ==> a@[j] == b@[j],
        decreases n - i,
    {
        if a.get_char(i) != b.get_char(i) {
            return false;
        }
        i += 1;
    }
    assert(a@ =~= b@);
    true
}

pub fn is_separator_char(c: char) -> (r: bool)
    ensures
        r == is_separator(c),
{
    c == '/' || c == '\\'
}

/// The last path component of `s` (see `basename`).
pub fn base_name(s: &str) -> (r: String)
    ensures
        r@ == basename(s@),
{
    let n = s.unicode_len();
    let mut i: usize = n;
    assert(s@.subrange(0, n as int) =~= s@);
    while i > 0 && !is_separator_char(s.get_char(i - 1))
        invariant
            i <= n,
            n == s@.len(),
            last_separator(s@) == last_separator(s@.subrange(0, i as int)),
        decreases i,
    {
        assert(s@.subrange(0, i as int).drop_last() =~= s@.subrange(0, i - 1));
        i -= 1;
    }
    assert(s@.subrange(0, n as int) =~= s@);
    if i > 0 {
        assert(s@.subrange(0, i as int).last() == s@[i - 1]);
    } else {
        assert(s@.subrange(0, 0) =~= Seq::<char>::empty());
    }
    String::from_str(s.substring_char(i, n))
}

/// Whether `s` is a single plain path component.
pub fn is_plain_name(s: &str) -> (r: bool)
    ensures
        r == is_plain_component(s@),
{
    let n = s.unicode_len();
    if n == 0 {
        return false;
    }
    proof {
        reveal_strlit(".");
        reveal_strlit("..");
    }
    assert("."@ =~= seq!['.']);
    assert(".."@ =~= seq!['.', '.']);
    if str_eq(s, ".") || str_eq(s, "..") {
        return false;
    }
    let mut i: usize = 0;
    while i < n
        invariant
            n == s@.len(),
            i <= n,
            forall|j: int| 0 <= j < i ==> !is_separator(#[trigger] s@[j]),
        decreases n - i,
    {
        if is_separator_char(s.get_char(i)) {
            return false;
        }
        i += 1;
    }
    true
}

/// The extension of a file name (see `extension`).
pub fn extension_of(s: &str) -> (r: String)
    ensures
        r@ == extension(s@),
{
    let n = s.unicode_len();
    let mut i: usize = n;
    assert(s@.subrange(0, n as int) =~= s@);
    while i > 0 && s.get_char(i - 1) != '.'
        invariant
            i <= n,
            n == s@.len(),
            last_dot(s@) == last_dot(s@.subrange(0, i as int)),
        decreases i,
    {
        assert(s@.subrange(0, i as int).drop_last() =~= s@.subrange(0, i - 1));
        i -= 1;
    }
    assert(s@.subrange(0, n as int) =~= s@);
    if i > 0 {
        assert(s@.subrange(0, i as int).last() == s@[i - 1]);
    } else {
        assert(s@.subrange(0, 0) =~= Seq::<char>::empty());
    }
    if i <= 1 {
        String::new()
    } else {
        String::from_str(s.substring_char(i, n))
    }
}

} // verus!
