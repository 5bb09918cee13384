//! Character-level helpers over `str` and `String`, with their meaning
//! stated over `Seq<char>`.
use vstd::prelude::*;

verus! {

broadcast use vstd::string::group_string_axioms;

/// Appends one character to a string; a wrapper of std's `String::push`,
/// whose documentation says the character is added at the end.
#[verifier::external_body]
pub(crate) fn push_char(s: &mut String, c: char)
    ensures
        final(s)@ == old(s)@.push(c),
{
    s.push(c);
}

/// Character-wise equality of two string slices.
pub fn same_text(a: &str, b: &str) -> (r: bool)
    ensures
        r == (a@ == b@),
{
    let x: String = a.to_owned();
    let y: String = b.to_owned();
    x == y
}

/// `k` is the position of the first `c` in `s`.
pub open spec fn is_first_index(s: Seq<char>, c: char, k: int) -> bool {
    &&& 0 <= k < s.len()
    &&& s[k] == c
    &&& forall|j: int| 0 <= j < k ==> s[j] != c
}

/// `k` is the position of the last `c` in `s`.
pub open spec fn is_last_index(s: Seq<char>, c: char, k: int) -> bool {
    &&& 0 <= k < s.len()
    &&& s[k] == c
    &&& forall|j: int| k < j < s.len() ==> s[j] != c
}

/// `c` does not occur in `s`.
pub open spec fn lacks(s: Seq<char>, c: char) -> bool {
    forall|j: int| 0 <= j < s.len() ==> s[j] != c
}

/// The text before the first `sep`, or all of `s` when `sep` does not occur:
/// the first piece that splitting `s` at `sep` yields.
pub open spec fn first_piece(s: Seq<char>, sep: char) -> Seq<char> {
    if exists|k: int| is_first_index(s, sep, k) {
        s.take(choose|k: int| is_first_index(s, sep, k))
    } else {
        s
    }
}

/// The text after the last `sep`, or all of `s` when `sep` does not occur:
/// the last piece that splitting `s` at `sep` yields.
pub open spec fn last_piece(s: Seq<char>, sep: char) -> Seq<char> {
    if exists|k: int| is_last_index(s, sep, k) {
        s.skip((choose|k: int| is_last_index(s, sep, k)) + 1)
    } else {
        s
    }
}

/// Where `sep` does not occur in `a`, the first piece of `a + [sep] + b` is `a`.
pub proof fn lemma_first_piece_of_joined(a: Seq<char>, sep: char, b: Seq<char>)
    requires
        lacks(a, sep),
    ensures
        first_piece(a + seq![sep] + b, sep) == a,
{
    let s = a + seq![sep] + b;
    assert(is_first_index(s, sep, a.len() as int));
    let k = choose|k: int| is_first_index(s, sep, k);
    assert(k == a.len()) by {
        if k < a.len() {
            assert(s[k] == a[k]);
        }
        if k > a.len() {
            assert(s[a.len() as int] == sep);
        }
    }
    assert(s.take(k) =~= a);
}

/// Where `sep` does not occur in `b`, the last piece of `a + [sep] + b` is `b`.
pub proof fn lemma_last_piece_of_joined(a: Seq<char>, sep: char, b: Seq<char>)
    requires
        lacks(b, sep),
    ensures
        last_piece(a + seq![sep] + b, sep) == b,
{
    let s = a + seq![sep] + b;
    assert(is_last_index(s, sep, a.len() as int)) by {
        assert forall|j: int| a.len() < j < s.len() implies s[j] != sep by {
            assert(s[j] == b[j - a.len() - 1]);
        }
    }
    let k = choose|k: int| is_last_index(s, sep, k);
    assert(k == a.len()) by {
        if k > a.len() {
            assert(s[k] == b[k - a.len() - 1]);
        }
        if k < a.len() {
            assert(s[a.len() as int] == sep);
        }
    }
    assert(s.skip(k + 1) =~= b);
}

/// Position of the first `c` in `s`, if there is one.
pub fn find_first(s: &str, c: char) -> (r: Option<usize>)
    ensures
        match r {
            Some(i) => is_first_index(s@, c, i as int),
            None => lacks(s@, c),
        },
{
    let n = s.unicode_len();
    let mut idx: usize = 0;
    for x in it: s.chars()
        invariant
            n == s@.len(),
            idx == it.index(),
            it.seq() == s@,
            forall|j: int| 0 <= j < idx ==> s@[j] != c,
    {
        if x == c {
            return Some(idx);
        }
        idx = idx + 1;
    }
    None
}

/// Position of the last `c` in `s`, if there is one.
pub fn find_last(s: &str, c: char) -> (r: Option<usize>)
    ensures
        match r {
            Some(i) => is_last_index(s@, c, i as int),
            None => lacks(s@, c),
        },
{
    let n = s.unicode_len();
    let mut idx: usize = 0;
    let mut found: Option<usize> = None;
    for x in it: s.chars()
        invariant
            n == s@.len(),
            idx == it.index(),
            it.seq() == s@,
            match found {
                Some(k) => k < idx && s@[k as int] == c && forall|j: int| k < j < idx ==> s@[j] != c,
                None => forall|j: int| 0 <= j < idx ==> s@[j] != c,
            },
    {
        if x == c {
            found = Some(idx);
        }
        idx = idx + 1;
    }
    found
}

/// The first piece of `s` split at `sep` (std's `split(sep).next()`).
pub fn split_first_piece(s: &str, sep: char) -> (r: String)
    ensures
        r@ == first_piece(s@, sep),
{
    match find_first(s, sep) {
        Some(i) => {
            let ghost k = choose|k: int| is_first_index(s@, sep, k);
            assert(k == i) by {
                if k < i {
                    assert(s@[k] == sep);
                }
                if k > i {
                    assert(s@[i as int] == sep);
                }
            }
            s.substring_char(0, i).to_owned()
        },
        None => {
            assert(!exists|k: int| is_first_index(s@, sep, k));
            s.to_owned()
        },
    }
}

/// The last piece of `s` split at `sep` (std's `split(sep).last()`).
pub fn split_last_piece(s: &str, sep: char) -> (r: String)
    ensures
        r@ == last_piece(s@, sep),
{
    let n = s.unicode_len();
    match find_last(s, sep) {
        Some(i) => {
            let ghost k = choose|k: int| is_last_index(s@, sep, k);
            assert(k == i) by {
                if k < i {
                    assert(s@[i as int] == sep);
                }
                if k > i {
                    assert(s@[k] == sep);
                }
            }
            assert(s@.skip(i + 1) =~= s@.subrange(i + 1, n as int));
            s.substring_char(i + 1, n).to_owned()
        },
        None => {
            assert(!exists|k: int| is_last_index(s@, sep, k));
            s.to_owned()
        },
    }
}

} // verus!
