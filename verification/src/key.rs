//! Cache keys: the name of the directory that holds the entries of one URL.

use vstd::prelude::*;
use vstd::string::*;

verus! {

/// The path separator, which no directory name can hold.
pub const SEPARATOR: char = '/';

/// The character that stands in for the separator in a cache key: U+2571,
/// which looks like a slash and is not expected in a request URL.
pub const PLACEHOLDER: char = '\u{2571}';

/// `std::string::String::push` appends the character to the end of the
/// string. Trusted: vstd gives this method no specification.
pub assume_specification[ std::string::String::push ](text: &mut std::string::String, c: char)
    ensures
        final(text)@ == old(text)@.push(c),
;

/// What becomes of one character of a URL in its cache key.
pub open spec fn sanitized_char(c: char) -> char {
    if c == SEPARATOR {
        PLACEHOLDER
    } else {
        c
    }
}

/// The cache key of `url`: the URL with every separator replaced by the
/// placeholder, and nothing else changed.
pub open spec fn sanitized(url: Seq<char>) -> Seq<char> {
    Seq::new(url.len(), |i: int| sanitized_char(url[i]))
}

/// Two texts that are equal but for places where one holds the separator and
/// the other the placeholder.
pub open spec fn alike_but_for_separators(a: Seq<char>, b: Seq<char>) -> bool {
    &&& a.len() == b.len()
    &&& forall|i: int| 0 <= i < a.len() ==> sanitized_char(#[trigger] a[i]) == sanitized_char(b[i])
}

/// The cache key of `url`, safe to use as one component of a path.
pub fn sanitize(url: &str) -> (key: String)
    ensures
        key@ == sanitized(url@),
{
    let mut key = String::new();
    for c in it: url.chars()
        invariant
            it.seq() == url@,
            key@ == sanitized(url@.take(it.index() as int)),
    {
        let ghost before = key@;
        if c == SEPARATOR {
            key.push(PLACEHOLDER);
        } else {
            key.push(c);
        }
        proof {
            let i = it.index() as int;
            assert(key@ == before.push(sanitized_char(url@[i])));
            assert(key@ == sanitized(url@.take(i + 1)));
        }
    }
    proof {
        assert(url@.take(url@.len() as int) == url@);
    }
    key
}

/// A cache key holds no separator, so it names a single directory.
pub proof fn lemma_sanitized_has_no_separator(url: Seq<char>)
    ensures
        sanitized(url).len() == url.len(),
        !sanitized(url).contains(SEPARATOR),
{
    if sanitized(url).contains(SEPARATOR) {
        let i = choose|i: int| 0 <= i < sanitized(url).len() && sanitized(url)[i] == SEPARATOR;
        assert(sanitized(url)[i] == sanitized_char(url[i]));
    }
}

/// Two URLs share a cache key exactly when they are equal but for places
/// where one holds the separator and the other the placeholder.
pub proof fn lemma_sanitized_collisions(a: Seq<char>, b: Seq<char>)
    ensures
        sanitized(a) == sanitized(b) <==> alike_but_for_separators(a, b),
{
    if sanitized(a) == sanitized(b) {
        assert(a.len() == sanitized(a).len());
        assert(b.len() == sanitized(b).len());
        assert forall|i: int| 0 <= i < a.len() implies sanitized_char(#[trigger] a[i])
            == sanitized_char(b[i]) by {
            assert(sanitized(a)[i] == sanitized(b)[i]);
        }
    }
    if alike_but_for_separators(a, b) {
        assert(sanitized(a) =~= sanitized(b));
    }
}

/// Distinct URLs have distinct cache keys, as long as neither holds the
/// placeholder character itself.
pub proof fn lemma_sanitized_injective(a: Seq<char>, b: Seq<char>)
    requires
        !a.contains(PLACEHOLDER),
        !b.contains(PLACEHOLDER),
        a != b,
    ensures
        sanitized(a) != sanitized(b),
{
    if sanitized(a) == sanitized(b) {
        lemma_sanitized_collisions(a, b);
        assert forall|i: int| 0 <= i < a.len() implies a[i] == b[i] by {
            assert(sanitized_char(a[i]) == sanitized_char(b[i]));
            assert(a.contains(a[i]));
            assert(b.contains(b[i]));
        }
        assert(a =~= b);
    }
}

} // verus!
