//! Verified helpers on strings: appending single characters, equality,
//! substring search, ASCII lowering, and the small filename manipulations
//! that the packaging front end needs.

use vstd::prelude::*;
use vstd::string::StrSliceExecFns;
use vstd::string::StringExecFns;

verus! {

/// Relies on `String::push`, which appends the given character to the end of
/// the string.
pub assume_specification[ String::push ](s: &mut String, ch: char)
    ensures
        final(s)@ == old(s)@.push(ch),
;

/// Character-wise string equality; `==` on views is the spec-level meaning.
pub fn str_eq(a: &str, b: &str) -> (r: bool)
    ensures
        r == (a@ == b@),
{
    let alen = a.unicode_len();
    let blen = b.unicode_len();
    if alen != blen {
        return false;
    }
    let mut i: usize = 0;
    while i < alen
        invariant
            0 <= i <= alen,
            alen == a@.len(),
            alen == b@.len(),
            forall|j: int| 0 <= j < i ==> a@[j] == b@[j],
        decreases alen - i,
    {
        if a.get_char(i) != b.get_char(i) {
            return false;
        }
        i += 1;
    }
    proof {
        assert(a@ =~= b@);
    }
    true
}

/// The ASCII lowering of one character: letters `A` to `Z` move to their
/// lower-case forms, every other character stays as it is.
pub open spec fn lower_char(c: char) -> char {
    if 65 <= c as u32 && c as u32 <= 90 {
        ((c as u32) + 32) as char
    } else {
        c
    }
}

/// One lowered character, as [`lower_char`] describes it.
pub fn to_lower_char(c: char) -> (r: char)
    ensures
        r == lower_char(c),
{
    let cu = c as u32;
    if 65 <= cu && cu <= 90 {
        ((c as u8) + 32) as char
    } else {
        c
    }
}

/// The ASCII-lowered copy of a string, character by character.
pub fn ascii_lowercase(s: &str) -> (r: String)
    ensures
        r@ == s@.map_values(|c: char| lower_char(c)),
{
    let len = s.unicode_len();
    let mut r = String::new();
    let mut i: usize = 0;
    while i < len
        invariant
            0 <= i <= len,
            len == s@.len(),
            r@ == s@.subrange(0, i as int).map_values(|c: char| lower_char(c)),
        decreases len - i,
    {
        r.push(to_lower_char(s.get_char(i)));
        proof {
            assert(s@.subrange(0, i + 1 as int).map_values(|c: char| lower_char(c)) =~= s@
                .subrange(0, i as int)
                .map_values(|c: char| lower_char(c))
                .push(lower_char(s@[i as int])));
        }
        i += 1;
    }
    proof {
        assert(s@.subrange(0, len as int) =~= s@);
    }
    r
}

/// Whether `needle` occurs in `hay` as a contiguous run of characters.
pub open spec fn contains_seq(hay: Seq<char>, needle: Seq<char>) -> bool {
    exists|i: int|
        0 <= i <= hay.len() - needle.len() && #[trigger] hay.subrange(i, i + needle.len() as int)
            == needle
}

/// Substring search; occurrence as [`contains_seq`] states it is the
/// spec-level meaning.
pub fn str_contains(hay: &str, needle: &str) -> (r: bool)
    ensures
        r == contains_seq(hay@, needle@),
{
    let hn = hay.unicode_len();
    let nn = needle.unicode_len();
    if nn > hn {
        return false;
    }
    let mut i: usize = 0;
    while i <= hn - nn
        invariant
            0 <= i <= hn - nn + 1,
            nn <= hn,
            hn == hay@.len(),
            nn == needle@.len(),
            forall|k: int| 0 <= k < i ==> #[trigger] hay@.subrange(k, k + nn as int) != needle@,
        decreases hn - nn + 1 - i,
    {
        let mut j: usize = 0;
        let mut ok = true;
        while j < nn
            invariant
                0 <= j <= nn,
                i + nn <= hn,
                hn == hay@.len(),
                nn == needle@.len(),
                ok ==> forall|m: int| 0 <= m < j ==> hay@[i + m] == needle@[m],
                !ok ==> exists|m: int| 0 <= m < j && hay@[i + m] != needle@[m],
            decreases nn - j,
        {
            if hay.get_char(i + j) != needle.get_char(j) {
                ok = false;
            }
            j += 1;
        }
        if ok {
            proof {
                assert(hay@.subrange(i as int, i + nn as int) =~= needle@);
            }
            return true;
        }
        proof {
            let m = choose|m: int| 0 <= m < nn && hay@[i + m] != needle@[m];
            assert(hay@.subrange(i as int, i + nn as int)[m] != needle@[m]);
        }
        i += 1;
    }
    proof {
        assert forall|k: int|
            0 <= k <= hay@.len() - needle@.len() implies #[trigger] hay@.subrange(k, k + nn as int)
            != needle@ by {}
    }
    false
}

/// Whether `s` begins with `prefix`, character for character.
pub fn starts_with(s: &str, prefix: &str) -> (r: bool)
    ensures
        r == (s@.len() >= prefix@.len() && s@.subrange(0, prefix@.len() as int) == prefix@),
{
    let sn = s.unicode_len();
    let pn = prefix.unicode_len();
    if pn > sn {
        return false;
    }
    let mut i: usize = 0;
    while i < pn
        invariant
            0 <= i <= pn,
            pn <= sn,
            sn == s@.len(),
            pn == prefix@.len(),
            forall|k: int| 0 <= k < i ==> s@[k] == prefix@[k],
        decreases pn - i,
    {
        if s.get_char(i) != prefix.get_char(i) {
            proof {
                assert(s@.subrange(0, pn as int)[i as int] != prefix@[i as int]);
            }
            return false;
        }
        i += 1;
    }
    proof {
        assert(s@.subrange(0, pn as int) =~= prefix@);
    }
    true
}

/// The path text with a parent directory and the path separator after it
/// removed, when the text properly lies under that directory; the full text,
/// untouched, otherwise.
pub fn strip_prefix_dir(full: &str, prefix: &str) -> (r: String)
    ensures
        (full@.len() > prefix@.len() && full@.subrange(0, prefix@.len() as int) == prefix@)
            ==> r@ == full@.skip(prefix@.len() as int + 1),
        !(full@.len() > prefix@.len() && full@.subrange(0, prefix@.len() as int) == prefix@)
            ==> r@ == full@,
{
    let fln = full.unicode_len();
    let pn = prefix.unicode_len();
    if starts_with(full, prefix) && fln > pn {
        let rest = full.substring_char(pn + 1, fln);
        proof {
            assert(rest@ =~= full@.skip(pn as int + 1));
        }
        rest.to_owned()
    } else {
        full.to_owned()
    }
}

/// The first `limit` characters of a name, or the whole name when it is
/// already short enough.
pub fn truncate_chars(s: &str, limit: usize) -> (r: String)
    ensures
        r@ == s@.subrange(
            0,
            if s@.len() < limit {
                s@.len() as int
            } else {
                limit as int
            },
        ),
{
    let n = s.unicode_len();
    let end = if n < limit {
        n
    } else {
        limit
    };
    s.substring_char(0, end).to_owned()
}

/// Whether a character may appear in a package name taken from a file name:
/// ASCII letters, digits, and the dash.
pub open spec fn is_name_char(c: char) -> bool {
    ('A' <= c && c <= 'Z') || ('a' <= c && c <= 'z') || ('0' <= c && c <= '9') || c == '-'
}

fn is_name_char_exec(c: char) -> (r: bool)
    ensures
        r == is_name_char(c),
{
    ('A' <= c && c <= 'Z') || ('a' <= c && c <= 'z') || ('0' <= c && c <= '9') || c == '-'
}

/// The longest leading run of package-name characters in a file name: the
/// name a Debian package takes from its file.
pub fn leading_name_prefix(s: &str) -> (r: String)
    ensures
        r@.len() <= s@.len(),
        r@ == s@.subrange(0, r@.len() as int),
        forall|j: int| 0 <= j < r@.len() ==> is_name_char(#[trigger] s@[j]),
        r@.len() < s@.len() ==> !is_name_char(s@[r@.len() as int]),
{
    let n = s.unicode_len();
    let mut i: usize = 0;
    while i < n && is_name_char_exec(s.get_char(i))
        invariant
            0 <= i <= n,
            n == s@.len(),
            forall|j: int| 0 <= j < i ==> is_name_char(#[trigger] s@[j]),
        decreases n - i,
    {
        i += 1;
    }
    let r = s.substring_char(0, i);
    r.to_owned()
}

/// One character of a package name with spaces replaced: a space becomes a
/// dash, everything else stays.
pub open spec fn dash_for_space(c: char) -> char {
    if c == ' ' {
        '-'
    } else {
        c
    }
}

/// The copy of a string with every space replaced by a dash.
pub fn replace_spaces(s: &str) -> (r: String)
    ensures
        r@ == s@.map_values(|c: char| dash_for_space(c)),
{
    let len = s.unicode_len();
    let mut r = String::new();
    let mut i: usize = 0;
    while i < len
        invariant
            0 <= i <= len,
            len == s@.len(),
            r@ == s@.subrange(0, i as int).map_values(|c: char| dash_for_space(c)),
        decreases len - i,
    {
        let c = s.get_char(i);
        if c == ' ' {
            r.push('-');
        } else {
            r.push(c);
        }
        proof {
            assert(s@.subrange(0, i + 1 as int).map_values(|c: char| dash_for_space(c)) =~= s@
                .subrange(0, i as int)
                .map_values(|c: char| dash_for_space(c))
                .push(dash_for_space(s@[i as int])));
        }
        i += 1;
    }
    proof {
        assert(s@.subrange(0, len as int) =~= s@);
    }
    r
}

} // verus!
