//! Character-level helpers for the small amount of text handling the bot
//! needs: exact string comparison, locating the last occurrence of a
//! separator, and ASCII-case-insensitive matching of file-name suffixes.

use vstd::prelude::*;
use vstd::string::*;

verus! {

/// True when the two strings hold the same characters.
pub fn str_eq(a: &str, b: &str) -> (r: bool)
    ensures
        r == (a@ == b@),
{
    let alen = a.unicode_len();
    let blen = b.unicode_len();
    if alen != blen {
        return false;
    }
    let mut i: usize = 0;
    while i < alen
        invariant
            alen == a@.len(),
            alen == b@.len(),
            i <= alen,
            forall|j: int| 0 <= j < i ==> a@[j] == b@[j],
        decreases alen - i,
    {
        if a.get_char(i) != b.get_char(i) {
            return false;
        }
        i = i + 1;
    }
    proof {
        assert(a@ =~= b@);
    }
    true
}

/// Index of the last occurrence of `c` in `s`, or `-1` when `s` has none.
pub open spec fn last_index_of(s: Seq<char>, c: char) -> int
    decreases s.len(),
{
    if s.len() == 0 {
        -1
    } else if s[s.len() - 1] == c {
        s.len() - 1
    } else {
        last_index_of(s.drop_last(), c)
    }
}

/// `last_index_of` points at an occurrence of `c`, and nothing after it is
/// one; when it is `-1`, `s` holds no `c` at all.
pub proof fn lemma_last_index_of(s: Seq<char>, c: char)
    ensures
        -1 <= last_index_of(s, c) < s.len(),
        last_index_of(s, c) >= 0 ==> s[last_index_of(s, c)] == c,
        forall|j: int| last_index_of(s, c) < j < s.len() ==> s[j] != c,
    decreases s.len(),
{
    if s.len() > 0 && s[s.len() - 1] != c {
        lemma_last_index_of(s.drop_last(), c);
        assert(forall|j: int| 0 <= j < s.len() - 1 ==> s[j] == s.drop_last()[j]);
    }
}

/// Position of the last occurrence of `c` in `s`, if any.
pub fn find_last(s: &str, c: char) -> (r: Option<usize>)
    ensures
        match r {
            Some(i) => i < s@.len() && i == last_index_of(s@, c),
            None => last_index_of(s@, c) == -1,
        },
{
    let n = s.unicode_len();
    let mut i: usize = n;
    while i > 0
        invariant
            n == s@.len(),
            i <= n,
            forall|j: int| i <= j < n ==> s@[j] != c,
        decreases i,
    {
        i = i - 1;
        if s.get_char(i) == c {
            proof {
                lemma_last_index_of(s@, c);
            }
            return Some(i);
        }
    }
    proof {
        lemma_last_index_of(s@, c);
    }
    None
}

/// The final path segment of `url`: the text after the last `/`, or nothing
/// when the url holds no `/` at all.
pub open spec fn spec_file_name(url: Seq<char>) -> Option<Seq<char>> {
    let i = last_index_of(url, '/');
    if i >= 0 {
        Some(url.subrange(i + 1, url.len() as int))
    } else {
        None
    }
}

/// Derives the file name carried by `url` as its final path segment.
pub fn file_name_of(url: &str) -> (r: Option<String>)
    ensures
        match r {
            Some(name) => spec_file_name(url@) == Some(name@),
            None => spec_file_name(url@) is None,
        },
{
    let n = url.unicode_len();
    match find_last(url, '/') {
        Some(i) => {
            let seg = url.substring_char(i + 1, n);
            Some(String::from_str(seg))
        },
        None => None,
    }
}

/// The file-name suffix after the last `.`. A name whose only `.` is its
/// first character is a hidden file and has no suffix.
pub open spec fn spec_extension(name: Seq<char>) -> Option<Seq<char>> {
    let i = last_index_of(name, '.');
    if i >= 1 {
        Some(name.subrange(i + 1, name.len() as int))
    } else {
        None
    }
}

/// Extracts the file-name suffix after the last `.`, if there is one.
pub fn extension_of(name: &str) -> (r: Option<String>)
    ensures
        match r {
            Some(ext) => spec_extension(name@) == Some(ext@),
            None => spec_extension(name@) is None,
        },
{
    let n = name.unicode_len();
    match find_last(name, '.') {
        Some(i) => {
            if i == 0 {
                None
            } else {
                Some(String::from_str(name.substring_char(i + 1, n)))
            }
        },
        None => None,
    }
}

/// `b` is `a` with an ASCII capital letter folded to its small counterpart.
pub open spec fn lower_eq(a: char, b: char) -> bool {
    if 'A' as u32 <= a as u32 && a as u32 <= 'Z' as u32 {
        b as u32 == a as u32 + 32
    } else {
        b == a
    }
}

/// `s` equals `lit` once ASCII capitals in `s` are folded to small letters.
pub open spec fn lower_matches(s: Seq<char>, lit: Seq<char>) -> bool {
    s.len() == lit.len() && forall|i: int| 0 <= i < s.len() ==> lower_eq(s[i], #[trigger] lit[i])
}

fn char_lower_eq(a: char, b: char) -> (r: bool)
    ensures
        r == lower_eq(a, b),
{
    let au = a as u32;
    let bu = b as u32;
    if 'A' as u32 <= au && au <= 'Z' as u32 {
        bu == au + 32
    } else {
        a == b
    }
}

/// Compares `s` with `lit`, folding ASCII capitals of `s` to small letters.
pub fn matches_lower(s: &str, lit: &str) -> (r: bool)
    ensures
        r == lower_matches(s@, lit@),
{
    let n = s.unicode_len();
    if n != lit.unicode_len() {
        return false;
    }
    let mut i: usize = 0;
    while i < n
        invariant
            n == s@.len(),
            n == lit@.len(),
            i <= n,
            forall|j: int| 0 <= j < i ==> lower_eq(s@[j], #[trigger] lit@[j]),
        decreases n - i,
    {
        if !char_lower_eq(s.get_char(i), lit.get_char(i)) {
            return false;
        }
        i = i + 1;
    }
    true
}

/// Prefixes `name` with the marker that identifies a rotated repost.
pub fn output_name(name: &str) -> (r: String)
    ensures
        r@ == "ROTATED_"@ + name@,
{
    let mut s = String::from_str("ROTATED_");
    s.append(name);
    s
}

/// The caption of a rotated repost, naming the original author.
pub fn caption_for(author_mention: &str) -> (r: String)
    ensures
        r@ == "Rotated image from "@ + author_mention@,
{
    let mut s = String::from_str("Rotated image from ");
    s.append(author_mention);
    s
}

} // verus!
