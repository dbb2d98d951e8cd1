//! Parts of file stems: the numeric ordering prefix of a subtitle and the
//! quality suffix of a video.

use vstd::prelude::*;

use crate::series::{code_at, is_code_at};
use crate::text::{chars_of, is_ascii_digit, is_digit};

verus! {

/// How many digits follow one another from position `i` of `s` on.
pub open spec fn digit_run_from(s: Seq<char>, i: int) -> int
    decreases s.len() - i,
{
    if 0 <= i < s.len() && is_digit(s[i]) {
        1 + digit_run_from(s, i + 1)
    } else {
        0
    }
}

/// `s` without a leading run of digits followed by `_` (`2_English` gives
/// `English`); `s` itself where it has no such prefix.
pub open spec fn without_number_prefix(s: Seq<char>) -> Seq<char> {
    let k = digit_run_from(s, 0);
    if 1 <= k < s.len() && s[k] == '_' {
        s.subrange(k + 1, s.len() as int)
    } else {
        s
    }
}

/// `s[i..i + 3]` reads ` - `.
pub open spec fn dash_at(s: Seq<char>, i: int) -> bool {
    s[i] == ' ' && s[i + 1] == '-' && s[i + 2] == ' '
}

/// The length of the quality suffix that ends `s`: ` - 720p`, ` - 1080p`,
/// ` - 4K` or ` - 4K HDR`, letters in either case; 0 where there is none.
pub open spec fn quality_suffix_len(s: Seq<char>) -> int {
    let n = s.len() as int;
    if n >= 9 && dash_at(s, n - 9) && s[n - 6] == '4' && (s[n - 5] == 'K' || s[n - 5] == 'k')
        && s[n - 4] == ' ' && (s[n - 3] == 'H' || s[n - 3] == 'h') && (s[n - 2] == 'D' || s[n
        - 2] == 'd') && (s[n - 1] == 'R' || s[n - 1] == 'r') {
        9
    } else if n >= 8 && dash_at(s, n - 8) && s[n - 5] == '1' && s[n - 4] == '0' && s[n - 3]
        == '8' && s[n - 2] == '0' && (s[n - 1] == 'P' || s[n - 1] == 'p') {
        8
    } else if n >= 7 && dash_at(s, n - 7) && s[n - 4] == '7' && s[n - 3] == '2' && s[n - 2]
        == '0' && (s[n - 1] == 'P' || s[n - 1] == 'p') {
        7
    } else if n >= 5 && dash_at(s, n - 5) && s[n - 2] == '4' && (s[n - 1] == 'K' || s[n - 1]
        == 'k') {
        5
    } else {
        0
    }
}

/// The length of the suffix that is cut from a stem to give its title: the
/// quality suffix, with the ` S##E##` just before it where there is one.
pub open spec fn title_suffix_len(s: Seq<char>) -> int {
    let q = quality_suffix_len(s);
    let n = s.len() as int;
    if q == 0 {
        0
    } else if n - q >= 7 && s[n - q - 7] == ' ' && is_code_at(s, n - q - 6) {
        q + 7
    } else {
        q
    }
}

/// The title of a file stem: the stem without its quality suffix (and the
/// episode code before it); the whole stem where it has no quality suffix.
pub open spec fn title_of(s: Seq<char>) -> Seq<char> {
    s.subrange(0, s.len() - title_suffix_len(s))
}

/// `p` is a prefix of `s`.
pub open spec fn is_prefix(p: Seq<char>, s: Seq<char>) -> bool {
    p.len() <= s.len() && s.subrange(0, p.len() as int) == p
}

fn ci(c: char, upper: char, lower: char) -> (r: bool)
    ensures
        r == (c == upper || c == lower),
{
    c == upper || c == lower
}

fn dash(cs: &Vec<char>, i: usize) -> (r: bool)
    ensures
        r == (i + 3 <= cs@.len() && dash_at(cs@, i as int)),
{
    let n = cs.len();
    i <= n && n - i >= 3 && cs[i] == ' ' && cs[i + 1] == '-' && cs[i + 2] == ' '
}

fn quality_len(cs: &Vec<char>) -> (r: usize)
    ensures
        r as int == quality_suffix_len(cs@),
{
    let n = cs.len();
    if n >= 9 && dash(cs, n - 9) && cs[n - 6] == '4' && ci(cs[n - 5], 'K', 'k') && cs[n - 4]
        == ' ' && ci(cs[n - 3], 'H', 'h') && ci(cs[n - 2], 'D', 'd') && ci(cs[n - 1], 'R', 'r') {
        9
    } else if n >= 8 && dash(cs, n - 8) && cs[n - 5] == '1' && cs[n - 4] == '0' && cs[n - 3]
        == '8' && cs[n - 2] == '0' && ci(cs[n - 1], 'P', 'p') {
        8
    } else if n >= 7 && dash(cs, n - 7) && cs[n - 4] == '7' && cs[n - 3] == '2' && cs[n - 2]
        == '0' && ci(cs[n - 1], 'P', 'p') {
        7
    } else if n >= 5 && dash(cs, n - 5) && cs[n - 2] == '4' && ci(cs[n - 1], 'K', 'k') {
        5
    } else {
        0
    }
}

/// The title of a file stem: `stem` without a trailing quality suffix
/// (` - 720p`, ` - 1080p`, ` - 4K`, ` - 4K HDR`, in any case) and the
/// ` S##E##` right before it; `stem` unchanged where no such suffix ends it.
pub fn strip_quality_suffix(stem: &str) -> (r: String)
    ensures
        r@ == title_of(stem@),
{
    let cs = chars_of(stem);
    let n = cs.len();
    let q = quality_len(&cs);
    let cut: usize = if q == 0 {
        0
    } else if n - q >= 7 && cs[n - q - 7] == ' ' && code_at(&cs, n - q - 6) {
        q + 7
    } else {
        q
    };
    stem.substring_char(0, n - cut).to_owned()
}

/// `stem` without a leading run of digits and the `_` after it.
pub fn strip_numeric_prefix(stem: &str) -> (r: String)
    ensures
        r@ == without_number_prefix(stem@),
{
    let cs = chars_of(stem);
    let n = cs.len();
    let mut k: usize = 0;
    while k < n && is_ascii_digit(cs[k])
        invariant
            n == cs@.len(),
            k <= n,
            digit_run_from(cs@, 0) == k + digit_run_from(cs@, k as int),
        decreases n - k,
    {
        k = k + 1;
    }
    if 1 <= k && k < n && cs[k] == '_' {
        stem.substring_char(k + 1, n).to_owned()
    } else {
        stem.to_owned()
    }
}

/// Whether `s` starts with `prefix`.
pub fn starts_with(s: &str, prefix: &str) -> (r: bool)
    ensures
        r == is_prefix(prefix@, s@),
{
    let cs = chars_of(s);
    let ps = chars_of(prefix);
    if ps.len() > cs.len() {
        return false;
    }
    let mut i: usize = 0;
    while i < ps.len()
        invariant
            cs@ == s@,
            ps@ == prefix@,
            ps@.len() <= cs@.len(),
            i <= ps@.len(),
            forall|j: int| 0 <= j < i ==> cs@[j] == ps@[j],
        decreases ps@.len() - i,
    {
        if cs[i] != ps[i] {
            assert(cs@.subrange(0, ps@.len() as int)[i as int] != ps@[i as int]);
            assert(cs@.subrange(0, ps@.len() as int) != ps@);
            return false;
        }
        i = i + 1;
    }
    assert(cs@.subrange(0, ps@.len() as int) =~= ps@);
    true
}

} // verus!
