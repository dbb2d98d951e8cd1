//! Season/episode codes of the form `S01E02`, found anywhere in a path.

use vstd::prelude::*;

use crate::text::{chars_of, digit_value, is_ascii_digit, is_digit};

verus! {

/// A season and an episode, each between 1 and 99.
#[derive(Clone, Copy, Debug, PartialEq, Eq, Structural, PartialOrd, Ord, Hash)]
pub struct SeriesInfo {
    pub season: u8,
    pub episode: u8,
}

impl SeriesInfo {
    pub open spec fn wf(self) -> bool {
        1 <= self.season <= 99 && 1 <= self.episode <= 99
    }
}

/// Whether two optional episodes are equal.
pub fn same_series(a: Option<SeriesInfo>, b: Option<SeriesInfo>) -> (r: bool)
    ensures
        r == (a == b),
{
    match (a, b) {
        (Some(x), Some(y)) => x == y,
        (None, None) => true,
        _ => false,
    }
}

/// `s[i..i + 6]` reads `S`, two digits, `E`, two digits (letters in either case).
pub open spec fn is_code_at(s: Seq<char>, i: int) -> bool {
    &&& 0 <= i
    &&& i + 6 <= s.len()
    &&& (s[i] == 'S' || s[i] == 's')
    &&& is_digit(s[i + 1])
    &&& is_digit(s[i + 2])
    &&& (s[i + 3] == 'E' || s[i + 3] == 'e')
    &&& is_digit(s[i + 4])
    &&& is_digit(s[i + 5])
}

/// The first position at or after `i` where a code starts.
pub open spec fn first_code_from(s: Seq<char>, i: int) -> Option<int>
    decreases s.len() - i,
{
    if i < 0 || i + 6 > s.len() {
        None
    } else if is_code_at(s, i) {
        Some(i)
    } else {
        first_code_from(s, i + 1)
    }
}

/// The position of the first code in `s`.
pub open spec fn first_code(s: Seq<char>) -> Option<int> {
    first_code_from(s, 0)
}

/// The number written by the two digits at `s[i]` and `s[i + 1]`.
pub open spec fn pair_value(s: Seq<char>, i: int) -> int {
    10 * digit_value(s[i]) + digit_value(s[i + 1])
}

/// The first code of `s` is there but names season or episode zero.
pub open spec fn malformed_code(s: Seq<char>) -> bool {
    match first_code(s) {
        Some(i) => pair_value(s, i + 1) == 0 || pair_value(s, i + 4) == 0,
        None => false,
    }
}

/// The episode named by the first code of `s`, when that code names no zero.
pub open spec fn episode_of(s: Seq<char>) -> Option<SeriesInfo> {
    match first_code(s) {
        Some(i) => {
            let season = pair_value(s, i + 1);
            let episode = pair_value(s, i + 4);
            if season == 0 || episode == 0 {
                None
            } else {
                Some(SeriesInfo { season: season as u8, episode: episode as u8 })
            }
        },
        None => None,
    }
}

/// A code with season and episode both in 1..=99 starts at `i`.
pub open spec fn valid_code_at(s: Seq<char>, i: int) -> bool {
    is_code_at(s, i) && pair_value(s, i + 1) >= 1 && pair_value(s, i + 4) >= 1
}

proof fn lemma_first_code_from_found(s: Seq<char>, k: int)
    ensures
        first_code_from(s, k) matches Some(i) ==> k <= i && is_code_at(s, i),
    decreases s.len() - k,
{
    if !(k < 0 || k + 6 > s.len()) && !is_code_at(s, k) {
        lemma_first_code_from_found(s, k + 1);
    }
}

/// Whatever the first code is, it is a code.
pub proof fn lemma_first_code_is_code(s: Seq<char>)
    ensures
        first_code(s) matches Some(i) ==> is_code_at(s, i),
{
    lemma_first_code_from_found(s, 0);
}

/// A text in which no code with both numbers in 1..=99 occurs names no episode.
pub proof fn lemma_no_valid_code_no_episode(s: Seq<char>)
    requires
        forall|i: int| !valid_code_at(s, i),
    ensures
        episode_of(s) is None,
{
    lemma_first_code_is_code(s);
    if let Some(i) = first_code(s) {
        assert(!valid_code_at(s, i));
    }
}

/// Every episode named by a text is well formed.
pub proof fn lemma_episode_of_wf(s: Seq<char>)
    ensures
        episode_of(s) matches Some(e) ==> e.wf(),
{
    lemma_first_code_is_code(s);
}

pub(crate) fn code_at(cs: &Vec<char>, i: usize) -> (r: bool)
    ensures
        r == is_code_at(cs@, i as int),
{
    let n = cs.len();
    i <= n && n - i >= 6 && (cs[i] == 'S' || cs[i] == 's') && is_ascii_digit(cs[i + 1]) && is_ascii_digit(cs[i + 2])
        && (cs[i + 3] == 'E' || cs[i + 3] == 'e') && is_ascii_digit(cs[i + 4])
        && is_ascii_digit(cs[i + 5])
}

fn find_code(cs: &Vec<char>) -> (r: Option<usize>)
    ensures
        r matches Some(i) ==> first_code(cs@) == Some(i as int),
        r is None ==> first_code(cs@) is None,
{
    let n = cs.len();
    let mut i: usize = 0;
    while 6 <= n - i
        invariant
            n == cs@.len(),
            i <= n,
            first_code(cs@) == first_code_from(cs@, i as int),
        decreases n - i,
    {
        if code_at(cs, i) {
            return Some(i);
        }
        i = i + 1;
    }
    None
}

fn pair_at(cs: &Vec<char>, i: usize) -> (r: u8)
    requires
        i + 1 < cs@.len(),
        is_digit(cs@[i as int]),
        is_digit(cs@[i + 1]),
    ensures
        r as int == pair_value(cs@, i as int),
        r <= 99,
{
    // Reading the length bounds it by usize::MAX, so `i + 1` cannot overflow.
    let _ = cs.len();
    let hi = (cs[i] as u32 - '0' as u32) as u8;
    let lo = (cs[i + 1] as u32 - '0' as u32) as u8;
    10 * hi + lo
}

/// What the first code of `cs` reads: `None` without a code, else its two numbers.
fn first_code_values(cs: &Vec<char>) -> (r: Option<(u8, u8)>)
    ensures
        r is None <==> first_code(cs@) is None,
        r matches Some(p) ==> first_code(cs@) matches Some(i) && p.0 as int == pair_value(
            cs@,
            i + 1,
        ) && p.1 as int == pair_value(cs@, i + 4),
{
    proof {
        lemma_first_code_is_code(cs@);
    }
    // Reading the length bounds it by usize::MAX, so `i + 1` and `i + 4` cannot overflow.
    let _ = cs.len();
    match find_code(cs) {
        Some(i) => Some((pair_at(cs, i + 1), pair_at(cs, i + 4))),
        None => None,
    }
}

/// The episode named by the first `S##E##` code in `text`, if that code
/// names neither season zero nor episode zero.
pub fn extract_episode_identifier(text: &str) -> (r: Option<SeriesInfo>)
    ensures
        r == episode_of(text@),
        r matches Some(e) ==> e.wf(),
{
    proof {
        lemma_episode_of_wf(text@);
    }
    let cs = chars_of(text);
    match first_code_values(&cs) {
        Some((season, episode)) => {
            if season == 0 || episode == 0 {
                None
            } else {
                Some(SeriesInfo { season, episode })
            }
        },
        None => None,
    }
}

/// The episode code that `text` holds as a whole: `Ok` iff `text` is six
/// characters `S##E##` with neither number zero.
pub fn parse_code(text: &str) -> (r: Option<SeriesInfo>)
    ensures
        r is Some <==> text@.len() == 6 && valid_code_at(text@, 0),
        r matches Some(e) ==> e.wf() && e.season as int == pair_value(text@, 1)
            && e.episode as int == pair_value(text@, 4),
{
    let cs = chars_of(text);
    if cs.len() != 6 || !code_at(&cs, 0) {
        return None;
    }
    let season = pair_at(&cs, 1);
    let episode = pair_at(&cs, 4);
    if season == 0 || episode == 0 {
        None
    } else {
        Some(SeriesInfo { season, episode })
    }
}

/// The episode of a path, or `Err(())` where its first code names a zero.
pub fn series_info_of_path(path: &str) -> (r: Result<Option<SeriesInfo>, ()>)
    ensures
        r is Err <==> malformed_code(path@),
        r matches Ok(e) ==> e == episode_of(path@),
{
    let cs = chars_of(path);
    match first_code_values(&cs) {
        Some((season, episode)) => {
            if season == 0 || episode == 0 {
                Err(())
            } else {
                Ok(Some(SeriesInfo { season, episode }))
            }
        },
        None => Ok(None),
    }
}

} // verus!
