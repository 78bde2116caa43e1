//! Names of the directories and files that a download creates, and the
//! site paths of pages.

use vstd::prelude::*;
use crate::content::Episode;
use crate::text::{decimal, decimal2, push_decimal, push_decimal2, same_text};

verus! {

/// Characters that cannot stand in one path segment on common file systems.
pub open spec fn reserved_char(c: char) -> bool {
    c == '/' || c == '\\' || c == ':' || c == '*' || c == '?' || c == '"' || c == '<'
        || c == '>' || c == '|' || (c as u32) < 32
}

pub open spec fn safe_char(c: char) -> char {
    if reserved_char(c) {
        '_'
    } else {
        c
    }
}

/// A name made safe as one path segment: each reserved character becomes
/// `_`, and a name that would be empty, `.` or `..` becomes `_`.
pub open spec fn segment_of(s: Seq<char>) -> Seq<char> {
    let m = s.map_values(|c: char| safe_char(c));
    if m.len() == 0 || m == seq!['.'] || m == seq!['.', '.'] {
        seq!['_']
    } else {
        m
    }
}

/// Name of the directory of a season.
pub open spec fn season_dir_spec(number: u32) -> Seq<char> {
    "Season "@ + decimal(number as nat)
}

/// Name of the file of an episode: `S01.E02_<name>.mp4`.
pub open spec fn episode_file_spec(season: u32, number: u32, name: Seq<char>) -> Seq<char> {
    "S"@ + decimal2(season as nat) + ".E"@ + decimal2(number as nat) + "_"@ + segment_of(name) + ".mp4"@
}

fn is_reserved(c: char) -> (r: bool)
    ensures
        r == reserved_char(c),
{
    c == '/' || c == '\\' || c == ':' || c == '*' || c == '?' || c == '"' || c == '<' || c == '>'
        || c == '|' || (c as u32) < 32
}

/// Makes a name safe as one path segment.
pub fn path_segment(name: &str) -> (r: String)
    ensures
        r@ == segment_of(name@),
{
    let ghost m = name@.map_values(|c: char| safe_char(c));
    let n = name.unicode_len();
    let mut r = String::new();
    let mut i: usize = 0;
    proof { reveal_strlit("_"); }
    while i < n
        invariant
            n == name@.len(),
            0 <= i <= n,
            m == name@.map_values(|c: char| safe_char(c)),
            r@ == m.take(i as int),
            "_"@ == seq!['_'],
        decreases n - i,
    {
        if is_reserved(name.get_char(i)) {
            r.append("_");
        } else {
            r.append(name.substring_char(i, i + 1));
        }
        assert(r@ =~= m.take(i + 1));
        i = i + 1;
    }
    assert(m.take(n as int) =~= m);
    proof {
        reveal_strlit(".");
        reveal_strlit("..");
        assert("."@ =~= seq!['.']);
        assert(".."@ =~= seq!['.', '.']);
    }
    if r.unicode_len() == 0 || same_text(r.as_str(), ".") || same_text(r.as_str(), "..") {
        let mut u = String::new();
        u.append("_");
        u
    } else {
        r
    }
}

/// The directory name of season `number`: `Season <number>`, not padded.
pub fn season_dir_name(number: u32) -> (r: String)
    ensures
        r@ == season_dir_spec(number),
{
    let mut r = String::new();
    r.append("Season ");
    push_decimal(&mut r, number);
    r
}

/// The file name of an episode: season and number padded to two digits,
/// then the episode's name made safe.
pub fn episode_file_name(e: &Episode) -> (r: String)
    ensures
        r@ == episode_file_spec(e.season, e.number, e.name@),
{
    let mut r = String::new();
    r.append("S");
    push_decimal2(&mut r, e.season);
    r.append(".E");
    push_decimal2(&mut r, e.number);
    r.append("_");
    let seg = path_segment(e.name.as_str());
    r.append(seg.as_str());
    r.append(".mp4");
    assert(r@ =~= episode_file_spec(e.season, e.number, e.name@));
    r
}

/// Site path of a movie's page.
pub fn movie_page_path(id: u32) -> (r: String)
    ensures
        r@ == "/watch/movie/"@ + decimal(id as nat),
{
    let mut r = String::new();
    r.append("/watch/movie/");
    push_decimal(&mut r, id);
    r
}

/// Site path of a show's page.
pub fn show_page_path(id: u32) -> (r: String)
    ensures
        r@ == "/watch/tv/"@ + decimal(id as nat),
{
    let mut r = String::new();
    r.append("/watch/tv/");
    push_decimal(&mut r, id);
    r
}

/// The cookie that carries the login token.
pub fn login_cookie(token: &str) -> (r: String)
    ensures
        r@ == "vipLogin="@ + token@,
{
    let mut r = String::new();
    r.append("vipLogin=");
    r.append(token);
    r
}

} // verus!
