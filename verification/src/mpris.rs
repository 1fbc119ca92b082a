//! Finding the MPRIS media players in the output of
//! `dbus-send ... org.freedesktop.DBus.ListNames`, and deciding what to pause
//! or resume.
use vstd::prelude::*;

use vstd::string::{StrSliceExecFns, StringExecFns};

use crate::platform::AppError;
use crate::text::{chars_of, contains, occurs_at, occurs_at_exec};

verus! {

/// A line without the carriage return of a `\r\n` ending.
pub open spec fn strip_cr(line: Seq<char>) -> Seq<char> {
    if line.len() > 0 && line.last() == '\r' {
        line.drop_last()
    } else {
        line
    }
}

/// The finished lines of `s` and the line still open at its end, reading `s`
/// as `str::lines` does: lines end at `\n`, and a `\r` before it is dropped.
pub open spec fn lines_acc(s: Seq<char>) -> (Seq<Seq<char>>, Seq<char>)
    decreases s.len(),
{
    if s.len() == 0 {
        (Seq::<Seq<char>>::empty(), Seq::<char>::empty())
    } else {
        let (done, cur) = lines_acc(s.drop_last());
        if s.last() == '\n' {
            (done.push(strip_cr(cur)), Seq::<char>::empty())
        } else {
            (done, cur.push(s.last()))
        }
    }
}

/// The lines of `s`, as `str::lines` yields them.
pub open spec fn split_lines(s: Seq<char>) -> Seq<Seq<char>> {
    let (done, cur) = lines_acc(s);
    if cur.len() == 0 {
        done
    } else {
        done.push(cur)
    }
}

/// Index of the first `c` in `s`, if any.
#[verifier::opaque]
pub open spec fn first_index(s: Seq<char>, c: char) -> Option<int> {
    if exists|k: int| 0 <= k < s.len() && s[k] == c {
        Some(choose|k: int| 0 <= k < s.len() && s[k] == c && forall|j: int| 0 <= j < k ==> s[j] != c)
    } else {
        None
    }
}

/// The second `"`-separated field of a line (`split('"').nth(1)`).
#[verifier::opaque]
pub open spec fn quoted_field(line: Seq<char>) -> Option<Seq<char>> {
    match first_index(line, '"') {
        None => None,
        Some(q1) => {
            let rest = line.subrange(q1 + 1, line.len() as int);
            match first_index(rest, '"') {
                None => Some(rest),
                Some(q2) => Some(rest.subrange(0, q2)),
            }
        },
    }
}

/// The player a line of the listing names: the quoted name on a line that
/// mentions `org.mpris.MediaPlayer2`, unless it is the bus itself.
#[verifier::opaque]
pub open spec fn line_player(line: Seq<char>) -> Option<Seq<char>> {
    if !contains(line, "org.mpris.MediaPlayer2"@) {
        None
    } else {
        match quoted_field(line) {
            None => None,
            Some(f) => if contains(f, "org.freedesktop.DBus"@) {
                None
            } else {
                Some(f)
            },
        }
    }
}

/// The players named by a list of lines, in order.
pub open spec fn players_of_lines(ls: Seq<Seq<char>>) -> Seq<Seq<char>>
    decreases ls.len(),
{
    if ls.len() == 0 {
        Seq::<Seq<char>>::empty()
    } else {
        let rest = players_of_lines(ls.drop_last());
        match line_player(ls.last()) {
            Some(p) => rest.push(p),
            None => rest,
        }
    }
}

/// The players named in a bus-name listing.
pub open spec fn spec_mpris_players(listing: Seq<char>) -> Seq<Seq<char>> {
    players_of_lines(split_lines(listing))
}

/// The views of a list of strings.
pub open spec fn string_views(v: Seq<String>) -> Seq<Seq<char>> {
    v.map_values(|x: String| x@)
}

/// Whether `pat` occurs in `chars[lo..hi]`.
fn contains_in(chars: &Vec<char>, lo: usize, hi: usize, pat: &Vec<char>) -> (r: bool)
    requires
        lo <= hi <= chars@.len(),
    ensures
        r == contains(chars@.subrange(lo as int, hi as int), pat@),
{
    let ghost line = chars@.subrange(lo as int, hi as int);
    let m = pat.len();
    if m == 0 {
        assert(line.subrange(0, 0) =~= pat@);
        assert(occurs_at(line, pat@, 0));
        return true;
    }
    if m > hi - lo {
        proof {
            assert forall|i: int| !#[trigger] occurs_at(line, pat@, i) by {}
        }
        return false;
    }
    let mut i: usize = lo;
    let end: usize = hi - m + 1;
    while i < end
        invariant
            lo <= i <= end,
            end == hi - m + 1,
            1 <= m,
            m == pat@.len(),
            m <= hi - lo,
            hi <= chars@.len(),
            line == chars@.subrange(lo as int, hi as int),
            forall|j: int| 0 <= j < i - lo ==> !#[trigger] occurs_at(line, pat@, j),
        decreases end - i,
    {
        let hit = occurs_at_exec(chars, pat, i);
        proof {
            let j = i - lo;
            assert(line.subrange(j, j + m) =~= chars@.subrange(i as int, i + m));
        }
        if hit {
            assert(occurs_at(line, pat@, i - lo));
            return true;
        }
        i = i + 1;
    }
    proof {
        assert forall|j: int| !#[trigger] occurs_at(line, pat@, j) by {
            if 0 <= j < i - lo {
            }
        }
    }
    false
}

/// Index of the first `c` in `chars[lo..hi]`, counted from `lo`.
fn first_index_in(chars: &Vec<char>, lo: usize, hi: usize, c: char) -> (r: Option<usize>)
    requires
        lo <= hi <= chars@.len(),
    ensures
        match r {
            Some(k) => k < hi - lo && first_index(chars@.subrange(lo as int, hi as int), c) == Some(
                k as int,
            ),
            None => first_index(chars@.subrange(lo as int, hi as int), c) is None,
        },
{
    reveal(first_index);
    let ghost line = chars@.subrange(lo as int, hi as int);
    let mut i: usize = lo;
    while i < hi
        invariant
            lo <= i <= hi,
            hi <= chars@.len(),
            line == chars@.subrange(lo as int, hi as int),
            forall|j: int| 0 <= j < i - lo ==> line[j] != c,
        decreases hi - i,
    {
        if chars[i] == c {
            proof {
                reveal(first_index);
                let k = (i - lo) as int;
                assert(line[k] == c);
                assert(exists|k: int| 0 <= k < line.len() && line[k] == c);
                let w = choose|k: int| 0 <= k < line.len() && line[k] == c && forall|j: int| 0 <= j < k ==> line[j] != c;
                assert(0 <= w < line.len() && line[w] == c && forall|j: int| 0 <= j < w ==> line[j] != c) by {
                    assert(forall|j: int| 0 <= j < k ==> line[j] != c);
                }
                assert(w == k) by {
                    if w < k {
                        assert(line[w] != c);
                    } else if w > k {
                        assert(line[k] != c);
                    }
                }
                assert(first_index(line, c) == Some(k));
                assert(line == chars@.subrange(lo as int, hi as int));
            }
            return Some(i - lo);
        }
        i = i + 1;
    }
    None
}

/// The second `"`-separated field of the line `chars[lo..hi]`, as character
/// bounds into `chars`.
fn quoted_bounds(chars: &Vec<char>, lo: usize, hi: usize) -> (r: Option<(usize, usize)>)
    requires
        lo <= hi <= chars@.len(),
    ensures
        match r {
            Some((a, b)) => lo <= a <= b <= hi && quoted_field(chars@.subrange(lo as int, hi as int))
                == Some(chars@.subrange(a as int, b as int)),
            None => quoted_field(chars@.subrange(lo as int, hi as int)) is None,
        },
{
    reveal(quoted_field);
    let ghost line = chars@.subrange(lo as int, hi as int);
    let q1 = match first_index_in(chars, lo, hi, '"') {
        Some(q) => q,
        None => return None,
    };
    let a = lo + q1 + 1;
    let ghost rest = line.subrange(q1 + 1, line.len() as int);
    assert(rest =~= chars@.subrange(a as int, hi as int));
    match first_index_in(chars, a, hi, '"') {
        Some(q2) => {
            assert(rest.subrange(0, q2 as int) =~= chars@.subrange(a as int, a + q2));
            Some((a, a + q2))
        },
        None => Some((a, hi)),
    }
}

/// The player named on the line `chars[lo..hi]`, as character bounds into `chars`.
fn player_bounds(chars: &Vec<char>, lo: usize, hi: usize) -> (r: Option<(usize, usize)>)
    requires
        lo <= hi <= chars@.len(),
    ensures
        match r {
            Some((a, b)) => lo <= a <= b <= hi && line_player(chars@.subrange(lo as int, hi as int))
                == Some(chars@.subrange(a as int, b as int)),
            None => line_player(chars@.subrange(lo as int, hi as int)) is None,
        },
{
    reveal(line_player);
    let marker = chars_of("org.mpris.MediaPlayer2");
    let bus = chars_of("org.freedesktop.DBus");
    if !contains_in(chars, lo, hi, &marker) {
        return None;
    }
    let (a, b) = match quoted_bounds(chars, lo, hi) {
        Some(ab) => ab,
        None => return None,
    };
    if contains_in(chars, a, b, &bus) {
        return None;
    }
    Some((a, b))
}

/// The media players named in the output of a D-Bus `ListNames` call.
pub fn mpris_players(listing: &str) -> (r: Vec<String>)
    ensures
        string_views(r@) == spec_mpris_players(listing@),
{
    let chars = chars_of(listing);
    let n = chars.len();
    let mut out: Vec<String> = Vec::new();
    let mut line_start: usize = 0;
    let mut i: usize = 0;
    proof {
        assert(chars@.take(0) =~= Seq::<char>::empty());
    }
    while i < n
        invariant
            n == chars@.len(),
            chars@ == listing@,
            line_start <= i <= n,
            lines_acc(chars@.take(i as int)).1 == chars@.subrange(line_start as int, i as int),
            string_views(out@) == players_of_lines(lines_acc(chars@.take(i as int)).0),
        decreases n - i,
    {
        let ghost before = chars@.take(i as int);
        assert(chars@.take(i + 1).drop_last() =~= before);
        if chars[i] == '\n' {
            let end = if i > line_start && chars[i - 1] == '\r' {
                i - 1
            } else {
                i
            };
            proof {
                let cur = chars@.subrange(line_start as int, i as int);
                assert(strip_cr(cur) =~= chars@.subrange(line_start as int, end as int));
                let done = lines_acc(before).0;
                assert(done.push(strip_cr(cur)).drop_last() =~= done);
            }
            let ghost old_out = out@;
            match player_bounds(&chars, line_start, end) {
                Some((a, b)) => {
                    let name = String::from_str(listing.substring_char(a, b));
                    out.push(name);
                    assert(string_views(out@) =~= string_views(old_out).push(name@));
                },
                None => {},
            }
            line_start = i + 1;
            i = i + 1;
            assert(chars@.subrange(line_start as int, i as int) =~= Seq::<char>::empty());
        } else {
            proof {
                assert(chars@.subrange(line_start as int, i + 1) =~= chars@.subrange(
                    line_start as int,
                    i as int,
                ).push(chars@[i as int]));
            }
            i = i + 1;
        }
    }
    assert(chars@.take(n as int) =~= chars@);
    if line_start < n {
        let ghost done = lines_acc(chars@).0;
        let ghost cur = lines_acc(chars@).1;
        assert(done.push(cur).drop_last() =~= done);
        let ghost old_out = out@;
        match player_bounds(&chars, line_start, n) {
            Some((a, b)) => {
                let name = String::from_str(listing.substring_char(a, b));
                out.push(name);
                assert(string_views(out@) =~= string_views(old_out).push(name@));
            },
            None => {},
        }
    }
    out
}

/// The players to pause, from whether listing the bus names succeeded and
/// what it printed: the listing must succeed and name at least one player.
pub fn mpris_pause_targets(listed: bool, listing: &str) -> (r: Result<Vec<String>, AppError>)
    ensures
        !listed ==> (r matches Err(AppError::Platform(m)) && m@ == "Failed to list D-Bus names"@),
        listed && spec_mpris_players(listing@).len() == 0 ==> (r matches Err(AppError::Platform(m))
            && m@ == "No MPRIS players found"@),
        listed && spec_mpris_players(listing@).len() > 0 ==> (r matches Ok(v) && string_views(v@)
            == spec_mpris_players(listing@)),
{
    if !listed {
        return Err(AppError::Platform(String::from_str("Failed to list D-Bus names")));
    }
    let players = mpris_players(listing);
    if players.len() == 0 {
        return Err(AppError::Platform(String::from_str("No MPRIS players found")));
    }
    Ok(players)
}

/// The players to resume, from whether listing the bus names succeeded and
/// what it printed; an empty list is no error.
pub fn mpris_resume_targets(listed: bool, listing: &str) -> (r: Result<Vec<String>, AppError>)
    ensures
        !listed ==> (r matches Err(AppError::Platform(m)) && m@ == "Failed to list D-Bus names"@),
        listed ==> (r matches Ok(v) && string_views(v@) == spec_mpris_players(listing@)),
{
    if !listed {
        return Err(AppError::Platform(String::from_str("Failed to list D-Bus names")));
    }
    Ok(mpris_players(listing))
}

/// The bus-name prefix of MPRIS media players.
pub open spec fn mpris_prefix() -> Seq<char> {
    "org.mpris.MediaPlayer2."@
}

/// Whether a bus name belongs to an MPRIS media player.
pub fn is_mpris_player_name(name: &str) -> (r: bool)
    ensures
        r == occurs_at(name@, mpris_prefix(), 0),
{
    let chars = chars_of(name);
    let prefix = chars_of("org.mpris.MediaPlayer2.");
    occurs_at_exec(&chars, &prefix, 0)
}

/// Whether a player whose `PlaybackStatus` is `status` is to be paused.
pub fn should_pause_player(status: &str) -> (r: bool)
    ensures
        r == (status@ == "Playing"@),
{
    let chars = chars_of(status);
    let playing = chars_of("Playing");
    let r = chars.len() == playing.len() && occurs_at_exec(&chars, &playing, 0);
    proof {
        if chars@.len() == playing@.len() {
            assert(chars@.subrange(0, playing@.len() as int) =~= chars@);
        }
    }
    r
}

} // verus!
