//! The local UTC offset: the IANA zone named by the `/etc/localtime` link,
//! looked up in the time-zone database, with the system's offset as fallback.
use vstd::prelude::*;

use chrono::{Offset, TimeZone};
use vstd::string::{StrSliceExecFns, StringExecFns};

use crate::text::{chars_of, last_occurrence, occurs_at};

verus! {

/// The separator in front of a zone name in a zoneinfo path.
pub open spec fn zoneinfo_marker() -> Seq<char> {
    "/zoneinfo/"@
}

/// The text after the last occurrence of `pat`, or all of `s` when `pat` does not occur.
pub open spec fn after_last(s: Seq<char>, pat: Seq<char>) -> Seq<char> {
    if exists|i: int| occurs_at(s, pat, i) {
        let i = choose|i: int|
            occurs_at(s, pat, i) && forall|j: int| i < j ==> !#[trigger] occurs_at(s, pat, j);
        s.subrange(i + pat.len(), s.len() as int)
    } else {
        s
    }
}

/// Characters with the Unicode `White_Space` property.
pub open spec fn is_white_space(c: char) -> bool {
    ||| '\u{9}' <= c <= '\u{d}'
    ||| c == ' '
    ||| c == '\u{85}'
    ||| c == '\u{a0}'
    ||| c == '\u{1680}'
    ||| '\u{2000}' <= c <= '\u{200a}'
    ||| c == '\u{2028}'
    ||| c == '\u{2029}'
    ||| c == '\u{202f}'
    ||| c == '\u{205f}'
    ||| c == '\u{3000}'
}

/// `s` without leading white space.
pub open spec fn trim_start(s: Seq<char>) -> Seq<char>
    decreases s.len(),
{
    if s.len() > 0 && is_white_space(s[0]) {
        trim_start(s.drop_first())
    } else {
        s
    }
}

/// `s` without trailing white space.
pub open spec fn trim_end(s: Seq<char>) -> Seq<char>
    decreases s.len(),
{
    if s.len() > 0 && is_white_space(s.last()) {
        trim_end(s.drop_last())
    } else {
        s
    }
}

/// The zone name a `/etc/localtime` link target designates: the text after
/// the last `/zoneinfo/`, without surrounding white space; none when empty.
pub open spec fn spec_zone_name(link: Seq<char>) -> Option<Seq<char>> {
    let name = trim_end(trim_start(after_last(link, zoneinfo_marker())));
    if name.len() == 0 {
        None
    } else {
        Some(name)
    }
}

/// The UTC offset, in seconds east of UTC, that the zone of the given IANA
/// name has at the given instant (seconds since 1970-01-01T00:00:00Z), per
/// the `chrono-tz` database; none when the name is unknown or the instant out
/// of range.
pub uninterp spec fn tz_offset_at(name: Seq<char>, utc_secs: i64) -> Option<i32>;

/// `chrono_tz::Tz::from_str` of the name, then `TimeZone::offset_from_utc_datetime`
/// at the instant (built by `DateTime::from_timestamp`), as seconds east of UTC.
#[verifier::external_body]
fn zone_offset_at(name: &str, utc_secs: i64) -> (r: Option<i32>)
    ensures
        r == tz_offset_at(name@, utc_secs),
{
    match name.parse::<chrono_tz::Tz>() {
        Ok(tz) => match chrono::DateTime::from_timestamp(utc_secs, 0) {
            Some(t) => Some(tz.offset_from_utc_datetime(&t.naive_utc()).fix().local_minus_utc()),
            None => None,
        },
        Err(_) => None,
    }
}

fn is_white_space_exec(c: char) -> (r: bool)
    ensures
        r == is_white_space(c),
{
    ('\u{9}' <= c && c <= '\u{d}') || c == ' ' || c == '\u{85}' || c == '\u{a0}' || c == '\u{1680}'
        || ('\u{2000}' <= c && c <= '\u{200a}') || c == '\u{2028}' || c == '\u{2029}' || c
        == '\u{202f}' || c == '\u{205f}' || c == '\u{3000}'
}

proof fn lemma_trim_start_skip(s: Seq<char>, k: int)
    requires
        0 <= k <= s.len(),
        forall|q: int| 0 <= q < k ==> is_white_space(#[trigger] s[q]),
    ensures
        trim_start(s) == trim_start(s.subrange(k, s.len() as int)),
    decreases k,
{
    if k > 0 {
        assert(s.drop_first() =~= s.subrange(1, s.len() as int));
        lemma_trim_start_skip(s.drop_first(), k - 1);
        assert(s.drop_first().subrange(k - 1, s.drop_first().len() as int) =~= s.subrange(
            k,
            s.len() as int,
        ));
    } else {
        assert(s.subrange(0, s.len() as int) =~= s);
    }
}

proof fn lemma_trim_end_skip(s: Seq<char>, e: int)
    requires
        0 <= e <= s.len(),
        forall|q: int| e <= q < s.len() ==> is_white_space(#[trigger] s[q]),
    ensures
        trim_end(s) == trim_end(s.subrange(0, e)),
    decreases s.len() - e,
{
    if e < s.len() {
        assert(s.drop_last() =~= s.subrange(0, s.len() - 1));
        lemma_trim_end_skip(s.drop_last(), e);
        assert(s.drop_last().subrange(0, e) =~= s.subrange(0, e));
    } else {
        assert(s.subrange(0, e) =~= s);
    }
}

/// The zone name designated by a `/etc/localtime` link target.
pub fn zone_name_from_link(link: &str) -> (r: Option<String>)
    ensures
        match r {
            Some(name) => spec_zone_name(link@) == Some(name@),
            None => spec_zone_name(link@) is None,
        },
{
    let chars = chars_of(link);
    let marker = chars_of("/zoneinfo/");
    let n = chars.len();
    let m = marker.len();
    let last = last_occurrence(&chars, &marker);
    let start: usize = match last {
        Some(i) => i + m,
        None => 0,
    };
    proof {
        reveal_strlit("/zoneinfo/");
        if let Some(i0) = last {
            let c = choose|i: int|
                occurs_at(chars@, marker@, i) && forall|j: int| i < j ==> !#[trigger] occurs_at(
                    chars@,
                    marker@,
                    j,
                );
            assert(c == i0) by {
                if c < i0 {
                    assert(occurs_at(chars@, marker@, i0 as int));
                } else if c > i0 {
                    assert(!occurs_at(chars@, marker@, c));
                }
            }
        } else {
            assert(chars@.subrange(0, n as int) =~= chars@);
        }
        assert(after_last(link@, zoneinfo_marker()) == chars@.subrange(start as int, n as int));
    }
    // Trim white space on both sides.
    let mut lo: usize = start;
    while lo < n && is_white_space_exec(chars[lo])
        invariant
            start <= lo <= n,
            n == chars@.len(),
            forall|q: int| start <= q < lo ==> is_white_space(#[trigger] chars@[q]),
        decreases n - lo,
    {
        lo = lo + 1;
    }
    let mut hi: usize = n;
    while hi > lo && is_white_space_exec(chars[hi - 1])
        invariant
            lo <= hi <= n,
            n == chars@.len(),
            forall|q: int| hi <= q < n ==> is_white_space(#[trigger] chars@[q]),
        decreases hi,
    {
        hi = hi - 1;
    }
    proof {
        let tail = chars@.subrange(start as int, n as int);
        lemma_trim_start_skip(tail, lo - start);
        let rest = tail.subrange(lo - start, tail.len() as int);
        assert(rest =~= chars@.subrange(lo as int, n as int));
        if lo < n {
            assert(!is_white_space(rest[0]));
        }
        assert(trim_start(rest) == rest);
        lemma_trim_end_skip(rest, hi - lo);
        let core = rest.subrange(0, hi - lo);
        assert(core =~= chars@.subrange(lo as int, hi as int));
        if hi > lo {
            assert(!is_white_space(core.last()));
        }
        assert(trim_end(core) == core);
    }
    if hi == lo {
        None
    } else {
        let name = link.substring_char(lo, hi);
        Some(String::from_str(name))
    }
}

/// The local UTC offset, in seconds east of UTC: that of the zone the
/// `/etc/localtime` link names at the instant `utc_now_secs`, or the system's
/// offset when there is no link, no zone name in it, or no such zone.
pub fn detect_local_offset(link: Option<&str>, utc_now_secs: i64, system_offset_secs: i32) -> (r: i32)
    ensures
        r == match link {
            Some(l) => match spec_zone_name(l@) {
                Some(name) => match tz_offset_at(name, utc_now_secs) {
                    Some(off) => off,
                    None => system_offset_secs,
                },
                None => system_offset_secs,
            },
            None => system_offset_secs,
        },
{
    if let Some(l) = link {
        if let Some(name) = zone_name_from_link(l) {
            if let Some(off) = zone_offset_at(name.as_str(), utc_now_secs) {
                return off;
            }
        }
    }
    system_offset_secs
}

} // verus!
