use vstd::prelude::*;
use crate::explorer::FileExplorer;
use crate::names::{dec, decimal};

verus! {

pub open spec fn is_leap(y: int) -> bool {
    y % 4 == 0 && (y % 100 != 0 || y % 400 == 0)
}

pub open spec fn year_len(y: int) -> int {
    if is_leap(y) {
        366
    } else {
        365
    }
}

/// The year that day `days` (counted from the first day of year `y`) falls
/// in, and the day within that year.
pub open spec fn year_of(days: int, y: int) -> (int, int)
    decreases days,
{
    if days >= year_len(y) && days >= 0 {
        year_of(days - year_len(y), y + 1)
    } else {
        (y, days)
    }
}

/// The length of month `i` (0 for January) of a year.
pub open spec fn month_len(i: int, leap: bool) -> int {
    if i == 1 {
        if leap {
            29
        } else {
            28
        }
    } else if i == 3 || i == 5 || i == 8 || i == 10 {
        30
    } else {
        31
    }
}

/// Month and day of month, from month `i` on, for day `d` (counted from 1)
/// of that month.
pub open spec fn month_of(d: int, i: int, leap: bool) -> (int, int)
    decreases 12 - i,
{
    if i >= 12 {
        (i + 1, d)
    } else if d > month_len(i, leap) {
        month_of(d - month_len(i, leap), i + 1, leap)
    } else {
        (i + 1, d)
    }
}

/// `n` in decimal, with zeros in front up to `width` characters.
pub open spec fn padded(n: nat, width: nat) -> Seq<char> {
    Seq::new(
        (if dec(n).len() < width {
            width - dec(n).len()
        } else {
            0
        }) as nat,
        |i: int| '0',
    ) + dec(n)
}

/// A time, in seconds since the Unix epoch, as `YYYY-MM-DD HH:mm` (UTC).
pub open spec fn date_text(secs: nat) -> Seq<char> {
    let days = secs / 86400;
    let rem = secs % 86400;
    let (year, day_in_year) = year_of(days as int, 1970);
    let (month, day) = month_of(day_in_year + 1, 0, is_leap(year));
    padded(year as nat, 4) + "-"@ + padded(month as nat, 2) + "-"@ + padded(day as nat, 2) + " "@
        + padded(rem / 3600, 2) + ":"@ + padded((rem % 3600) / 60, 2)
}

/// The text shown for a modification time: `date_text`, or `Unknown` padded
/// to the same width for a time before the epoch.
pub open spec fn shown_date(time: Option<u64>) -> Seq<char> {
    match time {
        Some(s) => date_text(s as nat),
        None => "Unknown         "@,
    }
}

/// Appends `n` in decimal, with zeros in front up to `width` characters.
pub fn push_padded(out: &mut String, n: u64, width: usize)
    ensures
        final(out)@ == old(out)@ + padded(n as nat, width as nat),
{
    let digits = decimal(n);
    let len = digits.as_str().unicode_len();
    let ghost start = out@;
    let mut k: usize = 0;
    let fill: usize = if len < width {
        width - len
    } else {
        0
    };
    while k < fill
        invariant
            k <= fill,
            out@ == start + Seq::new(k as nat, |i: int| '0'),
        decreases fill - k,
    {
        out.append("0");
        proof {
            reveal_strlit("0");
        }
        k = k + 1;
        proof {
            assert(out@ =~= start + Seq::new(k as nat, |i: int| '0'));
        }
    }
    out.append(digits.as_str());
    proof {
        assert(out@ =~= start + padded(n as nat, width as nat));
    }
}

fn month_length(i: u64, leap: bool) -> (r: u64)
    requires
        i < 12,
    ensures
        r == month_len(i as int, leap),
{
    if i == 1 {
        if leap {
            29
        } else {
            28
        }
    } else if i == 3 || i == 5 || i == 8 || i == 10 {
        30
    } else {
        31
    }
}

impl FileExplorer {
/// A modification time as `YYYY-MM-DD HH:mm` (see `date_text`); an unknown
/// time as `Unknown` padded to the same width.
pub fn format_date(time: Option<u64>) -> (r: String)
    ensures
        r@ == shown_date(time),
{
    let secs = match time {
        Some(s) => s,
        None => {
            return String::from_str("Unknown         ");
        },
    };
    let days: u64 = secs / 86400;
    let rem: u64 = secs % 86400;
    let hours = rem / 3600;
    let minutes = (rem % 3600) / 60;
    let mut year: u64 = 1970;
    let mut left: u64 = days;
    loop
        invariant
            (year - 1970) * 365 + left <= days,
            year >= 1970,
            year_of(left as int, year as int) == year_of(days as int, 1970),
            days == secs / 86400,
        ensures
            year_of(days as int, 1970) == (year as int, left as int),
        decreases left,
    {
        let leap = year % 4 == 0 && (year % 100 != 0 || year % 400 == 0);
        let ylen: u64 = if leap {
            366
        } else {
            365
        };
        assert(ylen == year_len(year as int));
        if left >= ylen {
            left = left - ylen;
            year = year + 1;
        } else {
            break;
        }
    }
    let leap = year % 4 == 0 && (year % 100 != 0 || year % 400 == 0);
    let mut month: u64 = 0;
    let mut day: u64 = left + 1;
    while month < 12
        invariant
            month <= 12,
            leap == is_leap(year as int),
            1 <= day <= left + 1,
            left + 1 <= u64::MAX,
            month_of(day as int, month as int, leap) == month_of(left + 1, 0, leap),
        ensures
            month_of(left + 1, 0, leap) == (month + 1, day as int),
            month <= 12,
            1 <= day,
        decreases 12 - month,
    {
        let mlen = month_length(month, leap);
        if day > mlen {
            day = day - mlen;
            month = month + 1;
        } else {
            break;
        }
    }
    let mut out = String::new();
    push_padded(&mut out, year, 4);
    out.append("-");
    push_padded(&mut out, month + 1, 2);
    out.append("-");
    push_padded(&mut out, day, 2);
    out.append(" ");
    push_padded(&mut out, hours, 2);
    out.append(":");
    push_padded(&mut out, minutes, 2);
    proof {
        assert(out@ =~= date_text(secs as nat));
    }
    out
}
}

/// The largest of `own` and the times in `inner`.
pub open spec fn latest(own: u64, inner: Seq<u64>) -> u64
    decreases inner.len(),
{
    if inner.len() == 0 {
        own
    } else {
        let rest = latest(own, inner.drop_last());
        if inner.last() > rest {
            inner.last()
        } else {
            rest
        }
    }
}

impl FileExplorer {
    /// The time a directory shows: the latest of its own modification time
    /// and those of the entries right inside it.
    pub fn get_dir_max_modified(own: u64, inner: &Vec<u64>) -> (r: u64)
        ensures
            r == latest(own, inner@),
            r >= own,
            forall|i: int| 0 <= i < inner.len() ==> r >= #[trigger] inner@[i],
            r == own || inner@.contains(r),
    {
        let mut best = own;
        let mut i: usize = 0;
        while i < inner.len()
            invariant
                i <= inner.len(),
                best == latest(own, inner@.subrange(0, i as int)),
                best >= own,
                forall|k: int| 0 <= k < i ==> best >= #[trigger] inner@[k],
                best == own || inner@.subrange(0, i as int).contains(best),
            decreases inner.len() - i,
        {
            let ghost prev = inner@.subrange(0, i as int);
            if inner[i] > best {
                best = inner[i];
            }
            i = i + 1;
            proof {
                let s = inner@.subrange(0, i as int);
                assert(s.drop_last() =~= prev);
                if best != own && !prev.contains(best) {
                    assert(s[i - 1] == best);
                }
                if best != own && prev.contains(best) {
                    let k = choose|k: int| 0 <= k < prev.len() && prev[k] == best;
                    assert(s[k] == best);
                }
            }
        }
        proof {
            assert(inner@.subrange(0, i as int) =~= inner@);
        }
        best
    }
}

} // verus!
