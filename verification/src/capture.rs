//! Capture timestamps and the names of the date directories.
use vstd::prelude::*;
use vstd::string::*;

verus! {

/// The calendar date `(year, month, day)` that chrono gives to the instant
/// `seconds` and `nanos` after the Unix epoch when it is seen from a zone
/// `offset` seconds east of UTC, or `None` where chrono cannot represent the
/// instant or the zone.
pub uninterp spec fn local_date_of(seconds: i64, nanos: u32, offset: i32) -> Option<(i32, u32, u32)>;

/// Whether an instant lies in the years 0 to 9999 of UTC, its nanoseconds
/// below a second, seen from a zone less than a day off UTC.
pub open spec fn ordinary_instant(seconds: i64, nanos: u32, offset: i32) -> bool {
    &&& -62_167_219_200 <= seconds <= 253_402_300_799
    &&& nanos < 1_000_000_000
    &&& -86_400 < offset < 86_400
}

/// Asks chrono for the local calendar date of an instant.
///
/// Builds the zone with `chrono::FixedOffset::east_opt` and the instant with
/// `chrono::DateTime::from_timestamp`, moves the instant into the zone and
/// reads `Datelike::year`, `month` and `day`. Nothing of this is proved here.
/// Claimed: the result depends on the three arguments alone; a month lies in
/// `1..=12` and a day in `1..=31`; a zone a day or more off UTC has no date;
/// an instant of the years 0 to 9999, which chrono's range of some 262,000
/// years either side holds with room to spare, has one.
#[verifier::external_body]
fn local_date(seconds: i64, nanos: u32, offset: i32) -> (date: Option<(i32, u32, u32)>)
    ensures
        date == local_date_of(seconds, nanos, offset),
        date matches Some(d) ==> 1 <= d.1 <= 12 && 1 <= d.2 <= 31,
        !(-86_400 < offset < 86_400) ==> date is None,
        ordinary_instant(seconds, nanos, offset) ==> date is Some,
{
    let zone = chrono::FixedOffset::east_opt(offset)?;
    let moment = chrono::DateTime::from_timestamp(seconds, nanos)?.with_timezone(&zone);
    Some(
        (
            chrono::Datelike::year(&moment),
            chrono::Datelike::month(&moment),
            chrono::Datelike::day(&moment),
        ),
    )
}

/// When a file was captured: an instant, and the calendar date on which it
/// fell where the file was made.
///
/// A file without capture metadata has the zero value, whose fields are all
/// zero. Two capture times name the same moment when their instants agree;
/// the calendar date only chooses the directory.
#[derive(Debug, Clone, Copy)]
pub struct CaptureTime {
    /// Calendar year; zero for the zero value.
    pub year: i32,
    /// Calendar month, from 1; zero for the zero value.
    pub month: u32,
    /// Day of the month, from 1; zero for the zero value.
    pub day: u32,
    /// Whole seconds since the Unix epoch, in UTC.
    pub seconds: i64,
    /// Nanoseconds after the whole second.
    pub nanos: u32,
}

/// The character of the decimal digit `d`.
pub open spec fn digit(d: nat) -> char {
    if d == 0 {
        '0'
    } else if d == 1 {
        '1'
    } else if d == 2 {
        '2'
    } else if d == 3 {
        '3'
    } else if d == 4 {
        '4'
    } else if d == 5 {
        '5'
    } else if d == 6 {
        '6'
    } else if d == 7 {
        '7'
    } else if d == 8 {
        '8'
    } else {
        '9'
    }
}

/// The decimal digits of `n`, most significant first, without leading zeros.
pub open spec fn decimal(n: nat) -> Seq<char>
    decreases n,
{
    if n < 10 {
        seq![digit(n)]
    } else {
        decimal(n / 10).push(digit(n % 10))
    }
}

/// `count` zeros.
pub open spec fn zeros(count: nat) -> Seq<char> {
    Seq::new(count, |i: int| '0')
}

/// The decimal digits of `n`, filled with zeros on the left up to `width`
/// characters.
pub open spec fn zero_padded(n: nat, width: nat) -> Seq<char> {
    if decimal(n).len() >= width {
        decimal(n)
    } else {
        zeros((width - decimal(n).len()) as nat) + decimal(n)
    }
}

/// A year in at least four characters, the sign of a negative year counted
/// among them.
pub open spec fn year_text(year: int) -> Seq<char> {
    if year < 0 {
        seq!['-'] + zero_padded((-year) as nat, 3)
    } else {
        zero_padded(year as nat, 4)
    }
}

/// The directory name of a calendar date: year, month and day, zero-padded
/// and joined by underscores.
pub open spec fn date_dir_text(year: int, month: nat, day: nat) -> Seq<char> {
    year_text(year) + seq!['_'] + zero_padded(month, 2) + seq!['_'] + zero_padded(day, 2)
}

/// The one-character text of a decimal digit.
fn digit_str(d: u64) -> (text: &'static str)
    requires
        d < 10,
    ensures
        text@ == seq![digit(d as nat)],
{
    proof {
        reveal_strlit("0");
        reveal_strlit("1");
        reveal_strlit("2");
        reveal_strlit("3");
        reveal_strlit("4");
        reveal_strlit("5");
        reveal_strlit("6");
        reveal_strlit("7");
        reveal_strlit("8");
        reveal_strlit("9");
    }
    let text = if d == 0 {
        "0"
    } else if d == 1 {
        "1"
    } else if d == 2 {
        "2"
    } else if d == 3 {
        "3"
    } else if d == 4 {
        "4"
    } else if d == 5 {
        "5"
    } else if d == 6 {
        "6"
    } else if d == 7 {
        "7"
    } else if d == 8 {
        "8"
    } else {
        "9"
    };
    assert(text@ =~= seq![digit(d as nat)]);
    text
}

/// Appends the decimal digits of `n` to `text`.
fn push_decimal(text: &mut String, n: u64)
    ensures
        final(text)@ == old(text)@ + decimal(n as nat),
    decreases n,
{
    if n >= 10 {
        push_decimal(text, n / 10);
    }
    text.append(digit_str(n % 10));
    assert(text@ =~= old(text)@ + decimal(n as nat));
}

/// The number of decimal digits of `n`.
fn decimal_len(n: u64) -> (count: usize)
    ensures
        count == decimal(n as nat).len(),
        1 <= count <= 20,
    decreases n,
{
    if n >= 10 {
        let rest: usize = decimal_len(n / 10);
        proof {
            lemma_decimal_len_bound(n as nat);
        }
        rest + 1
    } else {
        1
    }
}

/// A number below `2^64` has at most twenty digits.
proof fn lemma_decimal_len_bound(n: nat)
    requires
        n <= u64::MAX,
    ensures
        decimal(n).len() <= 20,
{
    reveal_with_fuel(decimal, 21);
}

/// Appends `n` to `text`, zero-padded to `width` characters.
pub fn push_zero_padded(text: &mut String, n: u64, width: usize)
    ensures
        final(text)@ == old(text)@ + zero_padded(n as nat, width as nat),
{
    let count: usize = decimal_len(n);
    let mut written: usize = count;
    while written < width
        invariant
            count == decimal(n as nat).len(),
            count <= written,
            written <= width || written == count,
            text@ == old(text)@ + zeros((written - count) as nat),
        decreases width - written,
    {
        proof {
            reveal_strlit("0");
        }
        text.append("0");
        written += 1;
        assert(text@ =~= old(text)@ + zeros((written - count) as nat));
    }
    push_decimal(text, n);
    assert(text@ =~= old(text)@ + zero_padded(n as nat, width as nat));
}

impl CaptureTime {
    /// The value of a file without capture metadata.
    pub open spec fn spec_zero() -> CaptureTime {
        CaptureTime { year: 0, month: 0, day: 0, seconds: 0, nanos: 0 }
    }

    /// Whether both values name the same moment.
    pub open spec fn spec_same_instant(self, other: CaptureTime) -> bool {
        self.seconds == other.seconds && self.nanos == other.nanos
    }

    /// The capture time of an instant whose local calendar date is `date`, or
    /// `None` where there is no such date.
    pub open spec fn spec_from_local_date(date: Option<(i32, u32, u32)>, seconds: i64, nanos: u32)
        -> Option<CaptureTime> {
        match date {
            Some(d) => Some(CaptureTime { year: d.0, month: d.1, day: d.2, seconds, nanos }),
            None => None,
        }
    }

    /// The name of the date directory of this capture time.
    pub open spec fn spec_date_dir_name(self) -> Seq<char> {
        date_dir_text(self.year as int, self.month as nat, self.day as nat)
    }

    /// The value of a file without capture metadata.
    pub fn zero() -> (time: CaptureTime)
        ensures
            time == CaptureTime::spec_zero(),
    {
        CaptureTime { year: 0, month: 0, day: 0, seconds: 0, nanos: 0 }
    }

    /// The capture time found in a file's metadata, or the zero value where
    /// the file has none.
    pub fn or_zero(found: Option<CaptureTime>) -> (time: CaptureTime)
        ensures
            time == match found {
                Some(t) => t,
                None => CaptureTime::spec_zero(),
            },
    {
        match found {
            Some(t) => t,
            None => CaptureTime::zero(),
        }
    }

    /// Joins an instant with the local calendar date that was found for it.
    pub fn from_local_date(date: Option<(i32, u32, u32)>, seconds: i64, nanos: u32) -> (time: Option<
        CaptureTime,
    >)
        ensures
            time == CaptureTime::spec_from_local_date(date, seconds, nanos),
    {
        match date {
            Some(d) => Some(CaptureTime { year: d.0, month: d.1, day: d.2, seconds, nanos }),
            None => None,
        }
    }

    /// The capture time of the instant `seconds` and `nanos` after the Unix
    /// epoch, dated as seen from a zone `offset` seconds east of UTC.
    ///
    /// `None` where the instant or the zone is out of the calendar's range,
    /// which no instant of the years 0 to 9999 is.
    pub fn from_timestamp(seconds: i64, nanos: u32, offset: i32) -> (time: Option<CaptureTime>)
        ensures
            time == CaptureTime::spec_from_local_date(
                local_date_of(seconds, nanos, offset),
                seconds,
                nanos,
            ),
            time matches Some(t) ==> 1 <= t.month <= 12 && 1 <= t.day <= 31 && -86_400 < offset
                < 86_400,
            ordinary_instant(seconds, nanos, offset) ==> time is Some,
    {
        CaptureTime::from_local_date(local_date(seconds, nanos, offset), seconds, nanos)
    }

    /// Tells whether both values name the same moment.
    pub fn same_instant(&self, other: &CaptureTime) -> (same: bool)
        ensures
            same == self.spec_same_instant(*other),
    {
        self.seconds == other.seconds && self.nanos == other.nanos
    }

    /// The name of the directory that holds the files captured on this
    /// date: `YYYY_MM_DD`, and `0000_00_00` for the zero value.
    pub fn date_dir_name(&self) -> (name: String)
        ensures
            name@ == self.spec_date_dir_name(),
    {
        let mut name = String::new();
        if self.year < 0 {
            proof {
                reveal_strlit("-");
            }
            name.append("-");
            let magnitude: i64 = 0 - (self.year as i64);
            push_zero_padded(&mut name, magnitude as u64, 3);
            assert(name@ =~= year_text(self.year as int));
        } else {
            push_zero_padded(&mut name, self.year as u64, 4);
            assert(name@ =~= year_text(self.year as int));
        }
        proof {
            reveal_strlit("_");
        }
        name.append("_");
        push_zero_padded(&mut name, self.month as u64, 2);
        name.append("_");
        push_zero_padded(&mut name, self.day as u64, 2);
        assert(name@ =~= self.spec_date_dir_name());
        name
    }
}

/// The zero value is filed under `0000_00_00`.
pub proof fn lemma_zero_date_dir()
    ensures
        CaptureTime::spec_zero().spec_date_dir_name() == seq![
            '0',
            '0',
            '0',
            '0',
            '_',
            '0',
            '0',
            '_',
            '0',
            '0',
        ],
{
    assert(decimal(0) =~= seq!['0']);
    assert(zero_padded(0, 4) =~= seq!['0', '0', '0', '0']);
    assert(zero_padded(0, 2) =~= seq!['0', '0']);
    assert(CaptureTime::spec_zero().spec_date_dir_name() =~= seq![
        '0',
        '0',
        '0',
        '0',
        '_',
        '0',
        '0',
        '_',
        '0',
        '0',
    ]);
}

} // verus!
