//! UNIX long-form directory listing lines parsed into file metadata:
//! a 10-character mode string, owner, group, size, date and a filename
//! that may contain spaces.

use vstd::prelude::*;
use vstd::string::StrSliceExecFns;
use chrono::Datelike;
use crate::text::all_dec_digits;
use crate::text::dec_value;
use crate::text::find_char_in;
use crate::text::find_char_pos;
use crate::text::lemma_find_char_in;
use crate::text::parse_dec_range;
use crate::text::push_char;

verus! {

/// File permissions, as projected from a 10-character mode string.
#[derive(Debug, Clone, Copy, PartialEq, Eq)]
pub struct Permissions {
    pub directory: bool,
    pub readable: bool,
    pub writable: bool,
    pub executable: bool,
}

/// What a 10-character mode string denotes: position 0 is `d` for a
/// directory; readable/writable/executable hold iff all three triads
/// carry the corresponding character.
pub open spec fn spec_from_chmod(s: Seq<char>) -> Option<Permissions> {
    if s.len() != 10 {
        None
    } else {
        Some(
            Permissions {
                directory: s[0] == 'd',
                readable: s[1] == 'r' && s[4] == 'r' && s[7] == 'r',
                writable: s[2] == 'w' && s[5] == 'w' && s[8] == 'w',
                executable: s[3] == 'x' && s[6] == 'x' && s[9] == 'x',
            },
        )
    }
}

impl Permissions {
    /// Reads a 10-character mode string such as `drw-rw-rw-`.
    pub fn from_chmod(chmod: &str) -> (r: Result<Permissions, MetadataError>)
        ensures
            match r {
                Ok(p) => spec_from_chmod(chmod@) == Some(p),
                Err(e) => spec_from_chmod(chmod@) is None && e == MetadataError::InvalidChmod,
            },
    {
        let n = chmod.unicode_len();
        if n != 10 {
            return Err(MetadataError::InvalidChmod);
        }
        let directory = chmod.get_char(0) == 'd';
        let readable = chmod.get_char(1) == 'r' && chmod.get_char(4) == 'r' && chmod.get_char(7)
            == 'r';
        let writable = chmod.get_char(2) == 'w' && chmod.get_char(5) == 'w' && chmod.get_char(8)
            == 'w';
        let executable = chmod.get_char(3) == 'x' && chmod.get_char(6) == 'x' && chmod.get_char(
            9,
        ) == 'x';
        Ok(Permissions { directory, readable, writable, executable })
    }

    /// The octal projection: 0o444 when readable, 0o222 when writable,
    /// 0o111 when executable.
    pub fn to_octal(&self) -> (r: u16)
        ensures
            r == (if self.readable { 0o444int } else { 0int }) + (if self.writable {
                0o222int
            } else {
                0int
            }) + (if self.executable { 0o111int } else { 0int }),
    {
        let mut mode: u16 = 0;
        if self.readable {
            mode += 0o444;
        }
        if self.writable {
            mode += 0o222;
        }
        if self.executable {
            mode += 0o111;
        }
        mode
    }
}

/// A calendar timestamp with minute precision.
#[derive(Debug, Clone, Copy, PartialEq, Eq)]
pub struct DateTime {
    pub year: i32,
    pub month: u8,
    pub day: u8,
    pub hour: u8,
    pub minute: u8,
}

/// Proleptic-Gregorian leap year.
pub open spec fn is_leap_year(y: int) -> bool {
    (y % 4 == 0 && y % 100 != 0) || y % 400 == 0
}

/// Days in the given month of the given year.
pub open spec fn days_in_month(y: int, m: int) -> int {
    if m == 2 {
        if is_leap_year(y) {
            29
        } else {
            28
        }
    } else if m == 4 || m == 6 || m == 9 || m == 11 {
        30
    } else {
        31
    }
}

/// The timestamp denotes a real calendar date and time.
pub open spec fn spec_valid_date(y: int, mo: int, d: int, h: int, mi: int) -> bool {
    1 <= mo <= 12 && 1 <= d <= days_in_month(y, mo) && 0 <= h < 24 && 0 <= mi < 60
}

/// One parsed listing entry.
#[derive(Debug, Clone, PartialEq, Eq)]
pub struct FileMetadata {
    pub chmod: Permissions,
    pub user: String,
    pub group: String,
    pub size: u64,
    pub date: DateTime,
    pub filename: String,
}

/// Why a listing line failed to parse.
#[derive(Debug, Clone, Copy, PartialEq, Eq)]
pub enum MetadataError {
    InvalidChmod,
    InvalidLine,
    InvalidSize,
    InvalidDay,
    InvalidTime,
    InvalidDate,
}

/// ASCII whitespace, the token separator of listing lines.
pub open spec fn is_space(c: char) -> bool {
    c == ' ' || c == '\t' || c == '\n' || c == '\r' || c as u32 == 11 || c as u32 == 12
}

/// First index at or after `i` that is not whitespace (or the end).
pub open spec fn skip_spaces(s: Seq<char>, i: int) -> int
    decreases s.len() - i,
{
    if 0 <= i < s.len() && is_space(s[i]) {
        skip_spaces(s, i + 1)
    } else {
        i
    }
}

/// First index at or after `i` that is whitespace (or the end).
pub open spec fn token_end(s: Seq<char>, i: int) -> int
    decreases s.len() - i,
{
    if 0 <= i < s.len() && !is_space(s[i]) {
        token_end(s, i + 1)
    } else {
        i
    }
}

/// The whitespace-separated tokens of `s`, from position `i` on.
pub open spec fn tokens_from(s: Seq<char>, i: int) -> Seq<Seq<char>>
    decreases s.len() - i,
{
    if i < 0 {
        seq![]
    } else {
        let j = skip_spaces(s, i);
        if j >= s.len() || j < i {
            seq![]
        } else {
            let e = token_end(s, j);
            if e <= j || e > s.len() {
                seq![]
            } else {
                seq![s.subrange(j, e)] + tokens_from(s, e)
            }
        }
    }
}

/// The whitespace-separated tokens of `s`.
pub open spec fn tokens(s: Seq<char>) -> Seq<Seq<char>> {
    tokens_from(s, 0)
}

proof fn lemma_skip_spaces(s: Seq<char>, i: int)
    requires
        0 <= i <= s.len(),
    ensures
        i <= skip_spaces(s, i) <= s.len(),
        skip_spaces(s, i) < s.len() ==> !is_space(s[skip_spaces(s, i)]),
        forall|j: int| i <= j < skip_spaces(s, i) ==> is_space(s[j]),
    decreases s.len() - i,
{
    if i < s.len() && is_space(s[i]) {
        lemma_skip_spaces(s, i + 1);
    }
}

proof fn lemma_token_end(s: Seq<char>, i: int)
    requires
        0 <= i <= s.len(),
    ensures
        i <= token_end(s, i) <= s.len(),
        token_end(s, i) < s.len() ==> is_space(s[token_end(s, i)]),
        forall|j: int| i <= j < token_end(s, i) ==> !is_space(s[j]),
    decreases s.len() - i,
{
    if i < s.len() && !is_space(s[i]) {
        lemma_token_end(s, i + 1);
    }
}

/// Whether `c` is whitespace.
fn is_space_exec(c: char) -> (r: bool)
    ensures
        r == is_space(c),
{
    c == ' ' || c == '\t' || c == '\n' || c == '\r' || c as u32 == 11 || c as u32 == 12
}

/// Splits `s` into its whitespace-separated tokens.
fn tokenize(s: &str) -> (r: Vec<String>)
    ensures
        r@.len() == tokens(s@).len(),
        forall|k: int| 0 <= k < r@.len() ==> #[trigger] r@[k]@ == tokens(s@)[k],
{
    let n = s.unicode_len();
    let mut out: Vec<String> = Vec::new();
    let mut i: usize = 0;
    let ghost total = tokens(s@);
    proof {
        assert(tokens_from(s@, 0) == total);
    }
    while i < n
        invariant
            i <= n,
            n == s@.len(),
            total == tokens(s@),
            out@.len() + tokens_from(s@, i as int).len() == total.len(),
            forall|k: int| 0 <= k < out@.len() ==> #[trigger] out@[k]@ == total[k],
            forall|k: int|
                0 <= k < tokens_from(s@, i as int).len() ==> #[trigger] tokens_from(
                    s@,
                    i as int,
                )[k] == total[out@.len() + k],
        decreases n - i,
    {
        proof {
            lemma_skip_spaces(s@, i as int);
        }
        if is_space_exec(s.get_char(i)) {
            proof {
                assert(skip_spaces(s@, i as int) == skip_spaces(s@, i + 1));
            }
            i = i + 1;
        } else {
            // `i` starts a token: find its end
            proof {
                assert(skip_spaces(s@, i as int) == i);
                lemma_token_end(s@, i as int);
            }
            let mut e: usize = i;
            while e < n && !is_space_exec(s.get_char(e))
                invariant
                    i <= e <= n,
                    n == s@.len(),
                    forall|j: int| i <= j < e ==> !is_space(s@[j]),
                decreases n - e,
            {
                e = e + 1;
            }
            proof {
                lemma_token_end_unique(s@, i as int, e as int);
            }
            let tok = String::from_str(s.substring_char(i, e));
            out.push(tok);
            proof {
                let ts = tokens_from(s@, i as int);
                assert(ts[0] == s@.subrange(i as int, e as int));
                assert(ts.drop_first() =~= tokens_from(s@, e as int));
            }
            i = e;
        }
    }
    proof {
        assert(skip_spaces(s@, i as int) == i);
        assert(tokens_from(s@, i as int) =~= Seq::<Seq<char>>::empty());
    }
    out
}

proof fn lemma_token_end_unique(s: Seq<char>, i: int, e: int)
    requires
        0 <= i <= e <= s.len(),
        forall|j: int| i <= j < e ==> !is_space(s[j]),
        e < s.len() ==> is_space(s[e]),
    ensures
        token_end(s, i) == e,
    decreases e - i,
{
    if i < e {
        lemma_token_end_unique(s, i + 1, e);
    }
}

/// `tokens[from..]` joined with single spaces.
pub open spec fn join_tokens(ts: Seq<Seq<char>>) -> Seq<char>
    decreases ts.len(),
{
    if ts.len() == 0 {
        seq![]
    } else if ts.len() == 1 {
        ts[0]
    } else {
        ts[0] + seq![' '] + join_tokens(ts.drop_first())
    }
}

proof fn lemma_join_snoc(ts: Seq<Seq<char>>, t: Seq<char>)
    requires
        ts.len() >= 1,
    ensures
        join_tokens(ts.push(t)) == join_tokens(ts) + seq![' '] + t,
    decreases ts.len(),
{
    if ts.len() == 1 {
        assert(join_tokens(ts.push(t)) == ts.push(t)[0] + seq![' '] + join_tokens(
            ts.push(t).drop_first(),
        ));
        assert(ts.push(t).drop_first() =~= seq![t]);
        assert(join_tokens(seq![t]) == t);
        assert(ts.push(t)[0] == ts[0]);
        assert(join_tokens(ts) == ts[0]);
    } else {
        assert(ts.push(t).drop_first() =~= ts.drop_first().push(t));
        lemma_join_snoc(ts.drop_first(), t);
        assert(ts.push(t)[0] == ts[0]);
        assert(join_tokens(ts.push(t)) =~= join_tokens(ts) + seq![' '] + t);
    }
}

/// The month number of an English three-letter abbreviation, matched
/// case-insensitively on ASCII letters.
pub open spec fn month_num(t: Seq<char>) -> Option<int> {
    if t.len() != 3 {
        None
    } else {
        let a = lower_code(t[0]);
        let b = lower_code(t[1]);
        let c = lower_code(t[2]);
        if a == 106 && b == 97 && c == 110 {
            Some(1int)  // jan
        } else if a == 102 && b == 101 && c == 98 {
            Some(2int)  // feb
        } else if a == 109 && b == 97 && c == 114 {
            Some(3int)  // mar
        } else if a == 97 && b == 112 && c == 114 {
            Some(4int)  // apr
        } else if a == 109 && b == 97 && c == 121 {
            Some(5int)  // may
        } else if a == 106 && b == 117 && c == 110 {
            Some(6int)  // jun
        } else if a == 106 && b == 117 && c == 108 {
            Some(7int)  // jul
        } else if a == 97 && b == 117 && c == 103 {
            Some(8int)  // aug
        } else if a == 115 && b == 101 && c == 112 {
            Some(9int)  // sep
        } else if a == 111 && b == 99 && c == 116 {
            Some(10int)  // oct
        } else if a == 110 && b == 111 && c == 118 {
            Some(11int)  // nov
        } else if a == 100 && b == 101 && c == 99 {
            Some(12int)  // dec
        } else {
            None
        }
    }
}

/// The code point of `c`, with ASCII upper case folded to lower case.
pub open spec fn lower_code(c: char) -> int {
    if 65 <= c as u32 <= 90 {
        c as u32 + 32
    } else {
        c as u32 as int
    }
}

fn lower_code_exec(c: char) -> (r: u32)
    ensures
        r as int == lower_code(c),
{
    let v = c as u32;
    if 65 <= v && v <= 90 {
        v + 32
    } else {
        v
    }
}

/// Reads a three-letter month abbreviation.
fn parse_month(t: &str) -> (r: Option<u8>)
    ensures
        match r {
            Some(m) => month_num(t@) == Some(m as int),
            None => month_num(t@) is None,
        },
{
    if t.unicode_len() != 3 {
        return None;
    }
    let a = lower_code_exec(t.get_char(0));
    let b = lower_code_exec(t.get_char(1));
    let c = lower_code_exec(t.get_char(2));
    if a == 106 && b == 97 && c == 110 {
        Some(1)
    } else if a == 102 && b == 101 && c == 98 {
        Some(2)
    } else if a == 109 && b == 97 && c == 114 {
        Some(3)
    } else if a == 97 && b == 112 && c == 114 {
        Some(4)
    } else if a == 109 && b == 97 && c == 121 {
        Some(5)
    } else if a == 106 && b == 117 && c == 110 {
        Some(6)
    } else if a == 106 && b == 117 && c == 108 {
        Some(7)
    } else if a == 97 && b == 117 && c == 103 {
        Some(8)
    } else if a == 115 && b == 101 && c == 112 {
        Some(9)
    } else if a == 111 && b == 99 && c == 116 {
        Some(10)
    } else if a == 110 && b == 111 && c == 118 {
        Some(11)
    } else if a == 100 && b == 101 && c == 99 {
        Some(12)
    } else {
        None
    }
}

/// What an `HH:MM` token denotes: one or two digits, a colon, one or two
/// digits, with the hour below 24 and the minute below 60.
pub open spec fn spec_time(t: Seq<char>) -> Option<(int, int)> {
    match find_char_in(t, ':', 0, t.len() as int) {
        None => None,
        Some(i) => {
            let h = t.subrange(0, i);
            let m = t.subrange(i + 1, t.len() as int);
            if 1 <= h.len() <= 2 && all_dec_digits(h) && 1 <= m.len() <= 2 && all_dec_digits(m)
                && dec_value(h) < 24 && dec_value(m) < 60 {
                Some((dec_value(h), dec_value(m)))
            } else {
                None
            }
        },
    }
}

/// Reads an `HH:MM` token.
fn parse_time(t: &str) -> (r: Option<(u8, u8)>)
    ensures
        match r {
            Some(p) => spec_time(t@) == Some((p.0 as int, p.1 as int)),
            None => spec_time(t@) is None,
        },
{
    let n = t.unicode_len();
    let i = match find_char_pos(t, ':', 0, n) {
        Some(i) => i,
        None => {
            return None;
        },
    };
    proof {
        lemma_find_char_in(t@, ':', 0, n as int);
    }
    if i < 1 || i > 2 || n - i - 1 < 1 || n - i - 1 > 2 {
        return None;
    }
    let h = match parse_dec_range(t, 0, i, 23) {
        Some(v) => v,
        None => {
            return None;
        },
    };
    let m = match parse_dec_range(t, i + 1, n, 59) {
        Some(v) => v,
        None => {
            return None;
        },
    };
    Some((h as u8, m as u8))
}

/// The model of a parsed listing line.
pub struct MetadataModel {
    pub perms: Permissions,
    pub user: Seq<char>,
    pub group: Seq<char>,
    pub size: int,
    pub year: int,
    pub month: int,
    pub day: int,
    pub hour: int,
    pub minute: int,
    pub filename: Seq<char>,
}

/// What parsing a listing line with the given current year yields, in
/// the order the parser decides: at least nine tokens, a mode string, a
/// decimal size, a month abbreviation, a decimal day, either `HH:MM` of
/// the current year or a four-digit year at midnight, a real calendar
/// date, and the remaining tokens joined as the filename.
pub open spec fn spec_parse_metadata(s: Seq<char>, current_year: int) -> Result<
    MetadataModel,
    MetadataError,
> {
    let ts = tokens(s);
    if ts.len() < 9 {
        Err(MetadataError::InvalidLine)
    } else if spec_from_chmod(ts[0]) is None {
        Err(MetadataError::InvalidChmod)
    } else if !(ts[4].len() > 0 && all_dec_digits(ts[4]) && dec_value(ts[4]) <= u64::MAX) {
        Err(MetadataError::InvalidSize)
    } else if !(ts[6].len() > 0 && all_dec_digits(ts[6]) && dec_value(ts[6]) <= u32::MAX) {
        Err(MetadataError::InvalidDay)
    } else {
        let perms = spec_from_chmod(ts[0])->Some_0;
        let size = dec_value(ts[4]);
        let day = dec_value(ts[6]);
        let with_time = find_char_in(ts[7], ':', 0, ts[7].len() as int) is Some;
        if with_time {
            match (month_num(ts[5]), spec_time(ts[7])) {
                (Some(mo), Some(hm)) => {
                    if spec_valid_date(current_year, mo, day, hm.0, hm.1) {
                        Ok(
                            MetadataModel {
                                perms,
                                user: ts[2],
                                group: ts[3],
                                size,
                                year: current_year,
                                month: mo,
                                day,
                                hour: hm.0,
                                minute: hm.1,
                                filename: join_tokens(ts.subrange(8, ts.len() as int)),
                            },
                        )
                    } else {
                        Err(MetadataError::InvalidTime)
                    }
                },
                _ => Err(MetadataError::InvalidTime),
            }
        } else {
            let y = ts[7];
            if !(y.len() == 4 && all_dec_digits(y)) {
                Err(MetadataError::InvalidDate)
            } else {
                match month_num(ts[5]) {
                    Some(mo) => {
                        if spec_valid_date(dec_value(y), mo, day, 0, 0) {
                            Ok(
                                MetadataModel {
                                    perms,
                                    user: ts[2],
                                    group: ts[3],
                                    size,
                                    year: dec_value(y),
                                    month: mo,
                                    day,
                                    hour: 0,
                                    minute: 0,
                                    filename: join_tokens(ts.subrange(8, ts.len() as int)),
                                },
                            )
                        } else {
                            Err(MetadataError::InvalidDate)
                        }
                    },
                    None => Err(MetadataError::InvalidDate),
                }
            }
        }
    }
}

/// The parse result `r` is what `spec_parse_metadata` yields for the
/// current year `y`.
pub open spec fn parse_result_matches(
    r: &Result<FileMetadata, MetadataError>,
    s: Seq<char>,
    y: int,
) -> bool {
    match r {
        Ok(m) => spec_parse_metadata(s, y) == Ok::<MetadataModel, MetadataError>(
            metadata_model(m),
        ),
        Err(e) => spec_parse_metadata(s, y) == Err::<MetadataModel, MetadataError>(*e),
    }
}

/// The model a `FileMetadata` value denotes.
pub open spec fn metadata_model(m: &FileMetadata) -> MetadataModel {
    MetadataModel {
        perms: m.chmod,
        user: m.user@,
        group: m.group@,
        size: m.size as int,
        year: m.date.year as int,
        month: m.date.month as int,
        day: m.date.day as int,
        hour: m.date.hour as int,
        minute: m.date.minute as int,
        filename: m.filename@,
    }
}

/// Whether the given year, month and day form a real date.
fn valid_date_exec(year: i32, month: u8, day: u64, hour: u8, minute: u8) -> (r: bool)
    ensures
        r == spec_valid_date(year as int, month as int, day as int, hour as int, minute as int),
{
    if !(1 <= month && month <= 12 && hour < 24 && minute < 60) {
        return false;
    }
    let dim: u64 = if month == 2 {
        let y = year;
        let leap = (y % 4 == 0 && y % 100 != 0) || y % 400 == 0;
        if leap {
            29
        } else {
            28
        }
    } else if month == 4 || month == 6 || month == 9 || month == 11 {
        30
    } else {
        31
    };
    1 <= day && day <= dim
}

impl FileMetadata {
    /// Parses one listing line against an explicitly given current year
    /// (used when the line carries `HH:MM` instead of a year).
    pub fn parse_with_year(s: &str, current_year: i32) -> (r: Result<
        FileMetadata,
        MetadataError,
    >)
        ensures
            match r {
                Ok(m) => spec_parse_metadata(s@, current_year as int) == Ok::<
                    MetadataModel,
                    MetadataError,
                >(metadata_model(&m)),
                Err(e) => spec_parse_metadata(s@, current_year as int) == Err::<
                    MetadataModel,
                    MetadataError,
                >(e),
            },
    {
        let parts = tokenize(s);
        let ghost ts = tokens(s@);
        if parts.len() < 9 {
            return Err(MetadataError::InvalidLine);
        }
        let chmod = match Permissions::from_chmod(parts[0].as_str()) {
            Ok(p) => p,
            Err(e) => {
                return Err(e);
            },
        };
        let size_tok = &parts[4];
        let size = match parse_dec_range(
            size_tok.as_str(),
            0,
            size_tok.as_str().unicode_len(),
            u64::MAX,
        ) {
            Some(v) => v,
            None => {
                proof {
                    assert(ts[4].subrange(0, ts[4].len() as int) =~= ts[4]);
                }
                return Err(MetadataError::InvalidSize);
            },
        };
        proof {
            assert(ts[4].subrange(0, ts[4].len() as int) =~= ts[4]);
        }
        let day_tok = &parts[6];
        let day = match parse_dec_range(
            day_tok.as_str(),
            0,
            day_tok.as_str().unicode_len(),
            0xffff_ffff,
        ) {
            Some(v) => v,
            None => {
                proof {
                    assert(ts[6].subrange(0, ts[6].len() as int) =~= ts[6]);
                }
                return Err(MetadataError::InvalidDay);
            },
        };
        proof {
            assert(ts[6].subrange(0, ts[6].len() as int) =~= ts[6]);
        }
        let month = parse_month(parts[5].as_str());
        let year_or_time = &parts[7];
        let yt_len = year_or_time.as_str().unicode_len();
        let with_time = find_char_pos(year_or_time.as_str(), ':', 0, yt_len).is_some();
        let date: DateTime;
        if with_time {
            let hm = match parse_time(year_or_time.as_str()) {
                Some(p) => p,
                None => {
                    return Err(MetadataError::InvalidTime);
                },
            };
            let mo = match month {
                Some(m) => m,
                None => {
                    return Err(MetadataError::InvalidTime);
                },
            };
            if !valid_date_exec(current_year, mo, day, hm.0, hm.1) {
                return Err(MetadataError::InvalidTime);
            }
            date = DateTime {
                year: current_year,
                month: mo,
                day: day as u8,
                hour: hm.0,
                minute: hm.1,
            };
        } else {
            if yt_len != 4 {
                proof {
                    assert(ts[7] == parts@[7]@);
                    assert(ts[7].len() != 4);
                    assert(spec_parse_metadata(s@, current_year as int) == Err::<
                        MetadataModel,
                        MetadataError,
                    >(MetadataError::InvalidDate));
                }
                return Err(MetadataError::InvalidDate);
            }
            let year = match parse_dec_range(year_or_time.as_str(), 0, 4, 9999) {
                Some(v) => v,
                None => {
                    proof {
                        assert(ts[7].subrange(0, 4) =~= ts[7]);
                        if all_dec_digits(ts[7]) {
                            crate::text::lemma_dec_value_upper(ts[7]);
                            assert(crate::text::pow10(0) == 1);
                            assert(crate::text::pow10(1) == 10);
                            assert(crate::text::pow10(2) == 100);
                            assert(crate::text::pow10(3) == 1000);
                            assert(crate::text::pow10(4) == 10000);
                        }
                    }
                    return Err(MetadataError::InvalidDate);
                },
            };
            proof {
                assert(ts[7].subrange(0, 4) =~= ts[7]);
            }
            let mo = match month {
                Some(m) => m,
                None => {
                    return Err(MetadataError::InvalidDate);
                },
            };
            if !valid_date_exec(year as i32, mo, day, 0, 0) {
                return Err(MetadataError::InvalidDate);
            }
            date = DateTime { year: year as i32, month: mo, day: day as u8, hour: 0, minute: 0 };
        }
        // filename: the remaining tokens joined with single spaces
        let mut filename = parts[8].clone();
        let mut k: usize = 9;
        while k < parts.len()
            invariant
                9 <= k <= parts@.len(),
                parts@.len() == ts.len(),
                ts.len() >= 9,
                forall|j: int| 0 <= j < parts@.len() ==> #[trigger] parts@[j]@ == ts[j],
                filename@ == join_tokens(ts.subrange(8, k as int)),
            decreases parts@.len() - k,
        {
            proof {
                assert(ts.subrange(8, k + 1) =~= ts.subrange(8, k as int).push(ts[k as int]));
                lemma_join_snoc(ts.subrange(8, k as int), ts[k as int]);
            }
            push_char(&mut filename, ' ');
            filename.append(parts[k].as_str());
            k = k + 1;
        }
        proof {
            assert(ts.subrange(8, 9) =~= seq![ts[8]]);
            assert(ts.subrange(8, ts.len() as int) == ts.subrange(8, k as int));
        }
        Ok(
            FileMetadata {
                chmod,
                user: parts[2].clone(),
                group: parts[3].clone(),
                size,
                date,
                filename,
            },
        )
    }

    /// Parses one listing line, taking the current year from the local
    /// clock for lines that carry `HH:MM`.
    pub fn parse(s: &str) -> (r: Result<FileMetadata, MetadataError>)
        ensures
            exists|y: int| #[trigger] parse_result_matches(&r, s@, y),
    {
        let year = local_year();
        let r = Self::parse_with_year(s, year);
        proof {
            assert(parse_result_matches(&r, s@, year as int));
        }
        r
    }
}

/// Relies on `chrono::Local::now` and `chrono::Datelike::year`: the
/// current local calendar year.  Nothing is promised of the clock.
#[verifier::external_body]
fn local_year() -> i32 {
    chrono::Local::now().year()
}

/// What a whole listing decodes to: every line parsed in order, the
/// first failing line's error otherwise.
pub open spec fn spec_parse_listing(lines: Seq<Seq<char>>, y: int) -> Result<
    Seq<MetadataModel>,
    MetadataError,
>
    decreases lines.len(),
{
    if lines.len() == 0 {
        Ok(Seq::empty())
    } else {
        match spec_parse_metadata(lines[0], y) {
            Err(e) => Err(e),
            Ok(m) => match spec_parse_listing(lines.drop_first(), y) {
                Err(e) => Err(e),
                Ok(rest) => Ok(seq![m] + rest),
            },
        }
    }
}

fn listing_from(lines: &Vec<String>, i: usize, current_year: i32) -> (r: Result<
    Vec<FileMetadata>,
    MetadataError,
>)
    requires
        i <= lines@.len(),
    ensures
        ({
            let ls = lines@.skip(i as int).map_values(|l: String| l@);
            match r {
                Ok(out) => spec_parse_listing(ls, current_year as int) matches Ok(ms)
                    && out@.len() == ms.len() && forall|k: int|
                    0 <= k < ms.len() ==> metadata_model(&out@[k]) == #[trigger] ms[k],
                Err(e) => spec_parse_listing(ls, current_year as int) == Err::<
                    Seq<MetadataModel>,
                    MetadataError,
                >(e),
            }
        }),
    decreases lines@.len() - i,
{
    let ghost ls = lines@.skip(i as int).map_values(|l: String| l@);
    if i == lines.len() {
        proof {
            assert(ls.len() == 0);
        }
        return Ok(Vec::new());
    }
    proof {
        assert(ls[0] == lines@[i as int]@);
        assert(ls.drop_first() =~= lines@.skip(i + 1).map_values(|l: String| l@));
    }
    let head = match FileMetadata::parse_with_year(lines[i].as_str(), current_year) {
        Ok(m) => m,
        Err(e) => {
            return Err(e);
        },
    };
    let rest = match listing_from(lines, i + 1, current_year) {
        Ok(v) => v,
        Err(e) => {
            return Err(e);
        },
    };
    let mut out: Vec<FileMetadata> = Vec::new();
    out.push(head);
    let mut rest = rest;
    let ghost rest_view = rest@;
    out.append(&mut rest);
    proof {
        let ms_rest = spec_parse_listing(ls.drop_first(), current_year as int)->Ok_0;
        let ms = spec_parse_listing(ls, current_year as int)->Ok_0;
        assert(ms == seq![spec_parse_metadata(ls[0], current_year as int)->Ok_0] + ms_rest);
        assert forall|k: int| 0 <= k < ms.len() implies metadata_model(&out@[k])
            == #[trigger] ms[k] by {
            if k == 0 {
                assert(out@[0] == head);
            } else {
                assert(out@[k] == rest_view[k - 1]);
                assert(ms[k] == ms_rest[k - 1]);
            }
        }
    }
    Ok(out)
}

/// Parses every line of a directory listing against the given current
/// year, in order; the first malformed line's error is returned.
pub fn parse_listing(lines: &Vec<String>, current_year: i32) -> (r: Result<
    Vec<FileMetadata>,
    MetadataError,
>)
    ensures
        ({
            let ls = lines@.map_values(|l: String| l@);
            match r {
                Ok(out) => spec_parse_listing(ls, current_year as int) matches Ok(ms)
                    && out@.len() == ms.len() && forall|k: int|
                    0 <= k < ms.len() ==> metadata_model(&out@[k]) == #[trigger] ms[k],
                Err(e) => spec_parse_listing(ls, current_year as int) == Err::<
                    Seq<MetadataModel>,
                    MetadataError,
                >(e),
            }
        }),
{
    proof {
        assert(lines@.skip(0) =~= lines@);
    }
    listing_from(lines, 0, current_year)
}

} // verus!
