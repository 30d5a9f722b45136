use vstd::prelude::*;

use vstd::string::*;

use crate::text::{push_decimal, spec_decimal};
use crate::calendar::{days_in_month, spec_days_in_month};
use crate::types::{PuzzleDate, PuzzleId, SourceId};

verus! {

/// The pieces of `s` between dashes, in order. A string with `k` dashes has
/// `k + 1` pieces, some of which may be empty.
pub open spec fn split_dash(s: Seq<char>) -> Seq<Seq<char>>
    decreases s.len(),
{
    if s.len() == 0 {
        seq![Seq::empty()]
    } else {
        let prev = split_dash(s.drop_last());
        if s.last() == '-' {
            prev.push(Seq::empty())
        } else {
            prev.update(prev.len() - 1, prev.last().push(s.last()))
        }
    }
}

proof fn lemma_split_dash_nonempty(s: Seq<char>)
    ensures
        split_dash(s).len() >= 1,
    decreases s.len(),
{
    if s.len() > 0 {
        lemma_split_dash_nonempty(s.drop_last());
    }
}

pub open spec fn is_digit(c: char) -> bool {
    '0' <= c <= '9'
}

pub open spec fn all_digits(s: Seq<char>) -> bool {
    forall|i: int| 0 <= i < s.len() ==> is_digit(#[trigger] s[i])
}

/// The value of a string of decimal digits, most significant first.
pub open spec fn digits_value(s: Seq<char>) -> nat
    decreases s.len(),
{
    if s.len() == 0 {
        0
    } else {
        digits_value(s.drop_last()) * 10 + ((s.last() as u32) - 48) as nat
    }
}

/// `s` without its leading `+`, if it has one.
pub open spec fn unsigned_digits(s: Seq<char>) -> Seq<char> {
    if s.len() > 0 && s[0] == '+' {
        s.drop_first()
    } else {
        s
    }
}

/// An unsigned decimal number of at most `max`: an optional `+` followed by at
/// least one digit, as Rust reads unsigned integers.
pub open spec fn spec_parse_num(s: Seq<char>, max: nat) -> Option<nat> {
    let d = unsigned_digits(s);
    if d.len() == 0 || !all_digits(d) || digits_value(d) > max {
        None
    } else {
        Some(digits_value(d))
    }
}

fn split_on_dash(s: &str) -> (r: Vec<Vec<char>>)
    ensures
        r@.len() == split_dash(s@).len(),
        forall|j: int| 0 <= j < r@.len() ==> (#[trigger] r@[j])@ == split_dash(s@)[j],
{
    let n = s.unicode_len();
    let mut tokens: Vec<Vec<char>> = Vec::new();
    let mut cur: Vec<char> = Vec::new();
    let mut i: usize = 0;
    while i < n
        invariant
            n == s@.len(),
            i <= n,
            tokens@.len() + 1 == split_dash(s@.take(i as int)).len(),
            forall|j: int| 0 <= j < tokens@.len() ==> (#[trigger] tokens@[j])@ == split_dash(s@.take(i as int))[j],
            cur@ == split_dash(s@.take(i as int)).last(),
        decreases n - i,
    {
        let c = s.get_char(i);
        proof {
            assert(s@.take(i + 1).drop_last() =~= s@.take(i as int));
            lemma_split_dash_nonempty(s@.take(i as int));
        }
        if c == '-' {
            tokens.push(cur);
            cur = Vec::new();
        } else {
            cur.push(c);
        }
        i = i + 1;
    }
    proof {
        assert(s@.take(n as int) =~= s@);
    }
    tokens.push(cur);
    proof {
        assert forall|j: int| 0 <= j < tokens@.len() implies (#[trigger] tokens@[j])@ == split_dash(s@)[j] by {}
    }
    tokens
}

/// Reads `s` as `spec_parse_num` describes.
fn parse_num(s: &Vec<char>, max: u32) -> (r: Option<u32>)
    requires
        max <= 0xffff,
    ensures
        match spec_parse_num(s@, max as nat) {
            Some(v) => r == Some(v as u32),
            None => r is None,
        },
{
    let n = s.len();
    let start: usize = if n > 0 && s[0] == '+' { 1 } else { 0 };
    let ghost d = unsigned_digits(s@);
    proof {
        assert(d =~= s@.subrange(start as int, n as int));
    }
    if start == n {
        return None;
    }
    let mut acc: u32 = 0;
    let mut too_big = false;
    let mut i: usize = start;
    while i < n
        invariant
            n == s@.len(),
            start <= i <= n,
            d == unsigned_digits(s@),
            d == s@.subrange(start as int, n as int),
            max <= 0xffff,
            all_digits(s@.subrange(start as int, i as int)),
            !too_big ==> acc as nat == digits_value(s@.subrange(start as int, i as int)) && acc <= max,
            too_big ==> digits_value(s@.subrange(start as int, i as int)) > max,
        decreases n - i,
    {
        let c = s[i];
        if !('0' <= c && c <= '9') {
            proof {
                assert(!is_digit(d[i - start]));
            }
            return None;
        }
        let dig = (c as u32) - 48;
        proof {
            let p = s@.subrange(start as int, i + 1);
            assert(p.drop_last() =~= s@.subrange(start as int, i as int));
            assert(p.last() == c);
        }
        if !too_big {
            let next = acc * 10 + dig;
            if next > max {
                too_big = true;
            } else {
                acc = next;
            }
        }
        i = i + 1;
    }
    if too_big {
        None
    } else {
        Some(acc)
    }
}

/// Why an identifier was refused. Checks run in the order of the variants and
/// stop at the first that fails.
#[derive(Debug, Clone, Copy, PartialEq, Eq, Structural)]
pub enum ParseError {
    /// The identifier does not have exactly four dash-separated parts.
    InvalidLength,
    /// The first part names no known source.
    InvalidSource,
    /// The year is not an unsigned 16-bit number.
    InvalidYear,
    /// The month is not an unsigned 8-bit number.
    InvalidMonthFormat,
    /// The month is not 1 to 12.
    InvalidMonthRange,
    /// The day is not an unsigned 8-bit number.
    InvalidDayFormat,
    /// The day is 0.
    InvalidDayIsZero,
    /// The day is past the end of the month, which has `max` days.
    InvalidDayRange { max: u8 },
}

/// The text that describes each error.
pub open spec fn spec_message(e: ParseError) -> Seq<char> {
    match e {
        ParseError::InvalidLength => "invalid ID length"@,
        ParseError::InvalidSource => "invalid source ID"@,
        ParseError::InvalidYear => "invalid year value"@,
        ParseError::InvalidMonthFormat => "invalid month value"@,
        ParseError::InvalidMonthRange => "month value out of range"@,
        ParseError::InvalidDayFormat => "invalid day value"@,
        ParseError::InvalidDayIsZero => "0 is not a valid day value"@,
        ParseError::InvalidDayRange { max } => "day must be less than or equal to "@ + spec_decimal(
            max as nat,
        ),
    }
}

impl ParseError {
    /// A sentence that says what is wrong with the identifier.
    pub fn to_message(&self) -> (r: String)
        ensures
            r@ == spec_message(*self),
    {
        match self {
            ParseError::InvalidLength => "invalid ID length".to_owned(),
            ParseError::InvalidSource => "invalid source ID".to_owned(),
            ParseError::InvalidYear => "invalid year value".to_owned(),
            ParseError::InvalidMonthFormat => "invalid month value".to_owned(),
            ParseError::InvalidMonthRange => "month value out of range".to_owned(),
            ParseError::InvalidDayFormat => "invalid day value".to_owned(),
            ParseError::InvalidDayIsZero => "0 is not a valid day value".to_owned(),
            ParseError::InvalidDayRange { max } => {
                let mut m = "day must be less than or equal to ".to_owned();
                push_decimal(&mut m, *max as u16);
                m
            },
        }
    }
}

/// What `parse_id` returns for the identifier `s`.
pub open spec fn spec_parse_id(s: Seq<char>) -> Result<PuzzleId, ParseError> {
    let t = split_dash(s);
    if t.len() != 4 {
        Err(ParseError::InvalidLength)
    } else if t[0] != seq!['l', 'a', 't'] {
        Err(ParseError::InvalidSource)
    } else {
        match spec_parse_num(t[1], 0xffff) {
            None => Err(ParseError::InvalidYear),
            Some(year) => match spec_parse_num(t[2], 0xff) {
                None => Err(ParseError::InvalidMonthFormat),
                Some(month) => if !(1 <= month <= 12) {
                    Err(ParseError::InvalidMonthRange)
                } else {
                    match spec_parse_num(t[3], 0xff) {
                        None => Err(ParseError::InvalidDayFormat),
                        Some(day) => {
                            let max = spec_days_in_month(year as int, month as int);
                            if day == 0 {
                                Err(ParseError::InvalidDayIsZero)
                            } else if day > max {
                                Err(ParseError::InvalidDayRange { max: max as u8 })
                            } else {
                                Ok(
                                    PuzzleId {
                                        source_id: SourceId::LaTimes,
                                        date: PuzzleDate {
                                            year: year as u16,
                                            month: month as u8,
                                            day: day as u8,
                                        },
                                    },
                                )
                            }
                        },
                    }
                },
            },
        }
    }
}

/// Parses an identifier of the form `source-year-month-day`, such as
/// `lat-2019-1-2`, into a calendar-correct puzzle identifier.
pub fn parse_id(id: String) -> (r: Result<PuzzleId, ParseError>)
    ensures
        r == spec_parse_id(id@),
        r matches Ok(p) ==> p.wf(),
{
    let tokens = split_on_dash(id.as_str());
    if tokens.len() != 4 {
        return Err(ParseError::InvalidLength);
    }
    let ghost t = split_dash(id@);
    proof {
        assert(tokens@[0]@ == t[0]);
    }
    let src = &tokens[0];
    if !(src.len() == 3 && src[0] == 'l' && src[1] == 'a' && src[2] == 't') {
        proof {
            if src@ =~= seq!['l', 'a', 't'] {
                assert(src@[0] == 'l' && src@[1] == 'a' && src@[2] == 't');
            }
        }
        return Err(ParseError::InvalidSource);
    }
    proof {
        assert(src@ =~= seq!['l', 'a', 't']);
        assert(tokens@[1]@ == t[1]);
        assert(tokens@[2]@ == t[2]);
        assert(tokens@[3]@ == t[3]);
    }
    let year = match parse_num(&tokens[1], 0xffff) {
        Some(y) => y as u16,
        None => return Err(ParseError::InvalidYear),
    };
    let month = match parse_num(&tokens[2], 0xff) {
        Some(m) => m as u8,
        None => return Err(ParseError::InvalidMonthFormat),
    };
    if !(1 <= month && month <= 12) {
        return Err(ParseError::InvalidMonthRange);
    }
    let day = match parse_num(&tokens[3], 0xff) {
        Some(d) => d as u8,
        None => return Err(ParseError::InvalidDayFormat),
    };
    if day == 0 {
        return Err(ParseError::InvalidDayIsZero);
    }
    let max = days_in_month(year, month);
    if day > max {
        return Err(ParseError::InvalidDayRange { max });
    }
    Ok(PuzzleId { source_id: SourceId::LaTimes, date: PuzzleDate { year, month, day } })
}

proof fn lemma_split_dash_append(x: Seq<char>, b: Seq<char>)
    requires
        forall|i: int| 0 <= i < b.len() ==> b[i] != '-',
    ensures
        split_dash(x + b) == split_dash(x).update(
            split_dash(x).len() - 1,
            split_dash(x).last() + b,
        ),
    decreases b.len(),
{
    lemma_split_dash_nonempty(x);
    if b.len() == 0 {
        assert(x + b =~= x);
        assert(split_dash(x).last() + b =~= split_dash(x).last());
        assert(split_dash(x).update(split_dash(x).len() - 1, split_dash(x).last()) =~= split_dash(x));
    } else {
        let b0 = b.drop_last();
        lemma_split_dash_append(x, b0);
        assert((x + b).drop_last() =~= x + b0);
        assert((x + b).last() == b.last());
        assert(b[b.len() - 1] != '-');
        let prev = split_dash(x + b0);
        assert(prev.len() == split_dash(x).len());
        assert(prev.last() == split_dash(x).last() + b0);
        assert(split_dash(x + b) == prev.update(prev.len() - 1, prev.last().push(b.last())));
        assert((split_dash(x).last() + b0).push(b.last()) =~= split_dash(x).last() + b);
        assert(split_dash(x + b) =~= split_dash(x).update(
            split_dash(x).len() - 1,
            split_dash(x).last() + b,
        ));
    }
}

proof fn lemma_split_dash_then(x: Seq<char>, b: Seq<char>)
    requires
        forall|i: int| 0 <= i < b.len() ==> b[i] != '-',
    ensures
        split_dash(x + seq!['-'] + b) == split_dash(x).push(b),
{
    let xd = x + seq!['-'];
    assert(xd.drop_last() =~= x);
    lemma_split_dash_append(xd, b);
    assert(split_dash(xd).last() + b =~= b);
    assert(split_dash(xd).update(split_dash(xd).len() - 1, b) =~= split_dash(x).push(b));
}

proof fn lemma_decimal_digits(n: nat)
    ensures
        spec_decimal(n).len() > 0,
        all_digits(spec_decimal(n)),
        digits_value(spec_decimal(n)) == n,
    decreases n,
{
    reveal_with_fuel(digits_value, 2);
    if n >= 10 {
        lemma_decimal_digits(n / 10);
        let d = spec_decimal(n);
        assert(d.drop_last() =~= spec_decimal(n / 10));
        assert forall|i: int| 0 <= i < d.len() implies is_digit(#[trigger] d[i]) by {
            if i < d.len() - 1 {
                assert(d[i] == spec_decimal(n / 10)[i]);
            }
        }
    }
}

proof fn lemma_parse_decimal(n: nat, max: nat)
    requires
        n <= max,
    ensures
        spec_parse_num(spec_decimal(n), max) == Some(n),
{
    lemma_decimal_digits(n);
    assert(is_digit(spec_decimal(n)[0]));
}

/// Formatting an identifier and parsing the text gives the identifier back.
pub proof fn lemma_parse_text_round_trip(id: PuzzleId)
    requires
        id.wf(),
    ensures
        spec_parse_id(id.spec_text()) == Ok::<PuzzleId, ParseError>(id),
{
    let y = spec_decimal(id.date.year as nat);
    let m = spec_decimal(id.date.month as nat);
    let d = spec_decimal(id.date.day as nat);
    lemma_decimal_digits(id.date.year as nat);
    lemma_decimal_digits(id.date.month as nat);
    lemma_decimal_digits(id.date.day as nat);
    assert forall|b: Seq<char>| all_digits(b) implies forall|i: int|
        0 <= i < b.len() ==> b[i] != '-' by {
        assert forall|i: int| 0 <= i < b.len() implies b[i] != '-' by {
            assert(is_digit(b[i]));
        }
    }
    let name = id.source_id.spec_name();
    let empty = Seq::<char>::empty();
    lemma_split_dash_append(empty, name);
    assert(empty + name =~= name);
    assert(split_dash(name) =~= seq![name]);
    lemma_split_dash_then(name, y);
    lemma_split_dash_then(name + seq!['-'] + y, m);
    lemma_split_dash_then(name + seq!['-'] + y + seq!['-'] + m, d);
    assert(id.spec_text() =~= name + seq!['-'] + y + seq!['-'] + m + seq!['-'] + d);
    let t = split_dash(id.spec_text());
    assert(t =~= seq![name, y, m, d]);
    lemma_parse_decimal(id.date.year as nat, 0xffff);
    lemma_parse_decimal(id.date.month as nat, 0xff);
    lemma_parse_decimal(id.date.day as nat, 0xff);
}

} // verus!
