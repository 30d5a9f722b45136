use vstd::prelude::*;

use vstd::string::*;

use crate::calendar::spec_days_in_month;
use crate::text::{push_decimal, spec_decimal};

verus! {

/// The providers that puzzles can be fetched from.
#[derive(Debug, Clone, Copy, PartialEq, Eq, Structural)]
pub enum SourceId {
    LaTimes,
}

/// A calendar date; valid when the month is 1 to 12 and the day exists in that
/// month of that year.
#[derive(Debug, Clone, Copy, PartialEq, Eq, Structural)]
pub struct PuzzleDate {
    pub year: u16,
    pub month: u8,
    pub day: u8,
}

impl PuzzleDate {
    pub open spec fn wf(&self) -> bool {
        &&& 1 <= self.month <= 12
        &&& 1 <= self.day <= spec_days_in_month(self.year as int, self.month as int)
    }
}

/// One puzzle: its provider and its date. Used as the cache key.
#[derive(Debug, Clone, Copy, PartialEq, Eq, Structural)]
pub struct PuzzleId {
    pub source_id: SourceId,
    pub date: PuzzleDate,
}

impl SourceId {
    pub open spec fn spec_name(&self) -> Seq<char> {
        match self {
            SourceId::LaTimes => seq!['l', 'a', 't'],
        }
    }

    /// The short name that identifiers use for this source.
    pub fn name(&self) -> (r: &'static str)
        ensures
            r@ == self.spec_name(),
    {
        match self {
            SourceId::LaTimes => {
                proof {
                    reveal_strlit("lat");
                }
                "lat"
            },
        }
    }
}

impl PuzzleId {
    pub open spec fn wf(&self) -> bool {
        self.date.wf()
    }

    /// The identifier in its textual form, `source-year-month-day`.
    pub open spec fn spec_text(&self) -> Seq<char> {
        self.source_id.spec_name() + seq!['-'] + spec_decimal(self.date.year as nat) + seq!['-']
            + spec_decimal(self.date.month as nat) + seq!['-'] + spec_decimal(self.date.day as nat)
    }

    /// The identifier in its textual form, such as `lat-2019-1-2`.
    pub fn to_text(&self) -> (r: String)
        ensures
            r@ == self.spec_text(),
    {
        let mut s = self.source_id.name().to_owned();
        proof {
            reveal_strlit("-");
        }
        s.append("-");
        push_decimal(&mut s, self.date.year);
        s.append("-");
        push_decimal(&mut s, self.date.month as u16);
        s.append("-");
        push_decimal(&mut s, self.date.day as u16);
        proof {
            assert(s@ =~= self.spec_text());
        }
        s
    }
}

/// The format of a puzzle's content.
#[derive(Debug, Clone, Copy, PartialEq, Eq, Structural)]
pub enum PuzzlesContentType {
    Xml,
}

/// A puzzle's content, as fetched from its origin or read from the cache.
#[derive(Debug)]
pub struct PuzzlesContent {
    pub content: String,
    pub content_type: PuzzlesContentType,
}

pub struct PuzzlesContentView {
    pub content: Seq<char>,
    pub content_type: PuzzlesContentType,
}

impl View for PuzzlesContent {
    type V = PuzzlesContentView;

    open spec fn view(&self) -> PuzzlesContentView {
        PuzzlesContentView { content: self.content@, content_type: self.content_type }
    }
}

} // verus!
