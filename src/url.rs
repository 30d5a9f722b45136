use vstd::prelude::*;
use vstd::string::*;

use crate::text::{push_two_digits, spec_two_digits};
use crate::types::{PuzzleId, PuzzlesContentType, SourceId};

verus! {

/// Where a puzzle lives at its origin: one fixed template per source.
pub open spec fn spec_url(id: PuzzleId) -> Seq<char> {
    match id.source_id {
        SourceId::LaTimes => "http://cdn.games.arkadiumhosted.com/latimes/assets/DailyCrossword/la"@
            + spec_two_digits((id.date.year % 100) as nat) + spec_two_digits(id.date.month as nat)
            + spec_two_digits(id.date.day as nat) + ".xml"@,
    }
}

/// The format in which a source serves its puzzles.
pub open spec fn spec_content_type(id: PuzzleId) -> PuzzlesContentType {
    match id.source_id {
        SourceId::LaTimes => PuzzlesContentType::Xml,
    }
}

/// The origin URL of a puzzle and the type of the content found there.
pub fn id_to_url(id: &PuzzleId) -> (r: (String, PuzzlesContentType))
    ensures
        r.0@ == spec_url(*id),
        r.1 == spec_content_type(*id),
{
    match id.source_id {
        SourceId::LaTimes => {
            let mut url = "http://cdn.games.arkadiumhosted.com/latimes/assets/DailyCrossword/la".to_owned();
            push_two_digits(&mut url, id.date.year % 100);
            push_two_digits(&mut url, id.date.month as u16);
            push_two_digits(&mut url, id.date.day as u16);
            url.append(".xml");
            (url, PuzzlesContentType::Xml)
        },
    }
}

} // verus!
