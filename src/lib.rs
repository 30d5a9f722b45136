//! Puzzle identifiers, the location of each puzzle at its origin, the wire
//! format of cache entries, and the cache-aside retrieval of puzzle content.
pub mod calendar;
pub mod codec;
pub mod parser;
pub mod retrieval;
pub mod text;
pub mod types;
pub mod url;

pub use calendar::{days_in_month, is_leap_year};
pub use codec::{decode_content, encode_content, encode_id};
pub use parser::{parse_id, ParseError};
pub use retrieval::{CacheReply, Command, Event, Retrieval, Stage, CACHE_TTL_SECS};
pub use text::truncate_string;
pub use types::{PuzzleDate, PuzzleId, PuzzlesContent, PuzzlesContentType, SourceId};
pub use url::id_to_url;
