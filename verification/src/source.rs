//! What the rating services have in common: their names, and the rating
//! that stands in for one a service does not report.

use crate::error::EloGetError;
use crate::text::same_text;
use vstd::prelude::*;

verus! {

/// The rating of a player who has none in a time control.
pub const DEFAULT_RATING: u32 = 1500;

/// The rating deviation that goes with `DEFAULT_RATING`.
pub const DEFAULT_DEVIATION: u32 = 500;

/// The title to show for a player: their own, or `None` where the service
/// reports no title.
pub open spec fn shown_title(title: Option<String>) -> Seq<char> {
    match title {
        Some(title) => title@,
        None => "None"@,
    }
}

/// The title of a player whose service reports none.
pub fn default_title() -> (title: String)
    ensures
        title@ == "None"@,
{
    String::from_str("None")
}

/// The title to show for a player.
pub fn title_or_default(title: Option<String>) -> (shown: String)
    ensures
        shown@ == shown_title(title),
{
    match title {
        Some(title) => title,
        None => default_title(),
    }
}

/// A rating service.
#[derive(Debug, Clone, Copy, PartialEq, Eq, Structural)]
pub enum Source {
    Chesscom,
    Lichess,
}

impl Source {
    /// The service called `name`: `lichess` or `chesscom`, written exactly
    /// so. Any other name is an `InvalidSource` failure.
    pub open spec fn named(name: Seq<char>) -> Result<Source, EloGetError> {
        if name == "lichess"@ {
            Ok(Source::Lichess)
        } else if name == "chesscom"@ {
            Ok(Source::Chesscom)
        } else {
            Err(EloGetError::InvalidSource)
        }
    }

    /// The service called `name`.
    pub fn from_name(name: &str) -> (res: Result<Source, EloGetError>)
        ensures
            res == Source::named(name@),
    {
        if same_text(name, "lichess") {
            Ok(Source::Lichess)
        } else if same_text(name, "chesscom") {
            Ok(Source::Chesscom)
        } else {
            Err(EloGetError::InvalidSource)
        }
    }
}

} // verus!
