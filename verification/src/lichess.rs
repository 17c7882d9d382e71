//! The lichess adapter: where its document is found, and how it becomes a
//! record.
//!
//! One document names the player and rates them in five time controls. All
//! five are always there; a time control without games comes with the
//! service's own default values. Four of them make the record;
//! correspondence chess is not part of it.

use crate::fmt::{KnownData, KnownDataView};
use crate::source::{shown_title, title_or_default, DEFAULT_DEVIATION, DEFAULT_RATING};
use vstd::prelude::*;

verus! {

/// The rating in one time control.
#[derive(Debug, Clone, Copy, PartialEq, Eq, Structural)]
pub struct Mode {
    pub games: u32,
    pub rating: u32,
    pub rd: u32,
    pub prog: i32,
}

/// The ratings in all time controls.
#[derive(Debug, Clone, Copy, PartialEq, Eq, Structural)]
pub struct Perfs {
    pub bullet: Mode,
    pub blitz: Mode,
    pub rapid: Mode,
    pub classical: Mode,
    pub correspondence: Mode,
}

/// The user document.
#[derive(Debug, Clone, PartialEq, Eq)]
pub struct UserData {
    pub id: String,
    pub username: String,
    /// The player's title, where the document has one.
    pub title: Option<String>,
    pub perfs: Perfs,
}

impl Mode {
    /// The values of a time control without games.
    pub open spec fn unrated() -> Mode {
        Mode { games: 0, rating: DEFAULT_RATING, rd: DEFAULT_DEVIATION, prog: 0 }
    }
}

impl Default for Mode {
    fn default() -> (res: Mode)
        ensures
            res == Mode::unrated(),
    {
        Mode { games: 0, rating: DEFAULT_RATING, rd: DEFAULT_DEVIATION, prog: 0 }
    }
}

/// The record that the document amounts to.
pub open spec fn normalize(data: UserData) -> KnownDataView {
    KnownDataView {
        user: data.username@,
        title: shown_title(data.title),
        bullet_elo: data.perfs.bullet.rating,
        blitz_elo: data.perfs.blitz.rating,
        rapid_elo: data.perfs.rapid.rating,
        classical_elo: data.perfs.classical.rating,
    }
}

impl From<UserData> for KnownData {
    /// Makes the record of a player from their document.
    fn from(udata: UserData) -> (res: KnownData)
        ensures
            res@ == normalize(udata),
    {
        KnownData {
            user: udata.username,
            title: title_or_default(udata.title),
            bullet_elo: udata.perfs.bullet.rating,
            blitz_elo: udata.perfs.blitz.rating,
            rapid_elo: udata.perfs.rapid.rating,
            classical_elo: udata.perfs.classical.rating,
        }
    }
}

impl vstd::std_specs::convert::FromSpecImpl<UserData> for KnownData {
    /// `from` makes new text for a missing title, so what it returns is
    /// stated over views, in its own `ensures`, and not as one value here.
    open spec fn obeys_from_spec() -> bool {
        false
    }

    open spec fn from_spec(udata: UserData) -> KnownData {
        arbitrary()
    }
}

/// The address of the document of `user`.
pub open spec fn user_address(user: Seq<char>) -> Seq<char> {
    "https://lichess.org/api/user/"@ + user
}

/// The address of the document of `user`.
pub fn user_url(user: &str) -> (url: String)
    ensures
        url@ == user_address(user@),
{
    let mut url = String::from_str("https://lichess.org/api/user/");
    url.append(user);
    url
}

/// Correspondence chess has no part in the record: two documents that
/// differ in nothing else amount to the same record.
pub proof fn lemma_correspondence_ignored(data: UserData, correspondence: Mode)
    ensures
        normalize(
            UserData { perfs: Perfs { correspondence, ..data.perfs }, ..data },
        ) == normalize(data),
{
}

/// A time control without games, which comes with the default values, is
/// rated `DEFAULT_RATING` in the record.
pub proof fn lemma_unrated_is_default(data: UserData)
    ensures
        DEFAULT_RATING == 1500,
        data.perfs.bullet == Mode::unrated() ==> normalize(data).bullet_elo == DEFAULT_RATING,
        data.perfs.blitz == Mode::unrated() ==> normalize(data).blitz_elo == DEFAULT_RATING,
        data.perfs.rapid == Mode::unrated() ==> normalize(data).rapid_elo == DEFAULT_RATING,
        data.perfs.classical == Mode::unrated() ==> normalize(data).classical_elo
            == DEFAULT_RATING,
{
}

} // verus!
