//! The chess.com adapter: where its two documents are found, and how they
//! become one record.
//!
//! The profile document names the player. The statistics document has one
//! entry for each time control the player has a rating in, and within it the
//! most recent rating. An entry that is missing, or that has no most recent
//! rating, counts as the default rating.

use crate::fmt::{KnownData, KnownDataView};
use crate::source::{shown_title, title_or_default, DEFAULT_DEVIATION, DEFAULT_RATING};
use vstd::prelude::*;

verus! {

/// The profile document.
#[derive(Debug, Clone, PartialEq, Eq)]
pub struct UserData {
    pub player_id: u64,
    pub username: String,
    /// The player's title, where the document has one.
    pub title: Option<String>,
}

/// The most recent rating in one time control.
#[derive(Debug, Clone, Copy, PartialEq, Eq, Structural)]
pub struct LastStats {
    pub date: u64,
    pub rating: u32,
    pub rd: u32,
}

/// The statistics of one time control.
#[derive(Debug, Clone, Copy, PartialEq, Eq)]
pub struct ModeStats {
    /// The most recent rating, where the document has one.
    pub last: Option<LastStats>,
}

/// The statistics document: one entry for each time control that the
/// document has.
#[derive(Debug, Clone, Copy, PartialEq, Eq)]
pub struct Stats {
    pub chess_bullet: Option<ModeStats>,
    pub chess_blitz: Option<ModeStats>,
    pub chess_rapid: Option<ModeStats>,
    pub chess_classical: Option<ModeStats>,
}

impl LastStats {
    /// The rating that stands in for a missing one.
    pub open spec fn unrated() -> LastStats {
        LastStats { date: 0, rating: DEFAULT_RATING, rd: DEFAULT_DEVIATION }
    }
}

impl Default for LastStats {
    fn default() -> (res: LastStats)
        ensures
            res == LastStats::unrated(),
    {
        LastStats { date: 0, rating: DEFAULT_RATING, rd: DEFAULT_DEVIATION }
    }
}

/// The rating to go by in a time control: the most recent one where the
/// entry and its most recent rating are both there, else the default.
pub open spec fn last_known(mode: Option<ModeStats>) -> LastStats {
    match mode {
        Some(ModeStats { last: Some(last) }) => last,
        _ => LastStats::unrated(),
    }
}

/// The record that the two documents amount to.
pub open spec fn normalize(data: UserData, stats: Stats) -> KnownDataView {
    KnownDataView {
        user: data.username@,
        title: shown_title(data.title),
        bullet_elo: last_known(stats.chess_bullet).rating,
        blitz_elo: last_known(stats.chess_blitz).rating,
        rapid_elo: last_known(stats.chess_rapid).rating,
        classical_elo: last_known(stats.chess_classical).rating,
    }
}

/// The rating to go by in a time control.
pub fn latest(mode: Option<ModeStats>) -> (last: LastStats)
    ensures
        last == last_known(mode),
{
    match mode {
        Some(ModeStats { last: Some(last) }) => last,
        _ => LastStats::default(),
    }
}

impl From<(UserData, Stats)> for KnownData {
    /// Joins the profile and the statistics of one player into a record.
    fn from(documents: (UserData, Stats)) -> (res: KnownData)
        ensures
            res@ == normalize(documents.0, documents.1),
    {
        let (data, stats) = documents;
        KnownData {
            user: data.username,
            title: title_or_default(data.title),
            bullet_elo: latest(stats.chess_bullet).rating,
            blitz_elo: latest(stats.chess_blitz).rating,
            rapid_elo: latest(stats.chess_rapid).rating,
            classical_elo: latest(stats.chess_classical).rating,
        }
    }
}

impl vstd::std_specs::convert::FromSpecImpl<(UserData, Stats)> for KnownData {
    /// `from` makes new text for a missing title, so what it returns is
    /// stated over views, in its own `ensures`, and not as one value here.
    open spec fn obeys_from_spec() -> bool {
        false
    }

    open spec fn from_spec(documents: (UserData, Stats)) -> KnownData {
        arbitrary()
    }
}

/// The address of the profile document of `user`.
pub open spec fn profile_address(user: Seq<char>) -> Seq<char> {
    "https://api.chess.com/pub/player/"@ + user
}

/// The address of the statistics document of `user`.
pub open spec fn stats_address(user: Seq<char>) -> Seq<char> {
    profile_address(user) + "/stats"@
}

/// The address of the profile document of `user`.
pub fn profile_url(user: &str) -> (url: String)
    ensures
        url@ == profile_address(user@),
{
    let mut url = String::from_str("https://api.chess.com/pub/player/");
    url.append(user);
    url
}

/// The address of the statistics document of `user`.
pub fn stats_url(user: &str) -> (url: String)
    ensures
        url@ == stats_address(user@),
{
    let mut url = profile_url(user);
    url.append("/stats");
    url
}

/// A time control that the statistics lack, or whose entry lacks a most
/// recent rating, is rated `DEFAULT_RATING` in the record; one that has a
/// most recent rating is rated as that says.
pub proof fn lemma_missing_rating_is_default(data: UserData, stats: Stats)
    ensures
        DEFAULT_RATING == 1500,
        stats.chess_bullet is None || stats.chess_bullet->0.last is None ==> normalize(
            data,
            stats,
        ).bullet_elo == DEFAULT_RATING,
        stats.chess_blitz is None || stats.chess_blitz->0.last is None ==> normalize(
            data,
            stats,
        ).blitz_elo == DEFAULT_RATING,
        stats.chess_rapid is None || stats.chess_rapid->0.last is None ==> normalize(
            data,
            stats,
        ).rapid_elo == DEFAULT_RATING,
        stats.chess_classical is None || stats.chess_classical->0.last is None ==> normalize(
            data,
            stats,
        ).classical_elo == DEFAULT_RATING,
        stats.chess_bullet matches Some(ModeStats { last: Some(last) }) ==> normalize(
            data,
            stats,
        ).bullet_elo == last.rating,
        stats.chess_blitz matches Some(ModeStats { last: Some(last) }) ==> normalize(
            data,
            stats,
        ).blitz_elo == last.rating,
        stats.chess_rapid matches Some(ModeStats { last: Some(last) }) ==> normalize(
            data,
            stats,
        ).rapid_elo == last.rating,
        stats.chess_classical matches Some(ModeStats { last: Some(last) }) ==> normalize(
            data,
            stats,
        ).classical_elo == last.rating,
{
}

} // verus!
