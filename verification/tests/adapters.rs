use eloget::chesscom;
use eloget::error::EloGetError;
use eloget::fmt::{format_str, KnownData};
use eloget::lichess;
use eloget::source::{default_title, title_or_default, Source, DEFAULT_DEVIATION, DEFAULT_RATING};

fn rated(rating: u32) -> Option<chesscom::ModeStats> {
    Some(chesscom::ModeStats {
        last: Some(chesscom::LastStats { date: 1_700_000_000, rating, rd: 42 }),
    })
}

fn hikaru() -> chesscom::UserData {
    chesscom::UserData {
        player_id: 15448422,
        username: String::from("hikaru"),
        title: Some(String::from("GM")),
    }
}

fn perf(games: u32, rating: u32) -> lichess::Mode {
    lichess::Mode { games, rating, rd: 60, prog: -3 }
}

fn thibault() -> lichess::UserData {
    lichess::UserData {
        id: String::from("thibault"),
        username: String::from("Thibault"),
        title: None,
        perfs: lichess::Perfs {
            bullet: perf(10, 1601),
            blitz: perf(20, 1702),
            rapid: perf(30, 1803),
            classical: perf(40, 1904),
            correspondence: perf(50, 2005),
        },
    }
}

#[test]
fn default_rating_is_1500_with_deviation_500() {
    assert_eq!(DEFAULT_RATING, 1500);
    assert_eq!(DEFAULT_DEVIATION, 500);
    assert_eq!(
        chesscom::LastStats::default(),
        chesscom::LastStats { date: 0, rating: 1500, rd: 500 }
    );
    assert_eq!(
        lichess::Mode::default(),
        lichess::Mode { games: 0, rating: 1500, rd: 500, prog: 0 }
    );
}

#[test]
fn chesscom_record_joins_profile_and_stats() {
    let stats = chesscom::Stats {
        chess_bullet: rated(3200),
        chess_blitz: rated(3100),
        chess_rapid: rated(2900),
        chess_classical: rated(2800),
    };
    assert_eq!(
        KnownData::from((hikaru(), stats)),
        KnownData {
            user: String::from("hikaru"),
            title: String::from("GM"),
            bullet_elo: 3200,
            blitz_elo: 3100,
            rapid_elo: 2900,
            classical_elo: 2800,
        }
    );
}

#[test]
fn chesscom_missing_time_control_is_rated_1500() {
    let stats = chesscom::Stats {
        chess_bullet: None,
        chess_blitz: rated(3100),
        chess_rapid: None,
        chess_classical: None,
    };
    let data = KnownData::from((hikaru(), stats));
    assert_eq!(data.bullet_elo, 1500);
    assert_eq!(data.blitz_elo, 3100);
    assert_eq!(data.rapid_elo, 1500);
    assert_eq!(data.classical_elo, 1500);
}

#[test]
fn chesscom_time_control_without_last_rating_is_rated_1500() {
    let stats = chesscom::Stats {
        chess_bullet: rated(3200),
        chess_blitz: Some(chesscom::ModeStats { last: None }),
        chess_rapid: rated(2900),
        chess_classical: Some(chesscom::ModeStats { last: None }),
    };
    let data = KnownData::from((hikaru(), stats));
    assert_eq!(data.bullet_elo, 3200);
    assert_eq!(data.blitz_elo, 1500);
    assert_eq!(data.rapid_elo, 2900);
    assert_eq!(data.classical_elo, 1500);
}

#[test]
fn chesscom_latest_rating_or_default() {
    assert_eq!(chesscom::latest(None), chesscom::LastStats { date: 0, rating: 1500, rd: 500 });
    assert_eq!(
        chesscom::latest(Some(chesscom::ModeStats { last: None })),
        chesscom::LastStats { date: 0, rating: 1500, rd: 500 }
    );
    assert_eq!(
        chesscom::latest(rated(2222)),
        chesscom::LastStats { date: 1_700_000_000, rating: 2222, rd: 42 }
    );
}

#[test]
fn chesscom_missing_title_is_none() {
    let profile =
        chesscom::UserData { player_id: 1, username: String::from("nobody"), title: None };
    let stats = chesscom::Stats {
        chess_bullet: None,
        chess_blitz: None,
        chess_rapid: None,
        chess_classical: None,
    };
    let data: KnownData = (profile, stats).into();
    assert_eq!(data.title, "None");
    assert_eq!(data.user, "nobody");
}

#[test]
fn missing_title_is_shown_as_none() {
    assert_eq!(default_title(), "None");
    assert_eq!(title_or_default(None), "None");
    assert_eq!(title_or_default(Some(String::from("WGM"))), "WGM");
    assert_eq!(title_or_default(Some(String::new())), "");
}

#[test]
fn chesscom_addresses() {
    assert_eq!(chesscom::profile_url("fabmazz"), "https://api.chess.com/pub/player/fabmazz");
    assert_eq!(chesscom::stats_url("fabmazz"), "https://api.chess.com/pub/player/fabmazz/stats");
    assert_eq!(chesscom::profile_url(""), "https://api.chess.com/pub/player/");
}

#[test]
fn lichess_record_uses_four_time_controls() {
    assert_eq!(
        KnownData::from(thibault()),
        KnownData {
            user: String::from("Thibault"),
            title: String::from("None"),
            bullet_elo: 1601,
            blitz_elo: 1702,
            rapid_elo: 1803,
            classical_elo: 1904,
        }
    );
}

#[test]
fn lichess_correspondence_never_reaches_the_record() {
    let mut other = thibault();
    other.perfs.correspondence = lichess::Mode { games: 9999, rating: 2999, rd: 1, prog: 77 };
    assert_eq!(KnownData::from(other), KnownData::from(thibault()));
    let mut unrated = thibault();
    unrated.perfs.correspondence = lichess::Mode::default();
    assert_eq!(KnownData::from(unrated), KnownData::from(thibault()));
}

#[test]
fn lichess_account_without_games_is_rated_1500() {
    let fresh = lichess::UserData {
        id: String::from("fresh"),
        username: String::from("fresh"),
        title: None,
        perfs: lichess::Perfs {
            bullet: lichess::Mode::default(),
            blitz: lichess::Mode::default(),
            rapid: lichess::Mode::default(),
            classical: lichess::Mode::default(),
            correspondence: lichess::Mode::default(),
        },
    };
    let data = KnownData::from(fresh);
    assert_eq!(
        (data.bullet_elo, data.blitz_elo, data.rapid_elo, data.classical_elo),
        (1500, 1500, 1500, 1500)
    );
}

#[test]
fn lichess_title_is_kept_where_there_is_one() {
    let mut titled = thibault();
    titled.title = Some(String::from("IM"));
    assert_eq!(KnownData::from(titled).title, "IM");
}

#[test]
fn lichess_address() {
    assert_eq!(lichess::user_url("thibault"), "https://lichess.org/api/user/thibault");
}

#[test]
fn normalized_record_renders_through_the_default_template() {
    let stats = chesscom::Stats {
        chess_bullet: None,
        chess_blitz: rated(1800),
        chess_rapid: None,
        chess_classical: None,
    };
    let profile =
        chesscom::UserData { player_id: 7, username: String::from("fabmazz"), title: None };
    let data = KnownData::from((profile, stats));
    assert_eq!(
        format_str("{user}: {blitz_elo} blitz", data),
        Ok(String::from("fabmazz: 1800 blitz"))
    );
}

#[test]
fn sources_are_found_by_exact_name() {
    assert_eq!(Source::from_name("chesscom"), Ok(Source::Chesscom));
    assert_eq!(Source::from_name("lichess"), Ok(Source::Lichess));
    for name in ["unknown", "", "Lichess", "chess.com", "lichess ", "chesscomm"] {
        assert_eq!(Source::from_name(name), Err(EloGetError::InvalidSource));
    }
}

#[test]
fn fetch_error_messages() {
    assert_eq!(EloGetError::HttpError.to_string(), "Error while handling http stuff.");
    assert_eq!(EloGetError::JsonError.to_string(), "Error while parsing json.");
    assert_eq!(
        EloGetError::InvalidSource.to_string(),
        "Specified source is not valid, or is mispelled."
    );
}

#[test]
fn transport_failure_is_http_error() {
    assert_eq!(EloGetError::from(ureq::Error::ConnectionFailed), EloGetError::HttpError);
    assert_eq!(EloGetError::from(ureq::Error::StatusCode(404)), EloGetError::HttpError);
    assert_eq!(EloGetError::from(ureq::Error::HostNotFound), EloGetError::HttpError);
}
