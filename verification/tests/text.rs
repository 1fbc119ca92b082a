use minute_of_silence::mpris::{
    is_mpris_player_name, mpris_pause_targets, mpris_players, mpris_resume_targets,
    should_pause_player,
};
use minute_of_silence::platform::AppError;
use minute_of_silence::text::decimal_string;
use minute_of_silence::timezone::{detect_local_offset, zone_name_from_link};

const LISTING: &str = "method return time=1.2 sender=org.freedesktop.DBus -> destination=:1.9 serial=3 reply_serial=2\r\n   array [\r\n      string \"org.freedesktop.DBus\"\r\n      string \":1.7\"\r\n      string \"org.mpris.MediaPlayer2.spotify\"\r\n      string \"org.mpris.MediaPlayer2.vlc\"\n      string \"org.gnome.Shell\"\n   ]\n";

#[test]
fn players_are_read_from_the_listing() {
    assert_eq!(
        mpris_players(LISTING),
        vec!["org.mpris.MediaPlayer2.spotify".to_string(), "org.mpris.MediaPlayer2.vlc".to_string()]
    );
}

#[test]
fn listing_edge_cases() {
    assert!(mpris_players("").is_empty());
    // A field without a closing quote runs to the end of the line; the final
    // line needs no newline and keeps a bare carriage return.
    assert_eq!(mpris_players("x \"org.mpris.MediaPlayer2.a\r"), vec!["org.mpris.MediaPlayer2.a\r".to_string()]);
    assert_eq!(mpris_players("x \"org.mpris.MediaPlayer2.a\r\n"), vec!["org.mpris.MediaPlayer2.a".to_string()]);
    // The bus entry itself and lines without quotes are skipped.
    assert!(mpris_players("\"org.freedesktop.DBus\" org.mpris.MediaPlayer2\n").is_empty());
    assert!(mpris_players("org.mpris.MediaPlayer2.x\n").is_empty());
    // The quoted text is taken even when the marker stands outside the quotes.
    assert_eq!(mpris_players("org.mpris.MediaPlayer2 \"other\"\n"), vec!["other".to_string()]);
}

#[test]
fn pause_needs_players_resume_does_not() {
    match mpris_pause_targets(false, LISTING) {
        Err(AppError::Platform(m)) => assert_eq!(m, "Failed to list D-Bus names"),
        other => panic!("unexpected {:?}", other),
    }
    match mpris_pause_targets(true, "nothing here\n") {
        Err(AppError::Platform(m)) => assert_eq!(m, "No MPRIS players found"),
        other => panic!("unexpected {:?}", other),
    }
    assert_eq!(mpris_pause_targets(true, LISTING).unwrap().len(), 2);
    assert!(mpris_resume_targets(true, "nothing here\n").unwrap().is_empty());
    assert!(mpris_resume_targets(false, LISTING).is_err());
}

#[test]
fn bus_names_and_playback_status() {
    assert!(is_mpris_player_name("org.mpris.MediaPlayer2.spotify"));
    assert!(!is_mpris_player_name("org.mpris.MediaPlayer2"));
    assert!(!is_mpris_player_name("org.gnome.Shell"));
    assert!(should_pause_player("Playing"));
    assert!(!should_pause_player("Paused"));
    assert!(!should_pause_player("Playing!"));
}

#[test]
fn zone_names_from_links() {
    assert_eq!(zone_name_from_link("/usr/share/zoneinfo/Europe/Kyiv"), Some("Europe/Kyiv".to_string()));
    assert_eq!(zone_name_from_link("Europe/Berlin"), Some("Europe/Berlin".to_string()));
    assert_eq!(zone_name_from_link("/a/zoneinfo/b/zoneinfo/ UTC\n"), Some("UTC".to_string()));
    assert_eq!(zone_name_from_link("/usr/share/zoneinfo/   "), None);
    assert_eq!(zone_name_from_link(""), None);
}

#[test]
fn local_offset_from_the_zone_database() {
    let winter = 1_704_067_200; // 2024-01-01T00:00:00Z
    let summer = 1_719_792_000; // 2024-07-01T00:00:00Z
    assert_eq!(detect_local_offset(Some("/usr/share/zoneinfo/Europe/Kyiv"), winter, 99), 7200);
    assert_eq!(detect_local_offset(Some("/usr/share/zoneinfo/Europe/Kyiv"), summer, 99), 10800);
    assert_eq!(detect_local_offset(Some("/usr/share/zoneinfo/Not/AZone"), winter, 99), 99);
    assert_eq!(detect_local_offset(Some("/usr/share/zoneinfo/"), winter, 99), 99);
    assert_eq!(detect_local_offset(None, winter, -3600), -3600);
}

#[test]
fn decimal_rendering_matches_display() {
    assert_eq!(decimal_string(0), "0");
    assert_eq!(decimal_string(7), "7");
    assert_eq!(decimal_string(10), "10");
    assert_eq!(decimal_string(1234567890), "1234567890");
    assert_eq!(decimal_string(u128::MAX), u128::MAX.to_string());
}
