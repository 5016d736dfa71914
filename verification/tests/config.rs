use awebot::config::{Config, Game, Irc};

fn bare() -> Config {
    Config {
        irc: Irc {
            server: "irc.example.net".to_owned(),
            lobby: "#lobby".to_owned(),
            nickname: None,
            port: None,
            use_ssl: None,
        },
        game: Game { database: None, reward_time: None, reward_rate: None },
    }
}

fn full() -> Config {
    Config {
        irc: Irc {
            server: "irc.example.net".to_owned(),
            lobby: "#lobby".to_owned(),
            nickname: Some("merv".to_owned()),
            port: Some(6697),
            use_ssl: Some(true),
        },
        game: Game {
            database: Some("game.db".to_owned()),
            reward_time: Some(5),
            reward_rate: Some(75),
        },
    }
}

#[test]
fn getters_fall_back_to_the_defaults() {
    let c = bare();
    assert_eq!(c.server(), "irc.example.net");
    assert_eq!(c.lobby(), "#lobby");
    assert_eq!(c.nickname(), "awebot");
    assert_eq!(c.port(), 6667);
    assert!(!c.use_ssl());
    assert_eq!(c.database(), "awebot.db");
    assert_eq!(c.reward_time(), 60);
    assert_eq!(c.reward_rate(), 50);
}

#[test]
fn getters_give_what_is_configured() {
    let c = full();
    assert_eq!(c.nickname(), "merv");
    assert_eq!(c.port(), 6697);
    assert!(c.use_ssl());
    assert_eq!(c.database(), "game.db");
    assert_eq!(c.reward_time(), 5);
    assert_eq!(c.reward_rate(), 75);
}

#[test]
fn irc_config_joins_the_lobby_as_a_bot() {
    let irc = bare().into_irc_config("awebot 0.1.0");
    assert_eq!(irc.nickname.as_deref(), Some("awebot"));
    assert_eq!(irc.server.as_deref(), Some("irc.example.net"));
    assert_eq!(irc.port, None);
    assert_eq!(irc.use_ssl, None);
    assert_eq!(irc.channels, Some(vec!["#lobby".to_owned()]));
    assert_eq!(irc.umodes.as_deref(), Some("+B"));
    assert_eq!(irc.user_info.as_deref(), Some("merveille: an IRC collect-and-combat game."));
    assert_eq!(irc.version.as_deref(), Some("awebot 0.1.0"));
    let irc = full().into_irc_config("v");
    assert_eq!(irc.nickname.as_deref(), Some("merv"));
    assert_eq!(irc.port, Some(6697));
    assert_eq!(irc.use_ssl, Some(true));
}
