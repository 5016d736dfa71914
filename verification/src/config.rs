//! The bot's configuration and the defaults for what it leaves out.

use vstd::prelude::*;
use crate::text::texts;

verus! {

/// The nickname used when none is configured.
pub open spec fn default_nickname() -> Seq<char> {
    "awebot"@
}

/// The database used when none is configured.
pub open spec fn default_database() -> Seq<char> {
    "awebot.db"@
}

/// The port used when none is configured.
pub const DEFAULT_PORT: u16 = 6667;

/// The reward interval used when none is configured.
pub const DEFAULT_REWARD_TIME: u16 = 60;

/// The reward rate used when none is configured.
pub const DEFAULT_REWARD_RATE: u32 = 50;

/// The user modes that the bot asks for: it marks itself as a bot.
pub open spec fn bot_umodes() -> Seq<char> {
    "+B"@
}

/// What the bot says of itself to the network.
pub open spec fn bot_user_info() -> Seq<char> {
    "merveille: an IRC collect-and-combat game."@
}

/// The text of an optional string.
pub open spec fn opt_text(o: Option<String>) -> Option<Seq<char>> {
    match o {
        Some(s) => Some(s@),
        None => None,
    }
}

/// The whole configuration.
#[derive(Clone, Debug, PartialEq, Eq)]
pub struct Config {
    pub irc: Irc,
    pub game: Game,
}

/// How to reach the network.
#[derive(Clone, Debug, PartialEq, Eq)]
pub struct Irc {
    pub server: String,
    pub lobby: String,
    pub nickname: Option<String>,
    pub port: Option<u16>,
    pub use_ssl: Option<bool>,
}

/// The settings of the game; every one may be left out.
#[derive(Clone, Debug, PartialEq, Eq)]
pub struct Game {
    pub database: Option<String>,
    pub reward_time: Option<u16>,
    pub reward_rate: Option<u32>,
}

/// The settings that a connection is made with.
#[derive(Clone, Debug, PartialEq, Eq)]
pub struct IrcConfig {
    pub nickname: Option<String>,
    pub server: Option<String>,
    pub port: Option<u16>,
    pub use_ssl: Option<bool>,
    pub channels: Option<Vec<String>>,
    pub umodes: Option<String>,
    pub user_info: Option<String>,
    pub version: Option<String>,
}

impl Config {
    /// The nickname as a text: the configured one, or the default.
    pub open spec fn nickname_text(&self) -> Seq<char> {
        match self.irc.nickname {
            Some(n) => n@,
            None => default_nickname(),
        }
    }

    /// The database as a text: the configured one, or the default.
    pub open spec fn database_text(&self) -> Seq<char> {
        match self.game.database {
            Some(d) => d@,
            None => default_database(),
        }
    }

    /// The server to connect to.
    pub fn server(&self) -> (r: &str)
        ensures
            r@ == self.irc.server@,
    {
        self.irc.server.as_str()
    }

    /// The channel whose members the bot keeps track of.
    pub fn lobby(&self) -> (r: &str)
        ensures
            r@ == self.irc.lobby@,
    {
        self.irc.lobby.as_str()
    }

    /// The bot's nickname, `awebot` unless configured.
    pub fn nickname(&self) -> (r: &str)
        ensures
            r@ == self.nickname_text(),
    {
        match &self.irc.nickname {
            Some(n) => n.as_str(),
            None => "awebot",
        }
    }

    /// The server's port, 6667 unless configured.
    pub fn port(&self) -> (r: u16)
        ensures
            r == match self.irc.port {
                Some(p) => p,
                None => DEFAULT_PORT,
            },
    {
        match self.irc.port {
            Some(p) => p,
            None => DEFAULT_PORT,
        }
    }

    /// Whether to connect over TLS; not unless configured.
    pub fn use_ssl(&self) -> (r: bool)
        ensures
            r == (self.irc.use_ssl == Some(true)),
    {
        match self.irc.use_ssl {
            Some(b) => b,
            None => false,
        }
    }

    /// The path of the database, `awebot.db` unless configured.
    pub fn database(&self) -> (r: &str)
        ensures
            r@ == self.database_text(),
    {
        match &self.game.database {
            Some(d) => d.as_str(),
            None => "awebot.db",
        }
    }

    /// Seconds between two reward sweeps, 60 unless configured.
    pub fn reward_time(&self) -> (r: u16)
        ensures
            r == match self.game.reward_time {
                Some(t) => t,
                None => DEFAULT_REWARD_TIME,
            },
    {
        match self.game.reward_time {
            Some(t) => t,
            None => DEFAULT_REWARD_TIME,
        }
    }

    /// The reward rate, 50 unless configured.
    pub fn reward_rate(&self) -> (r: u32)
        ensures
            r == match self.game.reward_rate {
                Some(t) => t,
                None => DEFAULT_REWARD_RATE,
            },
    {
        match self.game.reward_rate {
            Some(t) => t,
            None => DEFAULT_REWARD_RATE,
        }
    }

    /// The settings for the connection: the nickname (the default where none
    /// is configured), the server, port and TLS choice as configured, the
    /// lobby as the one channel to join, the bot's user modes and user
    /// information, and `version` as the client version.
    pub fn into_irc_config(self, version: &str) -> (out: IrcConfig)
        ensures
            opt_text(out.nickname) == Some(self.nickname_text()),
            opt_text(out.server) == Some(self.irc.server@),
            out.port == self.irc.port,
            out.use_ssl == self.irc.use_ssl,
            out.channels matches Some(c) && texts(c@) == seq![self.irc.lobby@],
            opt_text(out.umodes) == Some(bot_umodes()),
            opt_text(out.user_info) == Some(bot_user_info()),
            opt_text(out.version) == Some(version@),
    {
        let irc: Irc = self.irc;
        let nickname: String = match irc.nickname {
            Some(n) => n,
            None => "awebot".to_owned(),
        };
        let mut channels: Vec<String> = Vec::new();
        channels.push(irc.lobby);
        IrcConfig {
            nickname: Some(nickname),
            server: Some(irc.server),
            port: irc.port,
            use_ssl: irc.use_ssl,
            channels: Some(channels),
            umodes: Some("+B".to_owned()),
            user_info: Some("merveille: an IRC collect-and-combat game.".to_owned()),
            version: Some(version.to_owned()),
        }
    }
}

} // verus!
