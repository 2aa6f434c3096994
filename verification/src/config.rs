//! What the user has configured: the credentials and the video player.
//!
//! Environment variables win over the file. Whoever starts the program reads
//! both and hands them over.

use crate::text::{clone_texts, opt_text, parse_i32, parsed_i32, split_words, texts, words_of};
use std::path::PathBuf;
use vstd::prelude::*;

verus! {

/// The configuration.
#[derive(Debug)]
pub struct Config {
    pub api_id: Option<i32>,
    pub api_hash: Option<String>,
    pub media: MediaConfig,
}

/// The configuration of media.
#[derive(Debug)]
pub struct MediaConfig {
    /// The program that plays videos, with its arguments.
    pub player: Option<Vec<String>>,
}

/// The contents of a [`Config`].
#[verifier::ext_equal]
pub struct ConfigView {
    pub api_id: Option<i32>,
    pub api_hash: Option<Seq<char>>,
    pub player: Option<Seq<Seq<char>>>,
}

impl View for Config {
    type V = ConfigView;

    open spec fn view(&self) -> ConfigView {
        ConfigView {
            api_id: self.api_id,
            api_hash: opt_text(self.api_hash),
            player: match self.media.player {
                Some(argv) => Some(texts(argv@)),
                None => None,
            },
        }
    }
}

impl Default for MediaConfig {
    fn default() -> (c: Self)
        ensures
            c.player is None,
    {
        MediaConfig { player: None }
    }
}

impl Default for Config {
    fn default() -> (c: Self)
        ensures
            c@ == ConfigView::nothing(),
    {
        Config { api_id: None, api_hash: None, media: MediaConfig::default() }
    }
}

impl Clone for MediaConfig {
    fn clone(&self) -> (c: Self)
        ensures
            self.player is Some <==> c.player is Some,
            self.player matches Some(argv) ==> texts(c.player->0@) == texts(argv@),
    {
        MediaConfig {
            player: match &self.player {
                Some(argv) => Some(clone_texts(argv)),
                None => None,
            },
        }
    }
}

impl Clone for Config {
    fn clone(&self) -> (c: Self)
        ensures
            c@ == self@,
    {
        Config {
            api_id: self.api_id,
            api_hash: self.api_hash.clone(),
            media: self.media.clone(),
        }
    }
}

/// What is missing to log in.
#[derive(Debug, Clone, Copy, PartialEq, Eq, Structural)]
pub enum CredentialError {
    NoApiId,
    NoApiHash,
}

impl CredentialError {
    /// The error in words.
    pub fn message(&self) -> (t: &'static str)
        ensures
            t@ == (match *self {
                CredentialError::NoApiId => "api_id missing from config"@,
                CredentialError::NoApiHash => "api_hash missing from config"@,
            }),
    {
        match self {
            CredentialError::NoApiId => "api_id missing from config",
            CredentialError::NoApiHash => "api_hash missing from config",
        }
    }
}

impl ConfigView {
    /// Nothing configured.
    pub open spec fn nothing() -> ConfigView {
        ConfigView { api_id: None, api_hash: None, player: None }
    }

    /// With the environment over it: an id that is a number, and any hash.
    pub open spec fn overridden(
        self,
        api_id: Option<Seq<char>>,
        api_hash: Option<Seq<char>>,
    ) -> ConfigView {
        ConfigView {
            api_id: match api_id {
                Some(v) => match parsed_i32(v) {
                    Some(n) => Some(n),
                    None => self.api_id,
                },
                None => self.api_id,
            },
            api_hash: match api_hash {
                Some(v) => Some(v),
                None => self.api_hash,
            },
            ..self
        }
    }

    /// The player: the words of the environment if there are any, else what
    /// is configured if that is not empty, else `mpv`.
    pub open spec fn player_argv(self, env: Option<Seq<char>>) -> Seq<Seq<char>> {
        if env matches Some(v) && split_words(v).len() > 0 {
            split_words(env->0)
        } else if self.player matches Some(argv) && argv.len() > 0 {
            self.player->0
        } else {
            seq!["mpv"@]
        }
    }
}

/// Where the program keeps its files.
#[derive(Debug)]
pub struct Paths {
    pub config_dir: PathBuf,
    pub data_dir: PathBuf,
    pub config_file: PathBuf,
    pub session_file: PathBuf,
}

/// The name of the configuration file, in the configuration directory.
pub const CONFIG_FILE: &'static str = "config.toml";

/// The name of the session file, in the data directory.
pub const SESSION_FILE: &'static str = "telegram.session";

impl Config {
    /// The directories for configuration and data: those of the platform, or
    /// `fallback` for both where it has none.
    pub fn directories(platform: Option<(PathBuf, PathBuf)>, fallback: PathBuf) -> (dirs: (
        PathBuf,
        PathBuf,
    ))
        ensures
            dirs == (match platform {
                Some(d) => d,
                None => (fallback, fallback),
            }),
    {
        match platform {
            Some(d) => d,
            None => (fallback.clone(), fallback),
        }
    }

    /// The configuration that results from what was read: the file, if there
    /// is one that could be understood, and the two variables for the
    /// credentials.
    pub fn load(
        file: Option<Config>,
        api_id: Option<String>,
        api_hash: Option<String>,
    ) -> (c: Config)
        ensures
            c@ == (match file {
                Some(f) => f@,
                None => ConfigView::nothing(),
            }).overridden(opt_text(api_id), opt_text(api_hash)),
    {
        let mut c = match file {
            Some(f) => f,
            None => Config::default(),
        };
        if let Some(v) = api_id {
            if let Some(n) = parse_i32(v.as_str()) {
                c.api_id = Some(n);
            }
        }
        if let Some(v) = api_hash {
            c.api_hash = Some(v);
        }
        c
    }

    /// The program that plays videos, with its arguments. `env` is the
    /// variable that overrides the file.
    pub fn player_argv(&self, env: Option<String>) -> (argv: Vec<String>)
        ensures
            texts(argv@) == self@.player_argv(opt_text(env)),
            argv@.len() > 0,
    {
        if let Some(v) = env {
            let words = words_of(v.as_str());
            if words.len() > 0 {
                assert(texts(words@).len() == words@.len());
                return words;
            }
            assert(texts(words@).len() == 0);
        }
        if let Some(argv) = &self.media.player {
            if argv.len() > 0 {
                let copy = clone_texts(argv);
                assert(texts(copy@).len() == copy@.len());
                return copy;
            }
        }
        let mut argv: Vec<String> = Vec::new();
        argv.push("mpv".to_string());
        assert(texts(argv@) =~= seq!["mpv"@]);
        argv
    }

    /// Whether both credentials are there.
    pub fn has_credentials(&self) -> (b: bool)
        ensures
            b <==> self@.api_id is Some && self@.api_hash is Some,
    {
        self.api_id.is_some() && self.api_hash.is_some()
    }

    /// The credentials, or what is missing of them.
    pub fn credentials(&self) -> (r: Result<(i32, String), CredentialError>)
        ensures
            r matches Ok(c) ==> self@.api_id == Some(c.0) && self@.api_hash == Some(c.1@),
            r is Ok <==> self@.api_id is Some && self@.api_hash is Some,
            r == Err::<(i32, String), _>(CredentialError::NoApiId) <==> self@.api_id is None,
            r == Err::<(i32, String), _>(CredentialError::NoApiHash) <==> self@.api_id is Some
                && self@.api_hash is None,
    {
        match self.api_id {
            None => Err(CredentialError::NoApiId),
            Some(id) => match &self.api_hash {
                None => Err(CredentialError::NoApiHash),
                Some(hash) => Ok((id, hash.clone())),
            },
        }
    }
}

} // verus!
