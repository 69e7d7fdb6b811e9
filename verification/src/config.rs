//! The broker's configuration and the rules it must satisfy. File reading
//! and TOML parsing happen outside; the parsed plain values come in here,
//! are validated, and the socket path is resolved.

use crate::error::BotError;
use crate::text::dec_spec;
use crate::text::u64_to_dec;
use vstd::prelude::*;
use vstd::string::StringExecFns;

verus! {

/// The upper bound on the per-request timeout, in seconds.
pub const MAX_TIMEOUT_SECONDS: u64 = 3600;

/// The per-request timeout used when the configuration names none.
pub fn default_timeout() -> (r: u64)
    ensures
        r == 300,
{
    300
}

/// Read-only after load; consumed by the whole broker.
#[derive(Debug)]
pub struct Config {
    pub telegram_bot_token: String,
    pub allowed_chat_ids: Vec<i64>,
    pub timeout_seconds: u64,
    pub socket_path: Option<String>,
}

/// Whether plain configuration values satisfy every rule: a token, at
/// least one chat, a timeout within bounds, and an existing parent
/// directory for a custom socket path.
pub open spec fn config_valid(
    token: Seq<char>,
    chat_ids: Seq<i64>,
    timeout_seconds: u64,
    has_socket_path: bool,
    socket_parent_exists: bool,
) -> bool {
    &&& token.len() > 0
    &&& chat_ids.len() > 0
    &&& 1 <= timeout_seconds <= 3600
    &&& (has_socket_path ==> socket_parent_exists)
}

impl Config {
    /// Checks the rules, in the order they are reported: an empty token,
    /// an empty chat list, a timeout out of bounds, and a custom socket
    /// path whose parent directory is missing. The caller reports whether
    /// that directory exists; nothing is touched on disk here.
    pub fn validate(&self, socket_parent_exists: bool) -> (r: Result<(), BotError>)
        ensures
            match r {
                Ok(()) => config_valid(
                    self.telegram_bot_token@,
                    self.allowed_chat_ids@,
                    self.timeout_seconds,
                    self.socket_path is Some,
                    socket_parent_exists,
                ),
                Err(e) => {
                    &&& !config_valid(
                        self.telegram_bot_token@,
                        self.allowed_chat_ids@,
                        self.timeout_seconds,
                        self.socket_path is Some,
                        socket_parent_exists,
                    )
                    &&& e matches BotError::ConfigInvalid(m)
                    &&& m@ == (if self.telegram_bot_token@.len() == 0 {
                        "telegram_bot_token must not be empty"@
                    } else if self.allowed_chat_ids@.len() == 0 {
                        "allowed_chat_ids must have at least one entry"@
                    } else if !(1 <= self.timeout_seconds <= 3600) {
                        "timeout_seconds must be between 1 and 3600"@
                    } else {
                        "socket_path parent directory does not exist"@
                    })
                },
            },
    {
        if self.telegram_bot_token.as_str().unicode_len() == 0 {
            return Err(
                BotError::ConfigInvalid(String::from_str("telegram_bot_token must not be empty")),
            );
        }
        if self.allowed_chat_ids.len() == 0 {
            return Err(
                BotError::ConfigInvalid(
                    String::from_str("allowed_chat_ids must have at least one entry"),
                ),
            );
        }
        if self.timeout_seconds == 0 || self.timeout_seconds > MAX_TIMEOUT_SECONDS {
            return Err(
                BotError::ConfigInvalid(
                    String::from_str("timeout_seconds must be between 1 and 3600"),
                ),
            );
        }
        if self.socket_path.is_some() && !socket_parent_exists {
            return Err(
                BotError::ConfigInvalid(
                    String::from_str("socket_path parent directory does not exist"),
                ),
            );
        }
        Ok(())
    }

    /// Builds a configuration from parsed plain values, filling in the
    /// default timeout where none was given, and validates it. This is the
    /// whole load step after the file has been read and parsed outside.
    pub fn load(
        telegram_bot_token: String,
        allowed_chat_ids: Vec<i64>,
        timeout_seconds: Option<u64>,
        socket_path: Option<String>,
        socket_parent_exists: bool,
    ) -> (r: Result<Config, BotError>)
        ensures
            match r {
                Ok(c) => {
                    &&& c.telegram_bot_token == telegram_bot_token
                    &&& c.allowed_chat_ids == allowed_chat_ids
                    &&& c.timeout_seconds == (if timeout_seconds is Some {
                        timeout_seconds->0
                    } else {
                        300u64
                    })
                    &&& c.socket_path == socket_path
                    &&& config_valid(
                        telegram_bot_token@,
                        allowed_chat_ids@,
                        c.timeout_seconds,
                        socket_path is Some,
                        socket_parent_exists,
                    )
                },
                Err(_) => !config_valid(
                    telegram_bot_token@,
                    allowed_chat_ids@,
                    (if timeout_seconds is Some {
                        timeout_seconds->0
                    } else {
                        300u64
                    }),
                    socket_path is Some,
                    socket_parent_exists,
                ),
            },
    {
        let effective_timeout = match timeout_seconds {
            Some(t) => t,
            None => default_timeout(),
        };
        let config = Config {
            telegram_bot_token,
            allowed_chat_ids,
            timeout_seconds: effective_timeout,
            socket_path,
        };
        match config.validate(socket_parent_exists) {
            Ok(()) => Ok(config),
            Err(e) => Err(e),
        }
    }

    /// The socket path the broker and the hook will use: the configured
    /// override when one is set, else the given platform default.
    pub fn effective_socket_path(&self, default_path: String) -> (r: String)
        ensures
            match self.socket_path {
                Some(p) => r@ == p@,
                None => r@ == default_path@,
            },
    {
        match &self.socket_path {
            Some(p) => p.clone(),
            None => default_path,
        }
    }
}

/// The platform default socket path: under the runtime directory when the
/// environment names one, else a per-user file under `/tmp`. The caller
/// reads the environment and the user id; the path is assembled here.
pub fn default_socket_path(xdg_runtime_dir: Option<String>, uid: u64) -> (r: String)
    ensures
        match xdg_runtime_dir {
            Some(dir) => r@ == dir@ + "/vibe-reachout.sock"@,
            None => r@ == "/tmp/vibe-reachout-"@ + dec_spec(uid as int) + ".sock"@,
        },
{
    match xdg_runtime_dir {
        Some(dir) => {
            let mut r = dir;
            r.append("/vibe-reachout.sock");
            r
        },
        None => {
            let mut r = String::from_str("/tmp/vibe-reachout-");
            let u = u64_to_dec(uid);
            r.append(u.as_str());
            r.append(".sock");
            r
        },
    }
}

} // verus!
