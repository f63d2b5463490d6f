//! Rows of the account store.

use vstd::prelude::*;

verus! {

/// An account.
#[derive(Debug, Clone, PartialEq, Eq)]
pub struct User {
    pub id: String,
    pub discord_id: Option<String>,
}

/// An account to be stored.
#[derive(Debug, Clone, PartialEq, Eq)]
pub struct NewUser {
    pub id: String,
    pub discord_id: String,
}

/// A guild, and the account that manages the bot in it.
#[derive(Debug, Clone, PartialEq, Eq)]
pub struct DiscordGuild {
    pub id: String,
    pub guild_id: String,
    pub manager_user_id: String,
}

/// A guild to be stored.
#[derive(Debug, Clone, PartialEq, Eq)]
pub struct NewDiscordGuild {
    pub id: String,
    pub guild_id: String,
    pub manager_user_id: String,
}

/// The hash of a secret key, and the account that the key belongs to.
#[derive(Debug, Clone, PartialEq, Eq)]
pub struct SecretKey {
    pub id: String,
    pub secret_key_hash: String,
    pub user_id: String,
}

/// A secret key to be stored.
#[derive(Debug, Clone, PartialEq, Eq)]
pub struct NewSecretKey {
    pub id: String,
    pub secret_key_hash: String,
    pub user_id: String,
}

} // verus!
