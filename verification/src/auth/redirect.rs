//! What is stored when the OAuth provider sends an account back, and the
//! page that shows the new secret key.

use crate::models::DiscordGuild;
use crate::models::NewDiscordGuild;
use crate::models::NewSecretKey;
use crate::models::NewUser;
use crate::models::User;
use crate::protocol::KEY_WIDTH_BYTES;
use crate::utils::generate_secret_key;
use crate::utils::hash_key;
use crate::utils::is_alphanumeric;
use crate::utils::key_hash_spec;
use ulid::Ulid;
use vstd::prelude::*;
use vstd::string::StringExecFns;
use vstd::utf8::encode_utf8;
use vstd::utf8::is_ascii_chars;
use vstd::utf8::is_ascii_chars_encode_utf8;

verus! {

/// Number of characters of a row id.
pub const ROW_ID_LEN: usize = 26;

/// What the OAuth provider appends to the redirect.
#[derive(Debug, Clone, PartialEq, Eq)]
pub struct RedirectParams {
    pub state: String,
    pub code: String,
}

/// The form that exchanges an authorisation code for a token.
#[derive(Debug, Clone, PartialEq, Eq)]
pub struct TokenRequestBody {
    pub grant_type: String,
    pub code: String,
    pub redirect_uri: String,
}

impl TokenRequestBody {
    /// The form for the authorisation code `code`.
    pub fn from_code(code: String, redirect_uri: String) -> (body: TokenRequestBody)
        ensures
            body.grant_type@ == "authorization_code"@,
            body.code == code,
            body.redirect_uri == redirect_uri,
    {
        TokenRequestBody {
            grant_type: String::from_str("authorization_code"),
            code,
            redirect_uri,
        }
    }
}

/// What linking an account stores, and the secret key that it hands out.
#[derive(Debug, Clone, PartialEq, Eq)]
pub struct LinkPlan {
    /// The account that the key belongs to.
    pub user_id: String,
    /// The account to store, where it is new.
    pub new_user: Option<NewUser>,
    /// The guild to store, where it is new.
    pub new_guild: Option<NewDiscordGuild>,
    /// The key to store.
    pub new_key: NewSecretKey,
    /// The key itself, shown once and stored nowhere.
    pub secret_key: String,
}

/// `Ulid::new` and `Ulid::to_string` of the ulid crate: a fresh identifier in
/// its text form, which has 26 characters. Which ones is left open.
#[verifier::external_body]
fn fresh_row_id() -> (id: String)
    ensures
        id@.len() == ROW_ID_LEN,
{
    Ulid::new().to_string()
}

/// Plans the linking of the OAuth account `discord_user_id`, which added the
/// bot to `guild_id`, given the rows found for either and the fresh values
/// to use.
///
/// The key goes to the account already stored for `discord_user_id`, the
/// first found, or else to a new one. The guild is stored with that account
/// as its manager unless it is stored already. The key is stored by its hash
/// alone.
pub fn plan_link_with(
    existing_users: &Vec<User>,
    existing_guilds: &Vec<DiscordGuild>,
    discord_user_id: String,
    guild_id: String,
    user_row_id: String,
    guild_row_id: String,
    key_row_id: String,
    secret_key: String,
) -> (plan: LinkPlan)
    ensures
        plan.user_id@ == (if existing_users@.len() > 0 {
            existing_users@[0].id@
        } else {
            user_row_id@
        }),
        match plan.new_user {
            Some(user) => existing_users@.len() == 0 && user.id@ == user_row_id@
                && user.discord_id@ == discord_user_id@,
            None => existing_users@.len() > 0,
        },
        match plan.new_guild {
            Some(guild) => existing_guilds@.len() == 0 && guild.id@ == guild_row_id@
                && guild.guild_id@ == guild_id@ && guild.manager_user_id@ == plan.user_id@,
            None => existing_guilds@.len() > 0,
        },
        plan.new_key.id@ == key_row_id@,
        plan.new_key.user_id@ == plan.user_id@,
        plan.new_key.secret_key_hash@ == key_hash_spec(encode_utf8(secret_key@)),
        plan.secret_key@ == secret_key@,
{
    let (user_id, new_user) = if existing_users.len() == 0 {
        (
            user_row_id.clone(),
            Some(NewUser { id: user_row_id, discord_id: discord_user_id }),
        )
    } else {
        (existing_users[0].id.clone(), None)
    };
    let new_guild = if existing_guilds.len() == 0 {
        Some(NewDiscordGuild { id: guild_row_id, guild_id, manager_user_id: user_id.clone() })
    } else {
        None
    };
    let new_key = NewSecretKey {
        id: key_row_id,
        secret_key_hash: hash_key(secret_key.as_str()),
        user_id: user_id.clone(),
    };
    LinkPlan { user_id, new_user, new_guild, new_key, secret_key }
}

/// Plans the linking of an account as `plan_link_with` does, with row ids
/// and a secret key drawn here. The key has `KEY_WIDTH_BYTES` ASCII letters
/// and digits, so that its text is what the agent presents byte for byte.
pub fn plan_link(
    existing_users: &Vec<User>,
    existing_guilds: &Vec<DiscordGuild>,
    discord_user_id: String,
    guild_id: String,
) -> (plan: LinkPlan)
    ensures
        plan.secret_key@.len() == KEY_WIDTH_BYTES,
        forall|i: int|
            0 <= i < plan.secret_key@.len() ==> is_alphanumeric(#[trigger] plan.secret_key@[i]),
        existing_users@.len() > 0 ==> plan.user_id@ == existing_users@[0].id@,
        match plan.new_user {
            Some(user) => existing_users@.len() == 0 && user.id@ == plan.user_id@
                && user.id@.len() == ROW_ID_LEN && user.discord_id@ == discord_user_id@,
            None => existing_users@.len() > 0,
        },
        match plan.new_guild {
            Some(guild) => existing_guilds@.len() == 0 && guild.id@.len() == ROW_ID_LEN
                && guild.guild_id@ == guild_id@ && guild.manager_user_id@ == plan.user_id@,
            None => existing_guilds@.len() > 0,
        },
        plan.new_key.id@.len() == ROW_ID_LEN,
        plan.new_key.user_id@ == plan.user_id@,
        plan.new_key.secret_key_hash@ == key_hash_spec(encode_utf8(plan.secret_key@)),
{
    let user_row_id = fresh_row_id();
    let guild_row_id = fresh_row_id();
    let key_row_id = fresh_row_id();
    let secret_key = generate_secret_key(KEY_WIDTH_BYTES);
    plan_link_with(
        existing_users,
        existing_guilds,
        discord_user_id,
        guild_id,
        user_row_id,
        guild_row_id,
        key_row_id,
        secret_key,
    )
}

/// The page that shows a secret key, up to the key.
pub const KEY_PAGE_HEAD: &'static str = r#"
<!DOCTYPE html>
<html lang="en">
<head>
  <meta charset="UTF-8">
  <meta name="viewport" content="width=device-width, initial-scale=1.0">
  <title>Secret Key</title>
  <style>
      body {
          font-family: Arial, sans-serif;
          display: flex;
          justify-content: center;
          align-items: center;
          height: 100vh;
          margin: 0;
          background-color: #1e1e1e;
          color: #e0e0e0;
      }
      .container {
          background-color: #2d2d2d;
          padding: 2rem;
          border-radius: 8px;
          box-shadow: 0 4px 6px rgba(0, 0, 0, 0.3);
          text-align: center;
      }
      .secret-key {
          font-family: monospace;
          font-size: 1.2rem;
          background-color: #3d3d3d;
          padding: 0.5rem;
          border-radius: 4px;
          margin: 1rem 0;
      }
      .warning {
          color: #ff6b6b;
          font-weight: bold;
      }
  </style>
</head>
<body>
  <div class="container">
      <h1>Your Secret Key</h1>
      <div class="secret-key">"#;

/// The page that shows a secret key, from the key on.
pub const KEY_PAGE_TAIL: &'static str = r#"</div>
      <p class="warning">Copy and paste this into your terminal. It won't be shown again.</p>
  </div>
</body>
</html>
"#;

/// The page that shows `secret_key`.
pub open spec fn key_page_spec(secret_key: Seq<char>) -> Seq<char> {
    KEY_PAGE_HEAD@ + secret_key + KEY_PAGE_TAIL@
}

/// The page that shows a new secret key to its owner, once.
pub fn generate_key_html(secret_key: String) -> (page: String)
    ensures
        page@ == key_page_spec(secret_key@),
{
    let mut page = String::from_str(KEY_PAGE_HEAD);
    page.append(secret_key.as_str());
    page.append(KEY_PAGE_TAIL);
    page
}

/// A key as it is issued is a key as the agent presents it: its letters and
/// digits take one byte each, so its text is `KEY_WIDTH_BYTES` bytes long, and
/// the hash stored for it is the hash of those bytes.
pub proof fn lemma_issued_key_is_presentable(secret_key: Seq<char>)
    requires
        secret_key.len() == KEY_WIDTH_BYTES,
        forall|i: int| 0 <= i < secret_key.len() ==> is_alphanumeric(#[trigger] secret_key[i]),
    ensures
        encode_utf8(secret_key).len() == KEY_WIDTH_BYTES,
        forall|i: int|
            0 <= i < secret_key.len() ==> encode_utf8(secret_key)[i] == secret_key[i] as u8,
{
    assert(is_ascii_chars(secret_key)) by {
        assert forall|i: int| 0 <= i < secret_key.len() implies '\0' <= #[trigger] secret_key[i]
            <= '\u{7f}' by {
            assert(is_alphanumeric(secret_key[i]));
        }
    }
    is_ascii_chars_encode_utf8(secret_key);
}

} // verus!
