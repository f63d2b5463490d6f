use wombat::auth::app::AppVariables;
use wombat::auth::redirect::generate_key_html;
use wombat::auth::redirect::plan_link;
use wombat::auth::redirect::plan_link_with;
use wombat::auth::redirect::TokenRequestBody;
use wombat::auth::signup::bot_permissions;
use wombat::auth::signup::get_auth_url;
use wombat::auth::signup::SignupManager;
use wombat::auth::signup::BOT_PERMISSIONS;
use wombat::models::DiscordGuild;
use wombat::models::NewDiscordGuild;
use wombat::models::NewSecretKey;
use wombat::models::NewUser;
use wombat::models::User;
use wombat::utils::hash_key;

#[test]
fn the_bot_asks_for_three_permissions() {
    assert_eq!(BOT_PERMISSIONS, (1 << 11) | (1 << 38) | (1 << 15));
    assert_eq!(bot_permissions(), 274877941760);
    let asked = serenity::all::Permissions::from_bits_truncate(
        serenity::all::Permissions::SEND_MESSAGES.bits()
            | serenity::all::Permissions::SEND_MESSAGES_IN_THREADS.bits()
            | serenity::all::Permissions::ATTACH_FILES.bits(),
    );
    assert_eq!(bot_permissions(), asked.bits());
}

#[test]
fn the_auth_url_is_written_out() {
    let url = get_auth_url(
        "1234".to_string(),
        "http://localhost:8080/auth/redirect".to_string(),
        "AbCdEfGh01234567".to_string(),
    );
    assert_eq!(
        url,
        "https://discord.com/oauth2/authorize?client_id=1234&permissions=274877941760\
         &response_type=code&redirect_uri=http%3A%2F%2Flocalhost%3A8080%2Fauth%2Fredirect\
         &integration_type=0&scope=identify+bot&state=AbCdEfGh01234567"
    );
}

#[test]
fn the_auth_url_escapes_what_is_reserved() {
    let url = get_auth_url("id".to_string(), "a b/\u{e9}~_.-".to_string(), "x&y=z".to_string());
    assert_eq!(
        url,
        "https://discord.com/oauth2/authorize?client_id=id&permissions=274877941760\
         &response_type=code&redirect_uri=a%20b%2F%C3%A9~_.-\
         &integration_type=0&scope=identify+bot&state=x%26y%3Dz"
    );
}

#[test]
fn the_auth_url_carries_the_token_of_the_sign_up() {
    let variables = AppVariables {
        client_id: "42".to_string(),
        client_secret: "SECRET-REDACTED".to_string(),
        redirect_uri: "https://example.org/auth/redirect".to_string(),
    };
    let mut manager = SignupManager::new();
    let digest = manager.add_request();
    let url = get_auth_url(variables.client_id, variables.redirect_uri, digest.clone());
    assert!(url.ends_with(&format!("&state={digest}")));
    assert!(url.contains("client_id=42&"));
    assert!(manager.consume_request(&digest));
}

#[test]
fn the_token_form_asks_for_an_authorization_code() {
    let body = TokenRequestBody::from_code("c0de".to_string(), "http://here".to_string());
    assert_eq!(
        body,
        TokenRequestBody {
            grant_type: "authorization_code".to_string(),
            code: "c0de".to_string(),
            redirect_uri: "http://here".to_string(),
        }
    );
}

#[test]
fn the_key_page_shows_the_key() {
    let page = generate_key_html("s3cr3t".to_string());
    assert!(page.starts_with("\n<!DOCTYPE html>\n<html lang=\"en\">\n<head>\n"));
    assert!(page.contains("      <div class=\"secret-key\">s3cr3t</div>\n"));
    assert!(page.contains("      body {\n          font-family: Arial, sans-serif;\n"));
    assert!(page.contains(
        "      <p class=\"warning\">Copy and paste this into your terminal. It won't be shown again.</p>\n"
    ));
    assert!(page.ends_with("  </div>\n</body>\n</html>\n"));
    assert!(!page.contains("{{"));
    assert!(!page.contains("}}"));
    assert_eq!(page.matches("s3cr3t").count(), 1);
    assert_eq!(page.len(), generate_key_html(String::new()).len() + 6);
}

fn fresh(n: u8) -> String {
    format!("0000000000000000000000000{n}")
}

#[test]
fn a_new_account_in_a_new_guild() {
    let plan = plan_link_with(
        &vec![],
        &vec![],
        "discord-7".to_string(),
        "guild-9".to_string(),
        fresh(1),
        fresh(2),
        fresh(3),
        "0123456789abcdefghijklmnopqrstuv".to_string(),
    );
    assert_eq!(plan.user_id, fresh(1));
    assert_eq!(plan.new_user, Some(NewUser { id: fresh(1), discord_id: "discord-7".to_string() }));
    assert_eq!(
        plan.new_guild,
        Some(NewDiscordGuild {
            id: fresh(2),
            guild_id: "guild-9".to_string(),
            manager_user_id: fresh(1),
        })
    );
    assert_eq!(
        plan.new_key,
        NewSecretKey {
            id: fresh(3),
            secret_key_hash: "73337f479fe170d73e53e247f3052e4243cc9c2a0ffa621853d9385c619efb77"
                .to_string(),
            user_id: fresh(1),
        }
    );
    assert_eq!(plan.secret_key, "0123456789abcdefghijklmnopqrstuv");
}

#[test]
fn a_known_account_in_a_known_guild() {
    let users = vec![
        User { id: "user-a".to_string(), discord_id: Some("discord-7".to_string()) },
        User { id: "user-b".to_string(), discord_id: Some("discord-7".to_string()) },
    ];
    let guilds = vec![DiscordGuild {
        id: "row".to_string(),
        guild_id: "guild-9".to_string(),
        manager_user_id: "somebody".to_string(),
    }];
    let plan = plan_link_with(
        &users,
        &guilds,
        "discord-7".to_string(),
        "guild-9".to_string(),
        fresh(1),
        fresh(2),
        fresh(3),
        "key".to_string(),
    );
    assert_eq!(plan.user_id, "user-a");
    assert_eq!(plan.new_user, None);
    assert_eq!(plan.new_guild, None);
    assert_eq!(plan.new_key.user_id, "user-a");
    assert_eq!(plan.new_key.id, fresh(3));
    assert_eq!(plan.new_key.secret_key_hash, hash_key("key"));
}

#[test]
fn a_known_account_in_a_new_guild_manages_it() {
    let users = vec![User { id: "user-a".to_string(), discord_id: None }];
    let plan = plan_link_with(
        &users,
        &vec![],
        "discord-7".to_string(),
        "guild-9".to_string(),
        fresh(1),
        fresh(2),
        fresh(3),
        "key".to_string(),
    );
    assert_eq!(plan.new_user, None);
    assert_eq!(
        plan.new_guild,
        Some(NewDiscordGuild {
            id: fresh(2),
            guild_id: "guild-9".to_string(),
            manager_user_id: "user-a".to_string(),
        })
    );
}

#[test]
fn drawn_values_have_their_shape() {
    let plan = plan_link(&vec![], &vec![], "discord-7".to_string(), "guild-9".to_string());
    assert_eq!(plan.secret_key.len(), 32);
    assert!(plan.secret_key.chars().all(|c| c.is_ascii_alphanumeric()));
    assert_eq!(plan.new_key.secret_key_hash, hash_key(&plan.secret_key));
    assert_ne!(plan.new_key.secret_key_hash, plan.secret_key);
    let user = plan.new_user.unwrap();
    let guild = plan.new_guild.unwrap();
    assert_eq!(user.id, plan.user_id);
    assert_eq!(guild.manager_user_id, plan.user_id);
    assert_eq!(plan.new_key.user_id, plan.user_id);
    for id in [&user.id, &guild.id, &plan.new_key.id] {
        assert_eq!(id.len(), 26);
        assert!(ulid::Ulid::from_string(id).is_ok());
    }
    assert_ne!(user.id, guild.id);
    assert_ne!(guild.id, plan.new_key.id);
}
