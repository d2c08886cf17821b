use quantum_launcher::auth::{
    account_from_response, account_kind, find_account, interpret_login, keyring_username,
    load_account, put_account, refresh_kind, Account, AccountData, AccountResponse,
    AccountResponseError, AccountResponseProfile, AccountType, ConfigAccount, LoginReply, OauthError,
};
use quantum_launcher::startup::{
    load_saved_accounts, scroll_log, selected_account, startup_screen, StartScreen,
};

fn response() -> AccountResponse {
    AccountResponse {
        access_token: "tok".to_owned(),
        selected_profile: AccountResponseProfile { id: "uuid-1".to_owned(), name: "Steve".to_owned() },
    }
}

fn saved(uuid: &str, kind: Option<&str>, ident: Option<&str>, nice: Option<&str>) -> ConfigAccount {
    ConfigAccount {
        uuid: uuid.to_owned(),
        skin: None,
        account_type: kind.map(|k| k.to_owned()),
        keyring_identifier: ident.map(|i| i.to_owned()),
        username_nice: nice.map(|n| n.to_owned()),
    }
}

#[test]
fn error_replies() {
    let otp = AccountResponseError {
        error: "ForbiddenOperationException".to_owned(),
        error_message: "Account protected with two factor auth.".to_owned(),
    };
    assert!(otp.needs_otp());
    assert_eq!(otp.message(), "ForbiddenOperationException: Account protected with two factor auth.");
    let wrong = AccountResponseError {
        error: "ForbiddenOperationException".to_owned(),
        error_message: "Invalid credentials.".to_owned(),
    };
    assert!(!wrong.needs_otp());
    assert_eq!(OauthError::DeviceCodeExpired.message(), "device code expired");
    assert_eq!(
        OauthError::UnexpectedResponse("x".to_owned()).message(),
        "unexpected response from littleskin:\n\nx"
    );
    assert_eq!(OauthError::NoAccessToken.message(), "no access token in response");
    assert_eq!(OauthError::NoMinecraftProfile.message(), "no minecraft profile found for account");
}

#[test]
fn logins() {
    let d = account_from_response(response(), "me@mail".to_owned(), AccountType::ElyBy);
    assert_eq!(d.access_token.as_deref(), Some("tok"));
    assert_eq!(d.refresh_token, "tok");
    assert_eq!(d.uuid, "uuid-1");
    assert_eq!(d.username, "me@mail");
    assert_eq!(d.nice_username, "Steve");
    assert!(!d.needs_refresh);
    assert!(d.account_type == AccountType::ElyBy);
    assert!(matches!(
        interpret_login(LoginReply::Accepted(response()), "me".to_owned(), AccountType::LittleSkin),
        Some(Account::Account(a)) if a.account_type == AccountType::LittleSkin && a.username == "me"
    ));
    let otp = AccountResponseError {
        error: "ForbiddenOperationException".to_owned(),
        error_message: "Account protected with two factor auth.".to_owned(),
    };
    assert!(matches!(
        interpret_login(LoginReply::Refused(otp), "me".to_owned(), AccountType::ElyBy),
        Some(Account::NeedsOTP)
    ));
    let other = AccountResponseError { error: "X".to_owned(), error_message: "Y".to_owned() };
    assert!(interpret_login(LoginReply::Refused(other), "me".to_owned(), AccountType::ElyBy).is_none());
    assert!(interpret_login(LoginReply::Unreadable, "me".to_owned(), AccountType::ElyBy).is_none());
}

#[test]
fn account_services_and_keyring_names() {
    assert!(account_kind(&Some("ElyBy".to_owned()), "Steve") == AccountType::ElyBy);
    assert!(account_kind(&None, "Steve (elyby)") == AccountType::ElyBy);
    assert!(account_kind(&None, "Alex (littleskin)") == AccountType::LittleSkin);
    assert!(account_kind(&Some("Microsoft".to_owned()), "Steve") == AccountType::Microsoft);
    assert_eq!(keyring_username(AccountType::ElyBy, "Steve (elyby)", &None), "Steve");
    assert_eq!(keyring_username(AccountType::LittleSkin, "Alex (littleskin)", &None), "Alex");
    assert_eq!(keyring_username(AccountType::ElyBy, "Steve (elyby)", &Some("me@mail".to_owned())), "me@mail");
    assert_eq!(keyring_username(AccountType::Microsoft, "Steve", &None), "Steve");
    assert!(refresh_kind(&Some("LittleSkin".to_owned())) == AccountType::LittleSkin);
    assert!(refresh_kind(&None) == AccountType::Microsoft);
}

fn data(name: &str) -> AccountData {
    AccountData {
        access_token: None,
        uuid: "u".to_owned(),
        username: name.to_owned(),
        nice_username: name.to_owned(),
        refresh_token: "r".to_owned(),
        needs_refresh: true,
        account_type: AccountType::Microsoft,
    }
}

#[test]
fn putting_accounts_replaces_or_appends() {
    let mut m = vec![("a".to_owned(), data("a")), ("b".to_owned(), data("b"))];
    put_account(&mut m, "b".to_owned(), data("b2"));
    assert_eq!(m.len(), 2);
    assert_eq!(m[1].1.username, "b2");
    put_account(&mut m, "c".to_owned(), data("c"));
    assert_eq!(m.len(), 3);
    assert_eq!(m[2].0, "c");
    assert_eq!(m[0].1.username, "a");
}

#[test]
fn loading_one_saved_account() {
    let mut accounts = Vec::new();
    let mut dropdown = vec!["(Offline)".to_owned()];
    let mut remove = Vec::new();
    let cfg = saved("u1", Some("ElyBy"), Some("me@mail"), None);
    load_account(&mut accounts, &mut dropdown, &mut remove, "Steve (elyby)", &cfg, Ok("refresh".to_owned()));
    assert_eq!(dropdown, vec!["Steve (elyby)".to_owned(), "(Offline)".to_owned()]);
    assert!(remove.is_empty());
    let (name, d) = &accounts[0];
    assert_eq!(name, "Steve (elyby)");
    assert_eq!(d.username, "me@mail");
    assert_eq!(d.nice_username, "me@mail");
    assert_eq!(d.refresh_token, "refresh");
    assert!(d.needs_refresh && d.access_token.is_none());
    load_account(&mut accounts, &mut dropdown, &mut remove, "Gone", &cfg, Err("no token".to_owned()));
    assert_eq!(remove, vec!["Gone".to_owned()]);
    assert_eq!(accounts.len(), 1);
    assert_eq!(dropdown.len(), 2);
}

#[test]
fn finding_accounts_by_name() {
    let list = vec![
        ("Steve".to_owned(), saved("1", None, None, Some("Steve_nice"))),
        ("Alex".to_owned(), saved("2", None, None, Some("Steve"))),
    ];
    assert_eq!(find_account(&list, "Steve"), Some(0));
    assert_eq!(find_account(&list, "Alex"), Some(1));
    assert_eq!(find_account(&list, "Steve_nice"), Some(0));
    assert_eq!(find_account(&list, "Nobody"), None);
}

#[test]
fn first_screen() {
    let mut recorded = Some("0.4.2".to_owned());
    assert!(startup_screen(true, &mut recorded, "0.4.2") == StartScreen::Welcome);
    assert!(startup_screen(false, &mut recorded, "0.4.2") == StartScreen::Launch);
    assert!(startup_screen(false, &mut recorded, "0.4.3") == StartScreen::ChangeLog);
    assert_eq!(recorded.as_deref(), Some("0.4.3"));
    let mut none = None;
    assert!(startup_screen(false, &mut none, "0.3.0") == StartScreen::Launch);
    assert!(startup_screen(false, &mut none, "0.4.2") == StartScreen::ChangeLog);
    assert_eq!(none.as_deref(), Some("0.4.2"));
}

#[test]
fn loading_saved_accounts() {
    let mut list = vec![
        ("Steve".to_owned(), saved("1", None, None, None)),
        ("Alex (elyby)".to_owned(), saved("2", Some("ElyBy"), None, None)),
        ("Lost".to_owned(), saved("3", None, None, None)),
    ];
    let tokens = vec![Ok("t1".to_owned()), Ok("t2".to_owned()), Err("missing".to_owned())];
    let (accounts, dropdown) = load_saved_accounts(&mut list, tokens);
    assert_eq!(dropdown, vec!["Alex (elyby)", "Steve", "(Offline)", "+ Add Account"]);
    assert_eq!(list.iter().map(|(k, _)| k.clone()).collect::<Vec<_>>(), vec!["Steve", "Alex (elyby)"]);
    assert_eq!(accounts.len(), 2);
    let alex = accounts.iter().find(|(k, _)| k == "Alex (elyby)").unwrap();
    assert_eq!(alex.1.username, "Alex");
    assert!(alex.1.account_type == AccountType::ElyBy);
}

#[test]
fn selected_account_at_start() {
    assert_eq!(selected_account(Some("Steve".to_owned()), &[]), "Steve");
    assert_eq!(selected_account(None, &["Alex".to_owned()]), "Alex");
    assert_eq!(selected_account(None, &[]), "(Offline)");
}

#[test]
fn log_scrolling() {
    assert_eq!(scroll_log(10, 3), 7);
    assert_eq!(scroll_log(10, -3), 13);
    assert_eq!(scroll_log(2, 3), 2);
    assert_eq!(scroll_log(0, 0), 0);
}
