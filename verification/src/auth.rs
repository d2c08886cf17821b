//! Accounts: what an authentication server's reply means, and how the
//! accounts saved in the launcher's configuration are loaded at start-up.
use vstd::prelude::*;

use crate::text::{chars_of, ends_with, ends_with_exec, str_eq, string_of};

verus! {

/// The services an account can log in through.
#[derive(PartialEq, Eq, Structural, Clone, Copy)]
pub enum AccountType {
    Microsoft,
    ElyBy,
    LittleSkin,
}

/// A logged-in account.
pub struct AccountData {
    pub access_token: Option<String>,
    pub uuid: String,
    /// The name the account is stored under in the system keyring.
    pub username: String,
    pub nice_username: String,
    pub refresh_token: String,
    pub needs_refresh: bool,
    pub account_type: AccountType,
}

/// An error reply of an authentication server.
pub struct AccountResponseError {
    pub error: String,
    pub error_message: String,
}

/// Why a device-code login failed.
pub enum OauthError {
    DeviceCodeExpired,
    UnexpectedResponse(String),
    NoAccessToken,
    NoMinecraftProfile,
}

/// The outcome of a password login.
pub enum Account {
    Account(AccountData),
    NeedsOTP,
}

/// The first reply of Microsoft's device-code login: the code the user
/// types at the verification page.
pub struct AuthCodeResponse {
    pub user_code: String,
    pub device_code: String,
    pub verification_uri: String,
    pub expires_in: u64,
    pub interval: u64,
    pub message: String,
}

/// The token reply of Microsoft's device-code login.
pub struct AuthTokenResponse {
    pub token_type: String,
    pub scope: String,
    pub expires_in: u64,
    pub access_token: String,
    pub refresh_token: String,
}

/// A successful reply of an authentication server.
pub struct AccountResponse {
    pub access_token: String,
    pub selected_profile: AccountResponseProfile,
}

pub struct AccountResponseProfile {
    pub id: String,
    pub name: String,
}

/// An account as the launcher's configuration saves it.
pub struct ConfigAccount {
    /// The account's UUID, without dashes.
    pub uuid: String,
    /// Not used yet.
    pub skin: Option<String>,
    /// `"Microsoft"`, `"ElyBy"` or `"LittleSkin"`.
    pub account_type: Option<String>,
    /// The email or username that the login used, under which the keyring
    /// keeps the token.
    pub keyring_identifier: Option<String>,
    pub username_nice: Option<String>,
}

/// The text an error reply gives for an account that needs a one-time
/// password.
pub open spec fn is_otp_request(e: AccountResponseError) -> bool {
    e.error@ == "ForbiddenOperationException"@ && e.error_message@ == "Account protected with two factor auth."@
}

impl AccountResponseError {
    /// The error as the launcher shows it: `error: message`.
    pub fn message(&self) -> (res: String)
        ensures
            res@ == self.error@ + ": "@ + self.error_message@,
    {
        let mut out = chars_of(self.error.as_str());
        crate::text::push_str_chars(&mut out, ": ");
        crate::text::push_str_chars(&mut out, self.error_message.as_str());
        string_of(out.as_slice())
    }

    /// Whether the server asks for a one-time password (two-factor
    /// authentication).
    pub fn needs_otp(&self) -> (b: bool)
        ensures
            b == is_otp_request(*self),
    {
        str_eq(self.error.as_str(), "ForbiddenOperationException")
            && str_eq(self.error_message.as_str(), "Account protected with two factor auth.")
    }
}

pub open spec fn oauth_text(e: OauthError) -> Seq<char> {
    match e {
        OauthError::DeviceCodeExpired => "device code expired"@,
        OauthError::UnexpectedResponse(m) => "unexpected response from littleskin:\n\n"@ + m@,
        OauthError::NoAccessToken => "no access token in response"@,
        OauthError::NoMinecraftProfile => "no minecraft profile found for account"@,
    }
}

impl OauthError {
    /// The error as the launcher shows it.
    pub fn message(&self) -> (res: String)
        ensures
            res@ == oauth_text(*self),
    {
        match self {
            OauthError::DeviceCodeExpired => "device code expired".to_owned(),
            OauthError::UnexpectedResponse(m) => {
                let mut out = chars_of("unexpected response from littleskin:\n\n");
                crate::text::push_str_chars(&mut out, m.as_str());
                string_of(out.as_slice())
            },
            OauthError::NoAccessToken => "no access token in response".to_owned(),
            OauthError::NoMinecraftProfile => "no minecraft profile found for account".to_owned(),
        }
    }
}

/// The account a successful reply logs in: the access token serves as
/// both tokens, and the profile gives the UUID and the shown name.
pub open spec fn account_of(r: AccountResponse, login: Seq<char>, kind: AccountType) -> (Option<Seq<char>>, Seq<char>, Seq<char>, Seq<char>, Seq<char>, bool, AccountType) {
    (Some(r.access_token@), r.selected_profile.id@, login, r.selected_profile.name@, r.access_token@, false, kind)
}

pub open spec fn data_view(d: AccountData) -> (Option<Seq<char>>, Seq<char>, Seq<char>, Seq<char>, Seq<char>, bool, AccountType) {
    (match d.access_token { Some(t) => Some(t@), None => None }, d.uuid@, d.username@, d.nice_username@, d.refresh_token@, d.needs_refresh, d.account_type)
}

/// The account that a successful login or refresh reply stands for.
pub fn account_from_response(response: AccountResponse, login: String, kind: AccountType) -> (d: AccountData)
    ensures
        data_view(d) == account_of(response, login@, kind),
{
    AccountData {
        access_token: Some(response.access_token.clone()),
        uuid: response.selected_profile.id,
        username: login,
        nice_username: response.selected_profile.name,
        refresh_token: response.access_token,
        needs_refresh: false,
        account_type: kind,
    }
}

/// The server's reply to a password login, as far as it could be read.
pub enum LoginReply {
    Accepted(AccountResponse),
    Refused(AccountResponseError),
    Unreadable,
}

/// What a password login comes to: the account for an accepted reply, a
/// request for a one-time password for the two-factor refusal, and `None`
/// (the reply could not be read as an account) otherwise.
pub fn interpret_login(reply: LoginReply, login: String, kind: AccountType) -> (r: Option<Account>)
    ensures
        match reply {
            LoginReply::Accepted(resp) => r matches Some(Account::Account(d)) && data_view(d) == account_of(resp, login@, kind),
            LoginReply::Refused(e) => if is_otp_request(e) { r matches Some(Account::NeedsOTP) } else { r is None },
            LoginReply::Unreadable => r is None,
        },
{
    match reply {
        LoginReply::Accepted(resp) => Some(Account::Account(account_from_response(resp, login, kind))),
        LoginReply::Refused(e) => {
            if e.needs_otp() {
                Some(Account::NeedsOTP)
            } else {
                None
            }
        },
        LoginReply::Unreadable => None,
    }
}

pub open spec fn opt_is(o: Option<String>, s: Seq<char>) -> bool {
    match o {
        Some(x) => x@ == s,
        None => false,
    }
}

/// The service a saved account belongs to: its recorded type, or for
/// older entries the suffix of its name.
pub open spec fn kind_of(account_type: Option<String>, username: Seq<char>) -> AccountType {
    if opt_is(account_type, "ElyBy"@) || ends_with(username, " (elyby)"@) {
        AccountType::ElyBy
    } else if opt_is(account_type, "LittleSkin"@) || ends_with(username, " (littleskin)"@) {
        AccountType::LittleSkin
    } else {
        AccountType::Microsoft
    }
}

fn opt_eq(o: &Option<String>, s: &str) -> (b: bool)
    ensures
        b == opt_is(*o, s@),
{
    match o {
        Some(x) => str_eq(x.as_str(), s),
        None => false,
    }
}

fn has_suffix(s: &str, suffix: &str) -> (b: bool)
    ensures
        b == ends_with(s@, suffix@),
{
    let v = chars_of(s);
    let p = chars_of(suffix);
    ends_with_exec(v.as_slice(), p.as_slice())
}

/// The service a saved account belongs to.
pub fn account_kind(account_type: &Option<String>, username: &str) -> (k: AccountType)
    ensures
        k == kind_of(*account_type, username@),
{
    if opt_eq(account_type, "ElyBy") || has_suffix(username, " (elyby)") {
        AccountType::ElyBy
    } else if opt_eq(account_type, "LittleSkin") || has_suffix(username, " (littleskin)") {
        AccountType::LittleSkin
    } else {
        AccountType::Microsoft
    }
}

/// `s` without the suffix `p`, when it ends with it.
pub open spec fn strip_suffix(s: Seq<char>, p: Seq<char>) -> Seq<char> {
    if ends_with(s, p) {
        s.take(s.len() - p.len())
    } else {
        s
    }
}

pub(crate) fn strip_suffix_exec(s: &str, p: &str) -> (r: String)
    ensures
        r@ == strip_suffix(s@, p@),
{
    let v = chars_of(s);
    let q = chars_of(p);
    if ends_with_exec(v.as_slice(), q.as_slice()) {
        let n = v.len() - q.len();
        let r = string_of(&v.as_slice()[0..n]);
        assert(r@ =~= s@.take(s@.len() - p@.len()));
        r
    } else {
        s.to_owned()
    }
}

/// The name that an account's token is kept under in the keyring: the
/// recorded login, or for older entries the account name without its
/// service suffix.
pub open spec fn keyring_name(kind: AccountType, username: Seq<char>, keyring_identifier: Option<String>) -> Seq<char> {
    match keyring_identifier {
        Some(k) => k@,
        None => match kind {
            AccountType::ElyBy => strip_suffix(username, " (elyby)"@),
            AccountType::LittleSkin => strip_suffix(username, " (littleskin)"@),
            AccountType::Microsoft => username,
        },
    }
}

/// The name that an account's token is kept under in the keyring.
pub fn keyring_username(kind: AccountType, username: &str, keyring_identifier: &Option<String>) -> (r: String)
    ensures
        r@ == keyring_name(kind, username@, *keyring_identifier),
{
    match keyring_identifier {
        Some(k) => k.clone(),
        None => match kind {
            AccountType::ElyBy => strip_suffix_exec(username, " (elyby)"),
            AccountType::LittleSkin => strip_suffix_exec(username, " (littleskin)"),
            AccountType::Microsoft => username.to_owned(),
        },
    }
}

/// The account that a saved entry and its refresh token make: it still has
/// to be refreshed before use.
pub open spec fn loaded_account(username: Seq<char>, account: ConfigAccount, token: Seq<char>) -> (Option<Seq<char>>, Seq<char>, Seq<char>, Seq<char>, Seq<char>, bool, AccountType) {
    let kind = kind_of(account.account_type, username);
    let login = keyring_name(kind, username, account.keyring_identifier);
    (None, account.uuid@, login, match account.username_nice {
        Some(n) => n@,
        None => login,
    }, token, true, kind)
}

/// The position of the first entry with key `k`, or the length when there
/// is none.
pub open spec fn first_with_key(m: Seq<(String, AccountData)>, k: Seq<char>) -> int
    decreases m.len(),
{
    if m.len() == 0 {
        0
    } else if m[0].0@ == k {
        0
    } else {
        1 + first_with_key(m.drop_first(), k)
    }
}

proof fn lemma_first_with_key(m: Seq<(String, AccountData)>, k: Seq<char>, i: int)
    requires
        0 <= i <= m.len(),
        forall|j: int| 0 <= j < i ==> (#[trigger] m[j]).0@ != k,
        i == m.len() || m[i].0@ == k,
    ensures
        first_with_key(m, k) == i,
    decreases m.len(),
{
    if m.len() > 0 && i > 0 {
        assert forall|j: int| 0 <= j < i - 1 implies (#[trigger] m.drop_first()[j]).0@ != k by {
            assert(m.drop_first()[j] == m[j + 1]);
        }
        lemma_first_with_key(m.drop_first(), k, i - 1);
    }
}

/// The first entry with key `k` has that key, and no entry before it has.
pub proof fn lemma_first_with_key_props(m: Seq<(String, AccountData)>, k: Seq<char>)
    ensures
        0 <= first_with_key(m, k) <= m.len(),
        first_with_key(m, k) < m.len() ==> m[first_with_key(m, k)].0@ == k,
        forall|j: int| 0 <= j < first_with_key(m, k) ==> (#[trigger] m[j]).0@ != k,
    decreases m.len(),
{
    if m.len() > 0 && m[0].0@ != k {
        lemma_first_with_key_props(m.drop_first(), k);
        assert forall|j: int| 0 <= j < first_with_key(m, k) implies (#[trigger] m[j]).0@ != k by {
            if j > 0 {
                assert(m[j] == m.drop_first()[j - 1]);
            }
        }
    }
}

/// Sets `key` to `value` (what `HashMap::insert` does): the first entry
/// with that key is replaced in place, or the pair is added at the end.
pub fn put_account(map: &mut Vec<(String, AccountData)>, key: String, value: AccountData)
    ensures
        0 <= first_with_key(old(map)@, key@) <= old(map)@.len(),
        first_with_key(old(map)@, key@) < old(map)@.len()
            ==> final(map)@ == old(map)@.update(first_with_key(old(map)@, key@), (key, value)),
        first_with_key(old(map)@, key@) >= old(map)@.len() ==> final(map)@ == old(map)@.push((key, value)),
{
    let mut i: usize = 0;
    while i < map.len()
        invariant
            i <= map@.len(),
            map@ == old(map)@,
            forall|j: int| 0 <= j < i ==> (#[trigger] map@[j]).0@ != key@,
        decreases map@.len() - i,
    {
        if str_eq(map[i].0.as_str(), key.as_str()) {
            proof {
                lemma_first_with_key(old(map)@, key@, i as int);
            }
            map.set(i, (key, value));
            return;
        }
        i = i + 1;
    }
    proof {
        lemma_first_with_key(old(map)@, key@, i as int);
    }
    map.push((key, value));
}

/// Loads one saved account. With its refresh token, the account is added
/// (to be refreshed before use) and its name put first in the list of
/// choices; without one, its name is queued for removal from the saved
/// accounts.
pub fn load_account(
    accounts: &mut Vec<(String, AccountData)>,
    accounts_dropdown: &mut Vec<String>,
    accounts_to_remove: &mut Vec<String>,
    username: &str,
    account: &ConfigAccount,
    refresh_token: Result<String, String>,
)
    ensures
        match refresh_token {
            Ok(t) => {
                &&& final(accounts_dropdown)@.len() == old(accounts_dropdown)@.len() + 1
                &&& final(accounts_dropdown)@[0]@ == username@
                &&& final(accounts_dropdown)@.skip(1) == old(accounts_dropdown)@
                &&& final(accounts_to_remove)@ == old(accounts_to_remove)@
                &&& ({
                    let i = first_with_key(old(accounts)@, username@);
                    &&& final(accounts)@.len() == if i < old(accounts)@.len() { old(accounts)@.len() } else { old(accounts)@.len() + 1 }
                    &&& final(accounts)@[i].0@ == username@
                    &&& data_view(final(accounts)@[i].1) == loaded_account(username@, *account, t@)
                    &&& forall|j: int| 0 <= j < old(accounts)@.len() && j != i ==> final(accounts)@[j] == #[trigger] old(accounts)@[j]
                })
            },
            Err(_) => {
                &&& final(accounts)@ == old(accounts)@
                &&& final(accounts_dropdown)@ == old(accounts_dropdown)@
                &&& final(accounts_to_remove)@.len() == old(accounts_to_remove)@.len() + 1
                &&& final(accounts_to_remove)@.last()@ == username@
                &&& final(accounts_to_remove)@.drop_last() == old(accounts_to_remove)@
            },
        },
{
    let kind = account_kind(&account.account_type, username);
    let login = keyring_username(kind, username, &account.keyring_identifier);
    match refresh_token {
        Ok(token) => {
            accounts_dropdown.insert(0, username.to_owned());
            assert(accounts_dropdown@.skip(1) =~= old(accounts_dropdown)@);
            let nice = match &account.username_nice {
                Some(n) => n.clone(),
                None => login.clone(),
            };
            let data = AccountData {
                access_token: None,
                uuid: account.uuid.clone(),
                refresh_token: token,
                needs_refresh: true,
                account_type: kind,
                username: login,
                nice_username: nice,
            };
            let key = username.to_owned();
            let ghost d = data;
            put_account(accounts, key, data);
            proof {
                let i = first_with_key(old(accounts)@, username@);
                if i < old(accounts)@.len() {
                    assert(accounts@[i].1 == d);
                } else {
                    assert(accounts@[old(accounts)@.len() as int].1 == d);
                }
            }
        },
        Err(_) => {
            accounts_to_remove.push(username.to_owned());
            assert(accounts_to_remove@.drop_last() =~= old(accounts_to_remove)@);
        },
    }
}

/// The service a saved account is refreshed through on the command line:
/// Ely.by and LittleSkin by their recorded type, anything else Microsoft.
pub open spec fn refresh_kind_of(account_type: Option<String>) -> AccountType {
    if opt_is(account_type, "ElyBy"@) {
        AccountType::ElyBy
    } else if opt_is(account_type, "LittleSkin"@) {
        AccountType::LittleSkin
    } else {
        AccountType::Microsoft
    }
}

pub fn refresh_kind(account_type: &Option<String>) -> (k: AccountType)
    ensures
        k == refresh_kind_of(*account_type),
{
    if opt_eq(account_type, "ElyBy") {
        AccountType::ElyBy
    } else if opt_eq(account_type, "LittleSkin") {
        AccountType::LittleSkin
    } else {
        AccountType::Microsoft
    }
}

/// Finds the saved account that a name on the command line refers to: the
/// account saved under that name, else one whose shown name it is.
pub fn find_account(accounts: &[(String, ConfigAccount)], username: &str) -> (r: Option<usize>)
    ensures
        match r {
            Some(i) => i < accounts@.len() && (accounts@[i as int].0@ == username@
                || (opt_is(accounts@[i as int].1.username_nice, username@)
                    && forall|j: int| 0 <= j < accounts@.len() ==> (#[trigger] accounts@[j]).0@ != username@)),
            None => forall|j: int| 0 <= j < accounts@.len() ==> (#[trigger] accounts@[j]).0@ != username@
                && !opt_is(accounts@[j].1.username_nice, username@),
        },
{
    let mut i: usize = 0;
    while i < accounts.len()
        invariant
            i <= accounts@.len(),
            forall|j: int| 0 <= j < i ==> (#[trigger] accounts@[j]).0@ != username@,
        decreases accounts@.len() - i,
    {
        if str_eq(accounts[i].0.as_str(), username) {
            return Some(i);
        }
        i = i + 1;
    }
    let mut k: usize = 0;
    while k < accounts.len()
        invariant
            k <= accounts@.len(),
            forall|j: int| 0 <= j < accounts@.len() ==> (#[trigger] accounts@[j]).0@ != username@,
            forall|j: int| 0 <= j < k ==> !opt_is((#[trigger] accounts@[j]).1.username_nice, username@),
        decreases accounts@.len() - k,
    {
        if opt_eq(&accounts[k].1.username_nice, username) {
            return Some(k);
        }
        k = k + 1;
    }
    None
}

} // verus!
