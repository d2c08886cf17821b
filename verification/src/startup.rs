//! Starting the launcher: the first screen it shows, the saved accounts it
//! loads, the account it selects, and scrolling through a log.
use vstd::prelude::*;

use crate::auth::{
    data_view, first_with_key, lemma_first_with_key_props, load_account, loaded_account, AccountData,
    ConfigAccount,
};
use crate::text::str_eq;

verus! {

/// The first screen of the launcher.
#[derive(PartialEq, Eq, Structural, Clone, Copy)]
pub enum StartScreen {
    /// The introduction for a new user.
    Welcome,
    /// The home screen.
    Launch,
    /// What changed since the version last run.
    ChangeLog,
}

/// The first screen: the introduction for a new user, else the change log
/// when the configuration was last written by another version (an
/// unrecorded version counts as 0.3.0), which then records this version;
/// else the home screen.
pub fn startup_screen(is_new_user: bool, recorded_version: &mut Option<String>, current_version: &str) -> (s: StartScreen)
    ensures
        is_new_user ==> s == StartScreen::Welcome && *final(recorded_version) == *old(recorded_version),
        !is_new_user ==> ({
            let last = match *old(recorded_version) {
                Some(v) => v@,
                None => "0.3.0"@,
            };
            if last == current_version@ {
                s == StartScreen::Launch && *final(recorded_version) == *old(recorded_version)
            } else {
                s == StartScreen::ChangeLog && (*final(recorded_version) matches Some(v) && v@ == current_version@)
            }
        }),
{
    if is_new_user {
        return StartScreen::Welcome;
    }
    let same = match &*recorded_version {
        Some(v) => str_eq(v.as_str(), current_version),
        None => str_eq("0.3.0", current_version),
    };
    if same {
        StartScreen::Launch
    } else {
        *recorded_version = Some(current_version.to_owned());
        StartScreen::ChangeLog
    }
}

/// The accounts that a list of saved accounts and their refresh tokens
/// load, over the first `n`: the names put in front of the choices, newest
/// first.
pub open spec fn loaded_names(saved: Seq<(String, ConfigAccount)>, tokens: Seq<Result<String, String>>, n: int) -> Seq<Seq<char>>
    decreases n,
{
    if n <= 0 {
        seq![]
    } else if tokens[n - 1] is Ok {
        seq![saved[n - 1].0@] + loaded_names(saved, tokens, n - 1)
    } else {
        loaded_names(saved, tokens, n - 1)
    }
}

/// The saved accounts that stay saved: those whose token could be read.
pub open spec fn kept_saved(saved: Seq<(String, ConfigAccount)>, tokens: Seq<Result<String, String>>, n: int) -> Seq<Seq<char>>
    decreases n,
{
    if n <= 0 {
        seq![]
    } else if tokens[n - 1] is Ok {
        kept_saved(saved, tokens, n - 1).push(saved[n - 1].0@)
    } else {
        kept_saved(saved, tokens, n - 1)
    }
}

/// Whether the saved accounts have distinct names (as the configuration's
/// map gives them).
pub open spec fn names_distinct(saved: Seq<(String, ConfigAccount)>) -> bool {
    forall|j: int, k: int| 0 <= j < saved.len() && 0 <= k < saved.len() && j != k ==> saved[j].0@ != saved[k].0@
}

/// Whether `accounts` holds the account that a saved entry and its token
/// load.
pub open spec fn holds_loaded(accounts: Seq<(String, AccountData)>, entry: (String, ConfigAccount), token: Seq<char>) -> bool {
    exists|i: int| 0 <= i < accounts.len() && accounts[i].0@ == entry.0@
        && #[trigger] data_view(accounts[i].1) == loaded_account(entry.0@, entry.1, token)
}

pub open spec fn saved_names(saved: Seq<(String, ConfigAccount)>) -> Seq<Seq<char>> {
    saved.map_values(|e: (String, ConfigAccount)| e.0@)
}

/// Loads the saved accounts, given the refresh token read for each (or why
/// it could not be read): every account with a token is loaded and its
/// name put in front of the choices ("(Offline)" and "+ Add Account" stay
/// last); the others are dropped from the saved accounts.
pub fn load_saved_accounts(saved: &mut Vec<(String, ConfigAccount)>, tokens: Vec<Result<String, String>>) -> (r: (Vec<(String, AccountData)>, Vec<String>))
    requires
        old(saved)@.len() == tokens@.len(),
    ensures
        crate::mods::strs(r.1@) == loaded_names(old(saved)@, tokens@, tokens@.len() as int) + seq!["(Offline)"@, "+ Add Account"@],
        saved_names(final(saved)@) == kept_saved(old(saved)@, tokens@, tokens@.len() as int),
        names_distinct(old(saved)@) ==> forall|k: int| 0 <= k < old(saved)@.len() && tokens@[k] is Ok
            ==> holds_loaded(r.0@, #[trigger] old(saved)@[k], tokens@[k]->Ok_0@),
        names_distinct(old(saved)@) ==> r.0@.len() == loaded_names(old(saved)@, tokens@, tokens@.len() as int).len(),
{
    let mut accounts: Vec<(String, AccountData)> = Vec::new();
    let mut dropdown: Vec<String> = Vec::new();
    dropdown.push("(Offline)".to_owned());
    dropdown.push("+ Add Account".to_owned());
    let mut to_remove: Vec<String> = Vec::new();
    let mut kept: Vec<(String, ConfigAccount)> = Vec::new();
    let ghost s0 = saved@;
    let mut i: usize = 0;
    while i < saved.len()
        invariant
            i <= saved@.len(),
            saved@ == s0,
            s0.len() == tokens@.len(),
            crate::mods::strs(dropdown@) == loaded_names(s0, tokens@, i as int) + seq!["(Offline)"@, "+ Add Account"@],
            saved_names(kept@) == kept_saved(s0, tokens@, i as int),
            names_distinct(s0) ==> forall|k: int| 0 <= k < i && tokens@[k] is Ok
                ==> holds_loaded(accounts@, #[trigger] s0[k], tokens@[k]->Ok_0@),
            forall|a: int| 0 <= a < accounts@.len() ==> exists|k: int| 0 <= k < i && #[trigger] accounts@[a].0@ == s0[k].0@,
            names_distinct(s0) ==> accounts@.len() == loaded_names(s0, tokens@, i as int).len(),
        decreases saved@.len() - i,
    {
        let token = match &tokens[i] {
            Ok(t) => Ok(t.clone()),
            Err(e) => Err(e.clone()),
        };
        let ghost old_accounts = accounts@;
        let ghost old_dropdown = dropdown@;
        let ghost tok = token;
        load_account(&mut accounts, &mut dropdown, &mut to_remove, saved[i].0.as_str(), &saved[i].1, token);
        proof {
            if tok is Ok {
                assert(crate::mods::strs(dropdown@) =~= seq![s0[i as int].0@] + crate::mods::strs(old_dropdown));
            } else {
                assert(crate::mods::strs(dropdown@) =~= crate::mods::strs(old_dropdown));
            }
        }
        if tokens[i].is_ok() {
            let e = (saved[i].0.clone(), copy_config_account(&saved[i].1));
            let ghost prev = kept@;
            let ghost ev = e;
            kept.push(e);
            proof {
                crate::mods::lemma_map_push(prev, ev, |e: (String, ConfigAccount)| e.0@);
            }
        }
        proof {
            let u = s0[i as int].0@;
            let i0 = first_with_key(old_accounts, u);
            lemma_first_with_key_props(old_accounts, u);
            if tok is Ok {
                assert(data_view(accounts@[i0].1) == loaded_account(u, s0[i as int].1, tok->Ok_0@));
                if names_distinct(s0) && i0 < old_accounts.len() {
                    let k = choose|k: int| 0 <= k < i && #[trigger] old_accounts[i0].0@ == s0[k].0@;
                    assert(s0[k].0@ != s0[i as int].0@);
                    assert(false);
                }
            } else {
                assert(accounts@ == old_accounts);
            }
            if names_distinct(s0) {
                assert forall|k: int| 0 <= k < i + 1 && tokens@[k] is Ok
                    implies holds_loaded(accounts@, #[trigger] s0[k], tokens@[k]->Ok_0@) by {
                    if k < i {
                        assert(holds_loaded(old_accounts, s0[k], tokens@[k]->Ok_0@));
                        let a = choose|a: int| 0 <= a < old_accounts.len() && old_accounts[a].0@ == s0[k].0@
                            && #[trigger] data_view(old_accounts[a].1) == loaded_account(s0[k].0@, s0[k].1, tokens@[k]->Ok_0@);
                        assert(s0[k].0@ != s0[i as int].0@);
                        assert(old_accounts[a].0@ != u);
                        assert(a != i0);
                        assert(accounts@[a] == old_accounts[a]);
                        assert(data_view(accounts@[a].1) == loaded_account(s0[k].0@, s0[k].1, tokens@[k]->Ok_0@));
                    } else {
                        assert(accounts@[i0].0@ == s0[k].0@);
                        assert(data_view(accounts@[i0].1) == loaded_account(s0[k].0@, s0[k].1, tokens@[k]->Ok_0@));
                    }
                }
            }
            assert forall|a: int| 0 <= a < accounts@.len() implies exists|k: int| 0 <= k < i + 1 && #[trigger] accounts@[a].0@ == s0[k].0@ by {
                if accounts@[a].0@ != u {
                    if tok is Ok {
                        assert(a != i0);
                        assert(a < old_accounts.len());
                        assert(accounts@[a] == old_accounts[a]);
                    }
                    let k = choose|k: int| 0 <= k < i && #[trigger] old_accounts[a].0@ == s0[k].0@;
                    assert(accounts@[a].0@ == s0[k].0@);
                } else {
                    assert(accounts@[a].0@ == s0[i as int].0@);
                }
            }
        }
        i = i + 1;
    }
    *saved = kept;
    (accounts, dropdown)
}

fn copy_config_account(a: &ConfigAccount) -> (r: ConfigAccount)
    ensures
        r == *a,
{
    ConfigAccount {
        uuid: a.uuid.clone(),
        skin: a.skin.clone(),
        account_type: a.account_type.clone(),
        keyring_identifier: a.keyring_identifier.clone(),
        username_nice: a.username_nice.clone(),
    }
}

/// The account selected at start-up: the one the configuration recorded,
/// else the first of the choices, else playing offline.
pub fn selected_account(account_selected: Option<String>, dropdown: &[String]) -> (r: String)
    ensures
        r@ == match account_selected {
            Some(a) => a@,
            None => if dropdown@.len() > 0 { dropdown@[0]@ } else { "(Offline)"@ },
        },
{
    match account_selected {
        Some(a) => a,
        None => {
            if dropdown.len() > 0 {
                dropdown[0].clone()
            } else {
                "(Offline)".to_owned()
            }
        },
    }
}

/// A log's scroll position after scrolling by `lines`: moved when that
/// does not go before the start, else left where it was.
pub open spec fn scrolled(scroll: int, lines: int) -> int {
    if scroll - lines >= 0 {
        scroll - lines
    } else {
        scroll
    }
}

/// Scrolls a log by `lines` (towards its start for a positive count),
/// never past its start.
pub fn scroll_log(scroll: isize, lines: isize) -> (r: isize)
    requires
        isize::MIN <= scroll - lines <= isize::MAX,
    ensures
        r == scrolled(scroll as int, lines as int),
{
    let next = scroll - lines;
    if next >= 0 {
        next
    } else {
        scroll
    }
}

/// Scrolling never moves a log before its start: from a position at or
/// after the start, every scroll ends at or after it, having moved by the
/// whole count or not at all.
pub proof fn lemma_scroll_stays_in_log(scroll: int, lines: int)
    requires
        scroll >= 0,
    ensures
        scrolled(scroll, lines) >= 0,
        scrolled(scroll, lines) == scroll - lines || scrolled(scroll, lines) == scroll,
{
}

} // verus!
