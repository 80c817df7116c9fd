use crate::action::{grant, is_grant, is_refusal, refuse, Action};
use crate::message::{Message, Msg};
use crate::secrets::{bcrypt_verdict, check_password, fresh_token};
use vstd::prelude::*;

verus! {

/// A user as the static configuration knows them.
#[derive(Debug)]
pub struct UserRecord {
    pub name: String,
    /// The salted one-way hash of the user's password.
    pub passwd_hash: String,
}

/// The hash stored for `name`: that of the first record with this name.
pub open spec fn stored_hash(users: Seq<UserRecord>, name: Seq<char>) -> Option<Seq<char>>
    decreases users.len(),
{
    if users.len() == 0 {
        None
    } else if users[0].name@ == name {
        Some(users[0].passwd_hash@)
    } else {
        stored_hash(users.drop_first(), name)
    }
}

/// Whether `passwd` is the password of `name`. A name that is not configured
/// is judged like a wrong password; a stored hash that cannot be read is an
/// error, with its text.
pub open spec fn user_verdict(users: Seq<UserRecord>, name: Seq<char>, passwd: Seq<char>) -> Result<
    bool,
    Seq<char>,
> {
    match stored_hash(users, name) {
        None => Ok(false),
        Some(hash) => bcrypt_verdict(passwd, hash),
    }
}

/// The name and password that the arguments of an `auth` request carry, or
/// the text that says which one is missing.
pub open spec fn credentials_of(args: Msg) -> Result<(Seq<char>, Seq<char>), Seq<char>> {
    match args.text_at("name"@) {
        None => Err("Missing name"@),
        Some(name) => match args.text_at("passwd"@) {
            None => Err("Missing password"@),
            Some(passwd) => Ok((name, passwd)),
        },
    }
}

/// Whether `action` is what a judgement on `name` calls for: where the
/// credentials hold, a grant of some token of 36 characters; where they do
/// not, the refusal.
pub open spec fn answers_verdict(name: Seq<char>, verified: bool, action: Action) -> bool {
    if verified {
        &&& action matches Action::Grant { token, .. }
        &&& token@.len() == 36
        &&& is_grant(action, name, token@)
    } else {
        is_refusal(action)
    }
}

/// The judgement on an `auth` request with the arguments `args`: the name
/// it is made for and whether the credentials hold, or the text of the error
/// that kept it from being made.
pub open spec fn auth_judgement(args: Msg, users: Seq<UserRecord>) -> Result<
    (Seq<char>, bool),
    Seq<char>,
> {
    match credentials_of(args) {
        Err(text) => Err(text),
        Ok((name, passwd)) => match user_verdict(users, name, passwd) {
            Err(text) => Err(text),
            Ok(verified) => Ok((name, verified)),
        },
    }
}

/// Whether `result` is a right outcome of an `auth` request with the
/// arguments `args` against the configured `users`.
pub open spec fn answers_auth(args: Msg, users: Seq<UserRecord>, result: Result<Action, String>) -> bool {
    match auth_judgement(args, users) {
        Err(text) => result matches Err(said) && said@ == text,
        Ok((name, verified)) => result matches Ok(action) && answers_verdict(
            name,
            verified,
            action,
        ),
    }
}

/// The hash stored for `name`, if the name is configured.
pub fn find_hash<'a>(users: &'a Vec<UserRecord>, name: &str) -> (found: Option<&'a str>)
    ensures
        match found {
            Some(hash) => stored_hash(users@, name@) == Some(hash@),
            None => stored_hash(users@, name@) is None,
        },
{
    let wanted = name.to_owned();
    let mut i: usize = 0;
    assert(users@.skip(0) =~= users@);
    while i < users.len()
        invariant
            i <= users@.len(),
            wanted@ == name@,
            stored_hash(users@, name@) == stored_hash(users@.skip(i as int), name@),
        decreases users@.len() - i,
    {
        let ghost rest = users@.skip(i as int);
        assert(rest[0] == users@[i as int]);
        assert(rest.drop_first() =~= users@.skip(i + 1));
        if users[i].name == wanted {
            assert(stored_hash(rest, name@) == Some(rest[0].passwd_hash@));
            return Some(users[i].passwd_hash.as_str());
        }
        assert(stored_hash(rest, name@) == stored_hash(rest.drop_first(), name@));
        i += 1;
    }
    None
}

/// Checks `passwd` against the hash stored for `name`.
pub fn verify_user(name: &str, passwd: &str, users: &Vec<UserRecord>) -> (verdict: Result<
    bool,
    String,
>)
    ensures
        match verdict {
            Ok(verified) => user_verdict(users@, name@, passwd@) == Ok::<bool, Seq<char>>(verified),
            Err(text) => user_verdict(users@, name@, passwd@) == Err::<bool, Seq<char>>(text@),
        },
{
    match find_hash(users, name) {
        Some(hash) => check_password(passwd, hash),
        None => Ok(false),
    }
}

/// Reads the name and the password out of the arguments of an `auth`
/// request. Both must be strings.
pub fn credentials(args: &Message) -> (found: Result<(&str, &str), String>)
    ensures
        match found {
            Ok((name, passwd)) => credentials_of(args@) == Ok::<
                (Seq<char>, Seq<char>),
                Seq<char>,
            >((name@, passwd@)),
            Err(text) => credentials_of(args@) == Err::<(Seq<char>, Seq<char>), Seq<char>>(text@),
        },
{
    let name = match args.text_at("name") {
        Some(name) => name,
        None => {
            return Err("Missing name".to_owned());
        },
    };
    let passwd = match args.text_at("passwd") {
        Some(passwd) => passwd,
        None => {
            return Err("Missing password".to_owned());
        },
    };
    Ok((name, passwd))
}

/// Handles an `auth` request with the arguments `args`.
///
/// Credentials that hold are granted a new token. A wrong password and an
/// unknown name are refused in the same words. Missing arguments and a
/// stored hash that cannot be read are errors, each with its text.
pub fn handle_auth(args: &Message, users: &Vec<UserRecord>) -> (result: Result<Action, String>)
    ensures
        answers_auth(args@, users@, result),
{
    let (name, passwd) = match credentials(args) {
        Ok(found) => found,
        Err(text) => {
            return Err(text);
        },
    };
    match verify_user(name, passwd, users) {
        Ok(true) => Ok(grant(name, fresh_token())),
        Ok(false) => Ok(refuse()),
        Err(text) => Err(text),
    }
}

/// A name that is not configured is judged exactly as a wrong password is.
pub proof fn lemma_unknown_user_is_not_verified(
    users: Seq<UserRecord>,
    name: Seq<char>,
    passwd: Seq<char>,
)
    requires
        stored_hash(users, name) is None,
    ensures
        user_verdict(users, name, passwd) == Ok::<bool, Seq<char>>(false),
{
}

/// Credentials that do not hold are answered in one way, whether the name is
/// unknown or the password is wrong: with the refusal, which grants nothing.
pub proof fn lemma_rejection_is_uniform(
    args: Msg,
    users: Seq<UserRecord>,
    result: Result<Action, String>,
)
    requires
        answers_auth(args, users, result),
        credentials_of(args) matches Ok((name, passwd)) && user_verdict(users, name, passwd) == Ok::<
            bool,
            Seq<char>,
        >(false),
    ensures
        result matches Ok(action) && is_refusal(action) && !(action is Grant),
{
}

/// Credentials that hold are granted a token, and the answer names the very
/// token that the grant binds to the name.
pub proof fn lemma_acceptance_grants_token(
    args: Msg,
    users: Seq<UserRecord>,
    result: Result<Action, String>,
)
    requires
        answers_auth(args, users, result),
        credentials_of(args) matches Ok((name, passwd)) && user_verdict(users, name, passwd) == Ok::<
            bool,
            Seq<char>,
        >(true),
    ensures
        result matches Ok(Action::Grant { name: granted, token, response }) && granted@
            == credentials_of(args)->Ok_0.0 && token@.len() > 0 && response@ == Msg::single(
            "tok"@,
            token@,
        ),
{
}

} // verus!
