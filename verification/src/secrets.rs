use vstd::prelude::*;

verus! {

/// What `bcrypt::verify` makes of a password and a stored hash: whether the
/// password hashes to it, or the text of the error where the hash cannot be
/// read as one.
pub uninterp spec fn bcrypt_verdict(passwd: Seq<char>, hash: Seq<char>) -> Result<bool, Seq<char>>;

/// `bcrypt::verify`, with an error turned into its `Display` text.
#[verifier::external_body]
pub(crate) fn check_password(passwd: &str, hash: &str) -> (verdict: Result<bool, String>)
    ensures
        match verdict {
            Ok(matches) => bcrypt_verdict(passwd@, hash@) == Ok::<bool, Seq<char>>(matches),
            Err(text) => bcrypt_verdict(passwd@, hash@) == Err::<bool, Seq<char>>(text@),
        },
{
    match bcrypt::verify(passwd, hash) {
        Ok(matches) => Ok(matches),
        Err(error) => Err(error.to_string()),
    }
}

/// `Uuid::now_v7` as text. Each call gives another identifier; all that is
/// claimed is the hyphenated form's length of 36 characters.
#[verifier::external_body]
pub(crate) fn fresh_token() -> (token: String)
    ensures
        token@.len() == 36,
{
    uuid::Uuid::now_v7().to_string()
}

} // verus!
