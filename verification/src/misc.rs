//! The address of the content store.

use crate::text::{chars_of, string_of};
use vstd::prelude::*;

verus! {

/// The name of the environment variable that holds the store's address.
pub open spec fn database_url_variable() -> Seq<char> {
    "FOIL_DATABASE_URL"@
}

/// The address that stands where the environment names none.
pub open spec fn default_database_url() -> Seq<char> {
    "postgres://localhost/foil"@
}

/// What stands before the first `c` of `s`; all of `s` where it holds no
/// `c`.
pub open spec fn before_first(s: Seq<char>, c: char) -> Seq<char>
    decreases s.len(),
{
    if s.len() == 0 || s[0] == c {
        Seq::<char>::empty()
    } else {
        seq![s[0]] + before_first(s.drop_first(), c)
    }
}

/// The name of the environment variable that holds the store's address.
pub fn database_url_name() -> (name: String)
    ensures
        name@ == database_url_variable(),
{
    "FOIL_DATABASE_URL".to_owned()
}

/// The address of the content store: what the environment names, or the
/// default.
pub fn get_db_url(from_environment: Option<String>) -> (url: String)
    ensures
        match from_environment {
            Some(value) => url == value,
            None => url@ == default_database_url(),
        },
{
    match from_environment {
        Some(value) => value,
        None => "postgres://localhost/foil".to_owned(),
    }
}

/// The part of an address that may be shown: what stands before its
/// query, which may hold a password.
pub fn public_db_url(db_url: &str) -> (shown: String)
    ensures
        shown@ == before_first(db_url@, '?'),
{
    let chars = chars_of(db_url);
    let mut out: Vec<char> = Vec::new();
    let mut i: usize = 0;
    proof {
        assert(chars@.skip(0) =~= chars@);
    }
    while i < chars.len() && chars[i] != '?'
        invariant
            i <= chars.len(),
            out@ + before_first(chars@.skip(i as int), '?') == before_first(chars@, '?'),
        decreases chars.len() - i,
    {
        proof {
            assert(chars@.skip(i as int).drop_first() =~= chars@.skip(i + 1));
            assert(chars@.skip(i as int)[0] == chars@[i as int]);
        }
        out.push(chars[i]);
        i += 1;
    }
    proof {
        if i < chars.len() {
            assert(chars@.skip(i as int)[0] == chars@[i as int]);
        }
        assert(out@ + Seq::<char>::empty() =~= out@);
    }
    string_of(&out)
}

} // verus!
