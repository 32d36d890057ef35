//! Identity plumbing around the engine: the user records the engine keeps,
//! the shapes the identity service resolves credentials into, and the pure
//! derivations of emails, usernames and organization slugs.

use vstd::prelude::*;

use crate::model::{clone_opt_string, opt_str_view, str_eq};

verus! {

/// A user as the identity service reports it.
#[derive(Debug)]
pub struct ClerkUser {
    pub id: String,
    pub email: String,
    pub first_name: Option<String>,
    pub last_name: Option<String>,
    pub username: Option<String>,
}

/// An organization membership as the identity service reports it.
#[derive(Debug)]
pub struct ClerkOrganizationMembership {
    pub id: String,
    pub slug: Option<String>,
}

/// A user as an OAuth provider reports it.
#[derive(Debug)]
pub struct ProviderUser {
    pub id: String,
    pub login: Option<String>,
    pub email: Option<String>,
    pub name: Option<String>,
    pub avatar_url: Option<String>,
}

/// The fields an identity upsert writes.
#[derive(Debug)]
pub struct UpsertUser {
    pub id: String,
    pub email: String,
    pub first_name: Option<String>,
    pub last_name: Option<String>,
    pub username: Option<String>,
}

/// One known email address of an identity, as the identity service lists it.
#[derive(Debug)]
pub struct UserEmailAddress {
    pub id: String,
    pub email_address: String,
}

/// State of one device authorization.
#[derive(Clone, Copy, PartialEq, Eq, Structural, Debug)]
pub enum AuthorizationStatus {
    Pending,
    Success,
    Error,
    Expired,
}

impl AuthorizationStatus {
    /// The wire word for this status.
    pub fn as_str(&self) -> (r: &'static str)
        ensures
            r@ == match self {
                AuthorizationStatus::Pending => "pending"@,
                AuthorizationStatus::Success => "success"@,
                AuthorizationStatus::Error => "error"@,
                AuthorizationStatus::Expired => "expired"@,
            },
    {
        match self {
            AuthorizationStatus::Pending => "pending",
            AuthorizationStatus::Success => "success",
            AuthorizationStatus::Error => "error",
            AuthorizationStatus::Expired => "expired",
        }
    }

    /// The status a wire word denotes, if any.
    pub fn parse(input: &str) -> (r: Result<AuthorizationStatus, ()>)
        ensures
            input@ == "pending"@ ==> r == Ok::<AuthorizationStatus, ()>(
                AuthorizationStatus::Pending,
            ),
            input@ == "success"@ ==> r == Ok::<AuthorizationStatus, ()>(
                AuthorizationStatus::Success,
            ),
            input@ == "error"@ ==> r == Ok::<AuthorizationStatus, ()>(AuthorizationStatus::Error),
            input@ == "expired"@ ==> r == Ok::<AuthorizationStatus, ()>(
                AuthorizationStatus::Expired,
            ),
            input@ != "pending"@ && input@ != "success"@ && input@ != "error"@ && input@
                != "expired"@ ==> r == Err::<AuthorizationStatus, ()>(()),
    {
        proof {
            reveal_strlit("pending");
            reveal_strlit("success");
            reveal_strlit("error");
            reveal_strlit("expired");
            assert("pending"@[0] == 'p' && "success"@[0] == 's' && "error"@[0] == 'e'
                && "expired"@[0] == 'e');
            assert("pending"@ != "success"@ && "pending"@ != "error"@ && "pending"@
                != "expired"@);
            assert("error"@.len() == 5 && "expired"@.len() == 7);
            assert("success"@ != "error"@ && "success"@ != "expired"@ && "error"@
                != "expired"@);
        }
        if str_eq(input, "pending") {
            Ok(AuthorizationStatus::Pending)
        } else if str_eq(input, "success") {
            Ok(AuthorizationStatus::Success)
        } else if str_eq(input, "error") {
            Ok(AuthorizationStatus::Error)
        } else if str_eq(input, "expired") {
            Ok(AuthorizationStatus::Expired)
        } else {
            Err(())
        }
    }
}

/// The email recorded for the given address id, if the id is listed.
pub open spec fn find_email_by_id(
    addresses: Seq<UserEmailAddress>,
    pid: Seq<char>,
) -> Option<Seq<char>>
    decreases addresses.len(),
{
    if addresses.len() == 0 {
        None
    } else if addresses[0].id@ == pid {
        Some(addresses[0].email_address@)
    } else {
        find_email_by_id(addresses.drop_first(), pid)
    }
}

/// The first listed email address, if any.
pub open spec fn first_email(addresses: Seq<UserEmailAddress>) -> Option<Seq<char>> {
    if addresses.len() == 0 {
        None
    } else {
        Some(addresses[0].email_address@)
    }
}

/// The primary email address of an identity: the one the listed primary id
/// names, else the first listed address.
pub open spec fn primary_email_of(
    primary_id: Option<Seq<char>>,
    addresses: Seq<UserEmailAddress>,
) -> Option<Seq<char>> {
    match primary_id {
        Some(pid) => match find_email_by_id(addresses, pid) {
            Some(e) => Some(e),
            None => first_email(addresses),
        },
        None => first_email(addresses),
    }
}

/// Resolves an identity's primary email: the address the primary id names,
/// else the first listed address, if any.
pub fn resolve_primary_email(
    primary_id: &Option<String>,
    addresses: &Vec<UserEmailAddress>,
) -> (r: Option<String>)
    ensures
        opt_str_view(r) == primary_email_of(opt_str_view(*primary_id), addresses@),
{
    match primary_id {
        Some(pid) => {
            let n = addresses.len();
            let mut i: usize = 0;
            proof {
                assert(addresses@.skip(0) =~= addresses@);
            }
            while i < n
                invariant
                    n == addresses@.len(),
                    i <= n,
                    opt_str_view(*primary_id) == Some(pid@),
                    find_email_by_id(addresses@, pid@) == find_email_by_id(
                        addresses@.skip(i as int),
                        pid@,
                    ),
                decreases n - i,
            {
                proof {
                    assert(addresses@.skip(i as int)[0] == addresses@[i as int]);
                    assert(addresses@.skip(i as int).drop_first() =~= addresses@.skip(
                        i as int + 1,
                    ));
                }
                if str_eq(addresses[i].id.as_str(), pid.as_str()) {
                    let email = addresses[i].email_address.clone();
                    proof {
                        assert(opt_str_view(*primary_id) == Some(pid@));
                        assert(find_email_by_id(addresses@, pid@) == Some(
                            addresses@[i as int].email_address@,
                        ));
                        assert(email@ == addresses@[i as int].email_address@);
                    }
                    return Some(email);
                }
                i = i + 1;
            }
            proof {
                assert(addresses@.skip(n as int) =~= Seq::<UserEmailAddress>::empty());
                assert(find_email_by_id(addresses@, pid@) is None);
                assert(opt_str_view(*primary_id) == Some(pid@));
            }
            if addresses.len() > 0 {
                let email = addresses[0].email_address.clone();
                proof {
                    assert(email@ == addresses@[0].email_address@);
                }
                Some(email)
            } else {
                None
            }
        },
        None => {
            proof {
                assert(opt_str_view(*primary_id) is None);
            }
            if addresses.len() > 0 {
                Some(addresses[0].email_address.clone())
            } else {
                None
            }
        },
    }
}

/// A user's display name, as the provider reported it.
pub fn derive_display_name(profile: &ProviderUser) -> (r: Option<String>)
    ensures
        opt_str_view(r) == opt_str_view(profile.name),
{
    clone_opt_string(&profile.name)
}

/// The synthetic personal-organization id of a user.
pub fn personal_org_id(user_id: &str) -> (r: String)
    ensures
        r@ == "org-"@ + user_id@,
{
    let mut s = String::new();
    s.append("org-");
    s.append(user_id);
    s
}

/// What a fallback email for a provider account looks like.
pub open spec fn fallback_email_of(provider: Seq<char>, id: Seq<char>) -> Seq<char> {
    if provider == "github"@ {
        id + "@users.noreply.github.com"@
    } else if provider == "google"@ {
        id + "@users.noreply.google.com"@
    } else {
        id + "@oauth.local"@
    }
}

/// The email recorded for a provider account: the reported address, else a
/// synthetic one derived from the provider and account id.
pub fn ensure_email(provider: &str, profile: &ProviderUser) -> (r: String)
    ensures
        r@ == match opt_str_view(profile.email) {
            Some(e) => e,
            None => fallback_email_of(provider@, profile.id@),
        },
{
    match &profile.email {
        Some(email) => email.clone(),
        None => {
            proof {
                reveal_strlit("github");
                reveal_strlit("google");
            }
            let mut s = String::new();
            s.append(profile.id.as_str());
            if str_eq(provider, "github") {
                s.append("@users.noreply.github.com");
            } else if str_eq(provider, "google") {
                s.append("@users.noreply.google.com");
            } else {
                s.append("@oauth.local");
            }
            s
        },
    }
}

/// The username recorded for a provider account: the login, else the part
/// of the email before the first `@`, else provider and account id joined
/// by a dash.
pub fn derive_username(provider: &str, profile: &ProviderUser) -> (r: Option<String>)
    ensures
        r is Some,
        profile.login is Some ==> r == profile.login,
        profile.login is None && profile.email is Some ==> r->0@ == email_user_part(
            profile.email->0@,
        ),
        profile.login is None && profile.email is None ==> r->0@ == provider@ + "-"@
            + profile.id@,
{
    match &profile.login {
        Some(login) => Some(login.clone()),
        None => {
            match &profile.email {
                Some(email) => {
                    let cut = find_at_sign(email.as_str());
                    Some(String::from_str(email.as_str().substring_char(0, cut)))
                },
                None => {
                    let mut s = String::new();
                    s.append(provider);
                    s.append("-");
                    s.append(profile.id.as_str());
                    proof {
                        reveal_strlit("-");
                    }
                    Some(s)
                },
            }
        },
    }
}

/// The characters of an email before its first `@` (the whole address when
/// it has no `@`).
pub open spec fn email_user_part(email: Seq<char>) -> Seq<char> {
    email.take(first_at(email))
}

/// Index of the first `@` of a character sequence, or its length.
pub open spec fn first_at(s: Seq<char>) -> int
    decreases s.len(),
{
    if s.len() == 0 {
        0
    } else if s[0] == '@' {
        0
    } else {
        1 + first_at(s.drop_first())
    }
}

/// Finds the first `@` of a string, or its end.
fn find_at_sign(s: &str) -> (r: usize)
    ensures
        r == first_at(s@),
        r <= s@.len(),
{
    let n = s.unicode_len();
    let mut i: usize = 0;
    proof {
        assert(s@.skip(0) =~= s@);
    }
    while i < n
        invariant
            n == s@.len(),
            i <= n,
            first_at(s@) == i + first_at(s@.skip(i as int)),
        decreases n - i,
    {
        proof {
            assert(s@.skip(i as int)[0] == s@[i as int]);
            assert(s@.skip(i as int).drop_first() =~= s@.skip(i as int + 1));
        }
        if s.get_char(i) == '@' {
            proof {
                assert(first_at(s@.skip(i as int)) == 0);
            }
            return i;
        }
        i = i + 1;
    }
    proof {
        assert(s@.skip(n as int) =~= Seq::<char>::empty());
    }
    n
}

/// What the personal-organization slug maps each character to: lowercase
/// letters, digits and dashes stay (uppercase folded), all else is a dash.
pub open spec fn slug_char(c: char) -> char {
    if 'A' <= c <= 'Z' {
        ((c as u8) + 32) as char
    } else if ('a' <= c <= 'z') || ('0' <= c <= '9') || c == '-' {
        c
    } else {
        '-'
    }
}

/// The slug of a candidate name: each character folded by `slug_char`.
pub open spec fn slug_of(s: Seq<char>) -> Seq<char> {
    s.map_values(|c: char| slug_char(c))
}

/// The personal-organization slug of a user: the hint when one was given
/// (not yet trimmed of surrounding whitespace), else the user id, folded to
/// lowercase letters, digits and dashes.
pub fn personal_org_slug(user_id: &str, hint: Option<&str>) -> (r: String)
    ensures
        r@ == slug_of(
            match hint {
                Some(h) => if h@.len() > 0 {
                    h@
                } else {
                    user_id@
                },
                None => user_id@,
            },
        ),
{
    let candidate: &str = match hint {
        Some(h) => {
            if h.unicode_len() > 0 {
                h
            } else {
                user_id
            }
        },
        None => user_id,
    };
    let n = candidate.unicode_len();
    let mut out = String::new();
    let mut i: usize = 0;
    proof {
        assert(out@ =~= slug_of(candidate@.take(0)));
    }
    while i < n
        invariant
            n == candidate@.len(),
            i <= n,
            out@ == slug_of(candidate@.take(i as int)),
        decreases n - i,
    {
        let c = candidate.get_char(i);
        let mapped: char = if 'A' <= c && c <= 'Z' {
            ((c as u8) + 32) as char
        } else if ('a' <= c && c <= 'z') || ('0' <= c && c <= '9') || c == '-' {
            c
        } else {
            '-'
        };
        proof {
            assert(c as u8 as char == c || !('A' <= c <= 'Z')) by {
                if 'A' <= c <= 'Z' {
                    assert(c as u32 <= 90);
                }
            }
            assert(mapped == slug_char(c));
        }
        push_char(&mut out, mapped);
        proof {
            assert(candidate@.take(i as int + 1) =~= candidate@.take(i as int).push(c));
            assert(slug_of(candidate@.take(i as int + 1)) =~= slug_of(
                candidate@.take(i as int),
            ).push(slug_char(c)));
        }
        i = i + 1;
    }
    proof {
        assert(candidate@.take(n as int) =~= candidate@);
    }
    out
}

/// Relies on `String::push`: appends exactly the one character.
#[verifier::external_body]
fn push_char(s: &mut String, c: char)
    ensures
        final(s)@ == old(s)@.push(c),
{
    s.push(c);
}

} // verus!