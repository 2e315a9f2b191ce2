//! Signing up, signing in and resetting a password: what the server decides at each step.
use vstd::prelude::*;
use vstd::utf8::encode_utf8;
use crate::errors::{
    is_middleware_error, is_registration_error, is_server_error, join, text, AppError, Redirected,
};
use crate::session::{UserDetails, UserSessionSS};

verus! {

/// A lower-case hexadecimal digit.
pub open spec fn is_lower_hex(c: char) -> bool {
    ('0' <= c && c <= '9') || ('a' <= c && c <= 'f')
}

/// `s` is a version-4 UUID in its hyphenated lower-case form, such as
/// `67e55044-10b1-426f-9247-bb680e5fe0c8`.
pub open spec fn is_hyphenated_uuid_v4(s: Seq<char>) -> bool {
    &&& s.len() == 36
    &&& forall|i: int|
        0 <= i < 36 ==> if i == 8 || i == 13 || i == 18 || i == 23 {
            s[i] == '-'
        } else {
            is_lower_hex(#[trigger] s[i])
        }
    &&& s[14] == '4'
}

/// Calls `uuid::Uuid::new_v4()` and formats the result with `to_string()`.
/// Trusted: the UUID is drawn at random, so only its form is stated: the hyphenated
/// lower-case form of a version-4 UUID (the `Display` of `Uuid` writes `as_hyphenated()` in
/// lower case, and `new_v4` sets the version nibble to 4). Which UUID comes back is chance;
/// `new_v4` panics where the operating system gives no random bytes.
#[verifier::external_body]
pub(crate) fn new_uuid_string() -> (r: String)
    ensures
        is_hyphenated_uuid_v4(r@),
{
    uuid::Uuid::new_v4().to_string()
}

/// An address that a user signs up with.
#[derive(Debug)]
pub struct Email(pub String);

/// A value that can be checked before it is used.
pub trait Validate {
    fn is_valid(&self) -> bool;
}

/// The address contains an `@` and a `.`, is longer than three bytes in UTF-8, and neither
/// starts nor ends with `@`.
pub open spec fn valid_email(s: Seq<char>) -> bool {
    &&& s.contains('@')
    &&& s.contains('.')
    &&& encode_utf8(s).len() > 3
    &&& !(s.len() > 0 && s[0] == '@')
    &&& !(s.len() > 0 && s[s.len() - 1] == '@')
}

/// An address passes the sign-up check exactly when it holds an `@` and at least one `.`
/// (any number of them), is longer than three bytes in UTF-8, and neither starts nor ends
/// with `@`.
pub proof fn lemma_valid_email_meaning(s: Seq<char>)
    ensures
        valid_email(s) <==> (exists|i: int| 0 <= i < s.len() && s[i] == '@') && (exists|j: int|
            0 <= j < s.len() && s[j] == '.') && encode_utf8(s).len() > 3 && !(s.len() > 0 && s[0]
            == '@') && !(s.len() > 0 && s[s.len() - 1] == '@'),
{
}

impl Validate for Email {
    /// Whether the address passes the sign-up check (see `valid_email`).
    fn is_valid(&self) -> (r: bool)
        ensures
            r == valid_email(self.0@),
            r <==> self.0@.contains('@') && self.0@.contains('.') && encode_utf8(self.0@).len() > 3
                && !(self.0@.len() > 0 && self.0@[0] == '@') && !(self.0@.len() > 0
                && self.0@[self.0@.len() - 1] == '@'),
    {
        let s = self.0.as_str();
        let n = s.unicode_len();
        let mut has_at = false;
        let mut has_dot = false;
        let mut i: usize = 0;
        while i < n
            invariant
                n == s@.len(),
                s@ == self.0@,
                0 <= i <= n,
                has_at <==> exists|j: int| 0 <= j < i && s@[j] == '@',
                has_dot <==> exists|j: int| 0 <= j < i && s@[j] == '.',
            decreases n - i,
        {
            let c = s.get_char(i);
            if c == '@' {
                has_at = true;
            }
            if c == '.' {
                has_dot = true;
            }
            i = i + 1;
        }
        let long_enough = s.as_bytes().len() > 3;
        let starts_with_at = n > 0 && s.get_char(0) == '@';
        let ends_with_at = n > 0 && s.get_char(n - 1) == '@';
        proof {
            if has_at {
                let j = choose|j: int| 0 <= j < i && s@[j] == '@';
                assert(s@.contains(s@[j]));
            }
            if has_dot {
                let j = choose|j: int| 0 <= j < i && s@[j] == '.';
                assert(s@.contains(s@[j]));
            }
        }
        has_at && has_dot && long_enough && !starts_with_at && !ends_with_at
    }
}

/// A sign-up that waits for its address to be confirmed: kept in the session store under
/// its `uuid` until the link mailed to the address is followed.
#[derive(Debug)]
pub struct InvalidatedUser {
    pub email: Email,
    pub password: String,
    pub uuid: String,
}

impl InvalidatedUser {
    /// A pending sign-up for a valid address, under a fresh random id; an invalid address
    /// is refused with a server error "invalid email".
    pub fn new(email: String, password: String) -> (r: Result<Self, AppError>)
        ensures
            valid_email(email@) <==> r is Ok,
            r matches Ok(u) ==> u.email.0 == email && u.password == password
                && is_hyphenated_uuid_v4(u.uuid@),
            r matches Err(e) ==> is_server_error(e, "invalid email"@),
    {
        let email = Email(email);
        if email.is_valid() {
            let uuid = new_uuid_string();
            let invalidated_user = InvalidatedUser { email: email, password: password, uuid: uuid };
            return Ok(invalidated_user);
        }
        Err(AppError::ServerError(text("invalid email")))
    }
}

/// A password reset that waits for its link to be followed: kept in the session store
/// under its `uuid`.
#[derive(Debug)]
pub struct PasswordReset {
    pub email: String,
    pub uuid: String,
}

/// A mail to send: sender, reply-to and recipient (each a display name and an address),
/// subject and plain-text body.
#[derive(Debug)]
pub struct OutgoingMail {
    pub from_name: String,
    pub from_address: String,
    pub reply_to_name: String,
    pub reply_to_address: String,
    pub to_name: String,
    pub to_address: String,
    pub subject: String,
    pub body: String,
}

/// The sender, reply-to and recipient names that every mail of the site carries.
pub open spec fn site_mail(m: OutgoingMail, to: Seq<char>, subject: Seq<char>, body: Seq<char>) -> bool {
    &&& m.from_name@ == "propogation_nation"@
    &&& m.from_address@ == "nobody@domain.tld"@
    &&& m.reply_to_name@ == "Yuin"@
    &&& m.reply_to_address@ == "yuin@domain.tld"@
    &&& m.to_name@ == "meowie"@
    &&& m.to_address@ == to
    &&& m.subject@ == subject
    &&& m.body@ == body
}

/// A site mail comes from "propogation_nation" <nobody@domain.tld>, replies go to "Yuin"
/// <yuin@domain.tld>, and it goes to "meowie" at the given address with the given subject
/// and body.
pub proof fn lemma_site_mail(m: OutgoingMail, to: Seq<char>, subject: Seq<char>, body: Seq<char>)
    ensures
        site_mail(m, to, subject, body) <==> m.from_name@ == "propogation_nation"@
            && m.from_address@ == "nobody@domain.tld"@ && m.reply_to_name@ == "Yuin"@
            && m.reply_to_address@ == "yuin@domain.tld"@ && m.to_name@ == "meowie"@
            && m.to_address@ == to && m.subject@ == subject && m.body@ == body,
{
}

fn site_mail_to(to: &str, subject: &str, body: String) -> (m: OutgoingMail)
    ensures
        site_mail(m, to@, subject@, body@),
{
    OutgoingMail {
        from_name: text("propogation_nation"),
        from_address: text("nobody@domain.tld"),
        reply_to_name: text("Yuin"),
        reply_to_address: text("yuin@domain.tld"),
        to_name: text("meowie"),
        to_address: text(to),
        subject: text(subject),
        body: body,
    }
}

/// The link that confirms the pending sign-up `uuid`.
pub fn signup_link(uuid: &str) -> (r: String)
    ensures
        r@ == "localhost:3000/validate/"@ + uuid@,
{
    join("localhost:3000/validate/", uuid)
}

/// The link that opens the password reset `uuid`.
pub fn reset_link(uuid: &str) -> (r: String)
    ensures
        r@ == "localhost:3000/reset/"@ + uuid@,
{
    join("localhost:3000/reset/", uuid)
}

/// The mail that sends a pending sign-up its confirmation link.
pub fn signup_mail(user: &InvalidatedUser) -> (m: OutgoingMail)
    ensures
        site_mail(
            m,
            user.email.0@,
            "your link to sign up"@,
            "localhost:3000/validate/"@ + user.uuid@,
        ),
{
    let link = signup_link(user.uuid.as_str());
    site_mail_to(user.email.0.as_str(), "your link to sign up", link)
}

/// The mail that sends a password reset its link.
pub fn reset_mail(reset: &PasswordReset) -> (m: OutgoingMail)
    ensures
        site_mail(
            m,
            reset.email@,
            "your link to reset password"@,
            "localhost:3000/reset/"@ + reset.uuid@,
        ),
{
    let link = reset_link(reset.uuid.as_str());
    site_mail_to(reset.email.as_str(), "your link to reset password", link)
}

/// The first step of a sign-up, once the users table has answered whether the address is
/// still free (`Some(true)`): a pending sign-up for a free and valid address; "User already
/// exists" where the address is taken or the answer is empty; "invalid email" where it is
/// free but invalid.
pub fn begin_signup(email_free: Option<bool>, email: String, password: String) -> (r: Result<
    InvalidatedUser,
    AppError,
>)
    ensures
        r is Ok <==> email_free == Some(true) && valid_email(email@),
        r matches Ok(u) ==> u.email.0 == email && u.password == password
            && is_hyphenated_uuid_v4(u.uuid@),
        email_free != Some(true) ==> (r matches Err(e) && is_middleware_error(
            e,
            "User already exists"@,
        )),
        email_free == Some(true) && !valid_email(email@) ==> (r matches Err(e) && is_server_error(
            e,
            "invalid email"@,
        )),
{
    match email_free {
        Some(true) => {},
        _ => {
            return Err(AppError::MiddlewareError(text("User already exists")));
        },
    }
    InvalidatedUser::new(email, password)
}

/// The pending sign-up that a confirmation link names, from what the session store answered:
/// the stored sign-up, or "error registering - sign up again" where the store failed or
/// holds nothing under the id.
pub fn pending_signup(lookup: Result<Option<InvalidatedUser>, String>) -> (r: Result<
    InvalidatedUser,
    AppError,
>)
    ensures
        match lookup {
            Ok(Some(u)) => r == Ok::<InvalidatedUser, AppError>(u),
            _ => r matches Err(e) && is_registration_error(
                e,
                "error registering - sign up again"@,
            ),
        },
{
    match lookup {
        Ok(Some(ivu)) => Ok(ivu),
        _ => Err(AppError::Registration(text("error registering - sign up again"))),
    }
}

/// The password check of a sign-in: the stored password and the given one must be equal,
/// else "password does not match".
pub fn check_password(stored: &String, given: &String) -> (r: Result<(), AppError>)
    ensures
        r is Ok <==> stored@ == given@,
        r matches Err(e) ==> is_middleware_error(e, "password does not match"@),
{
    if *stored == *given {
        Ok(())
    } else {
        Err(AppError::MiddlewareError(text("password does not match")))
    }
}

/// A new session for a signed-in user: a fresh random session id, and the record of the
/// user that the session store keeps under it.
pub fn start_session(details: UserDetails) -> (r: (String, UserSessionSS))
    ensures
        is_hyphenated_uuid_v4(r.0@),
        r.1.id == details.id,
        r.1.email == details.email,
        r.1.name == details.name,
{
    let id = new_uuid_string();
    let user_session_ss = details.to_UserSessionCS();
    (id, user_session_ss)
}

/// The first step of a password reset, once the users table has answered whether the
/// address belongs to a user (`Some(true)`): a reset for that address under a fresh random
/// id, or "No user found for email".
pub fn begin_password_reset(user_exists: Option<bool>, email: String) -> (r: Result<
    PasswordReset,
    AppError,
>)
    ensures
        r is Ok <==> user_exists == Some(true),
        r matches Ok(p) ==> p.email == email && is_hyphenated_uuid_v4(p.uuid@),
        r matches Err(e) ==> is_middleware_error(e, "No user found for email"@),
{
    match user_exists {
        Some(true) => {},
        _ => {
            return Err(AppError::MiddlewareError(text("No user found for email")));
        },
    }
    let uuid = new_uuid_string();
    Ok(PasswordReset { email: email, uuid: uuid })
}

/// The password reset that a reset link names, from what the session store answered: the
/// stored reset, or "error resetting password - try again".
pub fn pending_reset(lookup: Result<Option<PasswordReset>, String>) -> (r: Result<
    PasswordReset,
    AppError,
>)
    ensures
        match lookup {
            Ok(Some(p)) => r == Ok::<PasswordReset, AppError>(p),
            _ => r matches Err(e) && is_registration_error(
                e,
                "error resetting password - try again"@,
            ),
        },
{
    match lookup {
        Ok(Some(prd)) => Ok(prd),
        _ => Err(AppError::Registration(text("error resetting password - try again"))),
    }
}

/// Whether a browser's session exists, from what the session store answered; a failing
/// store (given by the debug text of its error) is a server error
/// "problen with tower store: " followed by that text.
pub fn session_exists(lookup: Result<Option<UserSessionSS>, String>) -> (r: Result<bool, AppError>)
    ensures
        match lookup {
            Ok(found) => r == Ok::<bool, AppError>(found is Some),
            Err(dbg) => r matches Err(e) && is_server_error(
                e,
                "problen with tower store: "@ + dbg@,
            ),
        },
{
    match lookup {
        Ok(Some(_)) => Ok(true),
        Ok(None) => Ok(false),
        Err(e) => Err(AppError::ServerError(join("problen with tower store: ", e.as_str()))),
    }
}

/// The signed-in user of a request, from what the session store answered under its session
/// id: the stored record; else the browser is sent to "/signin?page=adduserdetails" with
/// "user needs to re-sign in".
pub fn user_session(lookup: Result<Option<UserSessionSS>, String>) -> (r: Result<
    UserSessionSS,
    Redirected,
>)
    ensures
        match lookup {
            Ok(Some(u)) => r == Ok::<UserSessionSS, Redirected>(u),
            _ => r matches Err(f) && f.to@ == "/signin?page=adduserdetails"@
                && is_registration_error(f.error, "user needs to re-sign in"@),
        },
{
    match lookup {
        Ok(Some(usss)) => Ok(usss),
        _ => Err(
            Redirected {
                to: text("/signin?page=adduserdetails"),
                error: AppError::Registration(text("user needs to re-sign in")),
            },
        ),
    }
}

} // verus!
