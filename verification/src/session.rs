//! What the server keeps of a signed-in user, and what the browser keeps of its session.
use vstd::prelude::*;
use vstd::std_specs::cmp::PartialEqSpec;
use vstd::std_specs::cmp::PartialEqSpecImpl;

verus! {

/// The record of a signed-in user that the server's session store keeps.
#[derive(Clone, Debug)]
pub struct UserSessionSS {
    pub id: i32,
    pub email: String,
    pub name: String,
}

impl UserSessionSS {
    /// A session record for the user with this id, email and name.
    pub fn new(id: i32, email: String, name: String) -> (r: Self)
        ensures
            r.id == id,
            r.email == email,
            r.name == name,
    {
        UserSessionSS { id: id, email: email, name: name }
    }
}

/// A user's row, as the sign-in reads it from the users table.
#[derive(Clone, Debug)]
pub struct UserDetails {
    pub id: i32,
    pub email: String,
    pub name: String,
}

impl UserDetails {
    /// The session record of this user: the same id, email and name.
    pub fn to_UserSessionSS(self) -> (r: UserSessionSS)
        ensures
            r.id == self.id,
            r.email == self.email,
            r.name == self.name,
    {
        UserSessionSS::new(self.id, self.email, self.name)
    }

    /// The session record of this user: the same id, email and name (the name under which
    /// the sign-in asks for it).
    pub fn to_UserSessionCS(self) -> (r: UserSessionSS)
        ensures
            r.id == self.id,
            r.email == self.email,
            r.name == self.name,
    {
        UserSessionSS::new(self.id, self.email, self.name)
    }
}

/// What the browser keeps in its `state` cookie: the id of its server session, if any.
#[derive(Clone, Debug)]
pub struct UserStateCS {
    pub session_id: Option<String>,
}

impl UserStateCS {
    /// The state of a browser that holds the session `id`.
    pub fn new(id: String) -> (r: Self)
        ensures
            r.session_id == Some(id),
    {
        Self { session_id: Some(id) }
    }

    /// The session id that a page sends along with a form: that of the cookie, or the empty
    /// string where there is no cookie or it holds no session.
    pub fn session_id_or_empty(state: Option<UserStateCS>) -> (r: String)
        ensures
            r@ == sent_session_id(state),
            state matches Some(st) ==> (st.session_id matches Some(id) ==> r@ == id@),
            (state is None || state->Some_0.session_id is None) ==> r@.len() == 0,
    {
        match state {
            None => String::new(),
            Some(uscs) => match uscs.session_id {
                Some(id) => id,
                None => String::new(),
            },
        }
    }

    /// The session that the landing page asks the server about: the cookie's session id, if
    /// there is a cookie and it holds one.
    pub fn session_to_check(state: Option<UserStateCS>) -> (r: Option<String>)
        ensures
            r == checked_session(state),
            state matches Some(st) ==> r == st.session_id,
            state is None ==> r is None,
    {
        match state {
            Some(us) => us.session_id,
            None => None,
        }
    }
}

/// The session id that a browser with this cookie sends with its forms.
pub open spec fn sent_session_id(state: Option<UserStateCS>) -> Seq<char> {
    match state {
        Some(s) => match s.session_id {
            Some(id) => id@,
            None => Seq::<char>::empty(),
        },
        None => Seq::<char>::empty(),
    }
}

/// The session that a browser with this cookie asks the server about.
pub open spec fn checked_session(state: Option<UserStateCS>) -> Option<String> {
    match state {
        Some(s) => s.session_id,
        None => None,
    }
}

/// A browser whose cookie was made by `UserStateCS::new(id)` sends `id` with its forms and
/// asks the server about `id`; one whose cookie holds no session, or that has no cookie,
/// sends the empty id and asks about nothing.
pub proof fn lemma_cookie_session_round_trip(state: UserStateCS, id: String)
    ensures
        state.session_id == Some(id) ==> sent_session_id(Some(state)) == id@ && checked_session(
            Some(state),
        ) == Some(id),
        state.session_id is None ==> sent_session_id(Some(state)) == Seq::<char>::empty()
            && checked_session(Some(state)) is None,
        sent_session_id(None) == Seq::<char>::empty() && checked_session(None) is None,
{
}

impl PartialEq for UserStateCS {
    /// Two browser states are equal where both hold the same session id, or neither holds one.
    fn eq(&self, other: &Self) -> (r: bool)
        ensures
            r <==> (self.session_id is None && other.session_id is None) || (
            self.session_id is Some && other.session_id is Some
                && self.session_id->Some_0@ == other.session_id->Some_0@),
    {
        match (&self.session_id, &other.session_id) {
            (Some(a), Some(b)) => *a == *b,
            (None, None) => true,
            _ => false,
        }
    }
}

impl PartialEqSpecImpl for UserStateCS {
    open spec fn obeys_eq_spec() -> bool {
        true
    }

    open spec fn eq_spec(&self, other: &Self) -> bool {
        match (self.session_id, other.session_id) {
            (Some(a), Some(b)) => a@ == b@,
            (None, None) => true,
            _ => false,
        }
    }
}

/// Equality of browser states is that of their session ids: symmetric, and a state without
/// a session differs from every state with one, in either order.
pub proof fn lemma_state_eq(a: UserStateCS, b: UserStateCS)
    ensures
        PartialEqSpec::eq_spec(&a, &b) == PartialEqSpec::eq_spec(&b, &a),
        PartialEqSpec::eq_spec(&a, &b) <==> (a.session_id is None && b.session_id is None) || (a.session_id is Some
            && b.session_id is Some && a.session_id->Some_0@ == b.session_id->Some_0@),
        a.session_id is None && b.session_id is Some ==> !PartialEqSpec::eq_spec(&a, &b) && !PartialEqSpec::eq_spec(&b, &a),
        PartialEqSpec::eq_spec(&a, &a),
{
}

impl Default for UserStateCS {
    /// A browser without a session.
    fn default() -> (r: Self)
        ensures
            r.session_id is None,
    {
        Self { session_id: None }
    }
}

} // verus!
