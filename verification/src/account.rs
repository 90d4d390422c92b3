//! Accounts at the boundary: registration and login decisions, the stored
//! user record, and the mail configuration.
//!
//! The address grammar accepted at login and registration is
//! `local@domain.(com|asia)`: a nonempty local part over letters, digits and
//! `. _ % + -`, one `@`, a nonempty domain part over letters, digits, dots
//! and hyphens, closed by one of the two labels.
use vstd::prelude::*;
use crate::uuid::{UUID, u64_of_bytes};
use crate::jwt::unix_now;

verus! {

/// A character the local part of an address may hold.
pub open spec fn is_local_char(c: char) -> bool {
    ('a' <= c <= 'z') || ('A' <= c <= 'Z') || ('0' <= c <= '9') || c == '.' || c == '_' || c == '%'
        || c == '+' || c == '-'
}

/// A character the domain part of an address may hold.
pub open spec fn is_domain_char(c: char) -> bool {
    ('a' <= c <= 'z') || ('A' <= c <= 'Z') || ('0' <= c <= '9') || c == '.' || c == '-'
}

/// The domain of a valid address: a nonempty run of domain characters closed
/// by `.com` or `.asia`.
pub open spec fn domain_ok(d: Seq<char>) -> bool {
    ||| (d.len() > 4 && d.subrange(d.len() - 4, d.len() as int) == ".com"@ && (forall|k: int|
        0 <= k < d.len() - 4 ==> is_domain_char(#[trigger] d[k])))
    ||| (d.len() > 5 && d.subrange(d.len() - 5, d.len() as int) == ".asia"@ && (forall|k: int|
        0 <= k < d.len() - 5 ==> is_domain_char(#[trigger] d[k])))
}

/// A valid address: a nonempty local part, one separator, a valid domain.
pub open spec fn valid_email(s: Seq<char>) -> bool {
    exists|i: int|
        0 < i < s.len() && #[trigger] s[i] == '@' && (forall|k: int|
            0 <= k < i ==> is_local_char(#[trigger] s[k])) && domain_ok(
            s.subrange(i + 1, s.len() as int),
        )
}

/// The classes exclude the separator, so a valid address has exactly one
/// `@`: any witness of `valid_email` is the first one.
proof fn lemma_unique_at(s: Seq<char>, at: int)
    requires
        0 <= at < s.len(),
        s[at] == '@',
        forall|k: int| 0 <= k < at ==> s[k] != '@',
    ensures
        forall|i: int|
            (0 < i < s.len() && #[trigger] s[i] == '@' && (forall|k: int|
                0 <= k < i ==> is_local_char(#[trigger] s[k]))) ==> i == at,
{
    assert forall|i: int|
        (0 < i < s.len() && #[trigger] s[i] == '@' && (forall|k: int|
            0 <= k < i ==> is_local_char(#[trigger] s[k]))) implies i == at by {
        if i < at {
            assert(s[i] != '@');
        } else if i > at {
            assert(is_local_char(s[at]));
            assert(!is_local_char('@'));
        }
    }
}

/// Whether `email` is an address the boundary accepts.
#[verifier::rlimit(50)]
pub fn is_valid_email(email: &str) -> (r: bool)
    ensures
        r == valid_email(email@),
{
    proof {
        reveal_strlit(".com");
        reveal_strlit(".asia");
    }
    let n = email.unicode_len();
    // The separator: the classes exclude `@`, so a witness can only be the
    // first `@` of the string.
    let mut at: usize = 0;
    let mut found = false;
    while at < n && !found
        invariant
            0 <= at <= n,
            n == email@.len(),
            found ==> at < n && email@[at as int] == '@',
            forall|k: int| 0 <= k < at ==> email@[k] != '@',
        decreases n - at, (if found { 0int } else { 1int }),
    {
        if email.get_char(at) == '@' {
            found = true;
        } else {
            at += 1;
        }
    }
    if !found || at == 0 {
        proof {
            if valid_email(email@) {
                let i = choose|i: int|
                    0 < i < email@.len() && #[trigger] email@[i] == '@' && (forall|k: int|
                        0 <= k < i ==> is_local_char(#[trigger] email@[k])) && domain_ok(
                        email@.subrange(i + 1, email@.len() as int),
                    );
                if !found {
                    assert(email@[i] != '@');
                } else {
                    lemma_unique_at(email@, at as int);
                }
            }
        }
        return false;
    }
    // The local part.
    let mut k: usize = 0;
    while k < at
        invariant
            0 <= k <= at < n,
            n == email@.len(),
            email@[at as int] == '@',
            forall|j: int| 0 <= j < at ==> email@[j] != '@',
            forall|j: int| 0 <= j < k ==> is_local_char(#[trigger] email@[j]),
        decreases at - k,
    {
        if !local_char(email.get_char(k)) {
            proof {
                if valid_email(email@) {
                    let i = choose|i: int|
                        0 < i < email@.len() && #[trigger] email@[i] == '@' && (forall|m: int|
                            0 <= m < i ==> is_local_char(#[trigger] email@[m])) && domain_ok(
                            email@.subrange(i + 1, email@.len() as int),
                        );
                    lemma_unique_at(email@, at as int);
                    assert(i == at);
                    assert(is_local_char(email@[k as int]));
                }
            }
            return false;
        }
        k += 1;
    }
    // The domain part: its closing label, then its body.
    let dstart = at + 1;
    let dlen = n - dstart;
    let ghost dd = email@.subrange(at + 1, email@.len() as int);
    proof {
        assert(dd.len() == dlen);
        assert(forall|m: int| 0 <= m < dd.len() ==> #[trigger] dd[m] == email@[at + 1 + m]);
    }
    let c_com = dlen > 4 && email.get_char(n - 4) == '.' && email.get_char(n - 3) == 'c'
        && email.get_char(n - 2) == 'o' && email.get_char(n - 1) == 'm';
    let c_asia = dlen > 5 && email.get_char(n - 5) == '.' && email.get_char(n - 4) == 'a'
        && email.get_char(n - 3) == 's' && email.get_char(n - 2) == 'i' && email.get_char(n - 1)
        == 'a';
    if !c_com && !c_asia {
        proof {
            lemma_unique_at(email@, at as int);
            if domain_ok(dd) {
                if dd.len() > 4 && dd.subrange(dd.len() - 4, dd.len() as int) == ".com"@ {
                    assert(dd[dd.len() - 4] == ".com"@[0]);
                    assert(dd[dd.len() - 3] == ".com"@[1]);
                    assert(dd[dd.len() - 2] == ".com"@[2]);
                    assert(dd[dd.len() - 1] == ".com"@[3]);
                    assert(c_com);
                } else {
                    assert(dd.len() > 5 && dd.subrange(dd.len() - 5, dd.len() as int) == ".asia"@);
                    assert(dd[dd.len() - 5] == ".asia"@[0]);
                    assert(dd[dd.len() - 4] == ".asia"@[1]);
                    assert(dd[dd.len() - 3] == ".asia"@[2]);
                    assert(dd[dd.len() - 2] == ".asia"@[3]);
                    assert(dd[dd.len() - 1] == ".asia"@[4]);
                    assert(c_asia);
                }
            }
            if valid_email(email@) {
                let i = choose|i: int|
                    0 < i < email@.len() && #[trigger] email@[i] == '@' && (forall|m: int|
                        0 <= m < i ==> is_local_char(#[trigger] email@[m])) && domain_ok(
                        email@.subrange(i + 1, email@.len() as int),
                    );
                assert(i == at);
            }
        }
        return false;
    }
    let body_end: usize = if c_com {
        n - 4
    } else {
        n - 5
    };
    let mut j = dstart;
    while j < body_end
        invariant
            at + 1 == dstart,
            dstart <= j <= body_end < n,
            n == email@.len(),
            email@[at as int] == '@',
            forall|m: int| 0 <= m < at ==> email@[m] != '@',
            c_com ==> body_end == n - 4,
            !c_com ==> body_end == n - 5,
            dd == email@.subrange(at + 1, email@.len() as int),
            forall|m: int| dstart <= m < j ==> is_domain_char(#[trigger] email@[m]),
        decreases body_end - j,
    {
        if !domain_char(email.get_char(j)) {
            proof {
                reveal_strlit(".com");
                reveal_strlit(".asia");
                lemma_unique_at(email@, at as int);
                if domain_ok(dd) {
                    let m = j - at - 1;
                    assert(dd[m] == email@[j as int]);
                    if dd.len() > 4 && dd.subrange(dd.len() - 4, dd.len() as int) == ".com"@ && (
                    forall|q: int| 0 <= q < dd.len() - 4 ==> is_domain_char(#[trigger] dd[q])) {
                        assert(m < dd.len() - 4);
                        assert(is_domain_char(dd[m]));
                    } else {
                        assert(dd.len() > 5 && dd.subrange(dd.len() - 5, dd.len() as int)
                            == ".asia"@);
                        if m < dd.len() - 5 {
                            assert(is_domain_char(dd[m]));
                        } else {
                            assert(m == dd.len() - 5);
                            assert(dd[m] == ".asia"@[0]);
                            assert(is_domain_char('.'));
                            assert(is_domain_char(dd[m]));
                        }
                    }
                    assert(is_domain_char(email@[j as int]));
                }
                if valid_email(email@) {
                    let i = choose|i: int|
                        0 < i < email@.len() && #[trigger] email@[i] == '@' && (forall|m2: int|
                            0 <= m2 < i ==> is_local_char(#[trigger] email@[m2])) && domain_ok(
                            email@.subrange(i + 1, email@.len() as int),
                        );
                    assert(i == at);
                    assert(domain_ok(dd));
                    assert(false);
                }
            }
            return false;
        }
        j += 1;
    }
    proof {
        if c_com {
            assert(dd.subrange(dd.len() - 4, dd.len() as int) =~= ".com"@);
            assert forall|q: int| 0 <= q < dd.len() - 4 implies is_domain_char(
                #[trigger] dd[q],
            ) by {
                assert(dd[q] == email@[at + 1 + q]);
            }
        } else {
            assert(dd.subrange(dd.len() - 5, dd.len() as int) =~= ".asia"@);
            assert forall|q: int| 0 <= q < dd.len() - 5 implies is_domain_char(
                #[trigger] dd[q],
            ) by {
                assert(dd[q] == email@[at + 1 + q]);
            }
        }
        assert(domain_ok(dd));
        assert(valid_email(email@));
    }
    true
}

fn local_char(c: char) -> (r: bool)
    ensures
        r == is_local_char(c),
{
    ('a' <= c && c <= 'z') || ('A' <= c && c <= 'Z') || ('0' <= c && c <= '9') || c == '.' || c
        == '_' || c == '%' || c == '+' || c == '-'
}

fn domain_char(c: char) -> (r: bool)
    ensures
        r == is_domain_char(c),
{
    ('a' <= c && c <= 'z') || ('A' <= c && c <= 'Z') || ('0' <= c && c <= '9') || c == '.' || c
        == '-'
}

} // verus!
verus! {

/// The mail account configuration the process is started with. Delivery
/// itself is an external collaborator's business.
#[derive(Debug, Clone)]
pub struct Email<'a> {
    pub address: &'a str,
    pub password: &'a str,
    pub smtp_address: &'a str,
    pub template: &'a str,
}

impl<'a> Email<'a> {
    pub fn new(address: &'a str, password: &'a str, smtp_address: &'a str, template: &'a str) -> (
        r: Self)
        ensures
            r.address@ == address@,
            r.password@ == password@,
            r.smtp_address@ == smtp_address@,
            r.template@ == template@,
    {
        Self { address, password, smtp_address, template }
    }
}

/// What a registration form carries; every field must be present.
#[derive(Debug, Clone, PartialEq, Eq)]
pub struct RegisterParams {
    pub email: Option<String>,
    pub username: Option<String>,
    pub password: Option<String>,
}

impl RegisterParams {
    /// All three fields are present.
    pub fn is_legal(&self) -> (r: bool)
        ensures
            r == (self.email is Some && self.username is Some && self.password is Some),
    {
        self.username.is_some() && self.password.is_some() && self.email.is_some()
    }

    /// A stored record for these parameters; rejected when a field is
    /// missing.
    pub fn into_user_table(self) -> (r: Result<UserTable, RegisterOutcome>)
        ensures
            (r is Ok) == (self.email is Some && self.username is Some && self.password is Some),
            r matches Ok(u) ==> {
                &&& u.userid.wf()
                &&& u.email@ == self.email.unwrap()@
                &&& u.username@ == self.username.unwrap()@
                &&& u.password@ == self.password.unwrap()@
            },
            r is Err ==> r == Err::<UserTable, RegisterOutcome>(RegisterOutcome::InvalidParams),
    {
        match (self.email, self.username, self.password) {
            (Some(email), Some(username), Some(password)) => {
                Ok(UserTable::new(email.as_str(), username.as_str(), password.as_str()))
            },
            _ => Err(RegisterOutcome::InvalidParams),
        }
    }
}

/// One stored user record.
#[derive(Debug, Clone)]
pub struct UserTable {
    pub register_time: i64,
    pub userid: UUID,
    pub email: String,
    pub username: String,
    pub password: String,
}

impl UserTable {
    /// A record for a new registration: a fresh random identifier, stamped
    /// with the wall clock.
    pub fn new(email: &str, username: &str, password: &str) -> (r: Self)
        ensures
            r.userid.wf(),
            r.email@ == email@,
            r.username@ == username@,
            r.password@ == password@,
    {
        UserTable {
            register_time: unix_now(),
            userid: UUID::new(),
            email: email.to_owned(),
            username: username.to_owned(),
            password: password.to_owned(),
        }
    }

    /// Whether the presented password is the stored one.
    pub fn verify_password(&self, password: &String) -> (r: bool)
        ensures
            r == (self.password@ == password@),
    {
        self.password.eq(password)
    }
}

/// What a login attempt comes to, in the order the checks run.
#[derive(Debug, Clone, Copy, PartialEq, Eq, Structural)]
pub enum LoginOutcome {
    /// Email or password missing from the form.
    NullParams,
    /// The email is not an address the boundary accepts.
    IllegalParams,
    /// No such user, or the password does not match.
    InvalidCredentials,
    /// The caller is who the record says: the record's identifier, packed.
    Accepted(i64),
}

/// Decides a login attempt against the record the store returned for the
/// email, if any. The caller looks the record up; everything else is decided
/// here, in this order: missing fields, address shape, credentials.
pub fn evaluate_login(email: &Option<String>, password: &Option<String>, user: &Option<
    UserTable,
>) -> (r: LoginOutcome)
    requires
        user matches Some(u) ==> u.userid.wf(),
    ensures
        (email is None || password is None) ==> r == LoginOutcome::NullParams,
        (email matches Some(em) && password is Some && !valid_email(em@)) ==> r
            == LoginOutcome::IllegalParams,
        email matches Some(em) ==> password matches Some(pw) ==> valid_email(em@) ==> match *user {
            None => r == LoginOutcome::InvalidCredentials,
            Some(u) => if u.password@ == pw@ {
                r matches LoginOutcome::Accepted(uid) && uid as u64 == u64_of_bytes(
                    u.userid.bytes(),
                )
            } else {
                r == LoginOutcome::InvalidCredentials
            },
        },
{
    let (em, pw) = match (email, password) {
        (Some(em), Some(pw)) => (em, pw),
        _ => {
            return LoginOutcome::NullParams;
        },
    };
    if !is_valid_email(em.as_str()) {
        return LoginOutcome::IllegalParams;
    }
    match user {
        None => LoginOutcome::InvalidCredentials,
        Some(u) => {
            if u.verify_password(pw) {
                LoginOutcome::Accepted(u.userid.to_i64())
            } else {
                LoginOutcome::InvalidCredentials
            }
        },
    }
}

/// What a registration attempt comes to.
#[derive(Debug, Clone, Copy, PartialEq, Eq, Structural)]
pub enum RegisterOutcome {
    /// A field is missing from the form.
    InvalidParams,
    /// Another record already holds the email.
    EmailExists,
    /// The registration may proceed.
    Accepted,
}

/// Decides a registration attempt. The caller reports whether the store
/// already holds the email; everything else is decided here.
pub fn evaluate_register(params: &RegisterParams, email_taken: bool) -> (r: RegisterOutcome)
    ensures
        !(params.email is Some && params.username is Some && params.password is Some) ==> r
            == RegisterOutcome::InvalidParams,
        (params.email is Some && params.username is Some && params.password is Some)
            && email_taken ==> r == RegisterOutcome::EmailExists,
        (params.email is Some && params.username is Some && params.password is Some)
            && !email_taken ==> r == RegisterOutcome::Accepted,
{
    if !params.is_legal() {
        return RegisterOutcome::InvalidParams;
    }
    if email_taken {
        return RegisterOutcome::EmailExists;
    }
    RegisterOutcome::Accepted
}

} // verus!
verus! {

impl LoginOutcome {
    /// The numeric code the boundary answers with: zero for success, then
    /// one code per rejection, in the order the checks run.
    pub fn errcode(&self) -> (r: u32)
        ensures
            self matches LoginOutcome::Accepted(_) <==> r == 0,
            *self is NullParams <==> r == 1,
            *self is IllegalParams <==> r == 2,
            *self is InvalidCredentials <==> r == 3,
    {
        match self {
            LoginOutcome::Accepted(_) => 0,
            LoginOutcome::NullParams => 1,
            LoginOutcome::IllegalParams => 2,
            LoginOutcome::InvalidCredentials => 3,
        }
    }

    /// The message the boundary answers with.
    pub fn errmsg(&self) -> (r: &'static str)
        ensures
            self matches LoginOutcome::Accepted(_) ==> r@ == "Success"@,
            *self is NullParams ==> r@ == "Null email or password"@,
            *self is IllegalParams ==> r@ == "Illegal email or password"@,
            *self is InvalidCredentials ==> r@ == "Invalid email or password"@,
    {
        match self {
            LoginOutcome::Accepted(_) => "Success",
            LoginOutcome::NullParams => "Null email or password",
            LoginOutcome::IllegalParams => "Illegal email or password",
            LoginOutcome::InvalidCredentials => "Invalid email or password",
        }
    }
}

impl RegisterOutcome {
    /// The numeric code the boundary answers with, continuing the login
    /// codes.
    pub fn errcode(&self) -> (r: u32)
        ensures
            *self is Accepted <==> r == 0,
            *self is InvalidParams <==> r == 4,
            *self is EmailExists <==> r == 5,
    {
        match self {
            RegisterOutcome::Accepted => 0,
            RegisterOutcome::InvalidParams => 4,
            RegisterOutcome::EmailExists => 5,
        }
    }

    /// The message the boundary answers with.
    pub fn errmsg(&self) -> (r: &'static str)
        ensures
            *self is Accepted ==> r@ == "Success"@,
            *self is InvalidParams ==> r@ == "Invalid register params"@,
            *self is EmailExists ==> r@ == "Email already exists"@,
    {
        match self {
            RegisterOutcome::Accepted => "Success",
            RegisterOutcome::InvalidParams => "Invalid register params",
            RegisterOutcome::EmailExists => "Email already exists",
        }
    }
}

} // verus!
