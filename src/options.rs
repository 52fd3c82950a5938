use vstd::prelude::*;
use crate::connection::{Connection, ReadEnd, ReadEvent, Session, execute_raw};
use crate::prompt::Prompt;
use std::time::Duration;

verus! {

/// Credentials and a connect timeout for opening a transport.
#[derive(Debug, Clone, Copy)]
pub struct ConnectionOptions<'a> {
    pub username: Option<&'a str>,
    pub password: Option<&'a str>,
    pub timeout: Option<Duration>,
}

impl<'a> Default for ConnectionOptions<'a> {
    fn default() -> (r: Self)
        ensures
            r.username is None,
            r.password is None,
            r.timeout is None,
    {
        ConnectionOptions { username: None, password: None, timeout: None }
    }
}

impl<'a> ConnectionOptions<'a> {
    /// Options that log in with `username` and `password`, without a connect timeout.
    pub fn from_auth(username: &'a str, password: &'a str) -> (r: Self)
        ensures
            r.username == Some(username),
            r.password == Some(password),
            r.timeout is None,
    {
        ConnectionOptions { username: Some(username), password: Some(password), timeout: None }
    }

    /// These options with `username` as the user name.
    pub fn with_username(self, username: &'a str) -> (r: Self)
        ensures
            r.username == Some(username),
            r.password == self.password,
            r.timeout == self.timeout,
    {
        let mut r = self;
        r.username = Some(username);
        r
    }

    /// These options with `password` as the password.
    pub fn with_password(self, password: &'a str) -> (r: Self)
        ensures
            r.username == self.username,
            r.password == Some(password),
            r.timeout == self.timeout,
    {
        let mut r = self;
        r.password = Some(password);
        r
    }

    /// These options with `timeout` as the connect timeout.
    pub fn with_timeout(self, timeout: Duration) -> (r: Self)
        ensures
            r.username == self.username,
            r.password == self.password,
            r.timeout == Some(timeout),
    {
        let mut r = self;
        r.timeout = Some(timeout);
        r
    }
}

/// The user name and password of options that carry both, as a transport with
/// password authentication (SSH) needs them; `None` where either is missing.
pub fn password_credentials<'a>(opts: &ConnectionOptions<'a>) -> (r: Option<(&'a str, &'a str)>)
    ensures
        r is Some <==> opts.username is Some && opts.password is Some,
        r matches Some(c) ==> Some(c.0) == opts.username && Some(c.1) == opts.password,
{
    match (opts.username, opts.password) {
        (Some(u), Some(p)) => Some((u, p)),
        _ => None,
    }
}

/// Why logging in over a prompt-challenge transport failed.
#[derive(Debug)]
pub enum LoginError {
    /// A challenge pattern did not compile.
    Pattern(regex::Error),
    /// Writing a credential failed.
    Io(std::io::Error),
}

/// The commands of a prompt-challenge login with user name `username`: the
/// user name, then the password where there is one.
pub open spec fn login_commands(username: Seq<char>, password: Option<&str>) -> Seq<Seq<char>> {
    match password {
        None => seq![username],
        Some(p) => seq![username, p@],
    }
}

/// What a prompt-challenge login sends for these credentials: the user name,
/// then the password, each as a line; nothing without a user name.
pub open spec fn login_text(username: Option<&str>, password: Option<&str>) -> Seq<char> {
    match username {
        None => Seq::empty(),
        Some(u) => crate::connection::lines(login_commands(u@, password)),
    }
}

/// The pattern of the password challenge that follows the user name.
pub const PASSWORD_CHALLENGE: &'static str = "[Pp]assword";

/// The pattern of the user name prompt that follows a password.
pub const USERNAME_CHALLENGE: &'static str = "^([Uu]sername)";

/// `after` is `before` followed by the reads of a login: one drain up to the
/// password challenge, then, where a password was sent, one drain up to the
/// user name prompt.
pub open spec fn login_reads(
    before: Seq<ReadEvent>,
    after: Seq<ReadEvent>,
    password: Option<&str>,
) -> bool {
    exists|mid: Seq<ReadEvent>, first: ReadEnd|
        {
            &&& #[trigger] crate::connection::drained(before, mid, PASSWORD_CHALLENGE@, first)
            &&& match password {
                None => after == mid,
                Some(_) => exists|second: ReadEnd|
                    #[trigger] crate::connection::drained(mid, after, USERNAME_CHALLENGE@, second),
            }
        }
}

/// Logs in over a transport that challenges for credentials in-band (Telnet):
/// sends the user name and waits for the password challenge, then sends the
/// password and waits for the next prompt. Without a user name nothing is sent.
pub fn authenticate<C: Connection>(conn: &mut Session<C>, opts: &ConnectionOptions) -> (r: Result<
    (),
    LoginError,
>)
    ensures
        opts.username is None ==> {
            &&& r is Ok
            &&& final(conn).sent() == old(conn).sent()
            &&& final(conn).attempts() == old(conn).attempts()
            &&& final(conn).received() == old(conn).received()
        },
        opts.username is Some && !(r matches Err(LoginError::Pattern(_))) ==> crate::connection::ran(
            old(conn).attempts(),
            final(conn).attempts(),
            login_commands(opts.username->Some_0@, opts.password),
            r is Ok,
        ),
        r is Ok ==> final(conn).sent() == old(conn).sent() + login_text(
            opts.username,
            opts.password,
        ),
        r is Ok && opts.username is Some ==> login_reads(
            old(conn).received(),
            final(conn).received(),
            opts.password,
        ),
        opts.username is Some && !crate::prompt::regex_compiles(PASSWORD_CHALLENGE@) ==> (r matches Err(
            LoginError::Pattern(_),
        ) && final(conn).sent() == old(conn).sent()),
        r matches Err(LoginError::Pattern(_)) ==> {
            &&& opts.username is Some
            &&& !crate::prompt::regex_compiles(PASSWORD_CHALLENGE@) || (opts.password is Some && !crate::prompt::regex_compiles(
                USERNAME_CHALLENGE@,
            ))
            &&& final(conn).sent() == old(conn).sent() || final(conn).sent() == old(conn).sent()
                + crate::connection::line(opts.username->Some_0@)
            &&& final(conn).attempts() == old(conn).attempts() || final(conn).attempts() == old(
                conn,
            ).attempts() + crate::connection::ok_line(opts.username->Some_0@)
        },
        r matches Err(LoginError::Io(_)) ==> {
            &&& opts.username is Some
            &&& crate::connection::failed_run(
                old(conn).sent(),
                final(conn).sent(),
                login_commands(opts.username->Some_0@, opts.password),
            )
        },
{
    match opts.username {
        None => Ok(()),
        Some(username) => {
            let ghost s0 = conn.sent();
            let ghost r0 = conn.received();
            let ghost a0 = conn.attempts();
            let ghost cmds = login_commands(username@, opts.password);
            proof {
                crate::connection::lemma_lines_none(cmds);
                crate::connection::lemma_ran_start(a0, cmds);
            }
            let challenge = match Prompt::new(PASSWORD_CHALLENGE) {
                Ok(p) => p,
                Err(e) => {
                    return Err(LoginError::Pattern(e));
                },
            };
            let r1 = execute_raw(conn, username, &challenge);
            proof {
                crate::connection::lemma_ran_step(a0, a0, conn.attempts(), cmds, 0, r1 is Ok);
            }
            match r1 {
                Ok(()) => {},
                Err(e) => {
                    proof {
                        crate::connection::lemma_failed_at(s0, conn.sent(), cmds, 0);
                    }
                    return Err(LoginError::Io(e));
                },
            }
            let ghost r1 = conn.received();
            let ghost first = choose|first: ReadEnd|
                crate::connection::drained(r0, r1, PASSWORD_CHALLENGE@, first);
            proof {
                crate::connection::lemma_lines_step(cmds, 0);
            }
            match opts.password {
                None => {
                    proof {
                        assert(cmds.take(1) =~= cmds);
                        assert(crate::connection::drained(r0, r1, PASSWORD_CHALLENGE@, first));
                    }
                    Ok(())
                },
                Some(password) => {
                    let next = match Prompt::new(USERNAME_CHALLENGE) {
                        Ok(p) => p,
                        Err(e) => {
                            return Err(LoginError::Pattern(e));
                        },
                    };
                    let ghost mid = conn.attempts();
                    let r2 = execute_raw(conn, password, &next);
                    proof {
                        crate::connection::lemma_ran_step(a0, mid, conn.attempts(), cmds, 1, r2 is Ok);
                    }
                    match r2 {
                        Ok(()) => {
                            proof {
                                let second = choose|second: ReadEnd|
                                    crate::connection::drained(r1, conn.received(), USERNAME_CHALLENGE@, second);
                                assert(crate::connection::drained(r0, r1, PASSWORD_CHALLENGE@, first));
                                assert(crate::connection::drained(r1, conn.received(), USERNAME_CHALLENGE@, second));
                                crate::connection::lemma_lines_step(cmds, 1);
                                assert(cmds.take(2) =~= cmds);
                                crate::connection::lemma_ran_done(a0, conn.attempts(), cmds);
                                assert(conn.sent() =~= s0 + crate::connection::lines(cmds));
                            }
                            Ok(())
                        },
                        Err(e) => {
                            proof {
                                assert(conn.sent() == s0 + crate::connection::lines(cmds.take(1))
                                    || conn.sent() =~= s0 + crate::connection::lines(cmds.take(1))
                                    + cmds[1]);
                                crate::connection::lemma_failed_at(s0, conn.sent(), cmds, 1);
                            }
                            Err(LoginError::Io(e))
                        },
                    }
                },
            }
        },
    }
}

} // verus!
