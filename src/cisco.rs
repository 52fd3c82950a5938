use vstd::prelude::*;
use crate::config::{Configurable, ConfigurationMode, InterfaceConfigurable};
use crate::connection::{Connection, ReadEnd, Session};
use crate::interfaces::Interface;
use crate::prompt::Prompt;

verus! {

/// The prompt that ends the output of a command on a Cisco device.
pub const CISCO_PROMPT: &'static str = "#";

/// The commands that apply `setting` to the interface `name` on a Cisco
/// device: enter its context, apply the setting, leave the context.
pub open spec fn cisco_interface_commands(name: Seq<char>, setting: Seq<char>) -> Seq<Seq<char>> {
    seq!["interface "@ + name, setting, "exit"@]
}

/// What bringing the interface `name` up sends on a Cisco device.
pub open spec fn cisco_up_text(name: Seq<char>) -> Seq<char> {
    crate::connection::lines(cisco_interface_commands(name, "no shutdown"@))
}

/// What bringing the interface `name` down sends on a Cisco device.
pub open spec fn cisco_down_text(name: Seq<char>) -> Seq<char> {
    crate::connection::lines(cisco_interface_commands(name, "shutdown"@))
}

/// Bringing an interface down twice in a row sends the same commands twice:
/// what the Cisco adapter sends depends on the interface alone, not on what
/// was sent before.
pub proof fn cisco_interface_down_repeats(name: Seq<char>, s0: Seq<char>, s1: Seq<char>, s2: Seq<char>)
    requires
        s1 == s0 + cisco_down_text(name),
        s2 == s1 + cisco_down_text(name),
    ensures
        s2.subrange(s1.len() as int, s2.len() as int) == s1.subrange(s0.len() as int, s1.len() as int),
        s2 == s0 + cisco_down_text(name) + cisco_down_text(name),
{
    assert(s2.subrange(s1.len() as int, s2.len() as int) =~= cisco_down_text(name));
    assert(s1.subrange(s0.len() as int, s1.len() as int) =~= cisco_down_text(name));
}

/// The commands that enabling privileged mode with `password` sends: the
/// password only where there is one.
pub open spec fn enable_commands(password: Seq<char>) -> Seq<Seq<char>> {
    if password.len() == 0 {
        seq!["enable"@]
    } else {
        seq!["enable"@, password]
    }
}

/// A Cisco (Catalyst) device session over a connection `C`.
pub struct CiscoDevice<C: Connection> {
    connection: Session<C>,
    prompt_end: Prompt,
}

impl<C: Connection> CiscoDevice<C> {
    /// The prompt pattern of the session.
    pub closed spec fn pattern(&self) -> Seq<char> {
        self.prompt_end.pattern()
    }

    /// The connection of the session.
    pub closed spec fn session(&self) -> Session<C> {
        self.connection
    }

    /// Takes over an open, logged-in connection to a Cisco device.
    pub fn connect(connection: Session<C>) -> (r: Result<CiscoDevice<C>, regex::Error>)
        ensures
            r is Ok <==> crate::prompt::regex_compiles(CISCO_PROMPT@),
            r matches Ok(d) ==> d.session() == connection && d.pattern() == CISCO_PROMPT@,
    {
        match Prompt::new(CISCO_PROMPT) {
            Ok(prompt_end) => Ok(CiscoDevice { connection, prompt_end }),
            Err(e) => Err(e),
        }
    }

    /// The connection of the session.
    pub fn connection(&self) -> (r: &C)
        ensures
            *r == self.session().conn(),
    {
        self.connection.connection()
    }

    /// Enters privileged mode, answering the password challenge if `password`
    /// is not empty. The first failing write ends it.
    pub fn enable(&mut self, password: &str) -> (r: Result<(), std::io::Error>)
        ensures
            final(self).pattern() == old(self).pattern(),
            r is Ok ==> final(self).sent() == old(self).sent() + crate::connection::lines(
                enable_commands(password@),
            ),
            r is Err ==> crate::connection::failed_run(
                old(self).sent(),
                final(self).sent(),
                enable_commands(password@),
            ),
            crate::connection::ran(
                old(self).attempts(),
                final(self).attempts(),
                enable_commands(password@),
                r is Ok,
            ),
    {
        let ghost s0 = self.sent();
        let ghost a0 = self.attempts();
        let ghost cmds = enable_commands(password@);
        proof {
            reveal_strlit("enable");
            crate::connection::lemma_lines_none(cmds);
            crate::connection::lemma_ran_start(a0, cmds);
        }
        let ghost mid = self.attempts();
        let r = self.execute_raw("enable");
        proof {
            crate::connection::lemma_ran_step(a0, mid, self.attempts(), cmds, 0, r is Ok);
        }
        match r {
            Ok(()) => {},
            Err(e) => {
                proof {
                    crate::connection::lemma_failed_at(s0, self.sent(), cmds, 0);
                }
                return Err(e);
            },
        }
        proof {
            crate::connection::lemma_lines_step(cmds, 0);
        }
        if !password.is_empty() {
            let ghost mid = self.attempts();
            let r = self.execute_raw(password);
            proof {
                crate::connection::lemma_ran_step(a0, mid, self.attempts(), cmds, 1, r is Ok);
            }
            match r {
                Ok(()) => {},
                Err(e) => {
                    proof {
                        crate::connection::lemma_failed_at(s0, self.sent(), cmds, 1);
                    }
                    return Err(e);
                },
            }
            proof {
                crate::connection::lemma_lines_step(cmds, 1);
            }
        }
        assert(cmds.take(cmds.len() as int) =~= cmds);
        proof {
            crate::connection::lemma_ran_done(a0, self.attempts(), cmds);
        }
        Ok(())
    }

    /// Persists the running configuration (`write memory`).
    pub fn save(&mut self) -> (r: Result<(), std::io::Error>)
        ensures
            final(self).pattern() == old(self).pattern(),
            r is Ok ==> final(self).sent() == old(self).sent() + crate::connection::line(
                "write memory"@,
            ),
            r is Err ==> final(self).sent() == old(self).sent() || final(self).sent() == old(
                self,
            ).sent() + "write memory"@,
            crate::connection::sent_line(
                old(self).attempts(),
                final(self).attempts(),
                "write memory"@,
                r is Ok,
            ),
    {
        self.execute_raw("write memory")
    }

    /// Enters configuration mode (`configure terminal`) and hands out the guard
    /// that holds the session until it leaves that mode.
    pub fn enter_config(&mut self) -> (r: Result<
        ConfigurationMode<'_, CiscoDevice<C>>,
        std::io::Error,
    >)
        ensures
            r matches Ok(g) ==> {
                &&& g.session.sent() == old(self).sent() + crate::connection::line(
                    "configure terminal"@,
                )
                &&& g.session.attempts() == old(self).attempts() + crate::connection::ok_line(
                    "configure terminal"@,
                )
                &&& g.session.pattern() == old(self).pattern()
                &&& *final(g.session) == *final(self)
            },
            r is Err ==> {
                &&& final(self).pattern() == old(self).pattern()
                &&& final(self).sent() == old(self).sent() || final(self).sent() == old(
                    self,
                ).sent() + "configure terminal"@
                &&& crate::connection::sent_line(
                    old(self).attempts(),
                    final(self).attempts(),
                    "configure terminal"@,
                    false,
                )
            },
    {
        match self.execute_raw("configure terminal") {
            Ok(()) => Ok(ConfigurationMode::enter(self)),
            Err(e) => Err(e),
        }
    }
}

impl<C: Connection> Configurable for CiscoDevice<C> {
    open spec fn sent(&self) -> Seq<char> {
        self.session().sent()
    }

    open spec fn attempts(&self) -> Seq<(Seq<char>, bool)> {
        self.session().attempts()
    }

    open spec fn exit_command() -> Seq<char> {
        "exit"@
    }

    open spec fn save_commands() -> Seq<Seq<char>> {
        seq!["write memory"@]
    }

    fn execute_raw(&mut self, command: &str) -> (r: Result<(), std::io::Error>)
        ensures
            final(self).pattern() == old(self).pattern(),
            r is Ok ==> exists|end: ReadEnd|
                crate::connection::drained(
                    old(self).session().received(),
                    final(self).session().received(),
                    old(self).pattern(),
                    end,
                ),
    {
        let r = crate::connection::execute_raw(&mut self.connection, command, &self.prompt_end);
        proof {
            if r is Ok {
                let end = choose|end: ReadEnd|
                    crate::connection::drained(
                        old(self).connection.received(),
                        self.connection.received(),
                        self.prompt_end.pattern(),
                        end,
                    );
                assert(crate::connection::drained(
                    old(self).session().received(),
                    self.session().received(),
                    old(self).pattern(),
                    end,
                ));
            }
        }
        r
    }

    fn exit(&mut self) -> (r: Result<(), std::io::Error>)
        ensures
            final(self).pattern() == old(self).pattern(),
    {
        self.execute_raw("exit")
    }

    fn save(&mut self) -> (r: Result<(), std::io::Error>)
        ensures
            final(self).pattern() == old(self).pattern(),
    {
        let ghost s0 = self.sent();
        let ghost a0 = self.attempts();
        let ghost cmds = Self::save_commands();
        let r = CiscoDevice::save(self);
        proof {
            crate::connection::lemma_ran_start(a0, cmds);
            crate::connection::lemma_ran_step(a0, a0, self.attempts(), cmds, 0, r is Ok);
            if r is Ok {
                crate::connection::lemma_ran_done(a0, self.attempts(), cmds);
            }
            crate::connection::lemma_lines_none(cmds);
            if r is Ok {
                crate::connection::lemma_lines_step(cmds, 0);
                assert(cmds.take(1) =~= cmds);
            } else {
                crate::connection::lemma_failed_at(s0, self.sent(), cmds, 0);
            }
        }
        r
    }
}

impl<'a, C: Connection> InterfaceConfigurable for ConfigurationMode<'a, CiscoDevice<C>> {
    /// `interface <name>`, `no shutdown`, then `exit` from the interface context;
    /// the first failing write ends it.
    fn interface_up(&mut self, interface: &Interface) -> (r: Result<(), std::io::Error>)
        ensures
            final(self).session.pattern() == old(self).session.pattern(),
            r is Ok ==> final(self).session.sent() == old(self).session.sent() + cisco_up_text(
                interface@,
            ),
            r is Err ==> crate::connection::failed_run(
                old(self).session.sent(),
                final(self).session.sent(),
                cisco_interface_commands(interface@, "no shutdown"@),
            ),
            crate::connection::ran(
                old(self).session.attempts(),
                final(self).session.attempts(),
                cisco_interface_commands(interface@, "no shutdown"@),
                r is Ok,
            ),
    {
        proof {
            reveal_strlit("no shutdown");
        }
        self.configure_interface(interface, "no shutdown")
    }

    /// `interface <name>`, `shutdown`, then `exit` from the interface context;
    /// the first failing write ends it.
    fn interface_down(&mut self, interface: &Interface) -> (r: Result<(), std::io::Error>)
        ensures
            final(self).session.pattern() == old(self).session.pattern(),
            r is Ok ==> final(self).session.sent() == old(self).session.sent() + cisco_down_text(
                interface@,
            ),
            r is Err ==> crate::connection::failed_run(
                old(self).session.sent(),
                final(self).session.sent(),
                cisco_interface_commands(interface@, "shutdown"@),
            ),
            crate::connection::ran(
                old(self).session.attempts(),
                final(self).session.attempts(),
                cisco_interface_commands(interface@, "shutdown"@),
                r is Ok,
            ),
    {
        proof {
            reveal_strlit("shutdown");
        }
        self.configure_interface(interface, "shutdown")
    }
}

impl<'a, C: Connection> ConfigurationMode<'a, CiscoDevice<C>> {
    /// Enters the context of `interface`, applies `setting`, and leaves the
    /// context again; the first failing write ends it.
    fn configure_interface(&mut self, interface: &Interface, setting: &str) -> (r: Result<
        (),
        std::io::Error,
    >)
        ensures
            final(self).session.pattern() == old(self).session.pattern(),
            r is Ok ==> final(self).session.sent() == old(self).session.sent()
                + crate::connection::lines(cisco_interface_commands(interface@, setting@)),
            r is Err ==> crate::connection::failed_run(
                old(self).session.sent(),
                final(self).session.sent(),
                cisco_interface_commands(interface@, setting@),
            ),
            crate::connection::ran(
                old(self).session.attempts(),
                final(self).session.attempts(),
                cisco_interface_commands(interface@, setting@),
                r is Ok,
            ),
    {
        let ghost s0 = self.session.sent();
        let ghost a0 = self.session.attempts();
        let ghost cmds = cisco_interface_commands(interface@, setting@);
        proof {
            reveal_strlit("interface ");
            crate::connection::lemma_lines_none(cmds);
            crate::connection::lemma_ran_start(a0, cmds);
        }
        let command = "interface ".to_owned().concat(interface.name());
        let ghost mid = self.session.attempts();
        let r = self.session.execute_raw(command.as_str());
        proof {
            crate::connection::lemma_ran_step(a0, mid, self.session.attempts(), cmds, 0, r is Ok);
        }
        match r {
            Ok(()) => {},
            Err(e) => {
                proof {
                    crate::connection::lemma_failed_at(s0, self.session.sent(), cmds, 0);
                }
                return Err(e);
            },
        }
        proof {
            crate::connection::lemma_lines_step(cmds, 0);
        }
        let ghost mid = self.session.attempts();
        let r = self.session.execute_raw(setting);
        proof {
            crate::connection::lemma_ran_step(a0, mid, self.session.attempts(), cmds, 1, r is Ok);
        }
        match r {
            Ok(()) => {},
            Err(e) => {
                proof {
                    crate::connection::lemma_failed_at(s0, self.session.sent(), cmds, 1);
                }
                return Err(e);
            },
        }
        proof {
            crate::connection::lemma_lines_step(cmds, 1);
            assert(self.session.sent() =~= s0 + crate::connection::lines(cmds.take(2)));
        }
        let ghost mid = self.session.attempts();
        let r = self.session.exit();
        proof {
            assert(<CiscoDevice<C> as Configurable>::exit_command() == cmds[2]);
            crate::connection::lemma_ran_step(a0, mid, self.session.attempts(), cmds, 2, r is Ok);
            if r is Ok {
                crate::connection::lemma_ran_done(a0, self.session.attempts(), cmds);
                crate::connection::lemma_lines_step(cmds, 2);
                assert(cmds.take(3) =~= cmds);
            } else {
                assert(<CiscoDevice<C> as Configurable>::exit_command() == cmds[2]);
                assert(self.session.sent() == s0 + crate::connection::lines(cmds.take(2))
                    || self.session.sent() =~= s0 + crate::connection::lines(cmds.take(2)) + cmds[2]);
                crate::connection::lemma_failed_at(s0, self.session.sent(), cmds, 2);
            }
        }
        r
    }

    /// Persists the running configuration from within configuration mode.
    pub fn save(&mut self) -> (r: Result<(), std::io::Error>)
        ensures
            final(self).session.pattern() == old(self).session.pattern(),
            r is Ok ==> final(self).session.sent() == old(self).session.sent()
                + crate::connection::line("write memory"@),
            r is Err ==> final(self).session.sent() == old(self).session.sent()
                || final(self).session.sent() == old(self).session.sent() + "write memory"@,
            crate::connection::sent_line(
                old(self).session.attempts(),
                final(self).session.attempts(),
                "write memory"@,
                r is Ok,
            ),
    {
        CiscoDevice::save(self.session)
    }
}

} // verus!
