use vstd::prelude::*;
use crate::config::{Configurable, ConfigurationMode, InterfaceConfigurable};
use crate::connection::{Connection, ReadEnd, Session, read_ignore};
use crate::interfaces::Interface;
use crate::prompt::Prompt;

verus! {

/// The prompts that end the output of a command on a Juniper device.
pub const JUNIPER_PROMPT: &'static str = "[>#%]";

/// What bringing the interface `name` up sends on a Juniper device.
pub open spec fn juniper_up_text(name: Seq<char>) -> Seq<char> {
    crate::connection::line("set interfaces "@ + name + " enable"@)
}

/// What bringing the interface `name` down sends on a Juniper device.
pub open spec fn juniper_down_text(name: Seq<char>) -> Seq<char> {
    crate::connection::line("set interfaces "@ + name + " disable"@)
}

/// Bringing an interface down twice in a row sends the same command twice:
/// what the Juniper adapter sends depends on the interface alone, not on what
/// was sent before.
pub proof fn juniper_interface_down_repeats(name: Seq<char>, s0: Seq<char>, s1: Seq<char>, s2: Seq<char>)
    requires
        s1 == s0 + juniper_down_text(name),
        s2 == s1 + juniper_down_text(name),
    ensures
        s2.subrange(s1.len() as int, s2.len() as int) == s1.subrange(s0.len() as int, s1.len() as int),
        s2 == s0 + juniper_down_text(name) + juniper_down_text(name),
{
    assert(s2.subrange(s1.len() as int, s2.len() as int) =~= juniper_down_text(name));
    assert(s1.subrange(s0.len() as int, s1.len() as int) =~= juniper_down_text(name));
}

/// A Juniper (EX) device session over a connection `C`.
pub struct JuniperDevice<C: Connection> {
    connection: Session<C>,
    prompt_end: Prompt,
}

impl<C: Connection> JuniperDevice<C> {
    /// The prompt pattern of the session.
    pub closed spec fn pattern(&self) -> Seq<char> {
        self.prompt_end.pattern()
    }

    /// The connection of the session.
    pub closed spec fn session(&self) -> Session<C> {
        self.connection
    }

    /// Takes over an open, logged-in connection to a Juniper device and
    /// discards its banner up to the first prompt.
    pub fn connect(connection: Session<C>) -> (r: Result<JuniperDevice<C>, regex::Error>)
        ensures
            r is Ok <==> crate::prompt::regex_compiles(JUNIPER_PROMPT@),
            r matches Ok(d) ==> {
                &&& d.pattern() == JUNIPER_PROMPT@
                &&& d.session().sent() == connection.sent()
                &&& d.session().attempts() == connection.attempts()
                &&& exists|end: ReadEnd|
                    crate::connection::drained(
                        connection.received(),
                        d.session().received(),
                        JUNIPER_PROMPT@,
                        end,
                    )
            },
    {
        match Prompt::new(JUNIPER_PROMPT) {
            Ok(prompt_end) => {
                let mut device = JuniperDevice { connection, prompt_end };
                let _ = read_ignore(&mut device.connection, &device.prompt_end);
                Ok(device)
            },
            Err(e) => Err(e),
        }
    }

    /// The connection of the session.
    pub fn connection(&self) -> (r: &C)
        ensures
            *r == self.session().conn(),
    {
        self.connection.connection()
    }

    /// Starts the operational CLI from a login shell (`cli`).
    pub fn enter_cli(&mut self) -> (r: Result<(), std::io::Error>)
        ensures
            final(self).pattern() == old(self).pattern(),
            r is Ok ==> final(self).sent() == old(self).sent() + crate::connection::line("cli"@),
            r is Err ==> final(self).sent() == old(self).sent() || final(self).sent() == old(
                self,
            ).sent() + "cli"@,
            crate::connection::sent_line(old(self).attempts(), final(self).attempts(), "cli"@, r is Ok),
    {
        self.execute_raw("cli")
    }

    /// Enters configuration mode (`configure`) and hands out the guard that
    /// holds the session until it leaves that mode.
    pub fn enter_config(&mut self) -> (r: Result<
        ConfigurationMode<'_, JuniperDevice<C>>,
        std::io::Error,
    >)
        ensures
            r matches Ok(g) ==> {
                &&& g.session.sent() == old(self).sent() + crate::connection::line("configure"@)
                &&& g.session.attempts() == old(self).attempts() + crate::connection::ok_line(
                    "configure"@,
                )
                &&& g.session.pattern() == old(self).pattern()
                &&& *final(g.session) == *final(self)
            },
            r is Err ==> {
                &&& final(self).pattern() == old(self).pattern()
                &&& final(self).sent() == old(self).sent() || final(self).sent() == old(
                    self,
                ).sent() + "configure"@
                &&& crate::connection::sent_line(
                    old(self).attempts(),
                    final(self).attempts(),
                    "configure"@,
                    false,
                )
            },
    {
        match self.execute_raw("configure") {
            Ok(()) => Ok(ConfigurationMode::enter(self)),
            Err(e) => Err(e),
        }
    }
}

impl<C: Connection> Configurable for JuniperDevice<C> {
    open spec fn sent(&self) -> Seq<char> {
        self.session().sent()
    }

    open spec fn attempts(&self) -> Seq<(Seq<char>, bool)> {
        self.session().attempts()
    }

    open spec fn exit_command() -> Seq<char> {
        "exit"@
    }

    /// Changes are committed one by one inside configuration mode, so saving
    /// sends nothing.
    open spec fn save_commands() -> Seq<Seq<char>> {
        Seq::empty()
    }

    fn execute_raw(&mut self, command: &str) -> (r: Result<(), std::io::Error>)
        ensures
            final(self).pattern() == old(self).pattern(),
            r is Ok ==> exists|end: ReadEnd|
                crate::connection::drained(
                    old(self).session().received(),
                    final(self).session().received(),
                    old(self).pattern(),
                    end,
                ),
    {
        let r = crate::connection::execute_raw(&mut self.connection, command, &self.prompt_end);
        proof {
            if r is Ok {
                let end = choose|end: ReadEnd|
                    crate::connection::drained(
                        old(self).connection.received(),
                        self.connection.received(),
                        self.prompt_end.pattern(),
                        end,
                    );
                assert(crate::connection::drained(
                    old(self).session().received(),
                    self.session().received(),
                    old(self).pattern(),
                    end,
                ));
            }
        }
        r
    }

    fn exit(&mut self) -> (r: Result<(), std::io::Error>)
        ensures
            final(self).pattern() == old(self).pattern(),
    {
        self.execute_raw("exit")
    }

    /// Does nothing: a Juniper device persists each change at its commit.
    fn save(&mut self) -> (r: Result<(), std::io::Error>)
        ensures
            r is Ok,
            *final(self) == *old(self),
    {
        proof {
            assert(crate::connection::lines(Self::save_commands()) =~= Seq::<char>::empty());
            assert(crate::connection::ok_lines(Self::save_commands()) =~= Seq::<
                (Seq<char>, bool),
            >::empty());
            assert(self.attempts() =~= self.attempts() + crate::connection::ok_lines(
                Self::save_commands(),
            ));
        }
        Ok(())
    }
}

impl<'a, C: Connection> InterfaceConfigurable for ConfigurationMode<'a, JuniperDevice<C>> {
    /// `set interfaces <name> enable`.
    fn interface_up(&mut self, interface: &Interface) -> (r: Result<(), std::io::Error>)
        ensures
            final(self).session.pattern() == old(self).session.pattern(),
            r is Ok ==> final(self).session.sent() == old(self).session.sent() + juniper_up_text(
                interface@,
            ),
            r is Err ==> final(self).session.sent() == old(self).session.sent()
                || final(self).session.sent() == old(self).session.sent() + "set interfaces "@
                + interface@ + " enable"@,
            crate::connection::sent_line(
                old(self).session.attempts(),
                final(self).session.attempts(),
                "set interfaces "@ + interface@ + " enable"@,
                r is Ok,
            ),
    {
        proof {
            reveal_strlit("set interfaces ");
            reveal_strlit(" enable");
        }
        let command = "set interfaces ".to_owned().concat(interface.name()).concat(" enable");
        self.session.execute_raw(command.as_str())
    }

    /// `set interfaces <name> disable`.
    fn interface_down(&mut self, interface: &Interface) -> (r: Result<(), std::io::Error>)
        ensures
            final(self).session.pattern() == old(self).session.pattern(),
            r is Ok ==> final(self).session.sent() == old(self).session.sent()
                + juniper_down_text(interface@),
            r is Err ==> final(self).session.sent() == old(self).session.sent()
                || final(self).session.sent() == old(self).session.sent() + "set interfaces "@
                + interface@ + " disable"@,
            crate::connection::sent_line(
                old(self).session.attempts(),
                final(self).session.attempts(),
                "set interfaces "@ + interface@ + " disable"@,
                r is Ok,
            ),
    {
        proof {
            reveal_strlit("set interfaces ");
            reveal_strlit(" disable");
        }
        let command = "set interfaces ".to_owned().concat(interface.name()).concat(" disable");
        self.session.execute_raw(command.as_str())
    }
}

impl<'a, C: Connection> ConfigurationMode<'a, JuniperDevice<C>> {
    /// Commits the staged configuration changes (`commit`).
    pub fn commit(&mut self) -> (r: Result<(), std::io::Error>)
        ensures
            final(self).session.pattern() == old(self).session.pattern(),
            r is Ok ==> final(self).session.sent() == old(self).session.sent()
                + crate::connection::line("commit"@),
            r is Err ==> final(self).session.sent() == old(self).session.sent()
                || final(self).session.sent() == old(self).session.sent() + "commit"@,
            crate::connection::sent_line(
                old(self).session.attempts(),
                final(self).session.attempts(),
                "commit"@,
                r is Ok,
            ),
    {
        self.session.execute_raw("commit")
    }
}

} // verus!
