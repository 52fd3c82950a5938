use vstd::prelude::*;
use crate::interfaces::{Interface, make_interface};

verus! {

/// A configurable device. It can execute commands, leave its current mode, and
/// persist its running configuration.
///
/// `sent` is the text sent to the device so far, and `attempts` every write
/// handed to its connection, with whether it succeeded.
pub trait Configurable: Sized {
    spec fn sent(&self) -> Seq<char>;

    spec fn attempts(&self) -> Seq<(Seq<char>, bool)>;

    /// The command that leaves the current mode.
    spec fn exit_command() -> Seq<char>;

    /// The commands that persisting the configuration sends, in order.
    spec fn save_commands() -> Seq<Seq<char>>;

    /// Execute a raw command on the device; its mode is not checked. On a failed
    /// write at most the command, without its newline, went out.
    fn execute_raw(&mut self, command: &str) -> (r: Result<(), std::io::Error>)
        ensures
            crate::connection::sent_line(
                old(self).attempts(),
                final(self).attempts(),
                command@,
                r is Ok,
            ),
            r is Ok ==> final(self).sent() == old(self).sent() + crate::connection::line(command@),
            r is Err ==> final(self).sent() == old(self).sent() || final(self).sent() == old(
                self,
            ).sent() + command@,
    ;

    /// Exit the current mode.
    fn exit(&mut self) -> (r: Result<(), std::io::Error>)
        ensures
            crate::connection::sent_line(
                old(self).attempts(),
                final(self).attempts(),
                Self::exit_command(),
                r is Ok,
            ),
            r is Ok ==> final(self).sent() == old(self).sent() + crate::connection::line(
                Self::exit_command(),
            ),
            r is Err ==> final(self).sent() == old(self).sent() || final(self).sent() == old(
                self,
            ).sent() + Self::exit_command(),
    ;

    /// Save the current running configuration to the device.
    fn save(&mut self) -> (r: Result<(), std::io::Error>)
        ensures
            crate::connection::ran(
                old(self).attempts(),
                final(self).attempts(),
                Self::save_commands(),
                r is Ok,
            ),
            r is Ok ==> final(self).sent() == old(self).sent() + crate::connection::lines(
                Self::save_commands(),
            ),
            r is Err ==> crate::connection::failed_run(
                old(self).sent(),
                final(self).sent(),
                Self::save_commands(),
            ),
    ;
}

/// A device whose interfaces can be brought up or down.
pub trait InterfaceConfigurable {
    /// Configures an interface to be available.
    fn interface_up(&mut self, interface: &Interface) -> Result<(), std::io::Error>;

    /// Configures an interface to not be available.
    fn interface_down(&mut self, interface: &Interface) -> Result<(), std::io::Error>;
}

/// The configuration mode of a device session. It holds the session exclusively
/// while it lives, and leaves the mode when it goes out of scope.
pub struct ConfigurationMode<'a, T: Configurable> {
    pub session: &'a mut T,
}

impl<'a, T: Configurable> ConfigurationMode<'a, T> {
    /// Builds the name of an interface from a prefix and indices: `name`
    /// followed by the indices in decimal, joined by `/`.
    pub fn get_interface(&self, name: &str, indices: &[u32]) -> (r: Interface)
        ensures
            r@ == crate::interfaces::interface_name(name@, indices@),
            indices@.len() == 0 ==> r@ == name@,
    {
        make_interface(name, indices)
    }

    /// Takes the session for the configuration mode that it has just entered.
    pub fn enter(session: &'a mut T) -> (r: ConfigurationMode<'a, T>)
        ensures
            *r.session == *old(session),
            *final(r.session) == *final(session),
    {
        ConfigurationMode { session }
    }

    /// Execute any raw command on the device from configuration mode.
    pub fn execute_raw(&mut self, command: &str) -> (r: Result<(), std::io::Error>)
        ensures
            crate::connection::sent_line(
                old(self).session.attempts(),
                final(self).session.attempts(),
                command@,
                r is Ok,
            ),
            r is Ok ==> final(self).session.sent() == old(self).session.sent()
                + crate::connection::line(command@),
            r is Err ==> final(self).session.sent() == old(self).session.sent()
                || final(self).session.sent() == old(self).session.sent() + command@,
    {
        self.session.execute_raw(command)
    }
}

impl<'a, T: Configurable> Drop for ConfigurationMode<'a, T> {
    /// Leaves the configuration mode, once, on every way out of the guard's scope.
    /// A failure to leave is swallowed: teardown must not replace an error that
    /// is already on its way out.
    ///
    /// The body is taken as written, without a proof: a destructor must not
    /// unwind, and the transports that callers supply make no such promise.
    #[verifier::external_body]
    fn drop(&mut self)
        opens_invariants none
        no_unwind
    {
        let _ = self.session.exit();
    }
}

} // verus!
