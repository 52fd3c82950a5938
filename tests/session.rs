use rustmiko::cisco::CiscoDevice;
use rustmiko::config::{Configurable, ConfigurationMode, InterfaceConfigurable};
use rustmiko::connection::{execute_raw, read_ignore, Connection, ReadEnd, ReadEvent, Session};
use rustmiko::juniper::JuniperDevice;
use rustmiko::options::{authenticate, password_credentials, ConnectionOptions, LoginError};
use rustmiko::prompt::Prompt;
use std::collections::VecDeque;
use std::io;
use std::time::Duration;

/// A transport that records what is written and replays scripted reads; once
/// the script is spent every read times out.
struct FakeConnection {
    sent: String,
    script: VecDeque<ReadEvent>,
    reads: usize,
    fail_on: Option<String>,
}

impl FakeConnection {
    fn new() -> FakeConnection {
        FakeConnection { sent: String::new(), script: VecDeque::new(), reads: 0, fail_on: None }
    }

    fn with_chunks(chunks: &[&str]) -> FakeConnection {
        let mut c = FakeConnection::new();
        for chunk in chunks {
            c.script.push_back(ReadEvent::Data(chunk.as_bytes().to_vec()));
        }
        c
    }

    fn lines(&self) -> Vec<String> {
        self.sent.lines().map(|l| l.to_string()).collect()
    }
}

impl Connection for FakeConnection {
    fn write(&mut self, text: &str) -> Result<(), io::Error> {
        if let Some(bad) = &self.fail_on {
            if text == bad {
                return Err(io::Error::new(io::ErrorKind::BrokenPipe, "write refused"));
            }
        }
        self.sent.push_str(text);
        Ok(())
    }

    fn read_timeout(&mut self, _secs: u64) -> ReadEvent {
        self.reads += 1;
        self.script.pop_front().unwrap_or(ReadEvent::TimedOut)
    }
}

fn strings(v: &[&str]) -> Vec<String> {
    v.iter().map(|s| s.to_string()).collect()
}

#[test]
fn prompt_stops_after_matching_chunk() {
    let mut session = Session::new(FakeConnection::with_chunks(&["abc", "def#", "never read"]));
    let prompt = Prompt::new("#").unwrap();
    assert!(execute_raw(&mut session, "show version", &prompt).is_ok());
    let conn = session.into_connection();
    assert_eq!(conn.reads, 2);
    assert_eq!(conn.sent, "show version\n");
    assert_eq!(conn.script.len(), 1);
}

#[test]
fn prompt_reports_why_drain_ended() {
    let prompt = Prompt::new("#").unwrap();
    let mut session = Session::new(FakeConnection::with_chunks(&["abc", "def#"]));
    assert_eq!(read_ignore(&mut session, &prompt), ReadEnd::Prompt);
    assert_eq!(session.connection().reads, 2);

    let mut idle = Session::new(FakeConnection::with_chunks(&["abc", "def"]));
    assert_eq!(read_ignore(&mut idle, &prompt), ReadEnd::TimedOut);
    assert_eq!(idle.connection().reads, 3);
    assert_eq!(idle.connection().sent, "");
}

#[test]
fn drain_ends_on_close_and_failure_but_not_control() {
    let prompt = Prompt::new("#").unwrap();
    let mut conn = FakeConnection::new();
    conn.script.push_back(ReadEvent::Control);
    conn.script.push_back(ReadEvent::Closed);
    let mut session = Session::new(conn);
    assert_eq!(read_ignore(&mut session, &prompt), ReadEnd::Closed);
    assert_eq!(session.connection().reads, 2);

    let mut failing = FakeConnection::new();
    failing.script.push_back(ReadEvent::Failed);
    failing.script.push_back(ReadEvent::Data(b"#".to_vec()));
    let mut session = Session::new(failing);
    assert_eq!(read_ignore(&mut session, &prompt), ReadEnd::Failed);
    assert_eq!(session.connection().reads, 1);
}

#[test]
fn prompt_matching_trims_and_decodes_leniently() {
    let end_anchored = Prompt::new("#$").unwrap();
    assert!(end_anchored.matches_chunk(b"Switch# \r\n"));
    assert!(!end_anchored.matches_chunk(b"# not yet"));
    assert!(end_anchored.matches_chunk(&[0xff, 0xfe, b'#']));
    let replacement = Prompt::new("\u{FFFD}").unwrap();
    assert!(replacement.matches_chunk(&[0xff]));
    assert!(!replacement.matches_chunk(b"plain"));
}

#[test]
fn prompt_pattern_errors_and_source() {
    assert!(Prompt::new("(").is_err());
    let p = Prompt::new("[>#%]").unwrap();
    assert_eq!(p.as_str(), "[>#%]");
    assert!(p.matches_chunk(b"user@switch>"));
    assert!(!p.matches_chunk(b"Password:"));
}

#[test]
fn execute_raw_write_failure_is_an_error_without_reads() {
    let mut conn = FakeConnection::with_chunks(&["#"]);
    conn.fail_on = Some("\n".to_string());
    let prompt = Prompt::new("#").unwrap();
    let mut session = Session::new(conn);
    assert!(execute_raw(&mut session, "show clock", &prompt).is_err());
    assert_eq!(session.connection().reads, 0);
    assert_eq!(session.connection().sent, "show clock");
}

#[test]
fn cisco_end_to_end_scenario() {
    let mut cisco = CiscoDevice::connect(Session::new(FakeConnection::new())).unwrap();
    {
        let mut config = cisco.enter_config().unwrap();
        let interface = config.get_interface("gi", &[0, 1]);
        config.interface_up(&interface).unwrap();
    }
    cisco.save().unwrap();
    assert_eq!(
        cisco.connection().lines(),
        strings(&["configure terminal", "interface gi0/1", "no shutdown", "exit", "exit", "write memory"])
    );
}

#[test]
fn juniper_commit_scenario_and_silent_save() {
    let mut juniper = JuniperDevice::connect(Session::new(FakeConnection::with_chunks(&["--- JUNOS banner", "user@ex> "])))
        .unwrap();
    assert_eq!(juniper.connection().reads, 2);
    {
        let mut config = juniper.enter_config().unwrap();
        let interface = config.get_interface("ge-", &[0, 0, 0]);
        config.interface_down(&interface).unwrap();
        config.commit().unwrap();
    }
    assert_eq!(
        juniper.connection().lines(),
        strings(&["configure", "set interfaces ge-0/0/0 disable", "commit", "exit"])
    );
    let before = juniper.connection().sent.clone();
    assert!(juniper.save().is_ok());
    assert_eq!(juniper.connection().sent, before);
}

#[test]
fn juniper_interface_up_and_cli() {
    let mut juniper = JuniperDevice::connect(Session::new(FakeConnection::new())).unwrap();
    juniper.enter_cli().unwrap();
    {
        let mut config = juniper.enter_config().unwrap();
        let interface = config.get_interface("xe-", &[1, 0, 47]);
        config.interface_up(&interface).unwrap();
    }
    assert_eq!(
        juniper.connection().lines(),
        strings(&["cli", "configure", "set interfaces xe-1/0/47 enable", "exit"])
    );
}

#[test]
fn interface_down_twice_repeats_commands() {
    let mut cisco = CiscoDevice::connect(Session::new(FakeConnection::new())).unwrap();
    {
        let mut config = cisco.enter_config().unwrap();
        let interface = config.get_interface("gi", &[0, 3]);
        config.interface_down(&interface).unwrap();
        config.interface_down(&interface).unwrap();
    }
    let once = ["interface gi0/3", "shutdown", "exit"];
    let mut expected = vec!["configure terminal"];
    expected.extend_from_slice(&once);
    expected.extend_from_slice(&once);
    expected.push("exit");
    assert_eq!(cisco.connection().lines(), strings(&expected));
}

#[test]
fn juniper_interface_down_twice_repeats_command() {
    let mut juniper = JuniperDevice::connect(Session::new(FakeConnection::new())).unwrap();
    {
        let mut config = juniper.enter_config().unwrap();
        let interface = config.get_interface("ge-", &[0, 0, 1]);
        config.interface_down(&interface).unwrap();
        config.interface_down(&interface).unwrap();
    }
    assert_eq!(
        juniper.connection().lines(),
        strings(&["configure", "set interfaces ge-0/0/1 disable", "set interfaces ge-0/0/1 disable", "exit"])
    );
}

fn shut_then_fail(cisco: &mut CiscoDevice<FakeConnection>) -> io::Result<()> {
    let mut config = cisco.enter_config()?;
    let interface = config.get_interface("gi", &[0, 2]);
    config.interface_down(&interface)?;
    config.execute_raw("never sent")?;
    Ok(())
}

#[test]
fn guard_exits_once_on_early_return() {
    let mut conn = FakeConnection::new();
    conn.fail_on = Some("shutdown".to_string());
    let mut cisco = CiscoDevice::connect(Session::new(conn)).unwrap();
    assert!(shut_then_fail(&mut cisco).is_err());
    assert_eq!(cisco.connection().lines(), strings(&["configure terminal", "interface gi0/2", "exit"]));
    {
        let mut config = cisco.enter_config().unwrap();
        config.execute_raw("hostname core1").unwrap();
    }
    assert_eq!(
        cisco.connection().lines(),
        strings(&["configure terminal", "interface gi0/2", "exit", "configure terminal", "hostname core1", "exit"])
    );
}

#[test]
fn guard_exits_once_on_normal_end() {
    let mut cisco = CiscoDevice::connect(Session::new(FakeConnection::new())).unwrap();
    {
        let config = cisco.enter_config().unwrap();
        let _ = config.get_interface("gi", &[1]);
    }
    assert_eq!(cisco.connection().lines(), strings(&["configure terminal", "exit"]));
}

#[test]
fn guard_enter_wraps_session() {
    let mut cisco = CiscoDevice::connect(Session::new(FakeConnection::new())).unwrap();
    {
        let mut config = ConfigurationMode::enter(&mut cisco);
        config.save().unwrap();
    }
    assert_eq!(cisco.connection().lines(), strings(&["write memory", "exit"]));
}

#[test]
fn cisco_enable_with_and_without_password() {
    let mut cisco = CiscoDevice::connect(Session::new(FakeConnection::new())).unwrap();
    cisco.enable("").unwrap();
    cisco.enable("s3cret").unwrap();
    cisco.execute_raw("show ip interface brief").unwrap();
    cisco.exit().unwrap();
    assert_eq!(
        cisco.connection().lines(),
        strings(&["enable", "enable", "s3cret", "show ip interface brief", "exit"])
    );
}

#[test]
fn login_sends_credentials_in_order() {
    let mut session = Session::new(FakeConnection::with_chunks(&["Username: ", "Password: "]));
    let opts = ConnectionOptions::from_auth("admin", "pw");
    assert!(authenticate(&mut session, &opts).is_ok());
    assert_eq!(session.connection().lines(), strings(&["admin", "pw"]));
    // two reads up to the password challenge, then one that times out
    assert_eq!(session.connection().reads, 3);
}

#[test]
fn login_without_credentials_sends_nothing() {
    let mut session = Session::new(FakeConnection::new());
    assert!(authenticate(&mut session, &ConnectionOptions::default()).is_ok());
    assert_eq!(session.connection().sent, "");
    assert_eq!(session.connection().reads, 0);

    let mut user_only = Session::new(FakeConnection::new());
    let opts = ConnectionOptions::default().with_username("operator");
    assert!(authenticate(&mut user_only, &opts).is_ok());
    assert_eq!(user_only.connection().lines(), strings(&["operator"]));
}

#[test]
fn login_write_failure_is_io_error() {
    let mut conn = FakeConnection::new();
    conn.fail_on = Some("pw".to_string());
    let mut session = Session::new(conn);
    let opts = ConnectionOptions::from_auth("admin", "pw");
    assert!(matches!(authenticate(&mut session, &opts), Err(LoginError::Io(_))));
    assert_eq!(session.connection().lines(), strings(&["admin"]));
}

#[test]
fn connection_options_builders() {
    let d = ConnectionOptions::default();
    assert!(d.username.is_none() && d.password.is_none() && d.timeout.is_none());
    let o = ConnectionOptions::default()
        .with_username("u")
        .with_password("p")
        .with_timeout(Duration::from_secs(5));
    assert_eq!(o.username, Some("u"));
    assert_eq!(o.password, Some("p"));
    assert_eq!(o.timeout, Some(Duration::from_secs(5)));
    let a = ConnectionOptions::from_auth("admin", "admin");
    assert_eq!(a.username, Some("admin"));
    assert_eq!(a.password, Some("admin"));
    assert!(a.timeout.is_none());
}

#[test]
fn trimming_follows_unicode_white_space() {
    let end_anchored = Prompt::new("#$").unwrap();
    assert!(end_anchored.matches_chunk("core#\u{3000}\u{85}\t".as_bytes()));
    assert!(!end_anchored.matches_chunk("core#\u{200B}".as_bytes()));
}

#[test]
fn enter_config_failure_sends_no_exit() {
    let mut conn = FakeConnection::new();
    conn.fail_on = Some("configure terminal".to_string());
    let mut cisco = CiscoDevice::connect(Session::new(conn)).unwrap();
    assert!(cisco.enter_config().is_err());
    assert_eq!(cisco.connection().sent, "");
}

#[test]
fn interface_up_stops_at_failing_step() {
    let mut conn = FakeConnection::new();
    conn.fail_on = Some("no shutdown".to_string());
    let mut cisco = CiscoDevice::connect(Session::new(conn)).unwrap();
    {
        let mut config = cisco.enter_config().unwrap();
        let interface = config.get_interface("gi", &[0, 5]);
        assert!(config.interface_up(&interface).is_err());
    }
    // the trailing "exit" is the guard's teardown, not the interface step
    assert_eq!(cisco.connection().lines(), strings(&["configure terminal", "interface gi0/5", "exit"]));
}

#[test]
fn enable_failure_keeps_password_back() {
    let mut conn = FakeConnection::new();
    conn.fail_on = Some("enable".to_string());
    let mut cisco = CiscoDevice::connect(Session::new(conn)).unwrap();
    assert!(cisco.enable("s3cret").is_err());
    assert_eq!(cisco.connection().sent, "");
}

#[test]
fn juniper_commit_failure_is_reported() {
    let mut conn = FakeConnection::new();
    conn.fail_on = Some("commit".to_string());
    let mut juniper = JuniperDevice::connect(Session::new(conn)).unwrap();
    {
        let mut config = juniper.enter_config().unwrap();
        assert!(config.commit().is_err());
    }
    assert_eq!(juniper.connection().lines(), strings(&["configure", "exit"]));
}

#[test]
fn password_credentials_need_both() {
    assert_eq!(password_credentials(&ConnectionOptions::from_auth("a", "b")), Some(("a", "b")));
    assert_eq!(password_credentials(&ConnectionOptions::default().with_username("a")), None);
    assert_eq!(password_credentials(&ConnectionOptions::default().with_password("b")), None);
}

#[test]
fn failed_write_is_not_retried() {
    let mut conn = FakeConnection::with_chunks(&["#"]);
    conn.fail_on = Some("show clock".to_string());
    let mut session = Session::new(conn);
    let prompt = Prompt::new("#").unwrap();
    assert!(execute_raw(&mut session, "show clock", &prompt).is_err());
    assert_eq!(session.connection().sent, "");
    assert_eq!(session.connection().reads, 0);
}
