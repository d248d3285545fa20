//! The thin boundary between the WiFi state machine and `ip`/`iw`.

use vstd::prelude::*;
use vstd::string::*;

use crate::command::{self, Command, CommandView};
use crate::log;
use crate::text;

verus! {

/// What the driver reports the interface is currently doing.
#[derive(Debug, Clone, Copy, PartialEq, Eq, Structural)]
pub enum InterfaceMode {
    /// Station mode: associated (or trying to associate) with someone else's AP.
    Client,
    /// This robot is the access point.
    AccessPoint,
    /// `iw` reported a type we don't drive (monitor, mesh, ...).
    Other,
}

/// What came of running a command whose output is of interest.
#[derive(Debug, Clone, PartialEq, Eq)]
pub enum Captured {
    /// It ran, with a status that is described in words.
    Exited { success: bool, status: String, stdout: String, stderr: String },
    /// It could not be run.
    NotRun { err: String },
}

/// What `command` printed, or why it failed.
pub open spec fn output_of(command: CommandView, captured: Captured) -> Result<
    Seq<char>,
    Seq<char>,
> {
    match captured {
        Captured::NotRun { err } => Err(
            "could not run `"@ + command.program + "` (is it installed?): "@ + err@,
        ),
        Captured::Exited { success, status, stdout, stderr } => if success {
            Ok(stdout@)
        } else {
            Err(
                "`"@ + command.program + " "@ + text::joined(command.args, " "@) + "` failed ("@
                    + status@ + "): "@ + text::trimmed(stderr@),
            )
        },
    }
}

/// Whether the command ran and succeeded.
pub open spec fn succeeded(captured: Captured) -> bool {
    captured matches Captured::Exited { success, .. } && success
}

/// What a command printed on success, and a useful error on failure.
pub fn output(command: &Command, captured: &Captured) -> (r: Result<String, String>)
    ensures
        r is Ok <==> succeeded(*captured),
        r matches Ok(stdout) ==> output_of(command@, *captured) == Ok::<Seq<char>, Seq<char>>(
            stdout@,
        ),
        r matches Err(err) ==> output_of(command@, *captured) == Err::<Seq<char>, Seq<char>>(err@),
{
    match captured {
        Captured::NotRun { err } => Err(
            text::cat4(
                "could not run `",
                command.program.as_str(),
                "` (is it installed?): ",
                err.as_str(),
            ),
        ),
        Captured::Exited { success, status, stdout, stderr } => {
            if *success {
                return Ok(stdout.clone());
            }
            let head: String = text::cat4(
                "`",
                command.program.as_str(),
                " ",
                text::join(&command.args, " ").as_str(),
            );
            Err(
                text::cat5(
                    head.as_str(),
                    "` failed (",
                    status.as_str(),
                    "): ",
                    text::trim(stderr.as_str()).as_str(),
                ),
            )
        },
    }
}

/// Whether a command that was run for its effect succeeded, and a useful error if not.
pub fn run(command: &Command, captured: &Captured) -> (r: Result<(), String>)
    ensures
        r is Ok <==> succeeded(*captured),
        r matches Err(err) ==> output_of(command@, *captured) == Err::<Seq<char>, Seq<char>>(err@),
{
    match output(command, captured) {
        Ok(_) => Ok(()),
        Err(err) => Err(err),
    }
}

/// What to log of a command whose failure is not worth aborting for: teardown steps, mostly,
/// where the thing being torn down may already be gone.
pub fn run_best_effort(command: &Command, captured: &Captured) -> (r: Option<String>)
    ensures
        r is None <==> succeeded(*captured),
        r matches Some(line) ==> (output_of(command@, *captured) matches Err(err) && line@
            == log::warn_line(err)),
{
    match run(command, captured) {
        Ok(_) => None,
        Err(err) => Some(log::warn(err.as_str())),
    }
}

/// The command that succeeds if the interface exists.
pub fn interface_query(interface: &str) -> (r: Command)
    ensures
        r@ == (CommandView { program: "ip"@, args: seq!["link"@, "show"@, interface@] }),
{
    let r: Command = command::command("ip", &["link", "show", interface]);
    assert(r@.args =~= seq!["link"@, "show"@, interface@]);
    r
}

/// Whether the interface exists, going by what came of `interface_query`.
pub fn interface_exists(captured: &Captured) -> (r: bool)
    ensures
        r == succeeded(*captured),
{
    match captured {
        Captured::Exited { success, .. } => *success,
        Captured::NotRun { .. } => false,
    }
}

/// What is said of an interface that does not exist.
pub open spec fn missing_interface(interface: Seq<char>) -> Seq<char> {
    "WiFi interface '"@ + interface
        + "' does not exist. Set ROBOTCTL_WIFI_INTERFACE to the correct NIC."@
}

/// Errors unless the interface exists, naming the knob to fix if it doesn't.
pub fn require_interface(interface: &str, captured: &Captured) -> (r: Result<(), String>)
    ensures
        r is Ok <==> succeeded(*captured),
        r matches Err(err) ==> err@ == missing_interface(interface@),
{
    if !interface_exists(captured) {
        return Err(
            text::cat3(
                "WiFi interface '",
                interface,
                "' does not exist. Set ROBOTCTL_WIFI_INTERFACE to the correct NIC.",
            ),
        );
    }
    Ok(())
}

pub open spec fn flush_command(interface: Seq<char>) -> CommandView {
    CommandView { program: "ip"@, args: seq!["addr"@, "flush"@, "dev"@, interface] }
}

/// The command that takes every address off the interface.
pub fn flush_addresses(interface: &str) -> (r: Command)
    ensures
        r@ == flush_command(interface@),
{
    let r: Command = command::command("ip", &["addr", "flush", "dev", interface]);
    assert(r@ == flush_command(interface@));
    r
}

pub open spec fn link_command(interface: Seq<char>, direction: Seq<char>) -> CommandView {
    CommandView { program: "ip"@, args: seq!["link"@, "set"@, interface, direction] }
}

/// The command that brings the interface up.
pub fn link_up(interface: &str) -> (r: Command)
    ensures
        r@ == link_command(interface@, "up"@),
{
    let r: Command = command::command("ip", &["link", "set", interface, "up"]);
    assert(r@ == link_command(interface@, "up"@));
    r
}

/// The command that takes the interface down.
pub fn link_down(interface: &str) -> (r: Command)
    ensures
        r@ == link_command(interface@, "down"@),
{
    let r: Command = command::command("ip", &["link", "set", interface, "down"]);
    assert(r@ == link_command(interface@, "down"@));
    r
}

pub open spec fn address_command(interface: Seq<char>, address: Seq<char>) -> CommandView {
    CommandView { program: "ip"@, args: seq!["addr"@, "add"@, address, "dev"@, interface] }
}

/// The command that gives the interface an address.
pub fn add_address(interface: &str, address: &str) -> (r: Command)
    ensures
        r@ == address_command(interface@, address@),
{
    let r: Command = command::command("ip", &["addr", "add", address, "dev", interface]);
    assert(r@ == address_command(interface@, address@));
    r
}

/// What follows `prefix` on the first of `lines` that starts with it, whitespace around the line
/// aside.
pub open spec fn first_after(lines: Seq<Seq<char>>, prefix: Seq<char>) -> Option<Seq<char>>
    decreases lines.len(),
{
    if lines.len() == 0 {
        None
    } else {
        match text::after_prefix(text::trimmed(lines[0]), prefix) {
            Some(rest) => Some(rest),
            None => first_after(lines.drop_first(), prefix),
        }
    }
}

fn find_after(text: &str, prefix: &str) -> (r: Option<String>)
    ensures
        text::opt_view(r) == first_after(text::lines_of(text@), prefix@),
{
    let lines: Vec<String> = text::lines(text);
    let ghost views = text::views(lines@);
    let mut i: usize = 0;
    assert(views.skip(0) =~= views);
    while i < lines.len()
        invariant
            i <= lines@.len(),
            views == text::views(lines@),
            views == text::lines_of(text@),
            first_after(views, prefix@) == first_after(views.skip(i as int), prefix@),
        decreases lines@.len() - i,
    {
        assert(views.skip(i as int)[0] == lines@[i as int]@);
        assert(views.skip(i as int).drop_first() =~= views.skip(i + 1));
        let line: String = text::trim(lines[i].as_str());
        if let Some(rest) = text::strip_prefix(line.as_str(), prefix) {
            return Some(rest);
        }
        i = i + 1;
    }
    None
}

/// The address in the output of `ip -4 addr show`.
pub open spec fn inet_address_of(text: Seq<char>) -> Option<Seq<char>> {
    match first_after(text::lines_of(text), "inet "@) {
        Some(rest) => if text::words_of(rest).len() > 0 {
            Some(text::words_of(rest)[0])
        } else {
            None
        },
        None => None,
    }
}

/// Extracts `inet <addr>/<prefix>` from `ip -4 addr show` output.
pub fn parse_inet_address(text: &str) -> (r: Option<String>)
    ensures
        text::opt_view(r) == inet_address_of(text@),
{
    match find_after(text, "inet ") {
        Some(rest) => {
            let words: Vec<String> = text::split_whitespace(rest.as_str());
            if words.len() > 0 {
                assert(text::views(words@)[0] == words@[0]@);
                Some(words[0].clone())
            } else {
                None
            }
        },
        None => None,
    }
}

/// The mode in the output of `iw dev <if> info`.
pub open spec fn iw_type_of(text: Seq<char>) -> Option<InterfaceMode> {
    match first_after(text::lines_of(text), "type "@) {
        Some(rest) => {
            let kind = text::trimmed(rest);
            Some(
                if kind == "managed"@ || kind == "station"@ {
                    InterfaceMode::Client
                } else if kind == "AP"@ {
                    InterfaceMode::AccessPoint
                } else {
                    InterfaceMode::Other
                },
            )
        },
        None => None,
    }
}

/// Extracts the `type` line from `iw dev <if> info` output.
pub fn parse_iw_type(text: &str) -> (r: Option<InterfaceMode>)
    ensures
        r == iw_type_of(text@),
{
    proof {
        reveal_strlit("managed");
        reveal_strlit("station");
        reveal_strlit("AP");
    }
    match find_after(text, "type ") {
        Some(rest) => {
            let kind: String = text::trim(rest.as_str());
            if text::same(kind.as_str(), "managed") || text::same(kind.as_str(), "station") {
                Some(InterfaceMode::Client)
            } else if text::same(kind.as_str(), "AP") {
                Some(InterfaceMode::AccessPoint)
            } else {
                Some(InterfaceMode::Other)
            }
        },
        None => None,
    }
}

/// The SSID in the output of `iw dev <if> link`, where it is associated.
pub open spec fn iw_link_ssid_of(text: Seq<char>) -> Option<Seq<char>> {
    match first_after(text::lines_of(text), "SSID: "@) {
        Some(rest) => if text::trimmed(rest).len() > 0 {
            Some(text::trimmed(rest))
        } else {
            None
        },
        None => None,
    }
}

/// Extracts the SSID from `iw dev <if> link` output, or `None` when not associated.
pub fn parse_iw_link_ssid(text: &str) -> (r: Option<String>)
    ensures
        text::opt_view(r) == iw_link_ssid_of(text@),
{
    match find_after(text, "SSID: ") {
        Some(rest) => {
            let ssid: String = text::trim(rest.as_str());
            if ssid.as_str().is_empty() {
                None
            } else {
                Some(ssid)
            }
        },
        None => None,
    }
}

/// The command that prints the interface's IPv4 address.
pub fn ipv4_query(interface: &str) -> (r: Command)
    ensures
        r@ == (CommandView {
            program: "ip"@,
            args: seq!["-4"@, "addr"@, "show"@, "dev"@, interface@],
        }),
{
    let r: Command = command::command("ip", &["-4", "addr", "show", "dev", interface]);
    assert(r@.args =~= seq!["-4"@, "addr"@, "show"@, "dev"@, interface@]);
    r
}

/// The interface's current IPv4 address, if it has one, going by what came of `ipv4_query`.
pub fn ipv4_address(captured: &Captured) -> (r: Option<String>)
    ensures
        text::opt_view(r) == match *captured {
            Captured::Exited { success: true, stdout, .. } => inet_address_of(stdout@),
            _ => None,
        },
{
    match captured {
        Captured::Exited { success, stdout, .. } => if *success {
            parse_inet_address(stdout.as_str())
        } else {
            None
        },
        Captured::NotRun { .. } => None,
    }
}

/// The command that prints the interface's mode.
pub fn mode_query(interface: &str) -> (r: Command)
    ensures
        r@ == (CommandView { program: "iw"@, args: seq!["dev"@, interface@, "info"@] }),
{
    let r: Command = command::command("iw", &["dev", interface, "info"]);
    assert(r@.args =~= seq!["dev"@, interface@, "info"@]);
    r
}

/// What the interface is doing, going by what came of `mode_query`.
pub fn interface_mode(captured: &Captured) -> (r: Option<InterfaceMode>)
    ensures
        r == match *captured {
            Captured::Exited { success: true, stdout, .. } => iw_type_of(stdout@),
            _ => None,
        },
{
    match captured {
        Captured::Exited { success, stdout, .. } => if *success {
            parse_iw_type(stdout.as_str())
        } else {
            None
        },
        Captured::NotRun { .. } => None,
    }
}

/// The command that prints the SSID this interface is associated with.
pub fn ssid_query(interface: &str) -> (r: Command)
    ensures
        r@ == (CommandView { program: "iw"@, args: seq!["dev"@, interface@, "link"@] }),
{
    let r: Command = command::command("iw", &["dev", interface, "link"]);
    assert(r@.args =~= seq!["dev"@, interface@, "link"@]);
    r
}

/// The SSID this interface is currently associated with, in client mode, going by what came of
/// `ssid_query`.
pub fn associated_ssid(captured: &Captured) -> (r: Option<String>)
    ensures
        text::opt_view(r) == match *captured {
            Captured::Exited { success: true, stdout, .. } => iw_link_ssid_of(stdout@),
            _ => None,
        },
{
    match captured {
        Captured::Exited { success, stdout, .. } => if *success {
            parse_iw_link_ssid(stdout.as_str())
        } else {
            None
        },
        Captured::NotRun { .. } => None,
    }
}

} // verus!
