//! The commands by which the host's network configuration is read and
//! changed. The library only says which command is to be run and what its
//! outcome means; running it is the caller's part.

use vstd::prelude::*;
use vstd::string::*;
use crate::text::{chars_of, decimal_digits, decimal_of, string_of, trim, trim_within};

verus! {

/// One command: a program and its arguments.
#[derive(Clone, Debug, PartialEq, Eq)]
pub struct Command {
    pub program: String,
    pub args: Vec<String>,
}

/// The mathematical content of a [`Command`].
pub struct CommandView {
    pub program: Seq<char>,
    pub args: Seq<Seq<char>>,
}

/// The characters of each string.
pub open spec fn texts(strings: Seq<String>) -> Seq<Seq<char>> {
    strings.map_values(|s: String| s@)
}

impl View for Command {
    type V = CommandView;

    open spec fn view(&self) -> CommandView {
        CommandView { program: self.program@, args: texts(self.args@) }
    }
}

/// The commands of a plan, in order.
pub open spec fn commands_view(commands: Seq<Command>) -> Seq<CommandView> {
    commands.map_values(|c: Command| c@)
}

/// What became of a command that was run: whether it ended in success, and
/// what it wrote to its two outputs.
#[derive(Clone, Debug, PartialEq, Eq)]
pub struct CommandOutcome {
    pub success: bool,
    pub stdout: String,
    pub stderr: String,
}

/// What a command that was run has to say: on success what it wrote to its
/// output, without the whitespace around it; on failure what it wrote to its
/// error output.
pub open spec fn reply_of(outcome: CommandOutcome) -> Result<Seq<char>, Seq<char>> {
    if outcome.success {
        Ok(trim(outcome.stdout@))
    } else {
        Err(outcome.stderr@)
    }
}

impl CommandOutcome {
    /// What the command had to say.
    pub fn reply(&self) -> (reply: Result<String, String>)
        ensures
            match reply {
                Ok(text) => reply_of(*self) == Ok::<Seq<char>, Seq<char>>(text@),
                Err(text) => reply_of(*self) == Err::<Seq<char>, Seq<char>>(text@),
            },
    {
        if self.success {
            let chars = chars_of(self.stdout.as_str());
            assert(chars@.subrange(0, chars@.len() as int) =~= chars@);
            let (start, end) = trim_within(chars.as_slice(), 0, chars.len());
            Ok(string_of(vstd::slice::slice_subrange(chars.as_slice(), start, end)))
        } else {
            Err(self.stderr.clone())
        }
    }
}

/// The places of the outcomes that are failures, in order.
pub open spec fn failures(outcomes: Seq<CommandOutcome>) -> Seq<usize>
    decreases outcomes.len(),
{
    if outcomes.len() == 0 {
        Seq::empty()
    } else if !outcomes.last().success {
        failures(outcomes.drop_last()).push((outcomes.len() - 1) as usize)
    } else {
        failures(outcomes.drop_last())
    }
}

/// Says which commands of a plan failed, so that the caller can log them.
/// A failure ends nothing: every command of a plan is run.
pub fn failed_steps(outcomes: &[CommandOutcome]) -> (failed: Vec<usize>)
    ensures
        failed@ == failures(outcomes@),
{
    let mut failed: Vec<usize> = Vec::new();
    let mut i: usize = 0;
    assert(outcomes@.take(0).len() == 0);
    while i < outcomes.len()
        invariant
            i <= outcomes.len(),
            failed@ == failures(outcomes@.take(i as int)),
        decreases outcomes.len() - i,
    {
        assert(outcomes@.take(i + 1).drop_last() =~= outcomes@.take(i as int));
        if !outcomes[i].success {
            failed.push(i);
        }
        i += 1;
    }
    assert(outcomes@.take(i as int) =~= outcomes@);
    failed
}

/// `name` with each single quote doubled, as a PowerShell string between
/// single quotes needs it.
pub open spec fn escape_quotes(name: Seq<char>) -> Seq<char>
    decreases name.len(),
{
    if name.len() == 0 {
        Seq::empty()
    } else if name.last() == '\'' {
        escape_quotes(name.drop_last()).push('\'').push('\'')
    } else {
        escape_quotes(name.drop_last()).push(name.last())
    }
}

/// The PowerShell expression that asks the network-configuration service for
/// the index of the adapter called `name`.
pub open spec fn index_query(name: Seq<char>) -> Seq<char> {
    "(Get-NetAdapter -Name '"@ + escape_quotes(name) + "' -ErrorAction Stop).IfIndex"@
}

/// Assigns a static address to the virtual interface.
pub open spec fn assign_address_spec(name: Seq<char>, address: Seq<char>, mask: Seq<char>) -> CommandView {
    CommandView {
        program: "netsh"@,
        args: seq![
            "interface"@,
            "ipv4"@,
            "set"@,
            "address"@,
            "name="@ + name,
            "source=static"@,
            "addr="@ + address,
            "mask="@ + mask,
            "gateway=none"@,
        ],
    }
}

/// Asks the network-configuration service for the index of an interface.
pub open spec fn query_index_spec(name: Seq<char>) -> CommandView {
    CommandView { program: "powershell"@, args: seq!["-NoProfile"@, "-Command"@, index_query(name)] }
}

/// Lists the interfaces with their indices.
pub open spec fn list_interfaces_spec() -> CommandView {
    CommandView { program: "netsh"@, args: seq!["interface"@, "ipv4"@, "show"@, "interfaces"@] }
}

/// Installs a default route through the interface with the given index, at metric 1.
pub open spec fn add_route_spec(index: u32) -> CommandView {
    CommandView {
        program: "route"@,
        args: seq![
            "add"@,
            "0.0.0.0"@,
            "mask"@,
            "0.0.0.0"@,
            "0.0.0.0"@,
            "metric"@,
            "1"@,
            "if"@,
            decimal_digits(index as nat),
        ],
    }
}

/// Deletes the default route through the interface with the given index.
pub open spec fn delete_route_spec(index: u32) -> CommandView {
    CommandView {
        program: "route"@,
        args: seq![
            "delete"@,
            "0.0.0.0"@,
            "mask"@,
            "0.0.0.0"@,
            "0.0.0.0"@,
            "if"@,
            decimal_digits(index as nat),
        ],
    }
}

/// Deletes every default route, whichever interface it goes through.
pub open spec fn delete_default_routes_spec() -> CommandView {
    CommandView { program: "route"@, args: seq!["delete"@, "0.0.0.0"@] }
}

/// Hands the address of the physical interface back to DHCP.
pub open spec fn dhcp_address_spec(physical: Seq<char>) -> CommandView {
    CommandView {
        program: "netsh"@,
        args: seq![
            "interface"@,
            "ipv4"@,
            "set"@,
            "address"@,
            "name="@ + physical,
            "source=dhcp"@,
        ],
    }
}

/// Hands the name servers of the physical interface back to DHCP.
pub open spec fn dhcp_dns_spec(physical: Seq<char>) -> CommandView {
    CommandView {
        program: "netsh"@,
        args: seq!["interface"@, "ipv4"@, "set"@, "dns"@, "name="@ + physical, "source=dhcp"@],
    }
}

/// Asks for new leases.
pub open spec fn renew_leases_spec() -> CommandView {
    CommandView { program: "ipconfig"@, args: seq!["/renew"@] }
}

fn owned(text: &str) -> (s: String)
    ensures
        s@ == text@,
{
    String::from_str(text)
}

fn joined(prefix: &str, rest: &str) -> (s: String)
    ensures
        s@ == prefix@ + rest@,
{
    String::from_str(prefix).concat(rest)
}

/// Doubles each single quote of `name`.
pub fn escape(name: &str) -> (escaped: String)
    ensures
        escaped@ == escape_quotes(name@),
{
    let chars = chars_of(name);
    let mut out: Vec<char> = Vec::new();
    let mut i: usize = 0;
    assert(chars@.take(0).len() == 0);
    while i < chars.len()
        invariant
            i <= chars.len(),
            out@ == escape_quotes(chars@.take(i as int)),
        decreases chars.len() - i,
    {
        assert(chars@.take(i + 1).drop_last() =~= chars@.take(i as int));
        let c = chars[i];
        if c == '\'' {
            out.push('\'');
            out.push('\'');
        } else {
            out.push(c);
        }
        i += 1;
    }
    assert(chars@.take(i as int) =~= chars@);
    string_of(out.as_slice())
}

impl Command {
    /// Assigns a static address to the virtual interface.
    pub fn assign_address(name: &str, address: &str, mask: &str) -> (command: Command)
        ensures
            command@ == assign_address_spec(name@, address@, mask@),
    {
        let mut args: Vec<String> = Vec::new();
        args.push(owned("interface"));
        args.push(owned("ipv4"));
        args.push(owned("set"));
        args.push(owned("address"));
        args.push(joined("name=", name));
        args.push(owned("source=static"));
        args.push(joined("addr=", address));
        args.push(joined("mask=", mask));
        args.push(owned("gateway=none"));
        let command = Command { program: owned("netsh"), args };
        assert(command@.args =~= assign_address_spec(name@, address@, mask@).args);
        command
    }

    /// Asks the network-configuration service for the index of an interface.
    pub fn query_index(name: &str) -> (command: Command)
        ensures
            command@ == query_index_spec(name@),
    {
        let escaped = escape(name);
        let query = joined("(Get-NetAdapter -Name '", escaped.as_str()).concat(
            "' -ErrorAction Stop).IfIndex",
        );
        let mut args: Vec<String> = Vec::new();
        args.push(owned("-NoProfile"));
        args.push(owned("-Command"));
        args.push(query);
        let command = Command { program: owned("powershell"), args };
        assert(command@.args =~= query_index_spec(name@).args);
        command
    }

    /// Lists the interfaces with their indices.
    pub fn list_interfaces() -> (command: Command)
        ensures
            command@ == list_interfaces_spec(),
    {
        let mut args: Vec<String> = Vec::new();
        args.push(owned("interface"));
        args.push(owned("ipv4"));
        args.push(owned("show"));
        args.push(owned("interfaces"));
        let command = Command { program: owned("netsh"), args };
        assert(command@.args =~= list_interfaces_spec().args);
        command
    }

    /// Installs a default route through the interface with the given index.
    pub fn add_route(index: u32) -> (command: Command)
        ensures
            command@ == add_route_spec(index),
    {
        let digits = decimal_of(index);
        let mut args: Vec<String> = Vec::new();
        args.push(owned("add"));
        args.push(owned("0.0.0.0"));
        args.push(owned("mask"));
        args.push(owned("0.0.0.0"));
        args.push(owned("0.0.0.0"));
        args.push(owned("metric"));
        args.push(owned("1"));
        args.push(owned("if"));
        args.push(string_of(digits.as_slice()));
        let command = Command { program: owned("route"), args };
        assert(command@.args =~= add_route_spec(index).args);
        command
    }

    /// Deletes the default route through the interface with the given index.
    pub fn delete_route(index: u32) -> (command: Command)
        ensures
            command@ == delete_route_spec(index),
    {
        let digits = decimal_of(index);
        let mut args: Vec<String> = Vec::new();
        args.push(owned("delete"));
        args.push(owned("0.0.0.0"));
        args.push(owned("mask"));
        args.push(owned("0.0.0.0"));
        args.push(owned("0.0.0.0"));
        args.push(owned("if"));
        args.push(string_of(digits.as_slice()));
        let command = Command { program: owned("route"), args };
        assert(command@.args =~= delete_route_spec(index).args);
        command
    }

    /// Deletes every default route, whichever interface it goes through.
    pub fn delete_default_routes() -> (command: Command)
        ensures
            command@ == delete_default_routes_spec(),
    {
        let mut args: Vec<String> = Vec::new();
        args.push(owned("delete"));
        args.push(owned("0.0.0.0"));
        let command = Command { program: owned("route"), args };
        assert(command@.args =~= delete_default_routes_spec().args);
        command
    }

    /// Hands the address of the physical interface back to DHCP.
    pub fn dhcp_address(physical: &str) -> (command: Command)
        ensures
            command@ == dhcp_address_spec(physical@),
    {
        let mut args: Vec<String> = Vec::new();
        args.push(owned("interface"));
        args.push(owned("ipv4"));
        args.push(owned("set"));
        args.push(owned("address"));
        args.push(joined("name=", physical));
        args.push(owned("source=dhcp"));
        let command = Command { program: owned("netsh"), args };
        assert(command@.args =~= dhcp_address_spec(physical@).args);
        command
    }

    /// Hands the name servers of the physical interface back to DHCP.
    pub fn dhcp_dns(physical: &str) -> (command: Command)
        ensures
            command@ == dhcp_dns_spec(physical@),
    {
        let mut args: Vec<String> = Vec::new();
        args.push(owned("interface"));
        args.push(owned("ipv4"));
        args.push(owned("set"));
        args.push(owned("dns"));
        args.push(joined("name=", physical));
        args.push(owned("source=dhcp"));
        let command = Command { program: owned("netsh"), args };
        assert(command@.args =~= dhcp_dns_spec(physical@).args);
        command
    }

    /// Asks for new leases.
    pub fn renew_leases() -> (command: Command)
        ensures
            command@ == renew_leases_spec(),
    {
        let mut args: Vec<String> = Vec::new();
        args.push(owned("/renew"));
        let command = Command { program: owned("ipconfig"), args };
        assert(command@.args =~= renew_leases_spec().args);
        command
    }
}

} // verus!
