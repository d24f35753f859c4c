use rust_wintun::command::{escape, failed_steps, Command, CommandOutcome};
use rust_wintun::guard::{
    index_from_listing, index_from_reply, reply_is_blank, NetworkGuard, ProvisionError,
    ProvisionState, ProvisionStep, Provisioner, ResolveError, RestorationFlag,
};
use rust_wintun::shutdown::{exit_code, fire, Exit, ShutdownCoordinator, Trigger};

fn guard_command(program: &str, args: &[&str]) -> Command {
    Command { program: program.to_string(), args: args.iter().map(|a| a.to_string()).collect() }
}

fn guard_ok(stdout: &str) -> CommandOutcome {
    CommandOutcome { success: true, stdout: stdout.to_string(), stderr: String::new() }
}

fn guard_failed(stderr: &str) -> CommandOutcome {
    CommandOutcome { success: false, stdout: String::new(), stderr: stderr.to_string() }
}

const GUARD_LISTING: &str = "\r\nIdx     Met         MTU          State                Name\r\n---  ----------  ----------  ------------  ---------------------------\r\n  1          75  4294967295  connected     Loopback Pseudo-Interface 1\r\n 12          25        1500  connected     Ethernet\r\n 34           5        1500  connected     RustTun\r\n\r\n";

fn guard_restore_plan(route: Command) -> Vec<Command> {
    vec![
        route,
        guard_command("netsh", &["interface", "ipv4", "set", "address", "name=Ethernet", "source=dhcp"]),
        guard_command("netsh", &["interface", "ipv4", "set", "dns", "name=Ethernet", "source=dhcp"]),
        guard_command("ipconfig", &["/renew"]),
    ]
}

#[test]
fn commands_are_spelled_out() {
    assert_eq!(
        Command::assign_address("RustTun", "10.0.0.1", "255.255.255.0"),
        guard_command(
            "netsh",
            &[
                "interface",
                "ipv4",
                "set",
                "address",
                "name=RustTun",
                "source=static",
                "addr=10.0.0.1",
                "mask=255.255.255.0",
                "gateway=none",
            ]
        )
    );
    assert_eq!(
        Command::query_index("RustTun"),
        guard_command(
            "powershell",
            &["-NoProfile", "-Command", "(Get-NetAdapter -Name 'RustTun' -ErrorAction Stop).IfIndex"]
        )
    );
    assert_eq!(
        Command::list_interfaces(),
        guard_command("netsh", &["interface", "ipv4", "show", "interfaces"])
    );
    assert_eq!(
        Command::add_route(34),
        guard_command(
            "route",
            &["add", "0.0.0.0", "mask", "0.0.0.0", "0.0.0.0", "metric", "1", "if", "34"]
        )
    );
    assert_eq!(
        Command::delete_route(4294967295),
        guard_command(
            "route",
            &["delete", "0.0.0.0", "mask", "0.0.0.0", "0.0.0.0", "if", "4294967295"]
        )
    );
    assert_eq!(Command::delete_default_routes(), guard_command("route", &["delete", "0.0.0.0"]));
    assert_eq!(Command::renew_leases(), guard_command("ipconfig", &["/renew"]));
}

#[test]
fn quotes_in_names_are_doubled() {
    assert_eq!(escape("RustTun"), "RustTun");
    assert_eq!(escape("it's"), "it''s");
    assert_eq!(escape("''"), "''''");
    assert_eq!(escape(""), "");
    assert_eq!(
        Command::query_index("a'b").args[2],
        "(Get-NetAdapter -Name 'a''b' -ErrorAction Stop).IfIndex"
    );
}

#[test]
fn reply_is_a_number_between_whitespace() {
    assert_eq!(index_from_reply("34"), Some(34));
    assert_eq!(index_from_reply("  34\r\n"), Some(34));
    assert_eq!(index_from_reply("+7"), Some(7));
    assert_eq!(index_from_reply("007"), Some(7));
    assert_eq!(index_from_reply("4294967295"), Some(u32::MAX));
    assert_eq!(index_from_reply("4294967296"), None);
    assert_eq!(index_from_reply("-1"), None);
    assert_eq!(index_from_reply("3 4"), None);
    assert_eq!(index_from_reply("12a"), None);
    assert_eq!(index_from_reply(""), None);
    assert_eq!(index_from_reply("+"), None);
    assert!(reply_is_blank(" \r\n\t"));
    assert!(reply_is_blank(""));
    assert!(!reply_is_blank(" x "));
}

#[test]
fn listing_gives_the_index_of_the_named_line() {
    assert_eq!(index_from_listing(GUARD_LISTING, "RustTun"), Some(34));
    assert_eq!(index_from_listing(GUARD_LISTING, "Ethernet"), Some(12));
    assert_eq!(index_from_listing(GUARD_LISTING, "Loopback"), Some(1));
    assert_eq!(index_from_listing(GUARD_LISTING, "Missing"), None);
    assert_eq!(index_from_listing(GUARD_LISTING, "Name"), None);
    assert_eq!(index_from_listing("", "RustTun"), None);
    assert_eq!(index_from_listing("RustTun 5\n 6 RustTun\n 7 RustTun", "RustTun"), Some(6));
    assert_eq!(index_from_listing("8 a\n9 b", ""), Some(8));
}

#[test]
fn provisioning_succeeds_on_the_primary_path() {
    let mut provisioner = Provisioner::new("RustTun", "10.0.0.1", "255.255.255.0");
    assert_eq!(provisioner.state(), ProvisionState::AssigningAddress);
    assert_eq!(
        provisioner.step(),
        ProvisionStep::Run(Command::assign_address("RustTun", "10.0.0.1", "255.255.255.0"))
    );
    assert_eq!(
        provisioner.advance(&guard_ok("Ok.\r\n")),
        ProvisionStep::Run(Command::query_index("RustTun"))
    );
    assert_eq!(provisioner.advance(&guard_ok("34\r\n")), ProvisionStep::Run(Command::add_route(34)));
    assert_eq!(provisioner.state(), ProvisionState::InstallingRoute { index: 34 });
    match provisioner.advance(&guard_ok(" OK!\r\n")) {
        ProvisionStep::Ready(handle) => assert_eq!(handle.index(), 34),
        other => panic!("not ready: {:?}", other),
    }
    assert_eq!(provisioner.state(), ProvisionState::Ready { index: 34 });
    assert!(matches!(provisioner.advance(&guard_failed("late")), ProvisionStep::Ready(_)));
}

#[test]
fn provisioning_falls_back_to_the_listing() {
    let mut provisioner = Provisioner::new("RustTun", "10.0.0.1", "255.255.255.0");
    provisioner.advance(&guard_ok(""));
    assert_eq!(
        provisioner.advance(&guard_failed("powershell: not found")),
        ProvisionStep::Run(Command::list_interfaces())
    );
    assert_eq!(provisioner.state(), ProvisionState::ReadingListing);
    assert_eq!(provisioner.advance(&guard_ok(GUARD_LISTING)), ProvisionStep::Run(Command::add_route(34)));
}

#[test]
fn empty_reply_leads_to_the_listing() {
    let mut provisioner = Provisioner::new("RustTun", "10.0.0.1", "255.255.255.0");
    provisioner.advance(&guard_ok(""));
    assert_eq!(provisioner.advance(&guard_ok(" \r\n")), ProvisionStep::Run(Command::list_interfaces()));
}

#[test]
fn each_failure_has_its_error() {
    let mut first = Provisioner::new("t", "a", "m");
    assert_eq!(
        first.advance(&guard_failed("denied")),
        ProvisionStep::Failed(ProvisionError::AddressAssignment)
    );
    assert_eq!(
        first.advance(&guard_ok("1")),
        ProvisionStep::Failed(ProvisionError::AddressAssignment)
    );

    let mut second = Provisioner::new("t", "a", "m");
    second.advance(&guard_ok(""));
    assert_eq!(
        second.advance(&guard_ok("twelve")),
        ProvisionStep::Failed(ProvisionError::IndexResolution(ResolveError::UnreadableReply))
    );

    let mut third = Provisioner::new("t", "a", "m");
    third.advance(&guard_ok(""));
    third.advance(&guard_failed(""));
    assert_eq!(
        third.advance(&guard_failed("")),
        ProvisionStep::Failed(ProvisionError::IndexResolution(ResolveError::ListingUnavailable))
    );

    let mut fourth = Provisioner::new("RustTun", "a", "m");
    fourth.advance(&guard_ok(""));
    fourth.advance(&guard_failed(""));
    assert_eq!(
        fourth.advance(&guard_ok("12 25 1500 connected Ethernet")),
        ProvisionStep::Failed(ProvisionError::IndexResolution(ResolveError::NotListed))
    );

    let mut fifth = Provisioner::new("t", "a", "m");
    fifth.advance(&guard_ok(""));
    fifth.advance(&guard_ok("5"));
    assert_eq!(
        fifth.advance(&guard_failed("no route")),
        ProvisionStep::Failed(ProvisionError::RouteInstallation)
    );
}

#[test]
fn restore_with_a_known_index_deletes_its_route() {
    let mut provisioner = Provisioner::new("RustTun", "10.0.0.1", "255.255.255.0");
    provisioner.advance(&guard_ok(""));
    provisioner.advance(&guard_ok("34"));
    let handle = match provisioner.advance(&guard_ok("")) {
        ProvisionStep::Ready(handle) => handle,
        other => panic!("not ready: {:?}", other),
    };
    let mut guard = NetworkGuard::new();
    guard.begin("Ethernet");
    guard.provisioned(handle);
    assert_eq!(guard.interface_index(), Some(34));
    assert!(!guard.is_restored());
    assert_eq!(guard.restore(), guard_restore_plan(Command::delete_route(34)));
    assert!(guard.is_restored());
    assert_eq!(guard.interface_index(), None);
}

#[test]
fn restore_runs_once_however_often_it_is_asked_for() {
    let mut guard = NetworkGuard::new();
    guard.begin("Ethernet");
    let mut handed_out = Vec::new();
    for _ in 0..5 {
        handed_out.extend(guard.restore());
    }
    assert_eq!(handed_out, guard_restore_plan(Command::delete_default_routes()));
    assert!(guard.is_restored());
}

#[test]
fn restore_without_an_index_deletes_every_default_route() {
    let mut guard = NetworkGuard::new();
    guard.begin("Ethernet");
    assert_eq!(guard.interface_index(), None);
    let plan = guard.restore();
    assert_eq!(plan, guard_restore_plan(guard_command("route", &["delete", "0.0.0.0"])));
    assert_eq!(plan.len(), 4);
}

#[test]
fn restore_of_an_untouched_host_does_nothing() {
    let mut guard = NetworkGuard::new();
    assert!(guard.restore().is_empty());
    assert!(guard.is_restored());
    guard.begin("Ethernet");
    assert!(guard.restore().is_empty());
}

#[test]
fn the_record_is_written_once() {
    let mut guard = NetworkGuard::new();
    guard.begin("Ethernet");
    guard.begin("Wi-Fi");
    let plan = guard.restore();
    assert_eq!(plan[1].args[4], "name=Ethernet");
    assert_eq!(plan[2].args[4], "name=Ethernet");
}

#[test]
fn handlers_are_installed_once() {
    let mut coordinator = ShutdownCoordinator::new();
    assert!(!coordinator.is_installed(Trigger::Interrupt));
    assert!(!coordinator.is_installed(Trigger::Fault));
    assert!(coordinator.register(Trigger::Fault));
    assert!(coordinator.is_installed(Trigger::Fault));
    assert!(!coordinator.is_installed(Trigger::Interrupt));
    assert!(!coordinator.register(Trigger::Fault));
    assert!(coordinator.register(Trigger::Interrupt));
    assert!(!coordinator.register(Trigger::Interrupt));
    assert!(!coordinator.register(Trigger::Fault));
}

#[test]
fn two_triggers_restore_the_host_once() {
    let mut guard = NetworkGuard::new();
    guard.begin("Ethernet");
    let first = fire(Trigger::Fault, &mut guard);
    let second = fire(Trigger::Interrupt, &mut guard);
    assert_eq!(first.commands, guard_restore_plan(Command::delete_default_routes()));
    assert_eq!(first.exit, Exit::Faulted);
    assert!(second.commands.is_empty());
    assert_eq!(second.exit, Exit::Graceful);
    assert_eq!(exit_code(second.exit), Some(0));
    assert_eq!(exit_code(first.exit), None);
}

#[test]
fn reply_is_the_trimmed_output_or_the_error_output() {
    assert_eq!(guard_ok("  34\r\n").reply(), Ok("34".to_string()));
    assert_eq!(guard_ok("").reply(), Ok(String::new()));
    assert_eq!(guard_ok(" a b ").reply(), Ok("a b".to_string()));
    assert_eq!(guard_failed("Access is denied.\r\n").reply(), Err("Access is denied.\r\n".to_string()));
    let mixed = CommandOutcome { success: false, stdout: "out".to_string(), stderr: String::new() };
    assert_eq!(mixed.reply(), Err(String::new()));
}

#[test]
fn failed_steps_are_named_in_order() {
    let outcomes = vec![guard_failed("a"), guard_ok(""), guard_failed("b"), guard_ok("x")];
    assert_eq!(failed_steps(&outcomes), vec![0, 2]);
    assert_eq!(failed_steps(&[]), Vec::<usize>::new());
    assert_eq!(failed_steps(&[guard_ok("")]), Vec::<usize>::new());
    assert_eq!(failed_steps(&[guard_failed("")]), vec![0]);
}

#[test]
fn flag_is_found_unset_once() {
    let mut flag = RestorationFlag::new();
    assert!(!flag.get());
    assert!(!flag.test_and_set());
    assert!(flag.get());
    assert!(flag.test_and_set());
    assert!(flag.test_and_set());
    assert!(flag.get());
}

#[test]
fn restored_host_is_left_alone() {
    let mut guard = NetworkGuard::new();
    guard.begin("Ethernet");
    let mut provisioner = Provisioner::new("RustTun", "10.0.0.1", "255.255.255.0");
    assert_eq!(
        guard.permit(provisioner.step()),
        ProvisionStep::Run(Command::assign_address("RustTun", "10.0.0.1", "255.255.255.0"))
    );
    guard.restore();
    assert_eq!(
        guard.permit(provisioner.advance(&guard_ok(""))),
        ProvisionStep::Failed(ProvisionError::HostRestored)
    );
    assert_eq!(
        guard.permit(ProvisionStep::Failed(ProvisionError::RouteInstallation)),
        ProvisionStep::Failed(ProvisionError::RouteInstallation)
    );
    provisioner.advance(&guard_ok("7"));
    match provisioner.advance(&guard_ok("")) {
        ProvisionStep::Ready(handle) => {
            assert!(matches!(guard.permit(ProvisionStep::Ready(handle)), ProvisionStep::Ready(_)));
            guard.provisioned(handle);
        }
        other => panic!("not ready: {:?}", other),
    }
    assert_eq!(guard.interface_index(), None);
    assert!(guard.restore().is_empty());
}
