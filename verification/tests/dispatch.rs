use sysadminlib::packages::{
    count_stages, descriptor, family_for, match_package_manager,
    match_packages_command, parse_output, process_command, Completed, Family, Invocation,
    Operation, ParseError, Step,
};
use sysadminlib::{Exit, OutputType, PackagesArgs, PackagesCommands};

fn strings(items: &[&str]) -> Vec<String> {
    items.iter().map(|s| s.to_string()).collect()
}

fn ended(code: i32, stdout: &str, stderr: &str) -> Completed {
    Completed {
        code: Some(code),
        stdout: stdout.as_bytes().to_vec(),
        stderr: stderr.as_bytes().to_vec(),
    }
}

fn request(command: PackagesCommands) -> PackagesArgs {
    PackagesArgs { command }
}

fn step(os: &str, command: PackagesCommands, output: OutputType, finished: &[Completed]) -> Step {
    match_packages_command(&os.to_string(), &request(command), output, &finished.to_vec())
}

fn run(program: &'static str, args: &[&str], fail_message: &'static str) -> Step {
    Step::Run(Invocation { program, args: strings(args), fail_message })
}

fn done(step: Step) -> Exit {
    match step {
        Step::Done(exit) => exit,
        Step::Run(invocation) => panic!("asked to run {invocation:?}"),
    }
}

#[test]
fn registry_knows_the_families() {
    assert_eq!(family_for("fedora"), Some(Family::Dnf));
    assert_eq!(family_for("ultramarine"), Some(Family::Dnf));
    assert_eq!(family_for("alpine"), Some(Family::Apk));
    assert_eq!(family_for("wolfi"), Some(Family::Apk));
    assert_eq!(family_for("debian"), Some(Family::Apt));
    assert_eq!(family_for("ubuntu"), Some(Family::Apt));
    assert_eq!(family_for("pop"), Some(Family::Apt));
    assert_eq!(family_for("opensuse-tumbleweed"), Some(Family::Zypper));
    assert_eq!(family_for("opensuse-leap"), Some(Family::Zypper));
}

#[test]
fn registry_knows_nothing_else() {
    for os in ["plan9", "none", "", "Fedora", "fedora ", "fedor", "fedoraa", "arch", "opensuse"] {
        assert_eq!(family_for(os), None, "{os:?}");
        assert!(match_package_manager(&os.to_string()).is_none(), "{os:?}");
    }
}

#[test]
fn registry_hands_out_the_descriptor_of_the_family() {
    let dnf = match_package_manager(&"fedora".to_string()).unwrap();
    assert_eq!(dnf.manager, "dnf");
    assert_eq!(dnf.family, Family::Dnf);
    assert_eq!(dnf.list.command, ["list"]);
    assert_eq!(dnf.list.installed, "--installed");
    assert_eq!(dnf.list.available, "--available");
    assert_eq!(dnf.list.extras, "--extras");
    assert_eq!(dnf.info.command, ["info"]);
    assert_eq!(dnf.search.command, ["search"]);
    assert_eq!(dnf.refresh_data.command, ["check-upgrade"]);
    assert_eq!(dnf.update.commands, [["upgrade"]]);
    assert_eq!(dnf.update.fake, "--downloadonly");
    assert_eq!(dnf.install.command, ["install"]);
    assert_eq!(dnf.uninstall.command, ["remove"]);
    let apk = match_package_manager(&"alpine".to_string()).unwrap();
    assert_eq!(apk.manager, "apk");
    assert_eq!(apk.family, Family::Apk);
    assert_eq!(apk.list.installed, "-I");
    assert_eq!(apk.list.available, "-a");
    assert_eq!(apk.refresh_data.command, ["update"]);
    assert_eq!(apk.update.commands, [["upgrade"]]);
    assert_eq!(apk.install.command, ["add"]);
    assert_eq!(apk.uninstall.command, ["del"]);
    let apt = match_package_manager(&"debian".to_string()).unwrap();
    assert_eq!(apt.manager, "apt");
    assert_eq!(apt.family, Family::Apt);
    assert_eq!(apt.info.command, ["show"]);
    assert_eq!(apt.update.commands, [["update"], ["upgrade"]]);
    let zypper = match_package_manager(&"opensuse-leap".to_string()).unwrap();
    assert_eq!(zypper.manager, "zypper");
    assert_eq!(zypper.family, Family::Zypper);
    assert_eq!(zypper.list.installed, "--installed-only");
    assert_eq!(zypper.list.available, "--not-installed-only");
    assert_eq!(zypper.refresh_data.command, ["refresh"]);
    assert_eq!(zypper.update.commands, [["refresh"], ["update"]]);
}

#[test]
fn unsupported_system_is_reported() {
    let exit = done(step("plan9", PackagesCommands::Refresh, OutputType::Json, &[]));
    assert_eq!(
        exit,
        Exit {
            exit_code: 1,
            real_command: "none",
            out: "Failed to change packages".to_string(),
            packages_response: None,
            error_message: Some("This operating system (plan9) is not supported".to_string()),
        }
    );
}

#[test]
fn unsupported_system_runs_nothing_whatever_has_run() {
    let finished = [ended(0, "Nothing to do.", ""), ended(3, "", "oops")];
    for output in [OutputType::Stdout, OutputType::Json, OutputType::Msgpack] {
        let exit = done(step("none", PackagesCommands::Update { fake: true }, output, &finished));
        assert_eq!(exit.exit_code, 1);
        assert_eq!(exit.packages_response, None);
        assert_eq!(
            exit.error_message,
            Some("This operating system (none) is not supported".to_string())
        );
    }
}

#[test]
fn list_switches_follow_the_order_of_declaration() {
    let command = PackagesCommands::List {
        installed: true,
        available: true,
        extras: true,
        packages: Some(strings(&["vim*", "bash; rm -rf /"])),
    };
    assert_eq!(
        step("fedora", command, OutputType::Stdout, &[]),
        run(
            "dnf",
            &["list", "--installed", "--available", "--extras", "vim*", "bash; rm -rf /"],
            "Failed to list packages"
        )
    );
    let command =
        PackagesCommands::List { installed: false, available: true, extras: false, packages: None };
    assert_eq!(
        step("fedora", command, OutputType::Stdout, &[]),
        run("dnf", &["list", "--available"], "Failed to list packages")
    );
    let command =
        PackagesCommands::List { installed: true, available: false, extras: true, packages: None };
    assert_eq!(
        step("alpine", command, OutputType::Stdout, &[]),
        run("apk", &["list", "-I", ""], "Failed to list packages")
    );
}

#[test]
fn single_commands_carry_their_terms() {
    assert_eq!(
        step(
            "fedora",
            PackagesCommands::Info { packages: Some(strings(&["bash"])) },
            OutputType::Json,
            &[]
        ),
        run("dnf", &["info", "bash"], "Failed to get info for package(s)")
    );
    assert_eq!(
        step(
            "debian",
            PackagesCommands::Info { packages: Some(strings(&["bash", "vim"])) },
            OutputType::Json,
            &[]
        ),
        run("apt", &["show", "bash", "vim"], "Failed to get info for package(s)")
    );
    assert_eq!(
        step(
            "fedora",
            PackagesCommands::Search { terms: Some(strings(&["two words"])) },
            OutputType::Json,
            &[]
        ),
        run("dnf", &["search", "two words"], "Failed to search for package(s)")
    );
    assert_eq!(
        step("fedora", PackagesCommands::Refresh, OutputType::Json, &[]),
        run("dnf", &["check-upgrade"], "Failed to refresh packages data")
    );
    assert_eq!(
        step("alpine", PackagesCommands::Install { packages: None }, OutputType::Json, &[]),
        run("apk", &["add"], "Failed to install package(s)")
    );
    assert_eq!(
        step(
            "wolfi",
            PackagesCommands::Uninstall { packages: Some(strings(&["vim"])) },
            OutputType::Json,
            &[]
        ),
        run("apk", &["del", "vim"], "Failed to uninstall package(s)")
    );
}

#[test]
fn single_command_ends_with_its_run() {
    let finished = [ended(0, "Installed packages\nfoo.x86_64 1.2.3 repoA\n", "")];
    let command =
        PackagesCommands::List { installed: true, available: false, extras: false, packages: None };
    let exit = done(step("fedora", command, OutputType::Json, &finished));
    assert_eq!(exit.exit_code, 0);
    assert_eq!(exit.real_command, "dnf");
    assert_eq!(exit.out, "Installed packages\nfoo.x86_64 1.2.3 repoA\n");
    assert_eq!(exit.error_message, None);
    let res = exit.packages_response.unwrap();
    assert_eq!(res.subcommand, "list");
    assert_eq!(res.packages.len(), 1);
    assert_eq!(res.packages[0].name, "foo");
    assert_eq!(res.packages_length, Some(1));
}

#[test]
fn update_runs_its_stages_in_order() {
    let update = || PackagesCommands::Update { fake: false };
    assert_eq!(
        step("debian", update(), OutputType::Stdout, &[]),
        run("apt", &["update"], "Failed to update packages")
    );
    assert_eq!(
        step("debian", update(), OutputType::Stdout, &[ended(0, "read", "")]),
        run("apt", &["upgrade"], "Failed to update packages")
    );
    let exit = done(step(
        "debian",
        update(),
        OutputType::Stdout,
        &[ended(0, "read", ""), ended(0, "upgraded", "")],
    ));
    assert_eq!(
        exit,
        Exit {
            exit_code: 0,
            real_command: "apt",
            out: "upgraded".to_string(),
            packages_response: None,
            error_message: None,
        }
    );
}

#[test]
fn update_stops_at_the_first_failure() {
    let update = || PackagesCommands::Update { fake: false };
    let failure = Exit {
        exit_code: 100,
        real_command: "apt",
        out: "Failed to update packages".to_string(),
        packages_response: None,
        error_message: Some("no network".to_string()),
    };
    for output in [OutputType::Stdout, OutputType::Json, OutputType::Msgpack] {
        let exit = done(step("debian", update(), output, &[ended(100, "partial", "no network")]));
        assert_eq!(exit, failure);
        let exit = done(step(
            "debian",
            update(),
            output,
            &[ended(100, "partial", "no network"), ended(0, "upgraded", "")],
        ));
        assert_eq!(exit, failure);
    }
    let exit = done(step(
        "debian",
        update(),
        OutputType::Stdout,
        &[ended(0, "read", ""), ended(2, "", "held back")],
    ));
    assert_eq!(exit.exit_code, 2);
    assert_eq!(exit.error_message, Some("held back".to_string()));
}

#[test]
fn update_dry_run_switch_goes_to_the_last_stage() {
    let update = || PackagesCommands::Update { fake: true };
    assert_eq!(
        step("fedora", update(), OutputType::Stdout, &[]),
        run("dnf", &["upgrade", "--downloadonly"], "Failed to update packages")
    );
    assert_eq!(
        step("debian", update(), OutputType::Stdout, &[]),
        run("apt", &["update"], "Failed to update packages")
    );
    assert_eq!(
        step("debian", update(), OutputType::Stdout, &[ended(0, "", "")]),
        run("apt", &["upgrade", ""], "Failed to update packages")
    );
    assert_eq!(
        step("opensuse-leap", update(), OutputType::Stdout, &[ended(0, "", "")]),
        run("zypper", &["update", ""], "Failed to update packages")
    );
}

#[test]
fn update_of_dnf_gives_the_parsed_response() {
    let text = "Removing:\n bar x86_64 1.0.0 repoA 10 MiB\nUpgrading:\n bar x86_64 2.0.0 repoB 12 MiB\n   replacing bar x86_64 1.0.0 @System 10 MiB\n";
    let exit = done(step(
        "fedora",
        PackagesCommands::Update { fake: false },
        OutputType::Msgpack,
        &[ended(0, text, "")],
    ));
    assert_eq!(exit.exit_code, 0);
    assert_eq!(exit.out, text);
    let res = exit.packages_response.unwrap();
    assert_eq!(res.packages[0].old_version, Some("1.0.0".to_string()));
    assert_eq!(res.packages_size, Some("12.00 MiB".to_string()));
    assert_eq!(res.uninstalled_packages_size, Some("20.00 MiB".to_string()));
}

#[test]
fn stages_are_counted() {
    let update = PackagesCommands::Update { fake: false };
    assert_eq!(count_stages(&descriptor(Family::Dnf), &update), 1);
    assert_eq!(count_stages(&descriptor(Family::Apk), &update), 1);
    assert_eq!(count_stages(&descriptor(Family::Apt), &update), 2);
    assert_eq!(count_stages(&descriptor(Family::Zypper), &update), 2);
    assert_eq!(count_stages(&descriptor(Family::Apt), &PackagesCommands::Refresh), 1);
    let list = PackagesCommands::List {
        installed: false,
        available: false,
        extras: false,
        packages: None,
    };
    assert_eq!(count_stages(&descriptor(Family::Dnf), &list), 1);
}

#[test]
fn run_without_exit_code_counts_as_failure() {
    let killed = Completed { code: None, stdout: vec![], stderr: b"killed".to_vec() };
    let exit = done(step("fedora", PackagesCommands::Refresh, OutputType::Stdout, &[killed]));
    assert_eq!(
        exit,
        Exit {
            exit_code: 1,
            real_command: "dnf",
            out: "Failed to refresh packages data".to_string(),
            packages_response: None,
            error_message: Some("killed".to_string()),
        }
    );
}

#[test]
fn failure_gives_the_error_output() {
    let dnf = descriptor(Family::Dnf);
    let exit = process_command(
        &dnf,
        Operation::Install,
        OutputType::Json,
        &ended(1, "Installing:\n\n", "No match for argument: nothing"),
    );
    assert_eq!(
        exit,
        Exit {
            exit_code: 1,
            real_command: "dnf",
            out: "Failed to install package(s)".to_string(),
            packages_response: None,
            error_message: Some("No match for argument: nothing".to_string()),
        }
    );
    let exit = process_command(
        &dnf,
        Operation::Install,
        OutputType::Json,
        &Completed { code: Some(-7), stdout: vec![], stderr: vec![0xff, 0xfe] },
    );
    assert_eq!(exit.exit_code, -7);
    assert_eq!(exit.error_message, Some(String::new()));
}

#[test]
fn output_that_is_not_text_is_reported_as_success() {
    let dnf = descriptor(Family::Dnf);
    let run = Completed { code: Some(0), stdout: vec![b'o', b'k', 0xff], stderr: vec![] };
    for output in [OutputType::Stdout, OutputType::Json, OutputType::Msgpack] {
        let exit = process_command(&dnf, Operation::List, output, &run);
        assert_eq!(
            exit,
            Exit {
                exit_code: 0,
                real_command: "dnf",
                out: "No readable output".to_string(),
                packages_response: None,
                error_message: Some(
                    "Operation was successful, but the output could not be read from the native package manager"
                        .to_string()
                ),
            }
        );
    }
}

#[test]
fn raw_output_is_not_parsed() {
    let exit = process_command(
        &descriptor(Family::Dnf),
        Operation::Update,
        OutputType::Stdout,
        &ended(0, "not what the parser expects", ""),
    );
    assert_eq!(
        exit,
        Exit {
            exit_code: 0,
            real_command: "dnf",
            out: "not what the parser expects".to_string(),
            packages_response: None,
            error_message: None,
        }
    );
    let exit = process_command(
        &descriptor(Family::Apt),
        Operation::Update,
        OutputType::Stdout,
        &ended(0, "anything", ""),
    );
    assert_eq!(exit.exit_code, 0);
    assert_eq!(exit.out, "anything");
}

#[test]
fn output_that_cannot_be_parsed_fails_the_operation() {
    let exit = process_command(
        &descriptor(Family::Dnf),
        Operation::Update,
        OutputType::Json,
        &ended(0, "not what the parser expects", ""),
    );
    assert_eq!(
        exit,
        Exit {
            exit_code: 1,
            real_command: "dnf",
            out: "Failed to update packages".to_string(),
            packages_response: None,
            error_message: Some(
                "The output of dnf could not be parsed: an expected header line is missing"
                    .to_string()
            ),
        }
    );
}

#[test]
fn manager_without_parser_is_reported() {
    let exit = process_command(
        &descriptor(Family::Apt),
        Operation::Search,
        OutputType::Json,
        &ended(0, "vim - editor", ""),
    );
    assert_eq!(
        exit,
        Exit {
            exit_code: 1,
            real_command: "apt",
            out: "Failed to search for package(s)".to_string(),
            packages_response: None,
            error_message: Some("\"search\" is not implemented for apt".to_string()),
        }
    );
    for operation in [
        Operation::List,
        Operation::Info,
        Operation::Search,
        Operation::Refresh,
        Operation::Update,
        Operation::Install,
        Operation::Uninstall,
    ] {
        assert_eq!(parse_output(Family::Apt, operation, "text"), Err(ParseError::NotImplemented));
        assert_eq!(parse_output(Family::Zypper, operation, "text"), Err(ParseError::NotImplemented));
    }
}

#[test]
fn apk_states_nothing_yet() {
    let names = ["list", "info", "search", "refresh", "update", "install", "uninstall"];
    let operations = [
        Operation::List,
        Operation::Info,
        Operation::Search,
        Operation::Refresh,
        Operation::Update,
        Operation::Install,
        Operation::Uninstall,
    ];
    for (name, operation) in names.into_iter().zip(operations) {
        let res = parse_output(Family::Apk, operation, "musl-1.2.5-r0 x86_64 {musl}").unwrap();
        assert_eq!(res.subcommand, name);
        assert_eq!(res.messages, Vec::<String>::new());
        assert_eq!(res.packages, vec![]);
        assert_eq!(res.uninstalled_packages, vec![]);
        assert_eq!(res.packages_length, None);
    }
}

#[test]
fn every_parse_error_has_its_words() {
    let all = [
        ParseError::MissingHeader,
        ParseError::UnexpectedEnd,
        ParseError::MissingField,
        ParseError::BadSize,
        ParseError::SizeTooLarge,
        ParseError::DanglingReplace,
        ParseError::NotImplemented,
        ParseError::BadPattern,
    ];
    for (i, a) in all.iter().enumerate() {
        assert!(!a.describe().is_empty());
        for b in &all[i + 1..] {
            assert_ne!(a.describe(), b.describe());
        }
    }
}
