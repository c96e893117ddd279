//! The dispatcher: what to run for a request, and what the result is.
//!
//! The library starts no program. `match_packages_command` is asked again
//! after every run, with the runs that have ended so far, and answers with
//! the next command line or with the result.

use super::registry::{
    descriptor_of, family_of, fail_text, lemma_parsed_wf, match_package_manager, operation_name,
    parse_output, parsed,
};
use super::{strs, stage_views, ManagerView, Operation, PackageManager, ParseError};
use crate::text::{decode, decoded, texts};
use crate::{Exit, ExitView, OutputType, PackagesArgs, PackagesCommands};
use vstd::prelude::*;
use vstd::string::StringExecFns;

verus! {

/// One run of a manager that has ended: its exit code, if it ended with one,
/// and what it wrote to its standard output and to its standard error.
#[derive(Clone, Debug, PartialEq, Eq)]
pub struct Completed {
    pub code: Option<i32>,
    pub stdout: Vec<u8>,
    pub stderr: Vec<u8>,
}

/// A command line to run, and what to say where it cannot be started.
#[derive(Clone, Debug, PartialEq, Eq)]
pub struct Invocation {
    pub program: &'static str,
    pub args: Vec<String>,
    pub fail_message: &'static str,
}

/// The mathematical value of an `Invocation`.
pub struct InvocationView {
    pub program: Seq<char>,
    pub args: Seq<Seq<char>>,
    pub fail_message: Seq<char>,
}

impl View for Invocation {
    type V = InvocationView;

    open spec fn view(&self) -> InvocationView {
        InvocationView {
            program: self.program@,
            args: texts(self.args@),
            fail_message: self.fail_message@,
        }
    }
}

/// What is to be done next for a request.
#[derive(Clone, Debug, PartialEq, Eq)]
pub enum Step {
    /// Run this command line and come back with how it ended.
    Run(Invocation),
    /// Nothing is left to run: this is the result.
    Done(Exit),
}

/// The mathematical value of a `Step`.
pub enum StepView {
    Run(InvocationView),
    Done(ExitView),
}

impl View for Step {
    type V = StepView;

    open spec fn view(&self) -> StepView {
        match self {
            Step::Run(invocation) => StepView::Run(invocation@),
            Step::Done(exit) => StepView::Done(exit@),
        }
    }
}

/// The exit code of a run: 1 where it ended without one.
pub open spec fn code_of(run: Completed) -> int {
    match run.code {
        Some(code) => code as int,
        None => 1,
    }
}

/// The text of the error output of a run: nothing where it is not UTF-8.
pub open spec fn error_output(run: Completed) -> Seq<char> {
    match decoded(run.stderr@) {
        Some(text) => text,
        None => Seq::empty(),
    }
}

/// What is said of output that could not be parsed.
pub open spec fn parse_failure_text(e: ParseError, operation: Operation, manager: Seq<char>) -> Seq<
    char,
> {
    if e == ParseError::NotImplemented {
        "\""@ + operation_name(operation) + "\" is not implemented for "@ + manager
    } else {
        "The output of "@ + manager + " could not be parsed: "@ + e.reason()
    }
}

/// The result of an operation whose last run was `run`.
///
/// A run that did not end with code 0 fails the operation with that code,
/// and its error output is the detail. A run that succeeded gives its output
/// as the text for the reader; where that is not UTF-8, the result says so
/// and stays a success. Where a response was asked for, the output is
/// parsed: a parse failure fails the operation with code 1.
pub open spec fn exit_of(
    m: ManagerView,
    operation: Operation,
    output_type: OutputType,
    run: Completed,
) -> ExitView {
    if code_of(run) != 0 {
        ExitView {
            exit_code: code_of(run),
            real_command: m.manager,
            out: fail_text(operation),
            packages_response: None,
            error_message: Some(error_output(run)),
        }
    } else {
        match decoded(run.stdout@) {
            None => ExitView {
                exit_code: 0,
                real_command: m.manager,
                out: "No readable output"@,
                packages_response: None,
                error_message: Some(
                    "Operation was successful, but the output could not be read from the native package manager"@,
                ),
            },
            Some(text) => {
                if output_type == OutputType::Stdout {
                    ExitView {
                        exit_code: 0,
                        real_command: m.manager,
                        out: text,
                        packages_response: None,
                        error_message: None,
                    }
                } else {
                    match parsed(m.family, operation, text) {
                        Ok(res) => ExitView {
                            exit_code: 0,
                            real_command: m.manager,
                            out: text,
                            packages_response: Some(res),
                            error_message: None,
                        },
                        Err(e) => ExitView {
                            exit_code: 1,
                            real_command: m.manager,
                            out: fail_text(operation),
                            packages_response: None,
                            error_message: Some(parse_failure_text(e, operation, m.manager)),
                        },
                    }
                }
            },
        }
    }
}

/// The result for an operating system that has no descriptor.
pub open spec fn unsupported_exit(os: Seq<char>) -> ExitView {
    ExitView {
        exit_code: 1,
        real_command: "none"@,
        out: "Failed to change packages"@,
        packages_response: None,
        error_message: Some("This operating system ("@ + os + ") is not supported"@),
    }
}

/// The result of an operation for which the manager declares no command.
pub open spec fn undeclared_exit(m: ManagerView, operation: Operation) -> ExitView {
    ExitView {
        exit_code: 1,
        real_command: "none"@,
        out: fail_text(operation),
        packages_response: None,
        error_message: Some(
            "\""@ + operation_name(operation) + "\" is not implemented for "@ + m.manager,
        ),
    }
}

/// The operation that a command asks for.
pub open spec fn operation_of(command: PackagesCommands) -> Operation {
    match command {
        PackagesCommands::List { .. } => Operation::List,
        PackagesCommands::Info { .. } => Operation::Info,
        PackagesCommands::Search { .. } => Operation::Search,
        PackagesCommands::Refresh => Operation::Refresh,
        PackagesCommands::Update { .. } => Operation::Update,
        PackagesCommands::Install { .. } => Operation::Install,
        PackagesCommands::Uninstall { .. } => Operation::Uninstall,
    }
}

/// The terms of a request: none where none were given.
pub open spec fn terms_of(terms: Option<Vec<String>>) -> Seq<Seq<char>> {
    match terms {
        Some(list) => texts(list@),
        None => Seq::empty(),
    }
}

/// The switch of a flag, where the flag is set.
pub open spec fn switch(on: bool, name: Seq<char>) -> Seq<Seq<char>> {
    if on {
        seq![name]
    } else {
        Seq::empty()
    }
}

/// The number of runs that a command takes: the number of stages of an
/// upgrade, and one for every other operation.
pub open spec fn stage_count(m: ManagerView, command: PackagesCommands) -> nat {
    match command {
        PackagesCommands::Update { .. } => m.update.len(),
        _ => 1,
    }
}

/// The arguments of the run of index `stage` of a command: the command of
/// the operation, the switches of the flags that are set, in the order in
/// which the flags are declared, and the terms as they were given. The
/// switch for a dry run goes to the last stage of an upgrade only.
pub open spec fn stage_args(m: ManagerView, command: PackagesCommands, stage: int) -> Seq<
    Seq<char>,
> {
    match command {
        PackagesCommands::List { installed, available, extras, packages } => m.list + switch(
            installed,
            m.list_installed,
        ) + switch(available, m.list_available) + switch(extras, m.list_extras) + terms_of(
            packages,
        ),
        PackagesCommands::Info { packages } => m.info + terms_of(packages),
        PackagesCommands::Search { terms } => m.search + terms_of(terms),
        PackagesCommands::Refresh => m.refresh,
        PackagesCommands::Update { fake } => m.update[stage] + switch(
            fake && stage == m.update.len() - 1,
            m.update_fake,
        ),
        PackagesCommands::Install { packages } => m.install + terms_of(packages),
        PackagesCommands::Uninstall { packages } => m.uninstall + terms_of(packages),
    }
}

/// The index of the first run from `from` on, and before `upto`, that did
/// not end with code 0; `upto` where there is none.
pub open spec fn first_failure(finished: Seq<Completed>, from: int, upto: int) -> int
    decreases upto - from,
{
    if from >= upto {
        upto
    } else if code_of(finished[from]) != 0 {
        from
    } else {
        first_failure(finished, from + 1, upto)
    }
}

/// The number of the runs in `finished` that belong to the `count` stages of
/// a command.
pub open spec fn runs_counted(finished: Seq<Completed>, count: nat) -> int {
    if finished.len() < count {
        finished.len() as int
    } else {
        count as int
    }
}

/// What is to be done for a request on the system `os`, after the runs in
/// `finished` have ended, in this order.
///
/// A system without a descriptor gives its result at once. Else the stages
/// of the command are run in order. The first run that fails ends the
/// request, and what it left is the result: no later stage is run. When the
/// last stage has succeeded, what it left is the result.
pub open spec fn next_step(
    os: Seq<char>,
    command: PackagesCommands,
    output_type: OutputType,
    finished: Seq<Completed>,
) -> StepView {
    match family_of(os) {
        None => StepView::Done(unsupported_exit(os)),
        Some(family) => {
            let m = descriptor_of(family);
            let operation = operation_of(command);
            let count = stage_count(m, command);
            let ran = runs_counted(finished, count);
            let failed = first_failure(finished, 0, ran);
            if failed < ran {
                StepView::Done(exit_of(m, operation, output_type, finished[failed]))
            } else if ran < count {
                StepView::Run(
                    InvocationView {
                        program: m.manager,
                        args: stage_args(m, command, ran),
                        fail_message: fail_text(operation),
                    },
                )
            } else if count == 0 {
                StepView::Done(undeclared_exit(m, operation))
            } else {
                StepView::Done(exit_of(m, operation, output_type, finished[count - 1]))
            }
        },
    }
}

/// What is said to the reader where an operation fails.
pub fn fail_message(operation: Operation) -> (text: &'static str)
    ensures
        text@ == fail_text(operation),
{
    match operation {
        Operation::List => "Failed to list packages",
        Operation::Info => "Failed to get info for package(s)",
        Operation::Search => "Failed to search for package(s)",
        Operation::Refresh => "Failed to refresh packages data",
        Operation::Update => "Failed to update packages",
        Operation::Install => "Failed to install package(s)",
        Operation::Uninstall => "Failed to uninstall package(s)",
    }
}

/// The name of an operation.
pub fn name_of(operation: Operation) -> (text: &'static str)
    ensures
        text@ == operation_name(operation),
{
    match operation {
        Operation::List => "list",
        Operation::Info => "info",
        Operation::Search => "search",
        Operation::Refresh => "refresh",
        Operation::Update => "update",
        Operation::Install => "install",
        Operation::Uninstall => "uninstall",
    }
}

/// The operation that a command asks for.
pub fn operation(command: &PackagesCommands) -> (op: Operation)
    ensures
        op == operation_of(*command),
{
    match command {
        PackagesCommands::List { .. } => Operation::List,
        PackagesCommands::Info { .. } => Operation::Info,
        PackagesCommands::Search { .. } => Operation::Search,
        PackagesCommands::Refresh => Operation::Refresh,
        PackagesCommands::Update { .. } => Operation::Update,
        PackagesCommands::Install { .. } => Operation::Install,
        PackagesCommands::Uninstall { .. } => Operation::Uninstall,
    }
}

/// Four texts, one after the other.
fn joined(a: &str, b: &str, c: &str, d: &str) -> (s: String)
    ensures
        s@ == a@ + b@ + c@ + d@,
{
    let mut s = a.to_owned();
    s.append(b);
    s.append(c);
    s.append(d);
    s
}

/// What is said of output that could not be parsed.
fn parse_failure_message(e: ParseError, operation: Operation, manager: &str) -> (s: String)
    ensures
        s@ == parse_failure_text(e, operation, manager@),
{
    match e {
        ParseError::NotImplemented => joined(
            "\"",
            name_of(operation),
            "\" is not implemented for ",
            manager,
        ),
        _ => joined("The output of ", manager, " could not be parsed: ", e.describe()),
    }
}

/// Assembles the result of an operation from its last run.
pub fn process_command(
    manager: &PackageManager,
    operation: Operation,
    output_type: OutputType,
    run: &Completed,
) -> (exit: Exit)
    ensures
        exit@ == exit_of(manager@, operation, output_type, *run),
        exit@.packages_response matches Some(res) ==> res.wf(),
{
    proof {
        lemma_exit_response_wf(manager@, operation, output_type, *run);
    }
    let code: i32 = match run.code {
        Some(code) => code,
        None => 1,
    };
    if code != 0 {
        let detail = match decode(&run.stderr) {
            Some(text) => text,
            None => String::new(),
        };
        return Exit {
            exit_code: code,
            real_command: manager.manager,
            out: fail_message(operation).to_owned(),
            packages_response: None,
            error_message: Some(detail),
        };
    }
    let output = match decode(&run.stdout) {
        Some(text) => text,
        None => {
            return Exit {
                exit_code: code,
                real_command: manager.manager,
                out: "No readable output".to_owned(),
                packages_response: None,
                error_message: Some(
                    "Operation was successful, but the output could not be read from the native package manager".to_owned(),
                ),
            };
        },
    };
    if output_type == OutputType::Stdout {
        return Exit {
            exit_code: code,
            real_command: manager.manager,
            out: output,
            packages_response: None,
            error_message: None,
        };
    }
    match parse_output(manager.family, operation, output.as_str()) {
        Ok(res) => Exit {
            exit_code: code,
            real_command: manager.manager,
            out: output,
            packages_response: Some(res),
            error_message: None,
        },
        Err(e) => Exit {
            exit_code: 1,
            real_command: manager.manager,
            out: fail_message(operation).to_owned(),
            packages_response: None,
            error_message: Some(parse_failure_message(e, operation, manager.manager)),
        },
    }
}

/// Appends the words of a command.
fn push_words(args: &mut Vec<String>, words: &[&'static str])
    ensures
        texts(final(args)@) == texts(old(args)@) + strs(words@),
{
    let mut i: usize = 0;
    assert(texts(args@) =~= texts(old(args)@) + strs(words@.take(0)));
    while i < words.len()
        invariant
            i <= words.len(),
            texts(args@) == texts(old(args)@) + strs(words@.take(i as int)),
        decreases words.len() - i,
    {
        let ghost before = args@;
        args.push(words[i].to_owned());
        assert(texts(args@) =~= texts(before).push(words@[i as int]@));
        assert(strs(words@.take(i + 1)) =~= strs(words@.take(i as int)).push(words@[i as int]@));
        assert(texts(args@) =~= texts(old(args)@) + strs(words@.take(i + 1)));
        i = i + 1;
    }
    assert(words@.take(i as int) =~= words@);
}

/// Appends the switch of a flag, where the flag is set.
fn push_switch(args: &mut Vec<String>, on: bool, name: &'static str)
    ensures
        texts(final(args)@) == texts(old(args)@) + switch(on, name@),
{
    if on {
        args.push(name.to_owned());
        assert(texts(args@) =~= texts(old(args)@) + seq![name@]);
    } else {
        assert(texts(args@) =~= texts(old(args)@) + Seq::<Seq<char>>::empty());
    }
}

/// Appends the terms of a request.
fn push_terms(args: &mut Vec<String>, terms: &Option<Vec<String>>)
    ensures
        texts(final(args)@) == texts(old(args)@) + terms_of(*terms),
{
    match terms {
        None => {
            assert(texts(args@) =~= texts(old(args)@) + Seq::<Seq<char>>::empty());
        },
        Some(list) => {
            let mut i: usize = 0;
            assert(texts(args@) =~= texts(old(args)@) + texts(list@.take(0)));
            while i < list.len()
                invariant
                    i <= list.len(),
                    texts(args@) == texts(old(args)@) + texts(list@.take(i as int)),
                decreases list.len() - i,
            {
                let ghost before = args@;
                args.push(list[i].clone());
                assert(texts(args@) =~= texts(before).push(list@[i as int]@));
                assert(texts(list@.take(i + 1)) =~= texts(list@.take(i as int)).push(
                    list@[i as int]@,
                ));
                assert(texts(args@) =~= texts(old(args)@) + texts(list@.take(i + 1)));
                i = i + 1;
            }
            assert(list@.take(i as int) =~= list@);
        },
    }
}

/// Builds the arguments of one run of a command.
fn build_args(m: &PackageManager, command: &PackagesCommands, stage: usize) -> (args: Vec<
    String,
>)
    requires
        stage < stage_count(m@, *command),
    ensures
        texts(args@) == stage_args(m@, *command, stage as int),
{
    let mut args: Vec<String> = Vec::new();
    assert(texts(args@) =~= Seq::<Seq<char>>::empty());
    match command {
        PackagesCommands::List { installed, available, extras, packages } => {
            push_words(&mut args, m.list.command);
            push_switch(&mut args, *installed, m.list.installed);
            push_switch(&mut args, *available, m.list.available);
            push_switch(&mut args, *extras, m.list.extras);
            push_terms(&mut args, packages);
        },
        PackagesCommands::Info { packages } => {
            push_words(&mut args, m.info.command);
            push_terms(&mut args, packages);
        },
        PackagesCommands::Search { terms } => {
            push_words(&mut args, m.search.command);
            push_terms(&mut args, terms);
        },
        PackagesCommands::Refresh => {
            push_words(&mut args, m.refresh_data.command);
        },
        PackagesCommands::Update { fake } => {
            assert(stage_views(m.update.commands@)[stage as int] == strs(
                m.update.commands@[stage as int]@,
            ));
            push_words(&mut args, m.update.commands[stage]);
            push_switch(&mut args, *fake && stage == m.update.commands.len() - 1, m.update.fake);
        },
        PackagesCommands::Install { packages } => {
            push_words(&mut args, m.install.command);
            push_terms(&mut args, packages);
        },
        PackagesCommands::Uninstall { packages } => {
            push_words(&mut args, m.uninstall.command);
            push_terms(&mut args, packages);
        },
    }
    assert(texts(args@) =~= stage_args(m@, *command, stage as int));
    args
}

/// The number of runs that a command takes.
pub fn count_stages(m: &PackageManager, command: &PackagesCommands) -> (count: usize)
    ensures
        count == stage_count(m@, *command),
{
    match command {
        PackagesCommands::Update { .. } => m.update.commands.len(),
        _ => 1,
    }
}

/// Says what is to be done next for a request: the command line to run, or
/// the result. `finished` holds the runs for this request that have ended,
/// in the order in which they were asked for; it is empty at first.
pub fn match_packages_command(
    os_id: &String,
    packagescli: &PackagesArgs,
    output_type: OutputType,
    finished: &Vec<Completed>,
) -> (step: Step)
    ensures
        step@ == next_step(os_id@, packagescli.command, output_type, finished@),
        step@ matches StepView::Done(exit) ==> (exit.packages_response matches Some(res)
            ==> res.wf()),
{
    let manager = match match_package_manager(os_id) {
        Some(manager) => manager,
        None => {
            proof {
                reveal_strlit("");
                let said = "This operating system ("@ + os_id@ + ") is not supported"@;
                assert(said + ""@ =~= said);
            }
            return Step::Done(
                Exit {
                    exit_code: 1,
                    real_command: "none",
                    out: "Failed to change packages".to_owned(),
                    packages_response: None,
                    error_message: Some(
                        joined("This operating system (", os_id.as_str(), ") is not supported", ""),
                    ),
                },
            );
        },
    };
    let command = &packagescli.command;
    let op = operation(command);
    let count = count_stages(&manager, command);
    let ran: usize = if finished.len() < count {
        finished.len()
    } else {
        count
    };
    let mut at: usize = 0;
    while at < ran
        invariant
            at <= ran <= finished.len(),
            family_of(os_id@) == Some(manager.family),
            manager@ == descriptor_of(manager.family),
            op == operation_of(packagescli.command),
            count == stage_count(manager@, packagescli.command),
            ran == runs_counted(finished@, count as nat),
            first_failure(finished@, at as int, ran as int) == first_failure(
                finished@,
                0,
                ran as int,
            ),
        decreases ran - at,
    {
        let failed = match finished[at].code {
            Some(code) => code != 0,
            None => true,
        };
        if failed {
            return Step::Done(process_command(&manager, op, output_type, &finished[at]));
        }
        at = at + 1;
    }
    if ran < count {
        Step::Run(
            Invocation {
                program: manager.manager,
                args: build_args(&manager, command, ran),
                fail_message: fail_message(op),
            },
        )
    } else if count == 0 {
        Step::Done(
            Exit {
                exit_code: 1,
                real_command: "none",
                out: fail_message(op).to_owned(),
                packages_response: None,
                error_message: Some(
                    joined("\"", name_of(op), "\" is not implemented for ", manager.manager),
                ),
            },
        )
    } else {
        Step::Done(process_command(&manager, op, output_type, &finished[count - 1]))
    }
}

/// A system that is not registered is never given a command to run, and no
/// parser reads anything for it: whatever has run, the result is the report
/// that the system is not supported, with code 1 and without a response.
pub proof fn lemma_unsupported_runs_nothing(
    os: Seq<char>,
    command: PackagesCommands,
    output_type: OutputType,
    finished: Seq<Completed>,
)
    requires
        family_of(os) is None,
    ensures
        next_step(os, command, output_type, finished) == StepView::Done(unsupported_exit(os)),
        unsupported_exit(os).exit_code == 1,
        unsupported_exit(os).packages_response is None,
{
}

/// Where the runs before `failed` succeeded and that one did not, it is the
/// first failure among the first `upto` runs.
pub proof fn lemma_first_failure_found(
    finished: Seq<Completed>,
    from: int,
    failed: int,
    upto: int,
)
    requires
        0 <= from <= failed < upto,
        code_of(finished[failed]) != 0,
        forall|j: int| from <= j < failed ==> code_of(#[trigger] finished[j]) == 0,
    ensures
        first_failure(finished, from, upto) == failed,
    decreases failed - from,
{
    if from < failed {
        lemma_first_failure_found(finished, from + 1, failed, upto);
    }
}

/// Where no run from `from` on and before `upto` failed, none is found.
pub proof fn lemma_first_failure_absent(finished: Seq<Completed>, from: int, upto: int)
    requires
        0 <= from <= upto,
    ensures
        first_failure(finished, from, upto) == upto <==> (forall|j: int|
            from <= j < upto ==> code_of(#[trigger] finished[j]) == 0),
        from <= first_failure(finished, from, upto) <= upto,
    decreases upto - from,
{
    if from < upto {
        lemma_first_failure_absent(finished, from + 1, upto);
        if code_of(finished[from]) == 0 {
            assert forall|j: int| from <= j < upto && first_failure(finished, from, upto)
                == upto implies code_of(#[trigger] finished[j]) == 0 by {
                if j > from {
                }
            }
        }
    }
}

/// The chain of stages stops at the first failure: where a stage has failed
/// after the stages before it succeeded, the request is done, its result is
/// what that stage left, with the code of that stage and without a
/// response, and no later stage is asked for, whatever else has run.
pub proof fn lemma_chain_stops_at_failure(
    os: Seq<char>,
    command: PackagesCommands,
    output_type: OutputType,
    finished: Seq<Completed>,
    failed: int,
)
    requires
        family_of(os) is Some,
        0 <= failed < finished.len(),
        failed < stage_count(descriptor_of(family_of(os)->0), command),
        code_of(finished[failed]) != 0,
        forall|j: int| 0 <= j < failed ==> code_of(#[trigger] finished[j]) == 0,
    ensures
        next_step(os, command, output_type, finished) matches StepView::Done(exit) && exit
            == exit_of(
            descriptor_of(family_of(os)->0),
            operation_of(command),
            output_type,
            finished[failed],
        ) && exit.exit_code == code_of(finished[failed]) && exit.packages_response is None,
{
    let m = descriptor_of(family_of(os)->0);
    let count = stage_count(m, command);
    let ran = runs_counted(finished, count);
    lemma_first_failure_found(finished, 0, failed, ran);
}

/// A command is asked for only while every run so far has succeeded, and it
/// is the command of the stage that comes next.
pub proof fn lemma_run_follows_success(
    os: Seq<char>,
    command: PackagesCommands,
    output_type: OutputType,
    finished: Seq<Completed>,
)
    ensures
        next_step(os, command, output_type, finished) matches StepView::Run(invocation) ==> {
            &&& family_of(os) matches Some(family)
            &&& finished.len() < stage_count(descriptor_of(family), command)
            &&& forall|j: int| 0 <= j < finished.len() ==> code_of(#[trigger] finished[j]) == 0
            &&& invocation.program == descriptor_of(family).manager
            &&& invocation.args == stage_args(
                descriptor_of(family),
                command,
                finished.len() as int,
            )
        },
{
    match family_of(os) {
        None => {},
        Some(family) => {
            let m = descriptor_of(family);
            let count = stage_count(m, command);
            let ran = runs_counted(finished, count);
            lemma_first_failure_absent(finished, 0, ran);
        },
    }
}

/// The result of a request states a response only where all went well, and
/// the response is well formed.
pub proof fn lemma_exit_response_wf(
    m: ManagerView,
    operation: Operation,
    output_type: OutputType,
    run: Completed,
)
    ensures
        exit_of(m, operation, output_type, run).packages_response matches Some(res) ==> res.wf()
            && exit_of(m, operation, output_type, run).exit_code == 0 && output_type
            != OutputType::Stdout,
{
    match decoded(run.stdout@) {
        Some(text) => {
            lemma_parsed_wf(m.family, operation, text);
        },
        None => {},
    }
}

} // verus!
