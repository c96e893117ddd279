//! The registry of managers: which family serves which operating system,
//! and which parser reads the output of which operation.

use super::{
    apk, apt, dnf, zypper, Family, ManagerView, Operation, PackageManager, PackagesResponse,
    ParseError, ResponseView,
};
use crate::text::{same_text, to_chars};
use vstd::prelude::*;

verus! {

/// The family of the manager of the operating system `os`, if it has one.
pub open spec fn family_of(os: Seq<char>) -> Option<Family> {
    if os == "fedora"@ || os == "ultramarine"@ {
        Some(Family::Dnf)
    } else if os == "alpine"@ || os == "wolfi"@ {
        Some(Family::Apk)
    } else if os == "debian"@ || os == "ubuntu"@ || os == "pop"@ {
        Some(Family::Apt)
    } else if os == "opensuse-tumbleweed"@ || os == "opensuse-leap"@ {
        Some(Family::Zypper)
    } else {
        None
    }
}

/// The descriptor of each family.
pub open spec fn descriptor_of(family: Family) -> ManagerView {
    match family {
        Family::Dnf => dnf::manager_view(),
        Family::Apk => apk::manager_view(),
        Family::Apt => apt::manager_view(),
        Family::Zypper => zypper::manager_view(),
    }
}

/// The name of an operation.
pub open spec fn operation_name(operation: Operation) -> Seq<char> {
    match operation {
        Operation::List => "list"@,
        Operation::Info => "info"@,
        Operation::Search => "search"@,
        Operation::Refresh => "refresh"@,
        Operation::Update => "update"@,
        Operation::Install => "install"@,
        Operation::Uninstall => "uninstall"@,
    }
}

/// What is said to the reader where an operation fails.
pub open spec fn fail_text(operation: Operation) -> Seq<char> {
    match operation {
        Operation::List => "Failed to list packages"@,
        Operation::Info => "Failed to get info for package(s)"@,
        Operation::Search => "Failed to search for package(s)"@,
        Operation::Refresh => "Failed to refresh packages data"@,
        Operation::Update => "Failed to update packages"@,
        Operation::Install => "Failed to install package(s)"@,
        Operation::Uninstall => "Failed to uninstall package(s)"@,
    }
}

/// The response that the parser of `family` for `operation` reads from
/// `text`. The apk family states nothing yet; apt and zypper have no parser.
pub open spec fn parsed(family: Family, operation: Operation, text: Seq<char>) -> Result<
    ResponseView,
    ParseError,
> {
    match family {
        Family::Dnf => match operation {
            Operation::List => dnf::list_response(text),
            Operation::Info => dnf::info_response(text),
            Operation::Search => dnf::search_response(text),
            Operation::Refresh => Ok(dnf::refresh_response()),
            Operation::Update => dnf::update_response(text),
            Operation::Install => dnf::install_response(text),
            Operation::Uninstall => dnf::uninstall_response(text),
        },
        Family::Apk => Ok(ResponseView::empty(operation_name(operation))),
        Family::Apt => Err(ParseError::NotImplemented),
        Family::Zypper => Err(ParseError::NotImplemented),
    }
}

/// The descriptor of a family.
pub fn descriptor(family: Family) -> (m: PackageManager)
    ensures
        m@ == descriptor_of(family),
        m.family == family,
{
    match family {
        Family::Dnf => dnf::manager(),
        Family::Apk => apk::manager(),
        Family::Apt => apt::manager(),
        Family::Zypper => zypper::manager(),
    }
}

/// Tests whether the identifier `os` is `name`.
fn is_named(os: &Vec<char>, name: &str) -> (b: bool)
    ensures
        b == (os@ == name@),
{
    same_text(os, &to_chars(name))
}

/// Finds the family of the manager of an operating system.
pub fn family_for(os_id: &str) -> (r: Option<Family>)
    ensures
        r == family_of(os_id@),
{
    let os = to_chars(os_id);
    if is_named(&os, "fedora") || is_named(&os, "ultramarine") {
        Some(Family::Dnf)
    } else if is_named(&os, "alpine") || is_named(&os, "wolfi") {
        Some(Family::Apk)
    } else if is_named(&os, "debian") || is_named(&os, "ubuntu") || is_named(&os, "pop") {
        Some(Family::Apt)
    } else if is_named(&os, "opensuse-tumbleweed") || is_named(&os, "opensuse-leap") {
        Some(Family::Zypper)
    } else {
        None
    }
}

/// Finds the descriptor of the manager of an operating system. A system
/// that is not registered has none.
pub fn match_package_manager(os_id: &String) -> (r: Option<PackageManager>)
    ensures
        match r {
            Some(m) => family_of(os_id@) == Some(m.family) && m@ == descriptor_of(m.family),
            None => family_of(os_id@) is None,
        },
{
    match family_for(os_id.as_str()) {
        Some(family) => Some(descriptor(family)),
        None => None,
    }
}

/// Reads the output of an operation with the parser of `family`.
pub fn parse_output(family: Family, operation: Operation, output: &str) -> (r: Result<
    PackagesResponse,
    ParseError,
>)
    ensures
        match r {
            Ok(res) => parsed(family, operation, output@) == Ok::<ResponseView, ParseError>(res@)
                && res@.wf(),
            Err(e) => parsed(family, operation, output@) == Err::<ResponseView, ParseError>(e),
        },
{
    proof {
        lemma_parsed_wf(family, operation, output@);
    }
    match family {
        Family::Dnf => match operation {
            Operation::List => dnf::parse_list(output),
            Operation::Info => dnf::parse_info(output),
            Operation::Search => dnf::parse_search(output),
            Operation::Refresh => dnf::parse_refresh(output),
            Operation::Update => dnf::parse_update(output),
            Operation::Install => dnf::parse_install(output),
            Operation::Uninstall => dnf::parse_uninstall(output),
        },
        Family::Apk => match operation {
            Operation::List => apk::parse_list(output),
            Operation::Info => apk::parse_info(output),
            Operation::Search => apk::parse_search(output),
            Operation::Refresh => apk::parse_refresh(output),
            Operation::Update => apk::parse_update(output),
            Operation::Install => apk::parse_install(output),
            Operation::Uninstall => apk::parse_uninstall(output),
        },
        Family::Apt => match operation {
            Operation::List => apt::parse_list(output),
            Operation::Info => apt::parse_info(output),
            Operation::Search => apt::parse_search(output),
            Operation::Refresh => apt::parse_refresh(output),
            Operation::Update => apt::parse_update(output),
            Operation::Install => apt::parse_install(output),
            Operation::Uninstall => apt::parse_uninstall(output),
        },
        Family::Zypper => match operation {
            Operation::List => zypper::parse_list(output),
            Operation::Info => zypper::parse_info(output),
            Operation::Search => zypper::parse_search(output),
            Operation::Refresh => zypper::parse_refresh(output),
            Operation::Update => zypper::parse_update(output),
            Operation::Install => zypper::parse_install(output),
            Operation::Uninstall => zypper::parse_uninstall(output),
        },
    }
}

/// Every response that a parser gives is well formed.
pub proof fn lemma_parsed_wf(family: Family, operation: Operation, text: Seq<char>)
    ensures
        parsed(family, operation, text) matches Ok(res) ==> res.wf(),
{
    dnf::lemma_responses_wf(text);
}

} // verus!
