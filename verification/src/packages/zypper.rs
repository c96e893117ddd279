//! The zypper family: its descriptor. Its output has no parser yet.

use super::{
    Family, InfoArgs, InstallArgs, ListArgs, ManagerView, PackageManager, PackagesResponse,
    ParseError, RefreshArgs, SearchArgs, UninstallArgs, UpdateArgs,
};
use vstd::prelude::*;

verus! {

/// The descriptor of zypper.
pub open spec fn manager_view() -> ManagerView {
    ManagerView {
        manager: "zypper"@,
        family: Family::Zypper,
        list: seq!["list"@],
        list_installed: "--installed-only"@,
        list_available: "--not-installed-only"@,
        list_extras: ""@,
        info: seq!["info"@],
        search: seq!["search"@],
        refresh: seq!["refresh"@],
        update: seq![seq!["refresh"@], seq!["update"@]],
        update_fake: ""@,
        install: seq!["install"@],
        uninstall: seq!["remove"@],
    }
}

/// The descriptor of zypper.
pub fn manager() -> (m: PackageManager)
    ensures
        m@ == manager_view(),
{
    let m = PackageManager {
        manager: "zypper",
        family: Family::Zypper,
        list: ListArgs {
            command: &["list"],
            installed: "--installed-only",
            available: "--not-installed-only",
            extras: "",
        },
        info: InfoArgs { command: &["info"] },
        search: SearchArgs { command: &["search"] },
        refresh_data: RefreshArgs { command: &["refresh"] },
        update: UpdateArgs { commands: &[&["refresh"], &["update"]], fake: "" },
        install: InstallArgs { command: &["install"] },
        uninstall: UninstallArgs { command: &["remove"] },
    };
    proof {
        assert(m@.list =~= seq!["list"@]);
        assert(m@.info =~= seq!["info"@]);
        assert(m@.search =~= seq!["search"@]);
        assert(m@.refresh =~= seq!["refresh"@]);
        assert(m@.install =~= seq!["install"@]);
        assert(m@.uninstall =~= seq!["remove"@]);
        assert(m@.update[0] =~= seq!["refresh"@]);
        assert(m@.update[1] =~= seq!["update"@]);
        assert(m@.update =~= seq![seq!["refresh"@], seq!["update"@]]);
    }
    m
}

/// There is no parser for the output of `list` of zypper.
pub fn parse_list(_output: &str) -> (r: Result<PackagesResponse, ParseError>)
    ensures
        r == Err::<PackagesResponse, ParseError>(ParseError::NotImplemented),
{
    Err(ParseError::NotImplemented)
}

/// There is no parser for the output of `info` of zypper.
pub fn parse_info(_output: &str) -> (r: Result<PackagesResponse, ParseError>)
    ensures
        r == Err::<PackagesResponse, ParseError>(ParseError::NotImplemented),
{
    Err(ParseError::NotImplemented)
}

/// There is no parser for the output of `search` of zypper.
pub fn parse_search(_output: &str) -> (r: Result<PackagesResponse, ParseError>)
    ensures
        r == Err::<PackagesResponse, ParseError>(ParseError::NotImplemented),
{
    Err(ParseError::NotImplemented)
}

/// There is no parser for the output of `refresh` of zypper.
pub fn parse_refresh(_output: &str) -> (r: Result<PackagesResponse, ParseError>)
    ensures
        r == Err::<PackagesResponse, ParseError>(ParseError::NotImplemented),
{
    Err(ParseError::NotImplemented)
}

/// There is no parser for the output of `update` of zypper.
pub fn parse_update(_output: &str) -> (r: Result<PackagesResponse, ParseError>)
    ensures
        r == Err::<PackagesResponse, ParseError>(ParseError::NotImplemented),
{
    Err(ParseError::NotImplemented)
}

/// There is no parser for the output of `install` of zypper.
pub fn parse_install(_output: &str) -> (r: Result<PackagesResponse, ParseError>)
    ensures
        r == Err::<PackagesResponse, ParseError>(ParseError::NotImplemented),
{
    Err(ParseError::NotImplemented)
}

/// There is no parser for the output of `uninstall` of zypper.
pub fn parse_uninstall(_output: &str) -> (r: Result<PackagesResponse, ParseError>)
    ensures
        r == Err::<PackagesResponse, ParseError>(ParseError::NotImplemented),
{
    Err(ParseError::NotImplemented)
}

} // verus!
