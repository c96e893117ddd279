//! The apt family: its descriptor. Its output has no parser yet.

use super::{
    Family, InfoArgs, InstallArgs, ListArgs, ManagerView, PackageManager, PackagesResponse,
    ParseError, RefreshArgs, SearchArgs, UninstallArgs, UpdateArgs,
};
use vstd::prelude::*;

verus! {

/// The descriptor of apt.
pub open spec fn manager_view() -> ManagerView {
    ManagerView {
        manager: "apt"@,
        family: Family::Apt,
        list: seq!["list"@],
        list_installed: ""@,
        list_available: ""@,
        list_extras: ""@,
        info: seq!["show"@],
        search: seq!["search"@],
        refresh: seq!["update"@],
        update: seq![seq!["update"@], seq!["upgrade"@]],
        update_fake: ""@,
        install: seq!["install"@],
        uninstall: seq!["remove"@],
    }
}

/// The descriptor of apt.
pub fn manager() -> (m: PackageManager)
    ensures
        m@ == manager_view(),
{
    let m = PackageManager {
        manager: "apt",
        family: Family::Apt,
        list: ListArgs {
            command: &["list"],
            installed: "",
            available: "",
            extras: "",
        },
        info: InfoArgs { command: &["show"] },
        search: SearchArgs { command: &["search"] },
        refresh_data: RefreshArgs { command: &["update"] },
        update: UpdateArgs { commands: &[&["update"], &["upgrade"]], fake: "" },
        install: InstallArgs { command: &["install"] },
        uninstall: UninstallArgs { command: &["remove"] },
    };
    proof {
        assert(m@.list =~= seq!["list"@]);
        assert(m@.info =~= seq!["show"@]);
        assert(m@.search =~= seq!["search"@]);
        assert(m@.refresh =~= seq!["update"@]);
        assert(m@.install =~= seq!["install"@]);
        assert(m@.uninstall =~= seq!["remove"@]);
        assert(m@.update[0] =~= seq!["update"@]);
        assert(m@.update[1] =~= seq!["upgrade"@]);
        assert(m@.update =~= seq![seq!["update"@], seq!["upgrade"@]]);
    }
    m
}

/// There is no parser for the output of `list` of apt.
pub fn parse_list(_output: &str) -> (r: Result<PackagesResponse, ParseError>)
    ensures
        r == Err::<PackagesResponse, ParseError>(ParseError::NotImplemented),
{
    Err(ParseError::NotImplemented)
}

/// There is no parser for the output of `info` of apt.
pub fn parse_info(_output: &str) -> (r: Result<PackagesResponse, ParseError>)
    ensures
        r == Err::<PackagesResponse, ParseError>(ParseError::NotImplemented),
{
    Err(ParseError::NotImplemented)
}

/// There is no parser for the output of `search` of apt.
pub fn parse_search(_output: &str) -> (r: Result<PackagesResponse, ParseError>)
    ensures
        r == Err::<PackagesResponse, ParseError>(ParseError::NotImplemented),
{
    Err(ParseError::NotImplemented)
}

/// There is no parser for the output of `refresh` of apt.
pub fn parse_refresh(_output: &str) -> (r: Result<PackagesResponse, ParseError>)
    ensures
        r == Err::<PackagesResponse, ParseError>(ParseError::NotImplemented),
{
    Err(ParseError::NotImplemented)
}

/// There is no parser for the output of `update` of apt.
pub fn parse_update(_output: &str) -> (r: Result<PackagesResponse, ParseError>)
    ensures
        r == Err::<PackagesResponse, ParseError>(ParseError::NotImplemented),
{
    Err(ParseError::NotImplemented)
}

/// There is no parser for the output of `install` of apt.
pub fn parse_install(_output: &str) -> (r: Result<PackagesResponse, ParseError>)
    ensures
        r == Err::<PackagesResponse, ParseError>(ParseError::NotImplemented),
{
    Err(ParseError::NotImplemented)
}

/// There is no parser for the output of `uninstall` of apt.
pub fn parse_uninstall(_output: &str) -> (r: Result<PackagesResponse, ParseError>)
    ensures
        r == Err::<PackagesResponse, ParseError>(ParseError::NotImplemented),
{
    Err(ParseError::NotImplemented)
}

} // verus!
