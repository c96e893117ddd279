//! The apk family: its descriptor, and parsers that state nothing yet.

use super::{
    response, Family, InfoArgs, InstallArgs, ListArgs, ManagerView, PackageManager,
    PackagesResponse, ParseError, RefreshArgs, ResponseView, SearchArgs, UninstallArgs, UpdateArgs,
};
use vstd::prelude::*;

verus! {

/// The descriptor of apk.
pub open spec fn manager_view() -> ManagerView {
    ManagerView {
        manager: "apk"@,
        family: Family::Apk,
        list: seq!["list"@],
        list_installed: "-I"@,
        list_available: "-a"@,
        list_extras: ""@,
        info: seq!["info"@],
        search: seq!["search"@],
        refresh: seq!["update"@],
        update: seq![seq!["upgrade"@]],
        update_fake: ""@,
        install: seq!["add"@],
        uninstall: seq!["del"@],
    }
}

/// The descriptor of apk.
pub fn manager() -> (m: PackageManager)
    ensures
        m@ == manager_view(),
{
    let m = PackageManager {
        manager: "apk",
        family: Family::Apk,
        list: ListArgs {
            command: &["list"],
            installed: "-I",
            available: "-a",
            extras: "",
        },
        info: InfoArgs { command: &["info"] },
        search: SearchArgs { command: &["search"] },
        refresh_data: RefreshArgs { command: &["update"] },
        update: UpdateArgs { commands: &[&["upgrade"]], fake: "" },
        install: InstallArgs { command: &["add"] },
        uninstall: UninstallArgs { command: &["del"] },
    };
    proof {
        assert(m@.list =~= seq!["list"@]);
        assert(m@.info =~= seq!["info"@]);
        assert(m@.search =~= seq!["search"@]);
        assert(m@.refresh =~= seq!["update"@]);
        assert(m@.install =~= seq!["add"@]);
        assert(m@.uninstall =~= seq!["del"@]);
        assert(m@.update[0] =~= seq!["upgrade"@]);
        assert(m@.update =~= seq![seq!["upgrade"@]]);
    }
    m
}

/// The output of apk is not read yet: the response to `list` states nothing.
pub fn parse_list(_output: &str) -> (r: Result<PackagesResponse, ParseError>)
    ensures
        r matches Ok(res) && res@ == ResponseView::empty("list"@),
{
    Ok(response("list"))
}

/// The output of apk is not read yet: the response to `info` states nothing.
pub fn parse_info(_output: &str) -> (r: Result<PackagesResponse, ParseError>)
    ensures
        r matches Ok(res) && res@ == ResponseView::empty("info"@),
{
    Ok(response("info"))
}

/// The output of apk is not read yet: the response to `search` states nothing.
pub fn parse_search(_output: &str) -> (r: Result<PackagesResponse, ParseError>)
    ensures
        r matches Ok(res) && res@ == ResponseView::empty("search"@),
{
    Ok(response("search"))
}

/// The output of apk is not read yet: the response to `refresh` states nothing.
pub fn parse_refresh(_output: &str) -> (r: Result<PackagesResponse, ParseError>)
    ensures
        r matches Ok(res) && res@ == ResponseView::empty("refresh"@),
{
    Ok(response("refresh"))
}

/// The output of apk is not read yet: the response to `update` states nothing.
pub fn parse_update(_output: &str) -> (r: Result<PackagesResponse, ParseError>)
    ensures
        r matches Ok(res) && res@ == ResponseView::empty("update"@),
{
    Ok(response("update"))
}

/// The output of apk is not read yet: the response to `install` states nothing.
pub fn parse_install(_output: &str) -> (r: Result<PackagesResponse, ParseError>)
    ensures
        r matches Ok(res) && res@ == ResponseView::empty("install"@),
{
    Ok(response("install"))
}

/// The output of apk is not read yet: the response to `uninstall` states nothing.
pub fn parse_uninstall(_output: &str) -> (r: Result<PackagesResponse, ParseError>)
    ensures
        r matches Ok(res) && res@ == ResponseView::empty("uninstall"@),
{
    Ok(response("uninstall"))
}

} // verus!
