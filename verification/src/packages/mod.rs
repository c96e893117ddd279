//! The uniform package operations: the normalized response, the per-manager
//! descriptors, and the parsers that recover a response from console output.

pub use crate::size::{get_byte_size, simplify_byte_size};
use crate::text::{text_view, texts};
use vstd::prelude::*;

pub mod apk;
pub mod apt;
pub mod dispatch;
pub mod dnf;
pub mod registry;
pub mod rows;
pub mod zypper;

pub use dispatch::{
    count_stages, fail_message, match_packages_command, name_of, operation, process_command,
    Completed, Invocation, InvocationView, Step, StepView,
};
pub use registry::{descriptor, family_for, match_package_manager, parse_output};

verus! {


/// Why console output could not be turned into a response.
#[derive(Clone, Copy, Debug, PartialEq, Eq, Structural)]
pub enum ParseError {
    /// No line holds the header of a block that the output must have.
    MissingHeader,
    /// The output ends inside a block that a blank line must close.
    UnexpectedEnd,
    /// A line or record has fewer fields than its layout names.
    MissingField,
    /// A size figure is not a decimal number.
    BadSize,
    /// A size figure, or a total of sizes, is larger than can be held.
    SizeTooLarge,
    /// A `replacing` line stands before any package line of its block.
    DanglingReplace,
    /// The manager has no parser for the operation.
    NotImplemented,
    /// A pattern that the parser searches with did not compile.
    BadPattern,
}

/// One software package as a manager reports it.
#[derive(Clone, Debug, PartialEq, Eq)]
pub struct Package {
    pub name: String,
    pub arch: String,
    pub version: Option<String>,
    pub old_version: Option<String>,
    pub repository: Option<String>,
    pub size: Option<String>,
    pub download: Option<String>,
    pub description: Option<String>,
    pub url: Option<String>,
    pub license: Option<String>,
    pub installed: bool,
}

/// The mathematical value of a `Package`.
pub struct PackageView {
    pub name: Seq<char>,
    pub arch: Seq<char>,
    pub version: Option<Seq<char>>,
    pub old_version: Option<Seq<char>>,
    pub repository: Option<Seq<char>>,
    pub size: Option<Seq<char>>,
    pub download: Option<Seq<char>>,
    pub description: Option<Seq<char>>,
    pub url: Option<Seq<char>>,
    pub license: Option<Seq<char>>,
    pub installed: bool,
}

/// The values of a list of packages.
pub open spec fn package_views(list: Seq<Package>) -> Seq<PackageView> {
    Seq::new(list.len(), |i: int| list[i]@)
}

impl View for Package {
    type V = PackageView;

    open spec fn view(&self) -> PackageView {
        PackageView {
            name: self.name@,
            arch: self.arch@,
            version: text_view(self.version),
            old_version: text_view(self.old_version),
            repository: text_view(self.repository),
            size: text_view(self.size),
            download: text_view(self.download),
            description: text_view(self.description),
            url: text_view(self.url),
            license: text_view(self.license),
            installed: self.installed,
        }
    }
}

impl PackageView {
    /// A record that states only a name and an architecture.
    pub open spec fn bare(name: Seq<char>, arch: Seq<char>, installed: bool) -> PackageView {
        PackageView {
            name,
            arch,
            version: None,
            old_version: None,
            repository: None,
            size: None,
            download: None,
            description: None,
            url: None,
            license: None,
            installed,
        }
    }

    /// A former version is stated only of a package that is installed.
    pub open spec fn wf(self) -> bool {
        self.old_version is Some ==> self.installed
    }
}

/// The normalized result of one operation.
#[derive(Clone, Debug, PartialEq, Eq)]
pub struct PackagesResponse {
    pub subcommand: &'static str,
    pub messages: Vec<String>,
    pub packages: Vec<Package>,
    pub packages_size: Option<String>,
    pub packages_length: Option<usize>,
    pub uninstalled_packages: Vec<Package>,
    pub uninstalled_packages_size: Option<String>,
    pub uninstalled_packages_length: Option<usize>,
}

/// The mathematical value of a `PackagesResponse`.
pub struct ResponseView {
    pub subcommand: Seq<char>,
    pub messages: Seq<Seq<char>>,
    pub packages: Seq<PackageView>,
    pub packages_size: Option<Seq<char>>,
    pub packages_length: Option<nat>,
    pub uninstalled_packages: Seq<PackageView>,
    pub uninstalled_packages_size: Option<Seq<char>>,
    pub uninstalled_packages_length: Option<nat>,
}

/// The value of an optional count.
pub open spec fn count_of(field: Option<usize>) -> Option<nat> {
    match field {
        Some(n) => Some(n as nat),
        None => None,
    }
}

impl View for PackagesResponse {
    type V = ResponseView;

    open spec fn view(&self) -> ResponseView {
        ResponseView {
            subcommand: self.subcommand@,
            messages: texts(self.messages@),
            packages: package_views(self.packages@),
            packages_size: text_view(self.packages_size),
            packages_length: count_of(self.packages_length),
            uninstalled_packages: package_views(self.uninstalled_packages@),
            uninstalled_packages_size: text_view(self.uninstalled_packages_size),
            uninstalled_packages_length: count_of(self.uninstalled_packages_length),
        }
    }
}

impl ResponseView {
    /// The response of `subcommand` that states nothing yet.
    pub open spec fn empty(subcommand: Seq<char>) -> ResponseView {
        ResponseView {
            subcommand,
            messages: Seq::empty(),
            packages: Seq::empty(),
            packages_size: None,
            packages_length: None,
            uninstalled_packages: Seq::empty(),
            uninstalled_packages_size: None,
            uninstalled_packages_length: None,
        }
    }

    /// A count that is stated is the length of its list, and every package
    /// is well formed.
    pub open spec fn wf(self) -> bool {
        &&& self.packages_length matches Some(n) ==> n == self.packages.len()
        &&& self.uninstalled_packages_length matches Some(n) ==> n
            == self.uninstalled_packages.len()
        &&& forall|i: int| 0 <= i < self.packages.len() ==> (#[trigger] self.packages[i]).wf()
        &&& forall|i: int|
            0 <= i < self.uninstalled_packages.len() ==> (
            #[trigger] self.uninstalled_packages[i]).wf()
    }
}

/// The response of `subcommand` that states nothing yet: no message, no
/// package, no size and no count.
pub fn response(subcommand: &'static str) -> (res: PackagesResponse)
    ensures
        res@ == ResponseView::empty(subcommand@),
{
    let res = PackagesResponse {
        subcommand,
        messages: Vec::new(),
        packages: Vec::new(),
        packages_size: None,
        packages_length: None,
        uninstalled_packages: Vec::new(),
        uninstalled_packages_size: None,
        uninstalled_packages_length: None,
    };
    assert(texts(res.messages@) =~= Seq::<Seq<char>>::empty());
    assert(package_views(res.packages@) =~= Seq::<PackageView>::empty());
    assert(package_views(res.uninstalled_packages@) =~= Seq::<PackageView>::empty());
    res
}

/// The families of package managers that have a descriptor.
#[derive(Clone, Copy, Debug, PartialEq, Eq, Structural)]
pub enum Family {
    Dnf,
    Apk,
    Apt,
    Zypper,
}

/// The operations that every manager is asked for in the same way.
#[derive(Clone, Copy, Debug, PartialEq, Eq, Structural)]
pub enum Operation {
    List,
    Info,
    Search,
    Refresh,
    Update,
    Install,
    Uninstall,
}

/// How a manager lists packages: the command, and the switch for each flag.
pub struct ListArgs {
    pub command: &'static [&'static str],
    pub installed: &'static str,
    pub available: &'static str,
    pub extras: &'static str,
}

/// How a manager shows information on packages.
pub struct InfoArgs {
    pub command: &'static [&'static str],
}

/// How a manager searches for packages.
pub struct SearchArgs {
    pub command: &'static [&'static str],
}

/// How a manager reads the repository metadata anew.
pub struct RefreshArgs {
    pub command: &'static [&'static str],
}

/// How a manager upgrades the system: the commands of the stages, in order,
/// and the switch for a dry run.
pub struct UpdateArgs {
    pub commands: &'static [&'static [&'static str]],
    pub fake: &'static str,
}

/// How a manager installs packages.
pub struct InstallArgs {
    pub command: &'static [&'static str],
}

/// How a manager uninstalls packages.
pub struct UninstallArgs {
    pub command: &'static [&'static str],
}

/// The descriptor of a manager: the program, the family whose parsers read
/// its output, and the command of each operation.
pub struct PackageManager {
    pub manager: &'static str,
    pub family: Family,
    pub list: ListArgs,
    pub info: InfoArgs,
    pub search: SearchArgs,
    pub refresh_data: RefreshArgs,
    pub update: UpdateArgs,
    pub install: InstallArgs,
    pub uninstall: UninstallArgs,
}

/// The character sequences of a list of string slices.
pub open spec fn strs(list: Seq<&'static str>) -> Seq<Seq<char>> {
    Seq::new(list.len(), |i: int| list[i]@)
}

/// The character sequences of the commands of a list of stages.
pub open spec fn stage_views(list: Seq<&'static [&'static str]>) -> Seq<Seq<Seq<char>>> {
    Seq::new(list.len(), |i: int| strs(list[i]@))
}

/// The mathematical value of a `PackageManager`.
pub struct ManagerView {
    pub manager: Seq<char>,
    pub family: Family,
    pub list: Seq<Seq<char>>,
    pub list_installed: Seq<char>,
    pub list_available: Seq<char>,
    pub list_extras: Seq<char>,
    pub info: Seq<Seq<char>>,
    pub search: Seq<Seq<char>>,
    pub refresh: Seq<Seq<char>>,
    pub update: Seq<Seq<Seq<char>>>,
    pub update_fake: Seq<char>,
    pub install: Seq<Seq<char>>,
    pub uninstall: Seq<Seq<char>>,
}

impl View for PackageManager {
    type V = ManagerView;

    open spec fn view(&self) -> ManagerView {
        ManagerView {
            manager: self.manager@,
            family: self.family,
            list: strs(self.list.command@),
            list_installed: self.list.installed@,
            list_available: self.list.available@,
            list_extras: self.list.extras@,
            info: strs(self.info.command@),
            search: strs(self.search.command@),
            refresh: strs(self.refresh_data.command@),
            update: stage_views(self.update.commands@),
            update_fake: self.update.fake@,
            install: strs(self.install.command@),
            uninstall: strs(self.uninstall.command@),
        }
    }
}

impl ParseError {
    /// What went wrong, in words.
    pub open spec fn reason(self) -> Seq<char> {
        match self {
            ParseError::MissingHeader => "an expected header line is missing"@,
            ParseError::UnexpectedEnd => "the output ends inside a block"@,
            ParseError::MissingField => "a line has too few fields"@,
            ParseError::BadSize => "a size is not a number"@,
            ParseError::SizeTooLarge => "a size is too large"@,
            ParseError::DanglingReplace => "a replacing line follows no package"@,
            ParseError::NotImplemented => "there is no parser for this output"@,
            ParseError::BadPattern => "a search pattern is not valid"@,
        }
    }

    /// What went wrong, in words.
    pub fn describe(&self) -> (text: &'static str)
        ensures
            text@ == self.reason(),
    {
        match self {
            ParseError::MissingHeader => "an expected header line is missing",
            ParseError::UnexpectedEnd => "the output ends inside a block",
            ParseError::MissingField => "a line has too few fields",
            ParseError::BadSize => "a size is not a number",
            ParseError::SizeTooLarge => "a size is too large",
            ParseError::DanglingReplace => "a replacing line follows no package",
            ParseError::NotImplemented => "there is no parser for this output",
            ParseError::BadPattern => "a search pattern is not valid",
        }
    }
}

} // verus!
