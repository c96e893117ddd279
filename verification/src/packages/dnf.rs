//! The dnf family: its descriptor and the parsers of its console output.

use super::rows::{
    block, block_tally, find_line, lemma_tally_wf, position, read_rows, take_block, BlockRule,
    BlockTally, Layout, RuleView, Stop, Tally,
};
use super::{
    package_views, response, Family, InfoArgs, InstallArgs, ListArgs, ManagerView, Package,
    PackageManager, PackageView, PackagesResponse, ParseError, RefreshArgs, ResponseView,
    SearchArgs, UninstallArgs, UpdateArgs,
};
use crate::pattern::{remove_matches, split_at_matches, split_matches, without_matches};
use crate::size::{human_text, MAX_AMOUNT};
use crate::text::{
    contains, copy_range, from_chars, has_phrase, has_prefix, lines, split_lines, starts_with,
    texts, to_chars, views,
};
use vstd::prelude::*;

verus! {

/// The phrase that dnf prints once it has read the repository metadata.
pub open spec fn loaded_phrase() -> Seq<char> {
    "Repositories loaded."@
}

/// The phrase that dnf prints where a transaction would change nothing.
pub open spec fn nothing_phrase() -> Seq<char> {
    "Nothing to do."@
}

/// The notice that the repository metadata was read anew, where the output
/// says so.
pub open spec fn refreshed(text: Seq<char>) -> Seq<Seq<char>> {
    if contains(text, loaded_phrase()) {
        seq!["Updated repos"@]
    } else {
        Seq::empty()
    }
}

/// The headers of the sections of a listing.
pub open spec fn section_names() -> Seq<Seq<char>> {
    seq!["Installed packages"@, "Available packages"@, "Extra packages"@]
}

/// A section of a listing ends at an empty line or at the header of a
/// section.
pub open spec fn list_rule() -> RuleView {
    RuleView { skip: Seq::empty(), stop: Stop::Blank, headers: section_names(), closed: false }
}

/// The packages of the section of a listing whose header holds `name`: the
/// rows after the first line that holds it. Without such a line the section
/// is empty.
pub open spec fn section(lines: Seq<Seq<char>>, name: Seq<char>, installed: bool) -> Result<
    Seq<PackageView>,
    ParseError,
> {
    match block(lines, position(lines, name, 0) + 1, list_rule()) {
        Err(e) => Err(e),
        Ok(picked) => match block_tally(picked, Layout::Listed { installed }) {
            Err(e) => Err(e),
            Ok(t) => Ok(t.packages),
        },
    }
}

/// The response to a listing: the installed, the available and the extra
/// packages, in this order, and their count. Only the available ones are not
/// installed.
pub open spec fn list_response(text: Seq<char>) -> Result<ResponseView, ParseError> {
    let all = lines(text);
    match section(all, "Installed packages"@, true) {
        Err(e) => Err(e),
        Ok(installed) => match section(all, "Available packages"@, false) {
            Err(e) => Err(e),
            Ok(available) => match section(all, "Extra packages"@, true) {
                Err(e) => Err(e),
                Ok(extras) => Ok(
                    ResponseView {
                        messages: refreshed(text),
                        packages: installed + available + extras,
                        packages_length: Some((installed + available + extras).len()),
                        ..ResponseView::empty("list"@)
                    },
                ),
            },
        },
    }
}

/// The rows of a search result end at an empty line; a line that names the
/// matched fields is passed over.
pub open spec fn search_rule() -> RuleView {
    RuleView {
        skip: seq!["Matched fields:"@],
        stop: Stop::Blank,
        headers: Seq::empty(),
        closed: false,
    }
}

/// The line at which the rows of a search result begin: the one after the
/// notice that the repositories were loaded, where the output holds it.
pub open spec fn search_start(text: Seq<char>) -> int {
    if contains(text, loaded_phrase()) {
        position(lines(text), loaded_phrase(), 0) + 1
    } else {
        0
    }
}

/// The response to a search: the packages found and their count, or the
/// notice that nothing matched.
pub open spec fn search_response(text: Seq<char>) -> Result<ResponseView, ParseError> {
    if contains(text, "No matches found."@) {
        Ok(
            ResponseView {
                messages: refreshed(text).push("Nothing matched search"@),
                ..ResponseView::empty("search"@)
            },
        )
    } else {
        match block(lines(text), search_start(text), search_rule()) {
            Err(e) => Err(e),
            Ok(picked) => match block_tally(picked, Layout::Found) {
                Err(e) => Err(e),
                Ok(t) => Ok(
                    ResponseView {
                        messages: refreshed(text),
                        packages: t.packages,
                        packages_length: Some(t.packages.len()),
                        ..ResponseView::empty("search"@)
                    },
                ),
            },
        }
    }
}

/// The response to a refresh: the notice that the metadata was read anew.
pub open spec fn refresh_response() -> ResponseView {
    ResponseView { messages: seq!["Updated repos"@], ..ResponseView::empty("refresh"@) }
}

/// The notices that the output as a whole gives rise to.
fn repository_messages(text: &Vec<char>) -> (messages: Vec<String>)
    ensures
        texts(messages@) == refreshed(text@),
{
    let mut messages: Vec<String> = Vec::new();
    let phrase = to_chars("Repositories loaded.");
    if has_phrase(text, &phrase) {
        messages.push("Updated repos".to_owned());
        assert(texts(messages@) =~= seq!["Updated repos"@]);
    } else {
        assert(texts(messages@) =~= Seq::<Seq<char>>::empty());
    }
    messages
}

/// Adds a notice to those of a response.
fn push_message(messages: &mut Vec<String>, notice: &str)
    ensures
        texts(final(messages)@) == texts(old(messages)@).push(notice@),
{
    messages.push(notice.to_owned());
    assert(texts(messages@) =~= texts(old(messages)@).push(notice@));
}

/// The rule by which the sections of a listing are read.
fn list_block_rule() -> (rule: BlockRule)
    ensures
        rule@ == list_rule(),
{
    let mut headers: Vec<Vec<char>> = Vec::new();
    headers.push(to_chars("Installed packages"));
    headers.push(to_chars("Available packages"));
    headers.push(to_chars("Extra packages"));
    let rule = BlockRule { skip: Vec::new(), stop: Stop::Blank, headers, closed: false };
    assert(views(rule.headers@) =~= section_names());
    assert(views(rule.skip@) =~= Seq::<Seq<char>>::empty());
    rule
}

/// Reads the block that begins after line `header`, if there is such a
/// line, against `layout`.
fn read_block_after(lines: &Vec<Vec<char>>, header: usize, rule: &BlockRule, layout: Layout) -> (r:
    Result<BlockTally, ParseError>)
    requires
        header <= lines.len(),
    ensures
        match r {
            Ok(read) => block(views(lines@), header + 1, rule@) matches Ok(picked) && block_tally(
                picked,
                layout,
            ) matches Ok(t) && read.agrees_with(t),
            Err(e) => match block(views(lines@), header + 1, rule@) {
                Err(cause) => e == cause,
                Ok(picked) => block_tally(picked, layout) == Err::<Tally, ParseError>(e),
            },
        },
{
    let picked = if header < lines.len() {
        take_block(lines, header + 1, rule)?
    } else if rule.closed {
        return Err(ParseError::UnexpectedEnd);
    } else {
        Vec::new()
    };
    assert(block(views(lines@), header + 1, rule@) == Ok::<Seq<Seq<char>>, ParseError>(
        views(picked@),
    )) by {
        if header >= lines.len() {
            assert(views(picked@) =~= Seq::<Seq<char>>::empty());
        }
    }
    read_rows(&picked, layout)
}

/// Reads one section of a listing.
fn read_section(lines: &Vec<Vec<char>>, name: &str, installed: bool) -> (r: Result<
    Vec<Package>,
    ParseError,
>)
    ensures
        match r {
            Ok(packages) => section(views(lines@), name@, installed) == Ok::<
                Seq<PackageView>,
                ParseError,
            >(package_views(packages@)),
            Err(e) => section(views(lines@), name@, installed) == Err::<
                Seq<PackageView>,
                ParseError,
            >(e),
        },
{
    let header = find_line(lines, &to_chars(name));
    let rule = list_block_rule();
    let read = read_block_after(lines, header, &rule, Layout::Listed { installed })?;
    Ok(read.packages)
}

/// Parses the output of `dnf list`.
pub fn parse_list(output: &str) -> (r: Result<PackagesResponse, ParseError>)
    ensures
        match r {
            Ok(res) => list_response(output@) == Ok::<ResponseView, ParseError>(res@)
                && res@.wf(),
            Err(e) => list_response(output@) == Err::<ResponseView, ParseError>(e),
        },
{
    proof {
        lemma_responses_wf(output@);
    }
    let text = to_chars(output);
    let all = split_lines(&text);
    let mut packages = read_section(&all, "Installed packages", true)?;
    let mut available = read_section(&all, "Available packages", false)?;
    let mut extras = read_section(&all, "Extra packages", true)?;
    let ghost first = package_views(packages@);
    let ghost second = package_views(available@);
    let ghost third = package_views(extras@);
    packages.append(&mut available);
    packages.append(&mut extras);
    assert(package_views(packages@) =~= first + second + third);
    let mut res = response("list");
    res.messages = repository_messages(&text);
    res.packages_length = Some(packages.len());
    res.packages = packages;
    Ok(res)
}

/// Parses the output of `dnf search`.
pub fn parse_search(output: &str) -> (r: Result<PackagesResponse, ParseError>)
    ensures
        match r {
            Ok(res) => search_response(output@) == Ok::<ResponseView, ParseError>(res@)
                && res@.wf(),
            Err(e) => search_response(output@) == Err::<ResponseView, ParseError>(e),
        },
{
    proof {
        lemma_responses_wf(output@);
    }
    let text = to_chars(output);
    let all = split_lines(&text);
    let mut res = response("search");
    res.messages = repository_messages(&text);
    if has_phrase(&text, &to_chars("No matches found.")) {
        push_message(&mut res.messages, "Nothing matched search");
        return Ok(res);
    }
    let rule = skipping_rule("Matched fields:", Stop::Blank, false);
    let read = if has_phrase(&text, &to_chars("Repositories loaded.")) {
        let notice = find_line(&all, &to_chars("Repositories loaded."));
        read_block_after(&all, notice, &rule, Layout::Found)?
    } else {
        let picked = take_block(&all, 0, &rule)?;
        read_rows(&picked, Layout::Found)?
    };
    res.packages_length = Some(read.packages.len());
    res.packages = read.packages;
    Ok(res)
}

/// Parses the output of `dnf check-upgrade`, which is not looked at: that
/// the command succeeded says that the metadata was read anew.
pub fn parse_refresh(_output: &str) -> (r: Result<PackagesResponse, ParseError>)
    ensures
        r matches Ok(res) && res@ == refresh_response() && res@.wf(),
{
    let mut res = response("refresh");
    push_message(&mut res.messages, "Updated repos");
    assert(res@.messages =~= seq!["Updated repos"@]);
    Ok(res)
}

/// The block of removed packages of an upgrade ends at the first line that
/// is not indented; the line that heads the dependent packages is passed
/// over.
pub open spec fn removing_rule() -> RuleView {
    RuleView {
        skip: seq!["Removing dependent packages:"@],
        stop: Stop::Unindented,
        headers: Seq::empty(),
        closed: false,
    }
}

/// The block of upgraded packages ends at the first line that is not
/// indented; the line that heads the newly installed packages is passed
/// over.
pub open spec fn upgrading_rule() -> RuleView {
    RuleView {
        skip: seq!["Installing:"@],
        stop: Stop::Unindented,
        headers: Seq::empty(),
        closed: false,
    }
}

/// The block of installed packages must be closed by an empty line; the
/// line that heads the dependencies is passed over.
pub open spec fn installing_rule() -> RuleView {
    RuleView {
        skip: seq!["Installing dependencies:"@],
        stop: Stop::Blank,
        headers: Seq::empty(),
        closed: true,
    }
}

/// The block of uninstalled packages must be closed by an empty line; the
/// line that heads the unused dependencies is passed over.
pub open spec fn uninstalling_rule() -> RuleView {
    RuleView {
        skip: seq!["Removing unused dependencies:"@],
        stop: Stop::Blank,
        headers: Seq::empty(),
        closed: true,
    }
}

/// The tally of the block under the first line that holds `header`. That no
/// line holds it is an error.
pub open spec fn headed_block(
    lines: Seq<Seq<char>>,
    header: Seq<char>,
    rule: RuleView,
    layout: Layout,
) -> Result<Tally, ParseError> {
    let at = position(lines, header, 0);
    if at >= lines.len() {
        Err(ParseError::MissingHeader)
    } else {
        match block(lines, at + 1, rule) {
            Err(e) => Err(e),
            Ok(picked) => block_tally(picked, layout),
        }
    }
}

/// The response to an upgrade. Where the output says that there is nothing
/// to do, the response says so and holds no package. Otherwise it holds the
/// packages under `Removing:` as uninstalled and those under `Upgrading:` as
/// installed, each list with its count and the human form of its total size.
/// What a `replacing` line states goes to the package above it as its former
/// version, and its size to the total of the uninstalled packages.
pub open spec fn update_response(text: Seq<char>) -> Result<ResponseView, ParseError> {
    if contains(text, nothing_phrase()) {
        Ok(
            ResponseView {
                messages: refreshed(text).push("No updates available"@),
                ..ResponseView::empty("update"@)
            },
        )
    } else {
        match headed_block(
            lines(text),
            "Removing:"@,
            removing_rule(),
            Layout::Sized { installed: false },
        ) {
            Err(e) => Err(e),
            Ok(removed) => match headed_block(
                lines(text),
                "Upgrading:"@,
                upgrading_rule(),
                Layout::Upgrade,
            ) {
                Err(e) => Err(e),
                Ok(upgraded) => {
                    if upgraded.gained > MAX_AMOUNT || removed.gained + upgraded.replaced
                        > MAX_AMOUNT {
                        Err(ParseError::SizeTooLarge)
                    } else {
                        Ok(
                            ResponseView {
                                subcommand: "update"@,
                                messages: refreshed(text),
                                packages: upgraded.packages,
                                packages_size: Some(human_text(upgraded.gained)),
                                packages_length: Some(upgraded.packages.len()),
                                uninstalled_packages: removed.packages,
                                uninstalled_packages_size: Some(
                                    human_text(removed.gained + upgraded.replaced),
                                ),
                                uninstalled_packages_length: Some(removed.packages.len()),
                            },
                        )
                    }
                },
            },
        }
    }
}

/// The response to an installation: the packages under `Installing:`, all
/// installed, with their count and the human form of their total size; or
/// the notice that there was nothing to do.
pub open spec fn install_response(text: Seq<char>) -> Result<ResponseView, ParseError> {
    if contains(text, nothing_phrase()) {
        Ok(
            ResponseView {
                messages: refreshed(text).push("Package(s) already installed"@),
                ..ResponseView::empty("install"@)
            },
        )
    } else {
        match headed_block(
            lines(text),
            "Installing:"@,
            installing_rule(),
            Layout::Sized { installed: true },
        ) {
            Err(e) => Err(e),
            Ok(t) => {
                if t.gained > MAX_AMOUNT {
                    Err(ParseError::SizeTooLarge)
                } else {
                    Ok(
                        ResponseView {
                            messages: refreshed(text),
                            packages: t.packages,
                            packages_size: Some(human_text(t.gained)),
                            packages_length: Some(t.packages.len()),
                            ..ResponseView::empty("install"@)
                        },
                    )
                }
            },
        }
    }
}

/// The response to an uninstallation: the packages under `Removing:` as
/// uninstalled packages, reported in the state they were in, with their
/// count and the human form of their total size; or the notice that there
/// was nothing to do.
pub open spec fn uninstall_response(text: Seq<char>) -> Result<ResponseView, ParseError> {
    if contains(text, nothing_phrase()) {
        Ok(
            ResponseView {
                messages: seq!["No packages to uninstall"@],
                ..ResponseView::empty("uninstall"@)
            },
        )
    } else {
        match headed_block(
            lines(text),
            "Removing:"@,
            uninstalling_rule(),
            Layout::Sized { installed: true },
        ) {
            Err(e) => Err(e),
            Ok(t) => {
                if t.gained > MAX_AMOUNT {
                    Err(ParseError::SizeTooLarge)
                } else {
                    Ok(
                        ResponseView {
                            uninstalled_packages: t.packages,
                            uninstalled_packages_size: Some(human_text(t.gained)),
                            uninstalled_packages_length: Some(t.packages.len()),
                            ..ResponseView::empty("uninstall"@)
                        },
                    )
                }
            },
        }
    }
}

/// A rule that passes over the lines that hold `skip`.
fn skipping_rule(skip: &str, stop: Stop, closed: bool) -> (rule: BlockRule)
    ensures
        rule@ == (RuleView { skip: seq![skip@], stop, headers: Seq::empty(), closed }),
{
    let mut phrases: Vec<Vec<char>> = Vec::new();
    phrases.push(to_chars(skip));
    let rule = BlockRule { skip: phrases, stop, headers: Vec::new(), closed };
    assert(views(rule.skip@) =~= seq![skip@]);
    assert(views(rule.headers@) =~= Seq::<Seq<char>>::empty());
    rule
}

/// Reads the block under the first line that holds `header`.
fn read_headed(lines: &Vec<Vec<char>>, header: &str, rule: &BlockRule, layout: Layout) -> (r:
    Result<BlockTally, ParseError>)
    ensures
        match r {
            Ok(read) => headed_block(views(lines@), header@, rule@, layout) matches Ok(t)
                && read.agrees_with(t),
            Err(e) => headed_block(views(lines@), header@, rule@, layout) == Err::<
                Tally,
                ParseError,
            >(e),
        },
{
    let at = find_line(lines, &to_chars(header));
    if at >= lines.len() {
        return Err(ParseError::MissingHeader);
    }
    let picked = take_block(lines, at + 1, rule)?;
    read_rows(&picked, layout)
}

/// Parses the output of `dnf upgrade`.
pub fn parse_update(output: &str) -> (r: Result<PackagesResponse, ParseError>)
    ensures
        match r {
            Ok(res) => update_response(output@) == Ok::<ResponseView, ParseError>(res@)
                && res@.wf(),
            Err(e) => update_response(output@) == Err::<ResponseView, ParseError>(e),
        },
{
    proof {
        lemma_responses_wf(output@);
    }
    let text = to_chars(output);
    let mut res = response("update");
    res.messages = repository_messages(&text);
    if has_phrase(&text, &to_chars("Nothing to do.")) {
        push_message(&mut res.messages, "No updates available");
        return Ok(res);
    }
    let all = split_lines(&text);
    let removing = skipping_rule("Removing dependent packages:", Stop::Unindented, false);
    let removed = read_headed(&all, "Removing:", &removing, Layout::Sized { installed: false })?;
    let upgrading = skipping_rule("Installing:", Stop::Unindented, false);
    let upgraded = read_headed(&all, "Upgrading:", &upgrading, Layout::Upgrade)?;
    let gained = match upgraded.gained {
        Some(size) => size,
        None => { return Err(ParseError::SizeTooLarge); },
    };
    let lost = match (removed.gained, upgraded.replaced) {
        (Some(a), Some(b)) => match a.plus(&b) {
            Some(size) => size,
            None => { return Err(ParseError::SizeTooLarge); },
        },
        _ => { return Err(ParseError::SizeTooLarge); },
    };
    res.packages_size = Some(gained.human());
    res.packages_length = Some(upgraded.packages.len());
    res.packages = upgraded.packages;
    res.uninstalled_packages_size = Some(lost.human());
    res.uninstalled_packages_length = Some(removed.packages.len());
    res.uninstalled_packages = removed.packages;
    Ok(res)
}

/// Parses the output of `dnf install`.
pub fn parse_install(output: &str) -> (r: Result<PackagesResponse, ParseError>)
    ensures
        match r {
            Ok(res) => install_response(output@) == Ok::<ResponseView, ParseError>(res@)
                && res@.wf(),
            Err(e) => install_response(output@) == Err::<ResponseView, ParseError>(e),
        },
{
    proof {
        lemma_responses_wf(output@);
    }
    let text = to_chars(output);
    let mut res = response("install");
    res.messages = repository_messages(&text);
    if has_phrase(&text, &to_chars("Nothing to do.")) {
        push_message(&mut res.messages, "Package(s) already installed");
        return Ok(res);
    }
    let all = split_lines(&text);
    let rule = skipping_rule("Installing dependencies:", Stop::Blank, true);
    let read = read_headed(&all, "Installing:", &rule, Layout::Sized { installed: true })?;
    let gained = match read.gained {
        Some(size) => size,
        None => { return Err(ParseError::SizeTooLarge); },
    };
    res.packages_size = Some(gained.human());
    res.packages_length = Some(read.packages.len());
    res.packages = read.packages;
    Ok(res)
}

/// Parses the output of `dnf remove`.
pub fn parse_uninstall(output: &str) -> (r: Result<PackagesResponse, ParseError>)
    ensures
        match r {
            Ok(res) => uninstall_response(output@) == Ok::<ResponseView, ParseError>(res@)
                && res@.wf(),
            Err(e) => uninstall_response(output@) == Err::<ResponseView, ParseError>(e),
        },
{
    proof {
        lemma_responses_wf(output@);
    }
    let text = to_chars(output);
    let mut res = response("uninstall");
    if has_phrase(&text, &to_chars("Nothing to do.")) {
        push_message(&mut res.messages, "No packages to uninstall");
        assert(res@.messages =~= seq!["No packages to uninstall"@]);
        return Ok(res);
    }
    let all = split_lines(&text);
    let rule = skipping_rule("Removing unused dependencies:", Stop::Blank, true);
    let read = read_headed(&all, "Removing:", &rule, Layout::Sized { installed: true })?;
    let lost = match read.gained {
        Some(size) => size,
        None => { return Err(ParseError::SizeTooLarge); },
    };
    res.uninstalled_packages_size = Some(lost.human());
    res.uninstalled_packages_length = Some(read.packages.len());
    res.uninstalled_packages = read.packages;
    Ok(res)
}

/// The expression that matches the gap between two records of `dnf info`.
pub open spec fn record_gap() -> Seq<char> {
    r"\n\n"@
}

/// The expression that matches the start of a field within a record: a line
/// feed and the character after it, where that is not white space.
pub open spec fn field_start() -> Seq<char> {
    r"\n\S"@
}

/// The expression that matches the label in front of a field's value, and
/// the colon that continues the value on a further line.
pub open spec fn label_pattern() -> Seq<char> {
    r"[\S ]*: | +:"@
}

/// The heading under which the records of installed packages stand.
pub open spec fn installed_heading() -> Seq<char> {
    "Installed packages\n"@
}

/// The heading under which the records of available packages stand.
pub open spec fn available_heading() -> Seq<char> {
    "Available packages\n"@
}

/// `part` without `heading` in front of it, where it begins with it.
pub open spec fn without_heading(part: Seq<char>, heading: Seq<char>) -> Seq<char> {
    if starts_with(part, heading) {
        part.subrange(heading.len() as int, part.len() as int)
    } else {
        part
    }
}

/// Whether a record is one of an installed package, given whether the
/// record before it was: a heading in front of the record decides anew.
pub open spec fn installed_after(part: Seq<char>, before: bool) -> bool {
    if starts_with(without_heading(part, installed_heading()), available_heading()) {
        false
    } else if starts_with(part, installed_heading()) {
        true
    } else {
        before
    }
}

/// A record without the headings in front of it.
pub open spec fn record_body(part: Seq<char>) -> Seq<char> {
    without_heading(without_heading(part, installed_heading()), available_heading())
}

/// The positions of the fields of a record of `dnf info`.
#[derive(Clone, Copy, Debug, PartialEq, Eq)]
pub struct InfoLayout {
    pub name: usize,
    pub arch: usize,
    pub version: usize,
    pub repository: usize,
    pub size: usize,
    pub download: Option<usize>,
    pub description: usize,
    pub url: usize,
    pub license: usize,
    /// The number of fields that a record must have.
    pub fields: usize,
}

/// Where a record states what. The record of an installed package has no
/// download size, so that every field after it stands one place earlier.
pub open spec fn info_layout(installed: bool) -> InfoLayout {
    if installed {
        InfoLayout {
            name: 0,
            version: 2,
            arch: 4,
            size: 5,
            download: None,
            repository: 7,
            url: 9,
            license: 10,
            description: 11,
            fields: 12,
        }
    } else {
        InfoLayout {
            name: 0,
            version: 2,
            arch: 4,
            download: Some(5),
            size: 6,
            repository: 8,
            url: 10,
            license: 11,
            description: 12,
            fields: 13,
        }
    }
}

/// The package that the fields of a record state.
pub open spec fn info_package(fields: Seq<Seq<char>>, installed: bool) -> Result<
    PackageView,
    ParseError,
> {
    let at = info_layout(installed);
    if fields.len() < at.fields {
        Err(ParseError::MissingField)
    } else {
        Ok(
            PackageView {
                name: fields[at.name as int],
                arch: fields[at.arch as int],
                version: Some(fields[at.version as int]),
                old_version: None,
                repository: Some(fields[at.repository as int]),
                size: Some(fields[at.size as int]),
                download: match at.download {
                    Some(i) => Some(fields[i as int]),
                    None => None,
                },
                description: Some(fields[at.description as int]),
                url: Some(fields[at.url as int]),
                license: Some(fields[at.license as int]),
                installed,
            },
        )
    }
}

/// The first `n` of `fields`, each without its label.
pub open spec fn cleaned(fields: Seq<Seq<char>>, n: nat) -> Result<Seq<Seq<char>>, ParseError>
    decreases n,
{
    if n == 0 {
        Ok(Seq::empty())
    } else {
        match cleaned(fields, (n - 1) as nat) {
            Err(e) => Err(e),
            Ok(done) => match without_matches(label_pattern(), fields[n - 1]) {
                Err(e) => Err(e),
                Ok(value) => Ok(done.push(value)),
            },
        }
    }
}

/// Whether the record before the `n`-th was one of an installed package;
/// the first record follows on none that was.
pub open spec fn installed_before(parts: Seq<Seq<char>>, n: nat) -> bool
    decreases n,
{
    if n == 0 {
        false
    } else {
        installed_after(parts[n - 1], installed_before(parts, (n - 1) as nat))
    }
}

/// The package that one record states: its body is split into fields, the
/// fields lose their labels, and the layout says which field is what.
pub open spec fn info_record(part: Seq<char>, before: bool) -> Result<PackageView, ParseError> {
    match split_matches(field_start(), record_body(part)) {
        Err(e) => Err(e),
        Ok(fields) => match cleaned(fields, fields.len()) {
            Err(e) => Err(e),
            Ok(values) => info_package(values, installed_after(part, before)),
        },
    }
}

/// The packages that the first `n` records state.
pub open spec fn info_records(parts: Seq<Seq<char>>, n: nat) -> Result<
    Seq<PackageView>,
    ParseError,
>
    decreases n,
{
    if n == 0 {
        Ok(Seq::empty())
    } else {
        match info_records(parts, (n - 1) as nat) {
            Err(e) => Err(e),
            Ok(done) => match info_record(parts[n - 1], installed_before(parts, (n - 1) as nat)) {
                Err(e) => Err(e),
                Ok(package) => Ok(done.push(package)),
            },
        }
    }
}

/// The response to a query for information: one package for each record of
/// the output, without a count.
pub open spec fn info_response(text: Seq<char>) -> Result<ResponseView, ParseError> {
    match split_matches(record_gap(), text) {
        Err(e) => Err(e),
        Ok(parts) => match info_records(parts, parts.len()) {
            Err(e) => Err(e),
            Ok(packages) => Ok(ResponseView { packages, ..ResponseView::empty("info"@) }),
        },
    }
}

pub proof fn lemma_cleaned_error_stays(fields: Seq<Seq<char>>, k: nat, n: nat)
    requires
        k <= n,
        cleaned(fields, k) is Err,
    ensures
        cleaned(fields, n) == cleaned(fields, k),
    decreases n,
{
    if k < n {
        lemma_cleaned_error_stays(fields, k, (n - 1) as nat);
    }
}

pub proof fn lemma_info_error_stays(parts: Seq<Seq<char>>, k: nat, n: nat)
    requires
        k <= n,
        info_records(parts, k) is Err,
    ensures
        info_records(parts, n) == info_records(parts, k),
    decreases n,
{
    if k < n {
        lemma_info_error_stays(parts, k, (n - 1) as nat);
    }
}

/// The positions of the fields of a record.
pub fn layout_of(installed: bool) -> (at: InfoLayout)
    ensures
        at == info_layout(installed),
{
    if installed {
        InfoLayout {
            name: 0,
            version: 2,
            arch: 4,
            size: 5,
            download: None,
            repository: 7,
            url: 9,
            license: 10,
            description: 11,
            fields: 12,
        }
    } else {
        InfoLayout {
            name: 0,
            version: 2,
            arch: 4,
            download: Some(5),
            size: 6,
            repository: 8,
            url: 10,
            license: 11,
            description: 12,
            fields: 13,
        }
    }
}

/// Builds the package that the fields of a record state, the fields given
/// without their labels.
pub fn package_from_fields(fields: &Vec<String>, installed: bool) -> (r: Result<
    Package,
    ParseError,
>)
    ensures
        match r {
            Ok(package) => info_package(texts(fields@), installed) == Ok::<
                PackageView,
                ParseError,
            >(package@),
            Err(e) => info_package(texts(fields@), installed) == Err::<PackageView, ParseError>(e),
        },
{
    let at = layout_of(installed);
    if fields.len() < at.fields {
        return Err(ParseError::MissingField);
    }
    let download = match at.download {
        Some(i) => Some(fields[i].clone()),
        None => None,
    };
    Ok(
        Package {
            name: fields[at.name].clone(),
            arch: fields[at.arch].clone(),
            version: Some(fields[at.version].clone()),
            old_version: None,
            repository: Some(fields[at.repository].clone()),
            size: Some(fields[at.size].clone()),
            download,
            description: Some(fields[at.description].clone()),
            url: Some(fields[at.url].clone()),
            license: Some(fields[at.license].clone()),
            installed,
        },
    )
}

/// Takes the headings off the front of a record, and tells whether the
/// record is one of an installed package.
pub fn strip_headings(part: &str, before: bool) -> (r: (bool, String))
    ensures
        r.0 == installed_after(part@, before),
        r.1@ == record_body(part@),
{
    let mut installed = before;
    let mut body = to_chars(part);
    let heading = to_chars("Installed packages\n");
    if has_prefix(&body, &heading) {
        installed = true;
        body = copy_range(&body, heading.len(), body.len());
    }
    let heading = to_chars("Available packages\n");
    if has_prefix(&body, &heading) {
        installed = false;
        body = copy_range(&body, heading.len(), body.len());
    }
    (installed, from_chars(&body))
}

/// Takes the label off a field: what the label pattern matches is removed.
pub fn clean(to_clean: &str) -> (r: Result<String, ParseError>)
    ensures
        match r {
            Ok(value) => without_matches(label_pattern(), to_clean@) == Ok::<
                Seq<char>,
                ParseError,
            >(value@),
            Err(e) => without_matches(label_pattern(), to_clean@) == Err::<Seq<char>, ParseError>(
                e,
            ),
        },
{
    remove_matches(r"[\S ]*: | +:", to_clean)
}

/// Takes the label off every field.
fn clean_fields(fields: &Vec<String>) -> (r: Result<Vec<String>, ParseError>)
    ensures
        match r {
            Ok(values) => cleaned(texts(fields@), fields@.len()) == Ok::<
                Seq<Seq<char>>,
                ParseError,
            >(texts(values@)),
            Err(e) => cleaned(texts(fields@), fields@.len()) == Err::<Seq<Seq<char>>, ParseError>(
                e,
            ),
        },
{
    let mut values: Vec<String> = Vec::new();
    let ghost all = texts(fields@);
    let mut n: usize = 0;
    assert(texts(values@) =~= Seq::<Seq<char>>::empty());
    while n < fields.len()
        invariant
            n <= fields.len(),
            all == texts(fields@),
            cleaned(all, n as nat) == Ok::<Seq<Seq<char>>, ParseError>(texts(values@)),
        decreases fields.len() - n,
    {
        assert(all[n as int] == fields@[n as int]@);
        match clean(fields[n].as_str()) {
            Err(e) => {
                proof {
                    assert(cleaned(all, (n + 1) as nat) == Err::<Seq<Seq<char>>, ParseError>(e));
                    lemma_cleaned_error_stays(all, (n + 1) as nat, fields@.len());
                }
                return Err(e);
            },
            Ok(value) => {
                let ghost before = values@;
                values.push(value);
                assert(texts(values@) =~= texts(before).push(value@));
            },
        }
        n = n + 1;
    }
    Ok(values)
}

/// Reads one record of `dnf info`.
fn read_record(part: &str, before: bool) -> (r: (bool, Result<Package, ParseError>))
    ensures
        r.0 == installed_after(part@, before),
        match r.1 {
            Ok(package) => info_record(part@, before) == Ok::<PackageView, ParseError>(package@),
            Err(e) => info_record(part@, before) == Err::<PackageView, ParseError>(e),
        },
{
    let (installed, body) = strip_headings(part, before);
    let fields = match split_at_matches(r"\n\S", body.as_str()) {
        Ok(fields) => fields,
        Err(e) => { return (installed, Err(e)); },
    };
    let values = match clean_fields(&fields) {
        Ok(values) => values,
        Err(e) => { return (installed, Err(e)); },
    };
    (installed, package_from_fields(&values, installed))
}

/// Parses the output of `dnf info`.
pub fn parse_info(output: &str) -> (r: Result<PackagesResponse, ParseError>)
    ensures
        match r {
            Ok(res) => info_response(output@) == Ok::<ResponseView, ParseError>(res@)
                && res@.wf(),
            Err(e) => info_response(output@) == Err::<ResponseView, ParseError>(e),
        },
{
    proof {
        lemma_responses_wf(output@);
    }
    let parts = split_at_matches(r"\n\n", output)?;
    let ghost all = texts(parts@);
    let mut packages: Vec<Package> = Vec::new();
    let mut installed = false;
    let mut n: usize = 0;
    assert(package_views(packages@) =~= Seq::<PackageView>::empty());
    while n < parts.len()
        invariant
            n <= parts.len(),
            all == texts(parts@),
            split_matches(record_gap(), output@) == Ok::<Seq<Seq<char>>, ParseError>(all),
            installed == installed_before(all, n as nat),
            info_records(all, n as nat) == Ok::<Seq<PackageView>, ParseError>(
                package_views(packages@),
            ),
        decreases parts.len() - n,
    {
        assert(all[n as int] == parts@[n as int]@);
        let (after, read) = read_record(parts[n].as_str(), installed);
        match read {
            Err(e) => {
                proof {
                    assert(info_records(all, (n + 1) as nat) == Err::<Seq<PackageView>, ParseError>(
                        e,
                    ));
                    lemma_info_error_stays(all, (n + 1) as nat, parts@.len());
                }
                return Err(e);
            },
            Ok(package) => {
                let ghost before = packages@;
                packages.push(package);
                assert(package_views(packages@) =~= package_views(before).push(package@));
            },
        }
        installed = after;
        n = n + 1;
    }
    let mut res = response("info");
    res.packages = packages;
    Ok(res)
}

/// The descriptor of dnf.
pub open spec fn manager_view() -> ManagerView {
    ManagerView {
        manager: "dnf"@,
        family: Family::Dnf,
        list: seq!["list"@],
        list_installed: "--installed"@,
        list_available: "--available"@,
        list_extras: "--extras"@,
        info: seq!["info"@],
        search: seq!["search"@],
        refresh: seq!["check-upgrade"@],
        update: seq![seq!["upgrade"@]],
        update_fake: "--downloadonly"@,
        install: seq!["install"@],
        uninstall: seq!["remove"@],
    }
}

/// The descriptor of dnf.
pub fn manager() -> (m: PackageManager)
    ensures
        m@ == manager_view(),
{
    let m = PackageManager {
        manager: "dnf",
        family: Family::Dnf,
        list: ListArgs {
            command: &["list"],
            installed: "--installed",
            available: "--available",
            extras: "--extras",
        },
        info: InfoArgs { command: &["info"] },
        search: SearchArgs { command: &["search"] },
        refresh_data: RefreshArgs { command: &["check-upgrade"] },
        update: UpdateArgs { commands: &[&["upgrade"]], fake: "--downloadonly" },
        install: InstallArgs { command: &["install"] },
        uninstall: UninstallArgs { command: &["remove"] },
    };
    proof {
        assert(m@.list =~= seq!["list"@]);
        assert(m@.info =~= seq!["info"@]);
        assert(m@.search =~= seq!["search"@]);
        assert(m@.refresh =~= seq!["check-upgrade"@]);
        assert(m@.install =~= seq!["install"@]);
        assert(m@.uninstall =~= seq!["remove"@]);
        assert(m@.update[0] =~= seq!["upgrade"@]);
        assert(m@.update =~= seq![seq!["upgrade"@]]);
    }
    m
}

/// The tally of a headed block holds well-formed packages, and under the
/// `Upgrade` layout installed ones.
pub proof fn lemma_headed_block_wf(
    lines: Seq<Seq<char>>,
    header: Seq<char>,
    rule: RuleView,
    layout: Layout,
)
    ensures
        headed_block(lines, header, rule, layout) matches Ok(t) ==> (forall|i: int|
            0 <= i < t.packages.len() ==> (#[trigger] t.packages[i]).wf()),
{
    let at = position(lines, header, 0);
    if at < lines.len() {
        match block(lines, at + 1, rule) {
            Ok(picked) => {
                lemma_tally_wf(picked, layout, picked.len());
            },
            Err(_) => {},
        }
    }
}

/// The packages of a section of a listing are well formed.
pub proof fn lemma_section_wf(lines: Seq<Seq<char>>, name: Seq<char>, installed: bool)
    ensures
        section(lines, name, installed) matches Ok(packages) ==> (forall|i: int|
            0 <= i < packages.len() ==> (#[trigger] packages[i]).wf()),
{
    match block(lines, position(lines, name, 0) + 1, list_rule()) {
        Ok(picked) => {
            lemma_tally_wf(picked, Layout::Listed { installed }, picked.len());
        },
        Err(_) => {},
    }
}

/// No record of `dnf info` states a former version.
pub proof fn lemma_info_records_wf(parts: Seq<Seq<char>>, n: nat)
    ensures
        info_records(parts, n) matches Ok(packages) ==> (forall|i: int|
            0 <= i < packages.len() ==> (#[trigger] packages[i]).wf()),
    decreases n,
{
    if n > 0 {
        lemma_info_records_wf(parts, (n - 1) as nat);
    }
}

/// Every response that a parser of dnf gives is well formed: a count that
/// it states is the length of its list, and a former version is stated only
/// of an installed package.
pub proof fn lemma_responses_wf(text: Seq<char>)
    ensures
        list_response(text) matches Ok(res) ==> res.wf(),
        info_response(text) matches Ok(res) ==> res.wf(),
        search_response(text) matches Ok(res) ==> res.wf(),
        refresh_response().wf(),
        update_response(text) matches Ok(res) ==> res.wf(),
        install_response(text) matches Ok(res) ==> res.wf(),
        uninstall_response(text) matches Ok(res) ==> res.wf(),
{
    let all = lines(text);
    lemma_section_wf(all, "Installed packages"@, true);
    lemma_section_wf(all, "Available packages"@, false);
    lemma_section_wf(all, "Extra packages"@, true);
    match split_matches(record_gap(), text) {
        Ok(parts) => {
            lemma_info_records_wf(parts, parts.len());
        },
        Err(_) => {},
    }
    match block(all, search_start(text), search_rule()) {
        Ok(picked) => {
            lemma_tally_wf(picked, Layout::Found, picked.len());
        },
        Err(_) => {},
    }
    lemma_headed_block_wf(all, "Removing:"@, removing_rule(), Layout::Sized { installed: false });
    lemma_headed_block_wf(all, "Upgrading:"@, upgrading_rule(), Layout::Upgrade);
    lemma_headed_block_wf(
        all,
        "Installing:"@,
        installing_rule(),
        Layout::Sized { installed: true },
    );
    lemma_headed_block_wf(
        all,
        "Removing:"@,
        uninstalling_rule(),
        Layout::Sized { installed: true },
    );
}

} // verus!
