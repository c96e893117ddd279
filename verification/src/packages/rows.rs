//! Blocks of package lines and the records read from them.
//!
//! A parser first picks the lines of a block (`block`), guided by a
//! `BlockRule`, and reads them one by one against a `Layout` (`row`). Reading
//! a block keeps a `Tally`: the packages so far and the sizes they add up to.

use super::{Package, PackageView, ParseError, package_views};
use crate::size::{byte_size, size_of, ByteSize, SizeError, MAX_AMOUNT};
use crate::text::{
    contains, copy_range, from_chars, has_phrase, has_prefix, pieces, same_text, split_on,
    split_words, starts_with, to_chars, trim_start, trimmed_start, views, words,
};
use vstd::prelude::*;

verus! {

/// The index of the first line at or after `from` that holds `phrase`, or the
/// number of lines if there is none.
pub open spec fn position(lines: Seq<Seq<char>>, phrase: Seq<char>, from: int) -> int
    decreases lines.len() - from,
{
    if from >= lines.len() {
        lines.len() as int
    } else if contains(lines[from], phrase) {
        from
    } else {
        position(lines, phrase, from + 1)
    }
}

/// `line` holds at least one of `phrases`.
pub open spec fn holds_any(line: Seq<char>, phrases: Seq<Seq<char>>) -> bool {
    exists|i: int| 0 <= i < phrases.len() && contains(line, #[trigger] phrases[i])
}

/// What ends a block, besides the end of the text.
#[derive(Clone, Copy, Debug, PartialEq, Eq, Structural)]
pub enum Stop {
    /// An empty line.
    Blank,
    /// A line that does not begin with a space.
    Unindented,
}

/// How the lines of a block are told from the lines around them.
pub struct BlockRule {
    /// Lines that hold one of these phrases are passed over.
    pub skip: Vec<Vec<char>>,
    /// The kind of line that ends the block.
    pub stop: Stop,
    /// Lines that hold one of these phrases end the block too.
    pub headers: Vec<Vec<char>>,
    /// Whether the text may not end before a line has ended the block.
    pub closed: bool,
}

/// The mathematical value of a `BlockRule`.
pub struct RuleView {
    pub skip: Seq<Seq<char>>,
    pub stop: Stop,
    pub headers: Seq<Seq<char>>,
    pub closed: bool,
}

impl View for BlockRule {
    type V = RuleView;

    open spec fn view(&self) -> RuleView {
        RuleView {
            skip: views(self.skip@),
            stop: self.stop,
            headers: views(self.headers@),
            closed: self.closed,
        }
    }
}

/// The part that a line plays in a block.
#[derive(Clone, Copy, Debug, PartialEq, Eq, Structural)]
pub enum LineKind {
    /// The line is passed over.
    Skip,
    /// The line ends the block and is not part of it.
    End,
    /// The line is a row of the block.
    Row,
}

/// `line` is of the kind that ends a block.
pub open spec fn stops(line: Seq<char>, stop: Stop) -> bool {
    match stop {
        Stop::Blank => line.len() == 0,
        Stop::Unindented => !starts_with(line, seq![' ']),
    }
}

/// The part that `line` plays in a block read by `rule`. Passing over comes
/// first: a line that holds a phrase to skip never ends the block.
pub open spec fn kind_of(line: Seq<char>, rule: RuleView) -> LineKind {
    if holds_any(line, rule.skip) {
        LineKind::Skip
    } else if stops(line, rule.stop) || holds_any(line, rule.headers) {
        LineKind::End
    } else {
        LineKind::Row
    }
}

/// The rows of the block that begins at line `from`: the lines up to the
/// first that ends the block, without those passed over. Where the text ends
/// first, the block ends there, unless the rule asks for a closing line.
pub open spec fn block(lines: Seq<Seq<char>>, from: int, rule: RuleView) -> Result<
    Seq<Seq<char>>,
    ParseError,
>
    decreases lines.len() - from,
{
    if from >= lines.len() {
        if rule.closed {
            Err(ParseError::UnexpectedEnd)
        } else {
            Ok(Seq::empty())
        }
    } else {
        match kind_of(lines[from], rule) {
            LineKind::End => Ok(Seq::empty()),
            LineKind::Skip => block(lines, from + 1, rule),
            LineKind::Row => match block(lines, from + 1, rule) {
                Ok(rest) => Ok(seq![lines[from]] + rest),
                Err(e) => Err(e),
            },
        }
    }
}

/// `rest` with `done` in front of it, where `rest` is not an error.
pub open spec fn after(done: Seq<Seq<char>>, rest: Result<Seq<Seq<char>>, ParseError>) -> Result<
    Seq<Seq<char>>,
    ParseError,
> {
    match rest {
        Ok(more) => Ok(done + more),
        Err(e) => Err(e),
    }
}

/// The fixed positions at which a row states its fields.
#[derive(Clone, Copy, Debug, PartialEq, Eq, Structural)]
pub enum Layout {
    /// `name.arch version repository`, in words.
    Listed { installed: bool },
    /// `name.arch: description`.
    Found,
    /// `name arch version repository figure unit`, in words.
    Sized { installed: bool },
    /// As `Sized` and installed, or a line whose first word is `replacing`:
    /// `replacing name arch version repository figure unit`.
    Upgrade,
}

/// What one row states.
pub enum RowView {
    /// A package, and the size that it counts for.
    Package { package: PackageView, size: nat },
    /// The version and the size of what the package before it replaces.
    Replace { old_version: Seq<char>, size: nat },
}

/// The first word of a line that annotates the package before it.
pub open spec fn replacing_word() -> Seq<char> {
    "replacing"@
}

/// The error that stands for a size that could not be read.
pub open spec fn size_error(e: SizeError) -> ParseError {
    match e {
        SizeError::NotANumber => ParseError::BadSize,
        SizeError::TooLarge => ParseError::SizeTooLarge,
    }
}

/// The package row that the words `w` state in the `Sized` layout.
pub open spec fn sized_row(w: Seq<Seq<char>>, installed: bool) -> Result<RowView, ParseError> {
    if w.len() < 6 {
        Err(ParseError::MissingField)
    } else {
        match size_of(w[4], w[5]) {
            Err(e) => Err(size_error(e)),
            Ok(size) => Ok(
                RowView::Package {
                    package: PackageView {
                        version: Some(w[2]),
                        repository: Some(w[3]),
                        size: Some(w[4] + seq![' '] + w[5]),
                        ..PackageView::bare(w[0], w[1], installed)
                    },
                    size,
                },
            ),
        }
    }
}

/// What `line` states when read against `layout`.
pub open spec fn row(line: Seq<char>, layout: Layout) -> Result<RowView, ParseError> {
    let w = words(line);
    match layout {
        Layout::Listed { installed } => {
            if w.len() < 3 || pieces(w[0], '.').len() < 2 {
                Err(ParseError::MissingField)
            } else {
                Ok(
                    RowView::Package {
                        package: PackageView {
                            version: Some(w[1]),
                            repository: Some(w[2]),
                            ..PackageView::bare(
                                pieces(w[0], '.')[0],
                                pieces(w[0], '.')[1],
                                installed,
                            )
                        },
                        size: 0,
                    },
                )
            }
        },
        Layout::Found => {
            let halves = pieces(line, ':');
            let head = pieces(halves[0], '.');
            if halves.len() < 2 || head.len() < 2 {
                Err(ParseError::MissingField)
            } else {
                Ok(
                    RowView::Package {
                        package: PackageView {
                            description: Some(trimmed_start(halves[1])),
                            ..PackageView::bare(trimmed_start(head[0]), head[1], false)
                        },
                        size: 0,
                    },
                )
            }
        },
        Layout::Sized { installed } => sized_row(w, installed),
        Layout::Upgrade => {
            if w.len() == 0 {
                Err(ParseError::MissingField)
            } else if w[0] == replacing_word() {
                if w.len() < 7 {
                    Err(ParseError::MissingField)
                } else {
                    match size_of(w[5], w[6]) {
                        Err(e) => Err(size_error(e)),
                        Ok(size) => Ok(RowView::Replace { old_version: w[3], size }),
                    }
                }
            } else {
                sized_row(w, true)
            }
        },
    }
}

/// The packages read from a block so far, and what their sizes add up to.
pub struct Tally {
    /// The packages, in the order of their rows.
    pub packages: Seq<PackageView>,
    /// The sum of the sizes of the package rows.
    pub gained: nat,
    /// The sum of the sizes of the `replacing` rows.
    pub replaced: nat,
}

/// `package` with its former version stated.
pub open spec fn with_old_version(package: PackageView, old_version: Seq<char>) -> PackageView {
    PackageView { old_version: Some(old_version), ..package }
}

/// The tally after the first `n` of `lines` have been read against `layout`.
/// A package row adds its package. A `replacing` row states the former
/// version of the package added last, and is an error where there is none.
/// The first line that cannot be read, or that has nothing to annotate,
/// decides the error.
pub open spec fn tally(lines: Seq<Seq<char>>, layout: Layout, n: nat) -> Result<Tally, ParseError>
    decreases n,
{
    if n == 0 {
        Ok(Tally { packages: Seq::empty(), gained: 0, replaced: 0 })
    } else {
        match tally(lines, layout, (n - 1) as nat) {
            Err(e) => Err(e),
            Ok(t) => match row(lines[n - 1], layout) {
                Err(e) => Err(e),
                Ok(RowView::Package { package, size }) => Ok(
                    Tally { packages: t.packages.push(package), gained: t.gained + size, ..t },
                ),
                Ok(RowView::Replace { old_version, size }) => {
                    if t.packages.len() == 0 {
                        Err(ParseError::DanglingReplace)
                    } else {
                        Ok(
                            Tally {
                                packages: t.packages.update(
                                    t.packages.len() - 1,
                                    with_old_version(t.packages.last(), old_version),
                                ),
                                replaced: t.replaced + size,
                                ..t
                            },
                        )
                    }
                },
            },
        }
    }
}

/// The tally of a whole block.
pub open spec fn block_tally(lines: Seq<Seq<char>>, layout: Layout) -> Result<Tally, ParseError> {
    tally(lines, layout, lines.len())
}

/// An error met on the way stays the result.
pub proof fn lemma_tally_error_stays(lines: Seq<Seq<char>>, layout: Layout, k: nat, n: nat)
    requires
        k <= n,
        tally(lines, layout, k) is Err,
    ensures
        tally(lines, layout, n) == tally(lines, layout, k),
    decreases n,
{
    if k < n {
        lemma_tally_error_stays(lines, layout, k, (n - 1) as nat);
    }
}

/// Every package of a tally is well formed: a former version is stated only
/// by a `replacing` row, and only the `Upgrade` layout has such rows, whose
/// packages are all installed.
pub proof fn lemma_tally_wf(lines: Seq<Seq<char>>, layout: Layout, n: nat)
    ensures
        tally(lines, layout, n) matches Ok(t) ==> (forall|i: int|
            0 <= i < t.packages.len() ==> (#[trigger] t.packages[i]).wf() && (layout
                == Layout::Upgrade ==> t.packages[i].installed)),
    decreases n,
{
    if n > 0 {
        lemma_tally_wf(lines, layout, (n - 1) as nat);
    }
}

/// A row as it was read.
pub enum Row {
    Package { package: Package, size: ByteSize },
    Replace { old_version: String, size: ByteSize },
}

impl View for Row {
    type V = RowView;

    open spec fn view(&self) -> RowView {
        match self {
            Row::Package { package, size } => RowView::Package { package: package@, size: size@ },
            Row::Replace { old_version, size } => RowView::Replace {
                old_version: old_version@,
                size: size@,
            },
        }
    }
}

/// A sum of sizes: `None` where the sum is larger than can be held.
pub open spec fn held(sum: nat, total: Option<ByteSize>) -> bool {
    match total {
        Some(size) => size@ == sum,
        None => sum > MAX_AMOUNT,
    }
}

/// The packages of a block and the totals of its sizes, as they were read.
pub struct BlockTally {
    pub packages: Vec<Package>,
    pub gained: Option<ByteSize>,
    pub replaced: Option<ByteSize>,
}

impl BlockTally {
    /// What was read is the tally `t`.
    pub open spec fn agrees_with(&self, t: Tally) -> bool {
        &&& package_views(self.packages@) == t.packages
        &&& held(t.gained, self.gained)
        &&& held(t.replaced, self.replaced)
    }
}

/// Finds the first line that holds `phrase`.
pub fn find_line(lines: &Vec<Vec<char>>, phrase: &Vec<char>) -> (at: usize)
    ensures
        at == position(views(lines@), phrase@, 0),
        at <= lines.len(),
{
    let mut at: usize = 0;
    while at < lines.len() && !has_phrase(&lines[at], phrase)
        invariant
            at <= lines.len(),
            position(views(lines@), phrase@, at as int) == position(views(lines@), phrase@, 0),
        decreases lines.len() - at,
    {
        at = at + 1;
    }
    at
}

/// Tests whether `line` holds one of `phrases`.
pub fn has_any(line: &Vec<char>, phrases: &Vec<Vec<char>>) -> (b: bool)
    ensures
        b == holds_any(line@, views(phrases@)),
{
    let mut i: usize = 0;
    while i < phrases.len()
        invariant
            i <= phrases.len(),
            forall|j: int| 0 <= j < i ==> !contains(line@, #[trigger] views(phrases@)[j]),
        decreases phrases.len() - i,
    {
        if has_phrase(line, &phrases[i]) {
            assert(contains(line@, views(phrases@)[i as int]));
            return true;
        }
        i = i + 1;
    }
    false
}

/// Tells the part that `line` plays in a block read by `rule`.
pub fn classify(line: &Vec<char>, rule: &BlockRule) -> (kind: LineKind)
    ensures
        kind == kind_of(line@, rule@),
{
    if has_any(line, &rule.skip) {
        return LineKind::Skip;
    }
    let stopped = match rule.stop {
        Stop::Blank => line.len() == 0,
        Stop::Unindented => {
            let space: Vec<char> = vec![' '];
            assert(space@ =~= seq![' ']);
            !has_prefix(line, &space)
        },
    };
    if stopped || has_any(line, &rule.headers) {
        LineKind::End
    } else {
        LineKind::Row
    }
}

/// Picks the rows of the block that begins at line `from`.
pub fn take_block(lines: &Vec<Vec<char>>, from: usize, rule: &BlockRule) -> (r: Result<
    Vec<Vec<char>>,
    ParseError,
>)
    ensures
        match r {
            Ok(picked) => block(views(lines@), from as int, rule@) == Ok::<
                Seq<Seq<char>>,
                ParseError,
            >(views(picked@)),
            Err(e) => block(views(lines@), from as int, rule@) == Err::<Seq<Seq<char>>, ParseError>(
                e,
            ),
        },
{
    let mut picked: Vec<Vec<char>> = Vec::new();
    let mut at: usize = from;
    let ghost all = views(lines@);
    assert(views(picked@) + Seq::<Seq<char>>::empty() =~= Seq::<Seq<char>>::empty());
    assert(forall|rest: Seq<Seq<char>>| views(picked@) + rest =~= rest);
    while at < lines.len()
        invariant
            from <= at,
            all == views(lines@),
            after(views(picked@), block(all, at as int, rule@)) == block(all, from as int, rule@),
        decreases lines.len() - at,
    {
        let line = &lines[at];
        assert(all[at as int] == line@);
        match classify(line, rule) {
            LineKind::End => {
                assert(views(picked@) + Seq::<Seq<char>>::empty() =~= views(picked@));
                return Ok(picked);
            },
            LineKind::Skip => {},
            LineKind::Row => {
                let copy = copy_range(line, 0, line.len());
                assert(copy@ =~= line@);
                let ghost before = picked@;
                picked.push(copy);
                proof {
                    assert(views(picked@) =~= views(before).push(line@));
                    match block(all, at + 1, rule@) {
                        Ok(rest) => {
                            assert(views(picked@) + rest =~= views(before) + (seq![line@] + rest));
                        },
                        Err(_) => {},
                    }
                }
            },
        }
        at = at + 1;
    }
    if rule.closed {
        Err(ParseError::UnexpectedEnd)
    } else {
        assert(views(picked@) + Seq::<Seq<char>>::empty() =~= views(picked@));
        Ok(picked)
    }
}

/// The figure and the unit of a size, joined by one space.
fn size_text(value: &Vec<char>, unit: &Vec<char>) -> (s: String)
    ensures
        s@ == value@ + seq![' '] + unit@,
{
    let mut joined = copy_range(value, 0, value.len());
    joined.push(' ');
    let mut i: usize = 0;
    while i < unit.len()
        invariant
            i <= unit.len(),
            joined@ == value@ + seq![' '] + unit@.take(i as int),
        decreases unit.len() - i,
    {
        joined.push(unit[i]);
        assert(unit@.take(i + 1) =~= unit@.take(i as int).push(unit@[i as int]));
        i = i + 1;
    }
    assert(unit@.take(i as int) =~= unit@);
    from_chars(&joined)
}

/// A package of which only name and architecture are stated.
pub fn bare_package(name: String, arch: String, installed: bool) -> (package: Package)
    ensures
        package@ == PackageView::bare(name@, arch@, installed),
{
    Package {
        name,
        arch,
        version: None,
        old_version: None,
        repository: None,
        size: None,
        download: None,
        description: None,
        url: None,
        license: None,
        installed,
    }
}

/// Reads the size that two words state.
fn read_size(value: &Vec<char>, unit: &Vec<char>) -> (r: Result<ByteSize, ParseError>)
    ensures
        match r {
            Ok(size) => size_of(value@, unit@) == Ok::<nat, SizeError>(size@),
            Err(e) => size_of(value@, unit@) matches Err(cause) && e == size_error(cause),
        },
{
    match byte_size(value, unit) {
        Ok(size) => Ok(size),
        Err(SizeError::NotANumber) => Err(ParseError::BadSize),
        Err(SizeError::TooLarge) => Err(ParseError::SizeTooLarge),
    }
}

/// Reads a package row in the `Sized` layout from its words.
fn read_sized(w: &Vec<Vec<char>>, installed: bool) -> (r: Result<Row, ParseError>)
    ensures
        match r {
            Ok(found) => sized_row(views(w@), installed) == Ok::<RowView, ParseError>(found@),
            Err(e) => sized_row(views(w@), installed) == Err::<RowView, ParseError>(e),
        },
{
    if w.len() < 6 {
        return Err(ParseError::MissingField);
    }
    let size = read_size(&w[4], &w[5])?;
    let mut package = bare_package(from_chars(&w[0]), from_chars(&w[1]), installed);
    package.version = Some(from_chars(&w[2]));
    package.repository = Some(from_chars(&w[3]));
    package.size = Some(size_text(&w[4], &w[5]));
    Ok(Row::Package { package, size })
}

/// Reads one row against `layout`.
pub fn read_row(line: &Vec<char>, layout: Layout) -> (r: Result<Row, ParseError>)
    ensures
        match r {
            Ok(found) => row(line@, layout) == Ok::<RowView, ParseError>(found@),
            Err(e) => row(line@, layout) == Err::<RowView, ParseError>(e),
        },
{
    match layout {
        Layout::Listed { installed } => {
            let w = split_words(line);
            if w.len() < 3 {
                return Err(ParseError::MissingField);
            }
            let head = split_on(&w[0], '.');
            if head.len() < 2 {
                return Err(ParseError::MissingField);
            }
            let mut package = bare_package(from_chars(&head[0]), from_chars(&head[1]), installed);
            package.version = Some(from_chars(&w[1]));
            package.repository = Some(from_chars(&w[2]));
            Ok(Row::Package { package, size: ByteSize::zero() })
        },
        Layout::Found => {
            let halves = split_on(line, ':');
            if halves.len() < 2 {
                return Err(ParseError::MissingField);
            }
            let head = split_on(&halves[0], '.');
            if head.len() < 2 {
                return Err(ParseError::MissingField);
            }
            let name = trim_start(&head[0]);
            let description = trim_start(&halves[1]);
            let mut package = bare_package(from_chars(&name), from_chars(&head[1]), false);
            package.description = Some(from_chars(&description));
            Ok(Row::Package { package, size: ByteSize::zero() })
        },
        Layout::Sized { installed } => {
            let w = split_words(line);
            read_sized(&w, installed)
        },
        Layout::Upgrade => {
            let w = split_words(line);
            if w.len() == 0 {
                return Err(ParseError::MissingField);
            }
            let mark = to_chars("replacing");
            if same_text(&w[0], &mark) {
                if w.len() < 7 {
                    return Err(ParseError::MissingField);
                }
                let size = read_size(&w[5], &w[6])?;
                Ok(Row::Replace { old_version: from_chars(&w[3]), size })
            } else {
                read_sized(&w, true)
            }
        },
    }
}

/// Adds `size` to a running total that may already be out of range.
fn add_held(total: Option<ByteSize>, size: &ByteSize, Ghost(sum): Ghost<nat>) -> (r: Option<
    ByteSize,
>)
    requires
        held(sum, total),
    ensures
        held(sum + size@, r),
{
    match total {
        Some(sofar) => sofar.plus(size),
        None => None,
    }
}

/// Reads the rows of a block against `layout` and keeps their tally.
pub fn read_rows(lines: &Vec<Vec<char>>, layout: Layout) -> (r: Result<BlockTally, ParseError>)
    ensures
        match r {
            Ok(read) => block_tally(views(lines@), layout) matches Ok(t) && read.agrees_with(t),
            Err(e) => block_tally(views(lines@), layout) == Err::<Tally, ParseError>(e),
        },
{
    let mut packages: Vec<Package> = Vec::new();
    let mut gained: Option<ByteSize> = Some(ByteSize::zero());
    let mut replaced: Option<ByteSize> = Some(ByteSize::zero());
    let ghost all = views(lines@);
    let mut n: usize = 0;
    assert(package_views(packages@) =~= Seq::<PackageView>::empty());
    while n < lines.len()
        invariant
            n <= lines.len(),
            all == views(lines@),
            tally(all, layout, n as nat) matches Ok(t) && package_views(packages@) == t.packages
                && held(t.gained, gained) && held(t.replaced, replaced),
        decreases lines.len() - n,
    {
        let ghost t = tally(all, layout, n as nat)->Ok_0;
        assert(all[n as int] == lines@[n as int]@);
        match read_row(&lines[n], layout) {
            Err(e) => {
                proof {
                    assert(tally(all, layout, (n + 1) as nat) == Err::<Tally, ParseError>(e));
                    lemma_tally_error_stays(all, layout, (n + 1) as nat, lines@.len());
                }
                return Err(e);
            },
            Ok(Row::Package { package, size }) => {
                let ghost before = packages@;
                gained = add_held(gained, &size, Ghost(t.gained));
                packages.push(package);
                assert(package_views(packages@) =~= package_views(before).push(package@));
            },
            Ok(Row::Replace { old_version, size }) => {
                let ghost before = packages@;
                match packages.pop() {
                    None => {
                        proof {
                            assert(tally(all, layout, (n + 1) as nat) == Err::<Tally, ParseError>(
                                ParseError::DanglingReplace,
                            ));
                            lemma_tally_error_stays(all, layout, (n + 1) as nat, lines@.len());
                        }
                        return Err(ParseError::DanglingReplace);
                    },
                    Some(mut last) => {
                        let ghost old_last = last@;
                        last.old_version = Some(old_version);
                        assert(last@ == with_old_version(old_last, old_version@));
                        replaced = add_held(replaced, &size, Ghost(t.replaced));
                        packages.push(last);
                        assert(package_views(packages@) =~= package_views(before).update(
                            before.len() - 1,
                            last@,
                        ));
                    },
                }
            },
        }
        n = n + 1;
    }
    Ok(BlockTally { packages, gained, replaced })
}

} // verus!
