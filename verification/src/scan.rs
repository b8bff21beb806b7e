//! Scanning a directory: which of its children are listed, as what, and in
//! which order. The caller reads the directory and probes the files; what it
//! found comes in as plain values, and the rules are applied here.

use crate::entries::{dir_name_key, file_name_key, DirItem, DirItemView, FileItem, FileItemView};
use crate::errors::{CommandError, CommandErrorText};
use crate::identity::{derive_identity, derived_id, md5_digest};
use crate::sorting::{
    is_natural_sort, lemma_natural_sort_is_unique, lemma_natural_sort_of_views,
    lemma_natural_sort_rearranges, name_key, sort_by_name, views,
};
use crate::text::same_text;
use vstd::prelude::*;
use vstd::seq_lib::*;
use vstd::string::*;

verus! {

/// What kind of thing a child of a directory is.
#[derive(Debug, Clone, Copy, PartialEq, Eq)]
pub enum EntryKind {
    /// A regular file.
    File,
    /// A directory.
    Directory,
    /// Anything else.
    Other,
}

/// What to do with an entry that cannot be listed properly.
#[derive(Debug, Clone, Copy, PartialEq, Eq)]
pub enum ScanPolicy {
    /// The first such entry fails the whole scan.
    Strict,
    /// Such an entry is left out and the scan goes on.
    Lenient,
}

/// One child of a directory, as the caller found it.
#[derive(Debug, Clone, PartialEq)]
pub struct ChildEntry {
    /// The child's name, where it is text.
    pub name: Option<String>,
    /// The child's absolute path, where it is text.
    pub path: Option<String>,
    /// What kind of thing the child is.
    pub kind: EntryKind,
    /// Width and height in pixels, where the child's content reads as an
    /// image.
    pub dimensions: Option<(u32, u32)>,
}

/// What a `ChildEntry` holds, as mathematical text and numbers.
pub struct ChildEntryView {
    pub name: Option<Seq<char>>,
    pub path: Option<Seq<char>>,
    pub kind: EntryKind,
    pub dimensions: Option<(u32, u32)>,
}

/// The text of a string that may be missing.
pub open spec fn text_of(text: Option<String>) -> Option<Seq<char>> {
    match text {
        Some(text) => Some(text@),
        None => None,
    }
}

impl View for ChildEntry {
    type V = ChildEntryView;

    open spec fn view(&self) -> ChildEntryView {
        ChildEntryView {
            name: text_of(self.name),
            path: text_of(self.path),
            kind: self.kind,
            dimensions: self.dimensions,
        }
    }
}

/// Whether a name marks its entry as hidden: it begins with a dot or a dollar
/// sign.
pub open spec fn is_hidden_name(name: Seq<char>) -> bool {
    name.len() > 0 && (name[0] == '.' || name[0] == '$')
}

impl ChildEntryView {
    /// Whether the entry is hidden. An entry without a name in text is not.
    pub open spec fn is_hidden(self) -> bool {
        self.name matches Some(name) && is_hidden_name(name)
    }

    /// Whether the entry is the root of the filesystem.
    pub open spec fn is_root(self) -> bool {
        self.path == Some("/"@)
    }
}

/// One step of reading a directory: an entry, or what the operating system
/// said when the entry could not be read.
pub type Listed = Result<ChildEntry, String>;

/// What reading a directory gave: its entries in the order in which they came,
/// or what the operating system said when the directory could not be read.
pub type Listing = Result<Vec<Listed>, String>;

/// One step of reading a directory, as mathematical values.
pub open spec fn listed_view(listed: Listed) -> Result<ChildEntryView, Seq<char>> {
    match listed {
        Ok(entry) => Ok(entry@),
        Err(cause) => Err(cause@),
    }
}

/// The steps of reading a directory, as mathematical values.
pub open spec fn listing_views(entries: Seq<Listed>) -> Seq<Result<ChildEntryView, Seq<char>>> {
    entries.map_values(|listed: Listed| listed_view(listed))
}

/// What the scan decides about one entry.
pub enum Verdict<V> {
    /// The entry is left out.
    Skip,
    /// The entry fails the scan.
    Fail(CommandErrorText),
    /// The entry is listed as this item.
    Keep(V),
}

impl<V> Verdict<V> {
    /// The item, where the entry is listed.
    pub open spec fn kept(self) -> Option<V> {
        match self {
            Verdict::Keep(item) => Some(item),
            _ => None,
        }
    }
}

/// What becomes of an entry that cannot be listed properly: under the strict
/// policy it fails the scan, under the lenient one it is left out.
pub open spec fn refused<V>(policy: ScanPolicy, error: CommandErrorText) -> Verdict<V> {
    match policy {
        ScanPolicy::Strict => Verdict::Fail(error),
        ScanPolicy::Lenient => Verdict::Skip,
    }
}

/// The item under which an image file is listed: its identifier is derived
/// from its path, and `dimensions` holds its width and then its height.
pub open spec fn listed_file(name: Seq<char>, path: Seq<char>, dimensions: (u32, u32)) -> FileItemView {
    FileItemView {
        id: derived_id(md5_digest(path)),
        filename: name,
        path: path,
        height: dimensions.1,
        width: dimensions.0,
    }
}

/// The item under which a child directory is listed: its identifier is derived
/// from its path, and it is no volume root.
pub open spec fn listed_dir(name: Seq<char>, path: Seq<char>) -> DirItemView {
    DirItemView { id: derived_id(md5_digest(path)), dirname: name, path: path, root: false }
}

/// What a scan for image files decides about one entry. An entry that could
/// not be read fails the scan under either policy. Hidden entries and entries
/// that are no regular files are left out. A file is refused where its content
/// does not read as an image, or its name or path is not text. Any other file
/// is listed, under the identifier derived from its path.
pub open spec fn file_verdict(listed: Result<ChildEntryView, Seq<char>>, policy: ScanPolicy) -> Verdict<
    FileItemView,
> {
    match listed {
        Err(cause) => Verdict::Fail(CommandErrorText::ReadEntry(cause)),
        Ok(entry) => if entry.is_hidden() || !(entry.kind is File) {
            Verdict::Skip
        } else if entry.dimensions is None {
            refused(policy, CommandErrorText::NotAnImage(entry.path))
        } else if entry.name is None {
            refused(policy, CommandErrorText::MissingFileName)
        } else if entry.path is None {
            refused(policy, CommandErrorText::MissingFilePath)
        } else {
            Verdict::Keep(listed_file(entry.name->0, entry.path->0, entry.dimensions->0))
        },
    }
}

/// What a scan for child directories of `target` decides about one entry. An
/// entry that could not be read fails the scan under either policy. Hidden
/// entries, entries that are no directories, the root of the filesystem and
/// the scanned directory itself are left out. A directory is refused where its
/// name or path is not text. Any other directory is listed, under the
/// identifier derived from its path, and not as a volume root.
pub open spec fn dir_verdict(
    listed: Result<ChildEntryView, Seq<char>>,
    target: Seq<char>,
    policy: ScanPolicy,
) -> Verdict<DirItemView> {
    match listed {
        Err(cause) => Verdict::Fail(CommandErrorText::ReadEntry(cause)),
        Ok(entry) => if entry.is_hidden() || !(entry.kind is Directory) {
            Verdict::Skip
        } else if entry.is_root() || entry.path == Some(target) {
            Verdict::Skip
        } else if entry.name is None {
            refused(policy, CommandErrorText::MissingDirectoryName)
        } else if entry.path is None {
            refused(policy, CommandErrorText::MissingDirectoryPath)
        } else {
            Verdict::Keep(listed_dir(entry.name->0, entry.path->0))
        },
    }
}

/// The verdicts of a scan for image files, entry by entry.
pub open spec fn file_verdicts(
    listing: Seq<Result<ChildEntryView, Seq<char>>>,
    policy: ScanPolicy,
) -> Seq<Verdict<FileItemView>> {
    listing.map_values(|listed: Result<ChildEntryView, Seq<char>>| file_verdict(listed, policy))
}

/// The verdicts of a scan for child directories, entry by entry.
pub open spec fn dir_verdicts(
    listing: Seq<Result<ChildEntryView, Seq<char>>>,
    target: Seq<char>,
    policy: ScanPolicy,
) -> Seq<Verdict<DirItemView>> {
    listing.map_values(
        |listed: Result<ChildEntryView, Seq<char>>| dir_verdict(listed, target, policy),
    )
}

/// The error of the first entry that fails the scan, if any does.
pub open spec fn first_failure<V>(verdicts: Seq<Verdict<V>>) -> Option<CommandErrorText>
    decreases verdicts.len(),
{
    if verdicts.len() == 0 {
        None
    } else {
        match verdicts[0] {
            Verdict::Fail(error) => Some(error),
            _ => first_failure(verdicts.drop_first()),
        }
    }
}

/// The function that picks the listed item out of a verdict.
pub open spec fn kept_of<V>() -> spec_fn(Verdict<V>) -> Option<V> {
    |verdict: Verdict<V>| verdict.kept()
}

/// The items that are listed, in the order of their entries.
pub open spec fn kept<V>(verdicts: Seq<Verdict<V>>) -> Seq<V> {
    verdicts.filter_map(kept_of())
}

/// What a scan returns, given its verdicts: the first failure where there is
/// one, else the listed items sorted by name.
pub open spec fn is_scan_result<V>(
    verdicts: Seq<Verdict<V>>,
    name_of: spec_fn(V) -> Seq<char>,
    result: Result<Seq<V>, CommandErrorText>,
) -> bool {
    match first_failure(verdicts) {
        Some(error) => result == Err::<Seq<V>, CommandErrorText>(error),
        None => result matches Ok(items) && is_natural_sort(items, kept(verdicts), name_of),
    }
}

/// What a scan for image files returns.
pub open spec fn is_file_scan_result(
    listing: Result<Seq<Result<ChildEntryView, Seq<char>>>, Seq<char>>,
    policy: ScanPolicy,
    result: Result<Seq<FileItemView>, CommandErrorText>,
) -> bool {
    match listing {
        Err(cause) => result == Err::<Seq<FileItemView>, CommandErrorText>(
            CommandErrorText::ReadDirectory(cause),
        ),
        Ok(entries) => is_scan_result(file_verdicts(entries, policy), file_name_key(), result),
    }
}

/// What a scan for child directories returns.
pub open spec fn is_dir_scan_result(
    listing: Result<Seq<Result<ChildEntryView, Seq<char>>>, Seq<char>>,
    target: Seq<char>,
    policy: ScanPolicy,
    result: Result<Seq<DirItemView>, CommandErrorText>,
) -> bool {
    match listing {
        Err(cause) => result == Err::<Seq<DirItemView>, CommandErrorText>(
            CommandErrorText::ReadDirectory(cause),
        ),
        Ok(entries) => is_scan_result(
            dir_verdicts(entries, target, policy),
            dir_name_key(),
            result,
        ),
    }
}

/// What reading a directory gave, as mathematical values.
pub open spec fn listing_view(listing: Listing) -> Result<
    Seq<Result<ChildEntryView, Seq<char>>>,
    Seq<char>,
> {
    match listing {
        Ok(entries) => Ok(listing_views(entries@)),
        Err(cause) => Err(cause@),
    }
}

/// What a scan returned, as mathematical values.
pub open spec fn result_view<T: View>(result: Result<Vec<T>, CommandError>) -> Result<
    Seq<T::V>,
    CommandErrorText,
> {
    match result {
        Ok(items) => Ok(views(items@)),
        Err(error) => Err(error@),
    }
}

/// What the scan does with one entry.
pub enum Step<T> {
    /// The entry is left out.
    Skip,
    /// The entry fails the scan.
    Fail(CommandError),
    /// The entry is listed as this item.
    Keep(T),
}

impl<T: View> View for Step<T> {
    type V = Verdict<T::V>;

    open spec fn view(&self) -> Verdict<T::V> {
        match self {
            Step::Skip => Verdict::Skip,
            Step::Fail(error) => Verdict::Fail(error@),
            Step::Keep(item) => Verdict::Keep(item@),
        }
    }
}

/// Refuses an entry as the policy says.
fn refuse<T: View>(policy: ScanPolicy, error: CommandError) -> (step: Step<T>)
    ensures
        step@ == refused::<T::V>(policy, error@),
{
    match policy {
        ScanPolicy::Strict => Step::Fail(error),
        ScanPolicy::Lenient => Step::Skip,
    }
}

/// A copy of a string that may be missing.
fn copy_of(text: &Option<String>) -> (copy: Option<String>)
    ensures
        text_of(copy) == text_of(*text),
{
    match text {
        Some(text) => Some(text.clone()),
        None => None,
    }
}

/// Whether the entry is hidden: its name begins with a dot or a dollar sign.
pub fn is_hidden(entry: &ChildEntry) -> (hidden: bool)
    ensures
        hidden == entry@.is_hidden(),
{
    match &entry.name {
        Some(name) => {
            if name.as_str().unicode_len() == 0 {
                false
            } else {
                let first = name.as_str().get_char(0);
                first == '.' || first == '$'
            }
        },
        None => false,
    }
}

/// Whether the entry is the root of the filesystem.
pub fn is_root(entry: &ChildEntry) -> (root: bool)
    ensures
        root == entry@.is_root(),
{
    match &entry.path {
        Some(path) => same_text(path.as_str(), "/"),
        None => false,
    }
}

/// Decides about one entry in a scan for image files.
pub fn file_step(listed: &Listed, policy: ScanPolicy) -> (step: Step<FileItem>)
    ensures
        step@ == file_verdict(listed_view(*listed), policy),
{
    let entry = match listed {
        Ok(entry) => entry,
        Err(cause) => {
            return Step::Fail(CommandError::ReadEntry(cause.clone()));
        },
    };
    if is_hidden(entry) {
        return Step::Skip;
    }
    match entry.kind {
        EntryKind::File => {},
        _ => {
            return Step::Skip;
        },
    }
    let (width, height) = match entry.dimensions {
        Some(dimensions) => dimensions,
        None => {
            return refuse(policy, CommandError::NotAnImage(copy_of(&entry.path)));
        },
    };
    let filename = match &entry.name {
        Some(name) => name.clone(),
        None => {
            return refuse(policy, CommandError::MissingFileName);
        },
    };
    let path = match &entry.path {
        Some(path) => path.clone(),
        None => {
            return refuse(policy, CommandError::MissingFilePath);
        },
    };
    let id = derive_identity(Some(path.as_str())).into_string();
    Step::Keep(FileItem { id, filename, path, height, width })
}

/// Decides about one entry in a scan for the child directories of `target`.
pub fn dir_step(listed: &Listed, target: &str, policy: ScanPolicy) -> (step: Step<DirItem>)
    ensures
        step@ == dir_verdict(listed_view(*listed), target@, policy),
{
    let entry = match listed {
        Ok(entry) => entry,
        Err(cause) => {
            return Step::Fail(CommandError::ReadEntry(cause.clone()));
        },
    };
    if is_hidden(entry) {
        return Step::Skip;
    }
    match entry.kind {
        EntryKind::Directory => {},
        _ => {
            return Step::Skip;
        },
    }
    if is_root(entry) {
        return Step::Skip;
    }
    match &entry.path {
        Some(path) => {
            if same_text(path.as_str(), target) {
                return Step::Skip;
            }
        },
        None => {},
    }
    let dirname = match &entry.name {
        Some(name) => name.clone(),
        None => {
            return refuse(policy, CommandError::MissingDirectoryName);
        },
    };
    let path = match &entry.path {
        Some(path) => path.clone(),
        None => {
            return refuse(policy, CommandError::MissingDirectoryPath);
        },
    };
    let id = derive_identity(Some(path.as_str())).into_string();
    Step::Keep(DirItem { id, dirname, path, root: false })
}

/// Entries that do not fail the scan do not count for the first failure.
proof fn lemma_first_failure_skips<V>(verdicts: Seq<Verdict<V>>, i: int)
    requires
        0 <= i <= verdicts.len(),
        forall|j: int| 0 <= j < i ==> !(#[trigger] verdicts[j] is Fail),
    ensures
        first_failure(verdicts) == first_failure(verdicts.skip(i)),
    decreases i,
{
    if i == 0 {
        assert(verdicts.skip(0) == verdicts);
    } else {
        assert(!(verdicts[0] is Fail));
        assert forall|j: int| 0 <= j < i - 1 implies !(#[trigger] verdicts.drop_first()[j] is Fail) by {
            assert(verdicts.drop_first()[j] == verdicts[j + 1]);
        }
        lemma_first_failure_skips(verdicts.drop_first(), i - 1);
        assert(verdicts.drop_first().skip(i - 1) == verdicts.skip(i));
    }
}

/// A scan fails exactly when one of its entries does.
pub proof fn lemma_first_failure_is_a_failure<V>(verdicts: Seq<Verdict<V>>)
    ensures
        first_failure(verdicts) is None <==> forall|i: int|
            0 <= i < verdicts.len() ==> !(#[trigger] verdicts[i] is Fail),
        first_failure(verdicts) matches Some(error) ==> exists|i: int|
            0 <= i < verdicts.len() && #[trigger] verdicts[i] == Verdict::<V>::Fail(error),
    decreases verdicts.len(),
{
    if verdicts.len() > 0 {
        let rest = verdicts.drop_first();
        lemma_first_failure_is_a_failure(rest);
        assert forall|i: int| 0 <= i < rest.len() implies rest[i] == verdicts[i + 1] by {}
        if !(verdicts[0] is Fail) {
            if first_failure(rest) is None {
                assert forall|i: int| 0 <= i < verdicts.len() implies !(
                #[trigger] verdicts[i] is Fail) by {
                    if i > 0 {
                        assert(rest[i - 1] == verdicts[i]);
                    }
                }
            } else {
                let error = first_failure(rest)->0;
                let i = choose|i: int|
                    0 <= i < rest.len() && #[trigger] rest[i] == Verdict::<V>::Fail(error);
                assert(verdicts[i + 1] == Verdict::<V>::Fail(error));
            }
        }
    }
}

/// Under the lenient policy a scan for image files fails only where an entry
/// could not be read.
pub proof fn lemma_lenient_file_scan(listing: Seq<Result<ChildEntryView, Seq<char>>>)
    ensures
        first_failure(file_verdicts(listing, ScanPolicy::Lenient)) is None <==> forall|i: int|
            0 <= i < listing.len() ==> #[trigger] listing[i] is Ok,
{
    let verdicts = file_verdicts(listing, ScanPolicy::Lenient);
    lemma_first_failure_is_a_failure(verdicts);
    assert forall|i: int| 0 <= i < listing.len() implies (#[trigger] verdicts[i] is Fail
        <==> listing[i] is Err) by {}
    if forall|i: int| 0 <= i < verdicts.len() ==> !(#[trigger] verdicts[i] is Fail) {
        assert forall|i: int| 0 <= i < listing.len() implies #[trigger] listing[i] is Ok by {
            assert(!(verdicts[i] is Fail));
        }
    }
}

/// Under the strict policy a scan for image files fails also where a file
/// that is not hidden does not read as an image, or has a name or a path that
/// is no text.
pub proof fn lemma_strict_file_scan(listing: Seq<Result<ChildEntryView, Seq<char>>>, i: int)
    requires
        0 <= i < listing.len(),
        listing[i] matches Ok(entry) && !entry.is_hidden() && entry.kind is File && (
        entry.dimensions is None || entry.name is None || entry.path is None),
    ensures
        first_failure(file_verdicts(listing, ScanPolicy::Strict)) is Some,
{
    let verdicts = file_verdicts(listing, ScanPolicy::Strict);
    lemma_first_failure_is_a_failure(verdicts);
    assert(verdicts[i] is Fail);
}

/// A scan has one outcome only: whatever two scans of one listing return,
/// they return the same.
pub proof fn lemma_scan_result_is_unique<V>(
    verdicts: Seq<Verdict<V>>,
    name_of: spec_fn(V) -> Seq<char>,
    first: Result<Seq<V>, CommandErrorText>,
    second: Result<Seq<V>, CommandErrorText>,
)
    requires
        is_scan_result(verdicts, name_of, first),
        is_scan_result(verdicts, name_of, second),
    ensures
        first == second,
{
    if first_failure(verdicts) is None {
        lemma_natural_sort_is_unique(first->Ok_0, second->Ok_0, kept(verdicts), name_of);
    }
}

/// Every item that a scan lists is the item of one of the entries.
pub proof fn lemma_listed_item_has_entry<V>(
    verdicts: Seq<Verdict<V>>,
    name_of: spec_fn(V) -> Seq<char>,
    items: Seq<V>,
    i: int,
) -> (k: int)
    requires
        is_scan_result(verdicts, name_of, Ok(items)),
        0 <= i < items.len(),
    ensures
        0 <= k < verdicts.len(),
        verdicts[k] == Verdict::Keep(items[i]),
{
    lemma_natural_sort_rearranges(items, kept(verdicts), name_of);
    to_multiset_contains(items, items[i]);
    to_multiset_contains(kept(verdicts), items[i]);
    assert(items.contains(items[i]));
    verdicts.lemma_filter_map_contains(kept_of(), items[i]);
    let verdict = choose|verdict: Verdict<V>| #[trigger]
        verdicts.contains(verdict) && kept_of()(verdict) == Some(items[i]);
    let k = choose|k: int| 0 <= k < verdicts.len() && verdicts[k] == verdict;
    k
}

/// A scan for image files lists no hidden entry, and it lists each file under
/// its own name and path, with the identifier derived from that path.
pub proof fn lemma_listed_files_are_visible(
    listing: Seq<Result<ChildEntryView, Seq<char>>>,
    policy: ScanPolicy,
    files: Seq<FileItemView>,
    i: int,
)
    requires
        is_scan_result(file_verdicts(listing, policy), file_name_key(), Ok(files)),
        0 <= i < files.len(),
    ensures
        !is_hidden_name(files[i].filename),
        files[i].id == derived_id(md5_digest(files[i].path)),
{
    let verdicts = file_verdicts(listing, policy);
    let k = lemma_listed_item_has_entry(verdicts, file_name_key(), files, i);
    assert(verdicts[k] == file_verdict(listing[k], policy));
}

/// A scan for child directories lists no hidden entry, no volume root, not the
/// root of the filesystem and not the scanned directory itself, and it lists
/// each directory with the identifier derived from its path.
pub proof fn lemma_listed_dirs_are_children(
    listing: Seq<Result<ChildEntryView, Seq<char>>>,
    target: Seq<char>,
    policy: ScanPolicy,
    dirs: Seq<DirItemView>,
    i: int,
)
    requires
        is_scan_result(dir_verdicts(listing, target, policy), dir_name_key(), Ok(dirs)),
        0 <= i < dirs.len(),
    ensures
        !is_hidden_name(dirs[i].dirname),
        !dirs[i].root,
        dirs[i].path != target,
        dirs[i].path != "/"@,
        dirs[i].id == derived_id(md5_digest(dirs[i].path)),
{
    let verdicts = dir_verdicts(listing, target, policy);
    let k = lemma_listed_item_has_entry(verdicts, dir_name_key(), dirs, i);
    assert(verdicts[k] == dir_verdict(listing[k], target, policy));
}

/// Lists the image files among the children of a directory, sorted by name in
/// natural order. `listing` is what reading the directory gave; each file in
/// it comes with the outcome of probing it for an image's dimensions.
pub fn scan_directory(listing: &Listing, policy: ScanPolicy) -> (result: Result<
    Vec<FileItem>,
    CommandError,
>)
    ensures
        is_file_scan_result(listing_view(*listing), policy, result_view(result)),
        result matches Ok(files) ==> forall|i: int|
            0 <= i < files@.len() ==> !is_hidden_name((#[trigger] files@[i]).filename@),
{
    let entries = match listing {
        Ok(entries) => entries,
        Err(cause) => {
            return Err(CommandError::ReadDirectory(cause.clone()));
        },
    };
    let ghost verdicts = file_verdicts(listing_views(entries@), policy);
    let mut files: Vec<FileItem> = Vec::new();
    let mut i: usize = 0;
    proof {
        assert(views(files@) =~= kept(verdicts.take(0)));
    }
    while i < entries.len()
        invariant
            i <= entries.len(),
            *listing == Ok::<Vec<Listed>, String>(*entries),
            verdicts == file_verdicts(listing_views(entries@), policy),
            forall|j: int| 0 <= j < i ==> !(#[trigger] verdicts[j] is Fail),
            views(files@) == kept(verdicts.take(i as int)),
        decreases entries.len() - i,
    {
        let step = file_step(&entries[i], policy);
        proof {
            assert(verdicts[i as int] == step@);
            verdicts.lemma_filter_map_take_succ(kept_of(), i as int);
        }
        match step {
            Step::Skip => {},
            Step::Fail(error) => {
                proof {
                    lemma_first_failure_skips(verdicts, i as int);
                    assert(verdicts.skip(i as int)[0] == verdicts[i as int]);
                }
                return Err(error);
            },
            Step::Keep(file) => {
                proof {
                    assert(views(files@.push(file)) =~= views(files@).push(file@));
                }
                files.push(file);
            },
        }
        i += 1;
    }
    let ghost unsorted = files@;
    let sorted = sort_by_name(files);
    proof {
        assert(verdicts.take(i as int) == verdicts);
        lemma_first_failure_skips(verdicts, i as int);
        lemma_natural_sort_of_views(sorted@, unsorted, name_key::<FileItem>(), file_name_key());
        assert forall|i: int| 0 <= i < sorted@.len() implies !is_hidden_name(
            (#[trigger] sorted@[i]).filename@,
        ) by {
            lemma_listed_files_are_visible(
                listing_views(entries@),
                policy,
                views(sorted@),
                i,
            );
        }
    }
    Ok(sorted)
}

/// Lists the directories among the children of the directory `target`, sorted
/// by name in natural order. `listing` is what reading the directory gave.
pub fn scan_for_child_dirs(listing: &Listing, target: &str, policy: ScanPolicy) -> (result: Result<
    Vec<DirItem>,
    CommandError,
>)
    ensures
        is_dir_scan_result(listing_view(*listing), target@, policy, result_view(result)),
        result matches Ok(dirs) ==> forall|i: int|
            0 <= i < dirs@.len() ==> {
                &&& !is_hidden_name((#[trigger] dirs@[i]).dirname@)
                &&& !dirs@[i].root
                &&& dirs@[i].path@ != target@
                &&& dirs@[i].path@ != "/"@
            },
{
    let entries = match listing {
        Ok(entries) => entries,
        Err(cause) => {
            return Err(CommandError::ReadDirectory(cause.clone()));
        },
    };
    let ghost verdicts = dir_verdicts(listing_views(entries@), target@, policy);
    let mut dirs: Vec<DirItem> = Vec::new();
    let mut i: usize = 0;
    proof {
        assert(views(dirs@) =~= kept(verdicts.take(0)));
    }
    while i < entries.len()
        invariant
            i <= entries.len(),
            *listing == Ok::<Vec<Listed>, String>(*entries),
            verdicts == dir_verdicts(listing_views(entries@), target@, policy),
            forall|j: int| 0 <= j < i ==> !(#[trigger] verdicts[j] is Fail),
            views(dirs@) == kept(verdicts.take(i as int)),
        decreases entries.len() - i,
    {
        let step = dir_step(&entries[i], target, policy);
        proof {
            assert(verdicts[i as int] == step@);
            verdicts.lemma_filter_map_take_succ(kept_of(), i as int);
        }
        match step {
            Step::Skip => {},
            Step::Fail(error) => {
                proof {
                    lemma_first_failure_skips(verdicts, i as int);
                    assert(verdicts.skip(i as int)[0] == verdicts[i as int]);
                }
                return Err(error);
            },
            Step::Keep(dir) => {
                proof {
                    assert(views(dirs@.push(dir)) =~= views(dirs@).push(dir@));
                }
                dirs.push(dir);
            },
        }
        i += 1;
    }
    let ghost unsorted = dirs@;
    let sorted = sort_by_name(dirs);
    proof {
        assert(verdicts.take(i as int) == verdicts);
        lemma_first_failure_skips(verdicts, i as int);
        lemma_natural_sort_of_views(sorted@, unsorted, name_key::<DirItem>(), dir_name_key());
        assert forall|i: int| 0 <= i < sorted@.len() implies {
            &&& !is_hidden_name((#[trigger] sorted@[i]).dirname@)
            &&& !sorted@[i].root
            &&& sorted@[i].path@ != target@
            &&& sorted@[i].path@ != "/"@
        } by {
            lemma_listed_dirs_are_children(
                listing_views(entries@),
                target@,
                policy,
                views(sorted@),
                i,
            );
        }
    }
    Ok(sorted)
}

} // verus!
