//! Listing the mounted volumes: which mounts are shown, and under which name.
//! The caller asks the operating system; the paths it got come in as plain
//! values.

use crate::entries::{dir_name_key, DirItem, DirItemView};
use crate::errors::{CommandError, CommandErrorText};
use crate::identity::{derive_identity, derived_id, is_random_uuid_text, md5_digest};
use crate::scan::text_of;
use crate::sorting::{
    is_natural_sort, lemma_natural_sort_of_views, lemma_natural_sort_rearranges, name_key,
    sort_by_name, views,
};
use crate::text::{begins_with, chars_of};
use vstd::prelude::*;
use vstd::seq_lib::*;
use vstd::string::*;

verus! {

/// The family of operating systems on which the volumes are listed.
#[derive(Debug, Clone, Copy, PartialEq, Eq)]
pub enum Platform {
    /// Linux and macOS: paths are written with slashes, and the mounts of the
    /// system itself are not shown.
    UnixLike,
    /// Windows: every mount is shown, under its whole path.
    Windows,
}

/// What asking for the mounted volumes gave: the path of each mount, where it
/// is text, or what the operating system said when it refused.
pub type MountQuery = Result<Vec<Option<String>>, String>;

/// Whether `path` is the directory `dir` or lies below it.
pub open spec fn is_under(path: Seq<char>, dir: Seq<char>) -> bool {
    path == dir || dir.push('/').is_prefix_of(path)
}

/// Whether a mount is shown. On Linux and macOS the mounts at or below
/// `/System` and `/dev` are not; a mount whose path is no text is shown.
pub open spec fn keeps_mount(platform: Platform, mount: Option<Seq<char>>) -> bool {
    match (platform, mount) {
        (Platform::UnixLike, Some(path)) => !is_under(path, "/System"@) && !is_under(
            path,
            "/dev"@,
        ),
        _ => true,
    }
}

/// A path without the slashes at its end.
pub open spec fn without_trailing_slashes(path: Seq<char>) -> Seq<char>
    decreases path.len(),
{
    if path.len() > 0 && path.last() == '/' {
        without_trailing_slashes(path.drop_last())
    } else {
        path
    }
}

/// What stands behind the last slash of a path.
pub open spec fn after_last_slash(path: Seq<char>) -> Seq<char>
    decreases path.len(),
{
    if path.len() == 0 || path.last() == '/' {
        Seq::empty()
    } else {
        after_last_slash(path.drop_last()).push(path.last())
    }
}

/// The last component of a path written with slashes; slashes at the end of
/// the path do not count. It is empty where the path has no component.
pub open spec fn last_component(path: Seq<char>) -> Seq<char> {
    after_last_slash(without_trailing_slashes(path))
}

/// The name under which a mount is shown: on Linux and macOS the last
/// component of its path, on Windows the whole path, and `/` where that is
/// empty or the path is no text.
pub open spec fn display_name(platform: Platform, mount: Option<Seq<char>>) -> Seq<char> {
    let name = match (platform, mount) {
        (_, None) => Seq::empty(),
        (Platform::UnixLike, Some(path)) => last_component(path),
        (Platform::Windows, Some(path)) => path,
    };
    if name.len() == 0 {
        "/"@
    } else {
        name
    }
}

/// Whether `item` is the item under which a mount is shown: a volume root
/// under the mount's display name, with the mount's path and the identifier
/// derived from it, or with an empty path and a random identifier where the
/// path is no text.
pub open spec fn is_volume_item(
    platform: Platform,
    mount: Option<Seq<char>>,
    item: DirItemView,
) -> bool {
    &&& item.root
    &&& item.dirname == display_name(platform, mount)
    &&& match mount {
        Some(path) => item.path == path && item.id == derived_id(md5_digest(path)),
        None => item.path.len() == 0 && is_random_uuid_text(item.id),
    }
}

/// The test for being shown on a platform.
pub open spec fn shown_on(platform: Platform) -> spec_fn(Option<Seq<char>>) -> bool {
    |mount: Option<Seq<char>>| keeps_mount(platform, mount)
}

/// The mounts that are shown, in the order in which they came.
pub open spec fn shown_mounts(platform: Platform, mounts: Seq<Option<Seq<char>>>) -> Seq<
    Option<Seq<char>>,
> {
    mounts.filter(shown_on(platform))
}

/// Whether `items` holds the item of each mount, in the order of the mounts.
pub open spec fn are_volume_items(
    platform: Platform,
    mounts: Seq<Option<Seq<char>>>,
    items: Seq<DirItemView>,
) -> bool {
    &&& items.len() == mounts.len()
    &&& forall|k: int|
        0 <= k < mounts.len() ==> is_volume_item(platform, mounts[k], #[trigger] items[k])
}

/// Whether `drives` lists the volumes: it is, sorted by name, a sequence that
/// holds the item of each shown mount.
pub open spec fn is_volume_listing(
    platform: Platform,
    mounts: Seq<Option<Seq<char>>>,
    drives: Seq<DirItemView>,
) -> bool {
    exists|items: Seq<DirItemView>|
        {
            &&& are_volume_items(platform, shown_mounts(platform, mounts), items)
            &&& #[trigger] is_natural_sort(drives, items, dir_name_key())
        }
}

/// The paths of the mounts, as mathematical text.
pub open spec fn mount_texts(mounts: Seq<Option<String>>) -> Seq<Option<Seq<char>>> {
    mounts.map_values(|mount: Option<String>| text_of(mount))
}

/// What listing the volumes returns: the operating system's refusal wrapped
/// as an error, else the volumes.
pub open spec fn is_drives_result(
    platform: Platform,
    query: MountQuery,
    result: Result<Vec<DirItem>, CommandError>,
) -> bool {
    match query {
        Err(cause) => result matches Err(error) && error@ == CommandErrorText::ListMounts(cause@),
        Ok(mounts) => result matches Ok(drives) && is_volume_listing(
            platform,
            mount_texts(mounts@),
            views(drives@),
        ),
    }
}

/// Every listed volume is a volume root and the item of one of the shown
/// mounts, and there are as many volumes as shown mounts.
pub proof fn lemma_volumes_are_roots(
    platform: Platform,
    mounts: Seq<Option<Seq<char>>>,
    drives: Seq<DirItemView>,
    i: int,
) -> (k: int)
    requires
        is_volume_listing(platform, mounts, drives),
        0 <= i < drives.len(),
    ensures
        drives.len() == shown_mounts(platform, mounts).len(),
        drives[i].root,
        0 <= k < shown_mounts(platform, mounts).len(),
        is_volume_item(platform, shown_mounts(platform, mounts)[k], drives[i]),
        keeps_mount(platform, shown_mounts(platform, mounts)[k]),
{
    let shown = shown_mounts(platform, mounts);
    let items = choose|items: Seq<DirItemView>|
        {
            &&& are_volume_items(platform, shown, items)
            &&& #[trigger] is_natural_sort(drives, items, dir_name_key())
        };
    lemma_natural_sort_rearranges(drives, items, dir_name_key());
    to_multiset_contains(drives, drives[i]);
    to_multiset_contains(items, drives[i]);
    assert(drives.contains(drives[i]));
    let k = choose|k: int| 0 <= k < items.len() && items[k] == drives[i];
    mounts.lemma_filter_pred(shown_on(platform), k);
    k
}

/// Whether `path` is the directory `dir` or lies below it.
fn lies_under(path: &Vec<char>, dir: &str) -> (under: bool)
    ensures
        under == is_under(path@, dir@),
{
    let mut prefix = chars_of(dir);
    if path.len() == prefix.len() && begins_with(path, &prefix) {
        assert(path@ =~= prefix@);
        return true;
    }
    assert(path@ != dir@) by {
        if path@ == dir@ {
            assert(path@.subrange(0, prefix@.len() as int) =~= prefix@);
        }
    }
    prefix.push('/');
    begins_with(path, &prefix)
}

/// Whether a mount is shown on the platform.
pub fn keep_mount(platform: Platform, mount: &Option<String>) -> (keep: bool)
    ensures
        keep == keeps_mount(platform, text_of(*mount)),
{
    match (platform, mount) {
        (Platform::UnixLike, Some(path)) => {
            let chars = chars_of(path.as_str());
            !lies_under(&chars, "/System") && !lies_under(&chars, "/dev")
        },
        _ => true,
    }
}

/// Slashes at the end of a path can be dropped one by one.
proof fn lemma_trailing_slashes(path: Seq<char>, end: int)
    requires
        0 <= end <= path.len(),
        forall|i: int| end <= i < path.len() ==> path[i] == '/',
    ensures
        without_trailing_slashes(path) == without_trailing_slashes(path.take(end)),
    decreases path.len() - end,
{
    if end == path.len() {
        assert(path.take(end) == path);
    } else {
        assert(path.drop_last().take(end) == path.take(end));
        lemma_trailing_slashes(path.drop_last(), end);
    }
}

/// What stands behind the last slash grows by the characters that are no
/// slashes.
proof fn lemma_after_last_slash(path: Seq<char>, start: int)
    requires
        0 <= start <= path.len(),
        forall|i: int| start <= i < path.len() ==> path[i] != '/',
    ensures
        after_last_slash(path) == after_last_slash(path.take(start)) + path.skip(start),
    decreases path.len() - start,
{
    if start == path.len() {
        assert(path.take(start) == path);
        assert(after_last_slash(path) + path.skip(start) =~= after_last_slash(path));
    } else {
        assert(path.drop_last().take(start) == path.take(start));
        lemma_after_last_slash(path.drop_last(), start);
        assert(path.drop_last().skip(start).push(path.last()) =~= path.skip(start));
        assert((after_last_slash(path.take(start)) + path.drop_last().skip(start)).push(
            path.last(),
        ) =~= after_last_slash(path.take(start)) + path.skip(start));
    }
}

/// The last component of a path written with slashes.
pub fn last_path_component(path: &str) -> (name: String)
    ensures
        name@ == last_component(path@),
{
    let chars = chars_of(path);
    let mut end: usize = chars.len();
    while end > 0 && chars[end - 1] == '/'
        invariant
            end <= chars.len(),
            forall|i: int| end <= i < chars@.len() ==> chars@[i] == '/',
        decreases end,
    {
        end -= 1;
    }
    let mut start: usize = end;
    while start > 0 && chars[start - 1] != '/'
        invariant
            start <= end <= chars.len(),
            forall|i: int| start <= i < end ==> chars@[i] != '/',
        decreases start,
    {
        start -= 1;
    }
    proof {
        let trimmed = chars@.take(end as int);
        lemma_trailing_slashes(chars@, end as int);
        assert(without_trailing_slashes(trimmed) == trimmed);
        lemma_after_last_slash(trimmed, start as int);
        assert(after_last_slash(trimmed.take(start as int)) =~= Seq::<char>::empty());
        assert(trimmed.skip(start as int) =~= path@.subrange(start as int, end as int));
    }
    String::from_str(path.substring_char(start, end))
}

/// The name under which a mount is shown on the platform.
pub fn mount_display_name(platform: Platform, mount: &Option<String>) -> (name: String)
    ensures
        name@ == display_name(platform, text_of(*mount)),
{
    let name = match (platform, mount) {
        (_, None) => String::new(),
        (Platform::UnixLike, Some(path)) => last_path_component(path.as_str()),
        (Platform::Windows, Some(path)) => path.clone(),
    };
    if name.as_str().unicode_len() == 0 {
        String::from_str("/")
    } else {
        name
    }
}

/// The item under which a mount is shown on the platform.
pub fn volume_item(platform: Platform, mount: &Option<String>) -> (item: DirItem)
    ensures
        is_volume_item(platform, text_of(*mount), item@),
{
    let dirname = mount_display_name(platform, mount);
    match mount {
        Some(path) => {
            let id = derive_identity(Some(path.as_str())).into_string();
            DirItem { id, dirname, path: path.clone(), root: true }
        },
        None => {
            let id = derive_identity(None).into_string();
            DirItem { id, dirname, path: String::new(), root: true }
        },
    }
}

/// Lists the mounted volumes, sorted by name in natural order. `query` is what
/// asking the operating system for its mounts gave.
pub fn show_drives(query: &MountQuery, platform: Platform) -> (result: Result<
    Vec<DirItem>,
    CommandError,
>)
    ensures
        is_drives_result(platform, *query, result),
        result matches Ok(drives) ==> forall|i: int|
            0 <= i < drives@.len() ==> (#[trigger] drives@[i]).root,
{
    let mounts = match query {
        Ok(mounts) => mounts,
        Err(cause) => {
            return Err(CommandError::ListMounts(cause.clone()));
        },
    };
    let ghost texts = mount_texts(mounts@);
    let mut drives: Vec<DirItem> = Vec::new();
    let mut i: usize = 0;
    proof {
        reveal(Seq::filter);
        assert(texts.take(0).filter(shown_on(platform)) =~= Seq::empty());
    }
    while i < mounts.len()
        invariant
            i <= mounts.len(),
            texts == mount_texts(mounts@),
            are_volume_items(platform, shown_mounts(platform, texts.take(i as int)), views(drives@)),
        decreases mounts.len() - i,
    {
        let ghost shown = shown_mounts(platform, texts.take(i as int));
        proof {
            assert(texts.take(i + 1) =~= texts.take(i as int).push(texts[i as int]));
            texts.take(i as int).lemma_filter_push(texts[i as int], shown_on(platform));
        }
        if keep_mount(platform, &mounts[i]) {
            let item = volume_item(platform, &mounts[i]);
            proof {
                assert(views(drives@.push(item)) =~= views(drives@).push(item@));
            }
            drives.push(item);
        }
        i += 1;
    }
    let ghost unsorted = drives@;
    let sorted = sort_by_name(drives);
    proof {
        assert(texts.take(i as int) == texts);
        lemma_natural_sort_of_views(sorted@, unsorted, name_key::<DirItem>(), dir_name_key());
        assert(is_volume_listing(platform, texts, views(sorted@)));
        assert forall|i: int| 0 <= i < sorted@.len() implies (#[trigger] sorted@[i]).root by {
            let k = lemma_volumes_are_roots(platform, texts, views(sorted@), i);
        }
    }
    Ok(sorted)
}

} // verus!
