//! Which list a version comes into.
use crate::text::contains;
use crate::versions::{ids_of_kind, kind_of, VersionEntry, VersionKind};
use vstd::prelude::*;

verus! {

/// The types of versions are different texts.
proof fn lemma_types_differ()
    ensures
        "release"@ != "snapshot"@,
        "release"@ != "old_alpha"@,
        "release"@ != "old_beta"@,
        "snapshot"@ != "old_alpha"@,
        "snapshot"@ != "old_beta"@,
{
    reveal_strlit("release");
    reveal_strlit("snapshot");
    reveal_strlit("old_alpha");
    reveal_strlit("old_beta");
    assert("release"@.len() == 7 && "snapshot"@.len() == 8 && "old_alpha"@.len() == 9
        && "old_beta"@.len() == 8);
    assert("snapshot"@[0] != "old_beta"@[0]);
}

/// A version is old just where its type is that of an alpha or a beta, and a joke just where it is
/// not old and came out on the first of April. Of the others the releases and the snapshots are
/// told by their types, and what is neither is in no list.
pub proof fn law_kinds_follow_type_and_day(entry: VersionEntry)
    ensures
        ({
            let old = entry.version_type@ == "old_alpha"@ || entry.version_type@ == "old_beta"@;
            let joke = !old && contains(entry.time@, "-04-01"@);
            &&& kind_of(entry) is Old <==> old
            &&& kind_of(entry) is AprilFools <==> joke
            &&& kind_of(entry) is Release <==> !joke && entry.version_type@ == "release"@
            &&& kind_of(entry) is Snapshot <==> !joke && entry.version_type@ == "snapshot"@
            &&& kind_of(entry) is Unlisted <==> !old && !joke && entry.version_type@ != "release"@
                && entry.version_type@ != "snapshot"@
        }),
{
    lemma_types_differ();
}

/// A release or a snapshot that did not come out on the first of April is in the list of its type,
/// on whatever other day it came out.
pub proof fn law_releases_and_snapshots_are_listed(
    entries: Seq<VersionEntry>,
    entry: VersionEntry,
    later: Seq<VersionEntry>,
)
    requires
        !contains(entry.time@, "-04-01"@),
    ensures
        ({
            let all = entries.push(entry) + later;
            &&& entry.version_type@ == "release"@ ==> ids_of_kind(
                all,
                VersionKind::Release,
            ).contains(entry.id@)
            &&& entry.version_type@ == "snapshot"@ ==> ids_of_kind(
                all,
                VersionKind::Snapshot,
            ).contains(entry.id@)
        }),
{
    lemma_types_differ();
    let all = entries.push(entry) + later;
    law_lists_add_up(entries.push(entry), later, VersionKind::Release);
    law_lists_add_up(entries.push(entry), later, VersionKind::Snapshot);
    law_lists_grow_by_one(entries, entry, VersionKind::Release);
    law_lists_grow_by_one(entries, entry, VersionKind::Snapshot);
    if entry.version_type@ == "release"@ {
        let at = ids_of_kind(entries, VersionKind::Release).len() as int;
        assert(ids_of_kind(all, VersionKind::Release)[at] == entry.id@);
    }
    if entry.version_type@ == "snapshot"@ {
        let at = ids_of_kind(entries, VersionKind::Snapshot).len() as int;
        assert(ids_of_kind(all, VersionKind::Snapshot)[at] == entry.id@);
    }
}

/// The lists of two parts of the versions, one behind the other, are the list of the whole.
pub proof fn law_lists_add_up(
    first: Seq<VersionEntry>,
    second: Seq<VersionEntry>,
    kind: VersionKind,
)
    ensures
        ids_of_kind(first + second, kind) == ids_of_kind(first, kind) + ids_of_kind(second, kind),
    decreases second.len(),
{
    let all = first + second;
    if second.len() == 0 {
        assert(all =~= first);
        assert(ids_of_kind(first, kind) + ids_of_kind(second, kind) =~= ids_of_kind(first, kind));
    } else {
        law_lists_add_up(first, second.drop_last(), kind);
        assert(all.drop_last() =~= first + second.drop_last());
        assert(all.last() == second.last());
        assert(ids_of_kind(all, kind) =~= ids_of_kind(first, kind) + ids_of_kind(second, kind));
    }
}

/// One more version goes to the end of the list of its kind, by its identifier, and changes no
/// other list.
pub proof fn law_lists_grow_by_one(
    entries: Seq<VersionEntry>,
    entry: VersionEntry,
    kind: VersionKind,
)
    ensures
        ids_of_kind(entries.push(entry), kind) == if kind_of(entry) == kind {
            ids_of_kind(entries, kind).push(entry.id@)
        } else {
            ids_of_kind(entries, kind)
        },
        ids_of_kind(Seq::empty(), kind).len() == 0,
{
    assert(entries.push(entry).drop_last() =~= entries);
}

} // verus!
