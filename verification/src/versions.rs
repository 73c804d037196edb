//! Sorting of the game's versions into kinds.
use crate::laws::kinds::law_kinds_follow_type_and_day;
use crate::text::{contains, has_text, push_text, same_text};
use vstd::prelude::*;

verus! {

/// The list of all versions.
pub struct VersionManifest {
    pub versions: Vec<VersionEntry>,
}

/// A version: its identifier, its type, and when it came out.
pub struct VersionEntry {
    pub id: String,
    pub version_type: String,
    pub time: String,
}

/// The kinds of versions.
pub enum VersionKind {
    Release,
    Snapshot,
    AprilFools,
    Old,
    Unlisted,
}

/// The kind of a version. An alpha or beta version is old, whenever it came out; any other that
/// came out on the first of April is a joke; the type tells the rest apart.
pub open spec fn kind_of(entry: VersionEntry) -> VersionKind {
    let version_type = entry.version_type@;
    if version_type == "old_alpha"@ || version_type == "old_beta"@ {
        VersionKind::Old
    } else if contains(entry.time@, "-04-01"@) {
        VersionKind::AprilFools
    } else if version_type == "release"@ {
        VersionKind::Release
    } else if version_type == "snapshot"@ {
        VersionKind::Snapshot
    } else {
        VersionKind::Unlisted
    }
}

/// The identifiers of the versions of one kind, in the order of the list.
pub open spec fn ids_of_kind(entries: Seq<VersionEntry>, kind: VersionKind) -> Seq<Seq<char>>
    decreases entries.len(),
{
    if entries.len() == 0 {
        Seq::empty()
    } else {
        let earlier = ids_of_kind(entries.drop_last(), kind);
        if kind_of(entries.last()) == kind {
            earlier.push(entries.last().id@)
        } else {
            earlier
        }
    }
}

/// The kind of a version.
pub fn classify_version(entry: &VersionEntry) -> (kind: VersionKind)
    ensures
        kind == kind_of(*entry),
{
    let version_type = entry.version_type.as_str();
    if same_text(version_type, "old_alpha") || same_text(version_type, "old_beta") {
        VersionKind::Old
    } else if has_text(entry.time.as_str(), "-04-01") {
        VersionKind::AprilFools
    } else if same_text(version_type, "release") {
        VersionKind::Release
    } else if same_text(version_type, "snapshot") {
        VersionKind::Snapshot
    } else {
        VersionKind::Unlisted
    }
}

/// The identifiers of the releases, the snapshots, the jokes and the old versions.
pub fn classify_minecraft_versions(manifest: &VersionManifest) -> (lists: [Vec<String>; 4])
    ensures
        lists@[0].deep_view() == ids_of_kind(manifest.versions@, VersionKind::Release),
        lists@[1].deep_view() == ids_of_kind(manifest.versions@, VersionKind::Snapshot),
        lists@[2].deep_view() == ids_of_kind(manifest.versions@, VersionKind::AprilFools),
        lists@[3].deep_view() == ids_of_kind(manifest.versions@, VersionKind::Old),
        forall|i: int|
            0 <= i < manifest.versions@.len() ==> {
                let entry = #[trigger] manifest.versions@[i];
                let old = entry.version_type@ == "old_alpha"@ || entry.version_type@
                    == "old_beta"@;
                let joke = !old && contains(entry.time@, "-04-01"@);
                &&& entry.version_type@ == "release"@ && !joke
                    ==> lists@[0].deep_view().contains(entry.id@)
                &&& entry.version_type@ == "snapshot"@ && !joke
                    ==> lists@[1].deep_view().contains(entry.id@)
                &&& joke ==> lists@[2].deep_view().contains(entry.id@)
                &&& old ==> lists@[3].deep_view().contains(entry.id@)
            },
{
    let mut releases: Vec<String> = Vec::new();
    let mut snapshots: Vec<String> = Vec::new();
    let mut april_fools: Vec<String> = Vec::new();
    let mut old_versions: Vec<String> = Vec::new();
    let entries = &manifest.versions;
    let mut i: usize = 0;
    assert(releases.deep_view() =~= Seq::empty());
    while i < entries.len()
        invariant
            i <= entries@.len(),
            releases.deep_view() == ids_of_kind(entries@.take(i as int), VersionKind::Release),
            snapshots.deep_view() == ids_of_kind(entries@.take(i as int), VersionKind::Snapshot),
            april_fools.deep_view() == ids_of_kind(
                entries@.take(i as int),
                VersionKind::AprilFools,
            ),
            old_versions.deep_view() == ids_of_kind(entries@.take(i as int), VersionKind::Old),
        decreases entries@.len() - i,
    {
        assert(entries@.take(i + 1).drop_last() =~= entries@.take(i as int));
        let id = entries[i].id.clone();
        match classify_version(&entries[i]) {
            VersionKind::Release => push_text(&mut releases, id),
            VersionKind::Snapshot => push_text(&mut snapshots, id),
            VersionKind::AprilFools => push_text(&mut april_fools, id),
            VersionKind::Old => push_text(&mut old_versions, id),
            VersionKind::Unlisted => {},
        }
        i = i + 1;
    }
    assert(entries@.take(i as int) =~= entries@);
    proof {
        assert forall|k: int| 0 <= k < entries@.len() implies {
            let entry = #[trigger] entries@[k];
            let old = entry.version_type@ == "old_alpha"@ || entry.version_type@ == "old_beta"@;
            let joke = !old && contains(entry.time@, "-04-01"@);
            &&& entry.version_type@ == "release"@ && !joke ==> releases.deep_view().contains(
                entry.id@,
            )
            &&& entry.version_type@ == "snapshot"@ && !joke ==> snapshots.deep_view().contains(
                entry.id@,
            )
            &&& joke ==> april_fools.deep_view().contains(entry.id@)
            &&& old ==> old_versions.deep_view().contains(entry.id@)
        } by {
            let id = entries@[k].id@;
            law_kinds_follow_type_and_day(entries@[k]);
            law_lists_hold_their_kind(entries@, VersionKind::Release, id);
            law_lists_hold_their_kind(entries@, VersionKind::Snapshot, id);
            law_lists_hold_their_kind(entries@, VersionKind::AprilFools, id);
            law_lists_hold_their_kind(entries@, VersionKind::Old, id);
        }
    }
    [releases, snapshots, april_fools, old_versions]
}

/// Every version is of one kind only: the lists and what is left out hold together as many
/// versions as the whole list.
pub proof fn law_kinds_part_the_versions(entries: Seq<VersionEntry>)
    ensures
        ids_of_kind(entries, VersionKind::Release).len() + ids_of_kind(
            entries,
            VersionKind::Snapshot,
        ).len() + ids_of_kind(entries, VersionKind::AprilFools).len() + ids_of_kind(
            entries,
            VersionKind::Old,
        ).len() + ids_of_kind(entries, VersionKind::Unlisted).len() == entries.len(),
    decreases entries.len(),
{
    if entries.len() > 0 {
        law_kinds_part_the_versions(entries.drop_last());
    }
}

/// A list holds just the identifiers of the versions of its kind.
pub proof fn law_lists_hold_their_kind(entries: Seq<VersionEntry>, kind: VersionKind, id: Seq<char>)
    ensures
        ids_of_kind(entries, kind).contains(id) <==> exists|i: int|
            0 <= i < entries.len() && (#[trigger] entries[i]).id@ == id && kind_of(entries[i])
                == kind,
    decreases entries.len(),
{
    if entries.len() > 0 {
        let rest = entries.drop_last();
        let earlier = ids_of_kind(rest, kind);
        let all = ids_of_kind(entries, kind);
        law_lists_hold_their_kind(rest, kind, id);
        if earlier.contains(id) {
            let i = choose|i: int|
                0 <= i < rest.len() && (#[trigger] rest[i]).id@ == id && kind_of(rest[i]) == kind;
            assert(entries[i] == rest[i]);
            let at = choose|at: int| 0 <= at < earlier.len() && earlier[at] == id;
            assert(all[at] == id);
        }
        if kind_of(entries.last()) == kind {
            assert(all.last() == entries.last().id@);
            if entries.last().id@ == id {
                assert(all[all.len() - 1] == id);
                assert(entries[entries.len() - 1] == entries.last());
            }
        }
        if all.contains(id) && !earlier.contains(id) {
            let at = choose|at: int| 0 <= at < all.len() && all[at] == id;
            assert(at == all.len() - 1) by {
                if at < earlier.len() {
                    assert(earlier[at] == id);
                }
            }
            assert(entries[entries.len() - 1] == entries.last());
        }
        if exists|i: int|
            0 <= i < entries.len() && (#[trigger] entries[i]).id@ == id && kind_of(entries[i])
                == kind {
            let i = choose|i: int|
                0 <= i < entries.len() && (#[trigger] entries[i]).id@ == id && kind_of(entries[i])
                    == kind;
            if i < rest.len() {
                assert(rest[i] == entries[i]);
            }
        }
    }
}

/// An alpha or beta version is old even if it came out on the first of April.
pub proof fn law_old_versions_come_before_jokes(entry: VersionEntry)
    requires
        entry.version_type@ == "old_alpha"@ || entry.version_type@ == "old_beta"@,
    ensures
        kind_of(entry) == VersionKind::Old,
{
}

} // verus!
