//! What holds of grouping and of classification, whatever the files are.

use crate::livery_ops::{
    absorb, all_entries, asset_differs, asset_present, bundle_entries, counts, first_taking,
    folder_key, grouped, stored, stored_among, stored_at, stored_descriptor, takes, verdict,
    well_grouped, Bundle, Conflict, Livery, Placement, RawEntry,
};
use vstd::multiset::Multiset;
use vstd::prelude::*;
use vstd::seq_lib::*;

verus! {

/// `first_taking` gives the first livery that takes the file, and no livery
/// in front of it does.
pub proof fn first_taking_is_first(
    bundles: Seq<Bundle>,
    key: Seq<char>,
    descriptor: bool,
    from: int,
)
    requires
        0 <= from <= bundles.len(),
    ensures
        from <= first_taking(bundles, key, descriptor, from) <= bundles.len(),
        first_taking(bundles, key, descriptor, from) < bundles.len() ==> takes(
            bundles[first_taking(bundles, key, descriptor, from)],
            key,
            descriptor,
        ),
        forall|k: int|
            from <= k < first_taking(bundles, key, descriptor, from) ==> !takes(
                #[trigger] bundles[k],
                key,
                descriptor,
            ),
    decreases bundles.len() - from,
{
    if from < bundles.len() && !takes(bundles[from], key, descriptor) {
        first_taking_is_first(bundles, key, descriptor, from + 1);
    }
}

/// A livery that is added, or a file that a livery takes in, adds its files
/// to those that the liveries hold.
proof fn all_entries_push(bundles: Seq<Bundle>, bundle: Bundle)
    ensures
        all_entries(bundles.push(bundle)) == all_entries(bundles).add(bundle_entries(bundle)),
{
    assert(bundles.push(bundle).drop_last() =~= bundles);
}

proof fn all_entries_update(bundles: Seq<Bundle>, slot: int, bundle: Bundle, entry: RawEntry)
    requires
        0 <= slot < bundles.len(),
        bundle_entries(bundle) == bundle_entries(bundles[slot]).insert(entry),
    ensures
        all_entries(bundles.update(slot, bundle)) == all_entries(bundles).insert(entry),
    decreases bundles.len(),
{
    broadcast use vstd::multiset::group_multiset_axioms;

    let updated = bundles.update(slot, bundle);
    if slot == bundles.len() - 1 {
        assert(updated.drop_last() =~= bundles.drop_last());
        assert(all_entries(updated) =~= all_entries(bundles).insert(entry));
    } else {
        assert(updated.drop_last() =~= bundles.drop_last().update(slot, bundle));
        all_entries_update(bundles.drop_last(), slot, bundle, entry);
        assert(all_entries(updated) =~= all_entries(bundles).insert(entry));
    }
}

/// One more file that is grouped is one more file that the liveries hold.
pub proof fn absorb_adds_the_entry(bundles: Seq<Bundle>, entry: RawEntry)
    ensures
        all_entries(absorb(bundles, entry)) == all_entries(bundles).insert(entry),
{
    broadcast use vstd::multiset::group_multiset_axioms;
    broadcast use group_to_multiset_ensures;

    let empty = Seq::<RawEntry>::empty();
    assert(empty.to_multiset() =~= Multiset::<RawEntry>::empty()) by {
        assert(empty.to_multiset().len() == 0);
    }
    assert(seq![entry] =~= empty.push(entry));
    match entry.placement {
        Placement::Descriptor => {
            match folder_key(entry.bytes) {
                Some(key) => {
                    let slot = first_taking(bundles, key, true, 0);
                    first_taking_is_first(bundles, key, true, 0);
                    if slot < bundles.len() {
                        let bundle = Bundle { descriptor: Some(entry), ..bundles[slot] };
                        all_entries_update(bundles, slot, bundle, entry);
                    } else {
                        let bundle = Bundle {
                            folder: Some(key),
                            descriptor: Some(entry),
                            assets: seq![],
                        };
                        all_entries_push(bundles, bundle);
                        assert(bundle_entries(bundle) =~= Multiset::empty().insert(entry));
                        assert(all_entries(absorb(bundles, entry)) =~= all_entries(bundles).insert(
                            entry,
                        ));
                    }
                },
                None => {
                    let bundle = Bundle { folder: None, descriptor: Some(entry), assets: seq![] };
                    all_entries_push(bundles, bundle);
                    assert(bundle_entries(bundle) =~= Multiset::empty().insert(entry));
                    assert(all_entries(absorb(bundles, entry)) =~= all_entries(bundles).insert(
                        entry,
                    ));
                },
            }
        },
        Placement::AssetFolder(key) => {
            let slot = first_taking(bundles, key, false, 0);
            first_taking_is_first(bundles, key, false, 0);
            if slot < bundles.len() {
                let bundle = Bundle {
                    assets: bundles[slot].assets.push(entry),
                    ..bundles[slot]
                };
                assert(bundle_entries(bundle) =~= bundle_entries(bundles[slot]).insert(entry));
                all_entries_update(bundles, slot, bundle, entry);
            } else {
                let bundle = Bundle { folder: Some(key), descriptor: None, assets: seq![entry] };
                all_entries_push(bundles, bundle);
                assert(bundle_entries(bundle) =~= Multiset::empty().insert(entry));
                assert(all_entries(absorb(bundles, entry)) =~= all_entries(bundles).insert(entry));
            }
        },
    }
}

/// Grouping neither drops a file nor holds one twice: the liveries hold each
/// file exactly as often as the list that was grouped.
pub proof fn grouping_keeps_every_entry(entries: Seq<RawEntry>)
    ensures
        all_entries(grouped(entries)) == entries.to_multiset(),
    decreases entries.len(),
{
    broadcast use vstd::multiset::group_multiset_axioms;
    broadcast use group_to_multiset_ensures;

    if entries.len() == 0 {
        assert(entries.to_multiset() =~= Multiset::<RawEntry>::empty()) by {
            assert(entries.to_multiset().len() == 0);
        }
    } else {
        let rest = entries.drop_first();
        grouping_keeps_every_entry(rest);
        absorb_adds_the_entry(grouped(rest), entries.first());
        assert(entries =~= rest.insert(0, entries.first()));
    }
}

/// Whether a livery takes a livery file depends on its folder alone.
proof fn first_taking_by_folders(a: Seq<Bundle>, b: Seq<Bundle>, key: Seq<char>, from: int)
    requires
        a.len() == b.len(),
        0 <= from <= a.len(),
        forall|i: int| 0 <= i < a.len() ==> (#[trigger] a[i]).folder == b[i].folder,
    ensures
        first_taking(a, key, false, from) == first_taking(b, key, false, from),
    decreases a.len() - from,
{
    if from < a.len() {
        assert(a[from].folder == b[from].folder);
        if !takes(a[from], key, false) {
            first_taking_by_folders(a, b, key, from + 1);
        }
    }
}

/// A livery at the back does not change which livery is found in front of
/// it.
proof fn first_taking_push(
    bundles: Seq<Bundle>,
    bundle: Bundle,
    key: Seq<char>,
    descriptor: bool,
    from: int,
)
    requires
        0 <= from <= bundles.len(),
    ensures
        first_taking(bundles, key, descriptor, from) < bundles.len() ==> first_taking(
            bundles.push(bundle),
            key,
            descriptor,
            from,
        ) == first_taking(bundles, key, descriptor, from),
        first_taking(bundles, key, descriptor, from) >= bundles.len() && takes(
            bundle,
            key,
            descriptor,
        ) ==> first_taking(bundles.push(bundle), key, descriptor, from) == bundles.len(),
    decreases bundles.len() - from,
{
    let more = bundles.push(bundle);
    if from < bundles.len() {
        assert(more[from] == bundles[from]);
        if !takes(bundles[from], key, descriptor) {
            first_taking_push(bundles, bundle, key, descriptor, from + 1);
        }
    } else {
        assert(more[from] == bundle);
    }
}

/// Grouping one more file keeps the liveries orderly.
pub proof fn absorb_keeps_order(bundles: Seq<Bundle>, entry: RawEntry)
    requires
        well_grouped(bundles),
    ensures
        well_grouped(absorb(bundles, entry)),
{
    let after = absorb(bundles, entry);
    match entry.placement {
        Placement::Descriptor => {
            match folder_key(entry.bytes) {
                Some(key) => {
                    let slot = first_taking(bundles, key, true, 0);
                    first_taking_is_first(bundles, key, true, 0);
                    if slot < bundles.len() {
                        assert forall|i: int|
                            0 <= i < after.len() && (#[trigger] after[i]).assets.len()
                                > 0 implies first_taking(after, after[i].folder->0, false, 0)
                            == i by {
                            assert(bundles[i].assets.len() > 0);
                            first_taking_by_folders(after, bundles, after[i].folder->0, 0);
                        }
                        assert(well_grouped(after));
                    } else {
                        let bundle = Bundle {
                            folder: Some(key),
                            descriptor: Some(entry),
                            assets: seq![],
                        };
                        assert forall|i: int|
                            0 <= i < after.len() && (#[trigger] after[i]).assets.len()
                                > 0 implies first_taking(after, after[i].folder->0, false, 0)
                            == i by {
                            assert(bundles[i].assets.len() > 0);
                            first_taking_push(bundles, bundle, after[i].folder->0, false, 0);
                        }
                        assert(well_grouped(after));
                    }
                },
                None => {
                    let bundle = Bundle { folder: None, descriptor: Some(entry), assets: seq![] };
                    assert forall|i: int|
                        0 <= i < after.len() && (#[trigger] after[i]).assets.len()
                            > 0 implies first_taking(after, after[i].folder->0, false, 0) == i by {
                        assert(bundles[i].assets.len() > 0);
                        first_taking_push(bundles, bundle, after[i].folder->0, false, 0);
                    }
                    assert(well_grouped(after));
                },
            }
        },
        Placement::AssetFolder(key) => {
            let slot = first_taking(bundles, key, false, 0);
            first_taking_is_first(bundles, key, false, 0);
            if slot < bundles.len() {
                assert forall|i: int|
                    0 <= i < after.len() && (#[trigger] after[i]).assets.len()
                        > 0 implies first_taking(after, after[i].folder->0, false, 0) == i by {
                    first_taking_by_folders(after, bundles, after[i].folder->0, 0);
                    if i != slot {
                        assert(bundles[i].assets.len() > 0);
                    }
                }
                assert forall|i: int, a: int|
                    0 <= i < after.len() && 0 <= a < after[i].assets.len() implies after[i].folder
                    is Some && (#[trigger] after[i].assets[a]).placement == Placement::AssetFolder(
                    after[i].folder->0,
                ) by {
                    if i == slot {
                        if a < bundles[i].assets.len() {
                            assert(after[i].assets[a] == bundles[i].assets[a]);
                        }
                    } else {
                        assert(after[i].assets[a] == bundles[i].assets[a]);
                    }
                }
                assert(well_grouped(after));
            } else {
                let bundle = Bundle { folder: Some(key), descriptor: None, assets: seq![entry] };
                assert forall|i: int|
                    0 <= i < after.len() && (#[trigger] after[i]).assets.len()
                        > 0 implies first_taking(after, after[i].folder->0, false, 0) == i by {
                    first_taking_push(bundles, bundle, after[i].folder->0, false, 0);
                    if i < bundles.len() {
                        assert(bundles[i].assets.len() > 0);
                    }
                }
                assert forall|i: int, a: int|
                    0 <= i < after.len() && 0 <= a < after[i].assets.len() implies after[i].folder
                    is Some && (#[trigger] after[i].assets[a]).placement == Placement::AssetFolder(
                    after[i].folder->0,
                ) by {
                    if i < bundles.len() {
                        assert(after[i].assets[a] == bundles[i].assets[a]);
                    }
                }
                assert(well_grouped(after));
            }
        },
    }
}

/// The liveries that come out of grouping are orderly, whatever the files
/// and whatever their order.
pub proof fn grouping_is_orderly(entries: Seq<RawEntry>)
    ensures
        well_grouped(grouped(entries)),
    decreases entries.len(),
{
    if entries.len() > 0 {
        grouping_is_orderly(entries.drop_first());
        absorb_keeps_order(grouped(entries.drop_first()), entries.first());
    }
}

/// Two livery files of the same folder end up in the same livery, whatever
/// the order of the files: if the liveries at `i` and `j` each hold a livery
/// file of one folder, they are one livery, and it is a livery of that
/// folder.
pub proof fn assets_of_a_folder_share_a_livery(
    entries: Seq<RawEntry>,
    i: int,
    a: int,
    j: int,
    b: int,
)
    requires
        0 <= i < grouped(entries).len(),
        0 <= a < grouped(entries)[i].assets.len(),
        0 <= j < grouped(entries).len(),
        0 <= b < grouped(entries)[j].assets.len(),
        grouped(entries)[i].assets[a].placement == grouped(entries)[j].assets[b].placement,
    ensures
        i == j,
        grouped(entries)[i].assets[a].placement == Placement::AssetFolder(
            grouped(entries)[i].folder->0,
        ),
{
    grouping_is_orderly(entries);
    let bundles = grouped(entries);
    assert(bundles[i].assets[a].placement == Placement::AssetFolder(bundles[i].folder->0));
    assert(bundles[j].assets[b].placement == Placement::AssetFolder(bundles[j].folder->0));
    assert(bundles[i].assets.len() > 0);
    assert(bundles[j].assets.len() > 0);
}

/// Whether the installed files `more` keep every file of `files` as it is:
/// files may have been added, none was changed or removed.
pub open spec fn keeps_all(more: Seq<RawEntry>, files: Seq<RawEntry>) -> bool {
    forall|placement: Placement, name: Seq<char>|
        stored(files, placement, name) is Some ==> #[trigger] stored(more, placement, name)
            == stored(files, placement, name)
}

/// More installed files never turn a livery that was in some way installed
/// already into one with nothing in its way: once the classification is not
/// `Nothing`, it stays so when files are added to the installation.
pub proof fn more_files_keep_the_conflict(
    bundle: Bundle,
    files: Seq<RawEntry>,
    more: Seq<RawEntry>,
)
    requires
        keeps_all(more, files),
        verdict(bundle, files) != Conflict::Nothing,
    ensures
        verdict(bundle, more) != Conflict::Nothing,
{
    if stored_descriptor(bundle, files) is Some {
        let car = bundle.descriptor->0;
        assert(stored(more, car.placement, car.name) == stored(files, car.placement, car.name));
    } else {
        if exists|i: int| asset_differs(bundle, files, i) {
            let i = choose|i: int| asset_differs(bundle, files, i);
            assert(asset_present(bundle, files, i));
        }
        let i = choose|i: int| asset_present(bundle, files, i);
        let asset = bundle.assets[i];
        assert(stored(more, asset.placement, asset.name) == stored(
            files,
            asset.placement,
            asset.name,
        ));
        assert(asset_present(bundle, more, i));
    }
}

/// Whether a classification asks for a decision: something that is installed
/// would be overwritten with something else.
pub open spec fn is_conflict(conflict: Conflict) -> bool {
    conflict == Conflict::CarOnly || conflict == Conflict::LiveryOnly || conflict
        == Conflict::Both
}

/// More installed files never settle a conflict: a livery that would
/// overwrite something with something else still does so when files are
/// added to the installation.
pub proof fn more_files_keep_a_conflict_open(
    bundle: Bundle,
    files: Seq<RawEntry>,
    more: Seq<RawEntry>,
)
    requires
        keeps_all(more, files),
        is_conflict(verdict(bundle, files)),
    ensures
        is_conflict(verdict(bundle, more)),
{
    if stored_descriptor(bundle, files) is Some {
        let car = bundle.descriptor->0;
        assert(stored(more, car.placement, car.name) == stored(files, car.placement, car.name));
    }
    if exists|i: int| asset_differs(bundle, files, i) {
        let i = choose|i: int| asset_differs(bundle, files, i);
        let asset = bundle.assets[i];
        assert(stored(more, asset.placement, asset.name) == stored(
            files,
            asset.placement,
            asset.name,
        ));
        assert(asset_differs(bundle, more, i));
        assert(asset_present(bundle, more, i));
    } else if exists|i: int| asset_present(bundle, files, i) {
        let i = choose|i: int| asset_present(bundle, files, i);
        let asset = bundle.assets[i];
        assert(stored(more, asset.placement, asset.name) == stored(
            files,
            asset.placement,
            asset.name,
        ));
        assert(asset_present(bundle, more, i));
    }
}

/// An installed file that differs from the file of a livery in its place is
/// always a conflict, whatever else is installed: be it the descriptor or a
/// livery file that counts, the classification is `CarOnly`, `LiveryOnly` or
/// `Both`, and so neither `Nothing` nor `Identical`.
pub proof fn a_differing_file_is_a_conflict(bundle: Bundle, more: Seq<RawEntry>)
    requires
        (stored_descriptor(bundle, more) is Some && stored_descriptor(bundle, more) != Some(
            bundle.descriptor->0.bytes,
        )) || (exists|i: int| asset_differs(bundle, more, i)),
    ensures
        is_conflict(verdict(bundle, more)),
{
    if exists|i: int| asset_differs(bundle, more, i) {
        let i = choose|i: int| asset_differs(bundle, more, i);
        assert(asset_present(bundle, more, i));
    }
}

/// Whether no two files of a list lie at one place under one name.
pub open spec fn distinct_places(files: Seq<RawEntry>) -> bool {
    forall|i: int, j: int|
        0 <= i < j < files.len() ==> !((#[trigger] files[i]).placement == (
        #[trigger] files[j]).placement && files[i].name == files[j].name)
}

/// Of two lists of installed files, one after the other, the second is asked
/// first.
proof fn stored_in_both(
    first: Seq<RawEntry>,
    second: Seq<RawEntry>,
    placement: Placement,
    name: Seq<char>,
)
    ensures
        stored(first + second, placement, name) == (match stored(second, placement, name) {
            Some(bytes) => Some(bytes),
            None => stored(first, placement, name),
        }),
    decreases second.len(),
{
    if second.len() == 0 {
        assert(first + second =~= first);
    } else {
        assert((first + second).drop_last() =~= first + second.drop_last());
        assert((first + second).last() == second.last());
        stored_in_both(first, second.drop_last(), placement, name);
    }
}

/// A file of a list with distinct places is what the list stores in its
/// place.
proof fn stored_own(files: Seq<RawEntry>, i: int)
    requires
        distinct_places(files),
        0 <= i < files.len(),
    ensures
        stored(files, files[i].placement, files[i].name) == Some(files[i].bytes),
    decreases files.len(),
{
    if i < files.len() - 1 {
        let shorter = files.drop_last();
        assert(files.last() == files[files.len() - 1]);
        assert forall|a: int, b: int| 0 <= a < b < shorter.len() implies !((
        #[trigger] shorter[a]).placement == (#[trigger] shorter[b]).placement && shorter[a].name
            == shorter[b].name) by {
            assert(shorter[a] == files[a]);
            assert(shorter[b] == files[b]);
        }
        stored_own(shorter, i);
        assert(shorter[i] == files[i]);
    }
}

/// Installing a livery settles every conflict: once its files are written,
/// each in a place of its own, nothing that is installed differs from it,
/// and the classification is `Identical`, or `Nothing` for a livery of
/// files that do not count.
pub proof fn installing_settles_the_conflict(bundle: Bundle, files: Seq<RawEntry>)
    requires
        distinct_places(Livery::written(bundle)),
    ensures
        !is_conflict(verdict(bundle, files + Livery::written(bundle))),
{
    let written = Livery::written(bundle);
    let after = files + written;
    let front: Seq<RawEntry> = match bundle.descriptor {
        Some(car) => seq![car],
        None => seq![],
    };
    assert(written == front + bundle.assets);
    if bundle.descriptor is Some {
        let car = bundle.descriptor->0;
        assert(written[0] == car);
        stored_own(written, 0);
        stored_in_both(files, written, car.placement, car.name);
    }
    assert forall|i: int| !asset_differs(bundle, after, i) by {
        if 0 <= i < bundle.assets.len() {
            let asset = bundle.assets[i];
            assert(written[front.len() + i] == asset);
            stored_own(written, front.len() + i);
            stored_in_both(files, written, asset.placement, asset.name);
        }
    }
}

/// A file that no later one replaces is what the installation stores in its
/// place.
pub proof fn counting_file_is_stored(files: Seq<RawEntry>, i: int)
    requires
        0 <= i < files.len(),
        counts(files, i),
    ensures
        stored(files, files[i].placement, files[i].name) == Some(files[i].bytes),
    decreases files.len(),
{
    if i < files.len() - 1 {
        let shorter = files.drop_last();
        assert(files.last() == files[files.len() - 1]);
        assert forall|j: int| i < j < shorter.len() implies !((
        #[trigger] shorter[j]).placement == shorter[i].placement && shorter[j].name
            == shorter[i].name) by {
            assert(shorter[j] == files[j]);
        }
        counting_file_is_stored(shorter, i);
        assert(shorter[i] == files[i]);
    }
}

/// Each of the files that are given for a place, among the first `n` of the
/// list, is a file of the list that lies there and that no later one
/// replaces.
proof fn stored_among_is_of_the_list(files: Seq<RawEntry>, placement: Placement, n: int)
    requires
        0 <= n <= files.len(),
    ensures
        forall|k: int|
            0 <= k < stored_among(files, placement, n).len() ==> exists|i: int|
                0 <= i < n && #[trigger] files[i] == (#[trigger] stored_among(
                    files,
                    placement,
                    n,
                )[k]) && files[i].placement == placement && counts(files, i),
    decreases n,
{
    if n > 0 {
        stored_among_is_of_the_list(files, placement, n - 1);
        let before = stored_among(files, placement, n - 1);
        let now = stored_among(files, placement, n);
        assert forall|k: int| 0 <= k < now.len() implies exists|i: int|
            0 <= i < n && #[trigger] files[i] == (#[trigger] now[k]) && files[i].placement
                == placement && counts(files, i) by {
            if k < before.len() {
                assert(now[k] == before[k]);
                let i = choose|i: int|
                    0 <= i < n - 1 && #[trigger] files[i] == before[k] && files[i].placement
                        == placement && counts(files, i);
                assert(files[i] == now[k]);
            } else {
                assert(files[n - 1] == now[k]);
            }
        }
    }
}

/// No two of the files that are given for a place have one name.
proof fn stored_among_has_each_name_once(files: Seq<RawEntry>, placement: Placement, n: int)
    requires
        0 <= n <= files.len(),
    ensures
        forall|a: int, b: int|
            0 <= a < b < stored_among(files, placement, n).len() ==> (#[trigger] stored_among(
                files,
                placement,
                n,
            )[a]).name != (#[trigger] stored_among(files, placement, n)[b]).name,
    decreases n,
{
    if n > 0 {
        stored_among_has_each_name_once(files, placement, n - 1);
        stored_among_is_of_the_list(files, placement, n - 1);
        let before = stored_among(files, placement, n - 1);
        let now = stored_among(files, placement, n);
        assert forall|a: int, b: int| 0 <= a < b < now.len() implies (#[trigger] now[a]).name != (
        #[trigger] now[b]).name by {
            if b < before.len() {
                assert(now[a] == before[a]);
                assert(now[b] == before[b]);
            } else {
                assert(now[a] == before[a]);
                let i = choose|i: int|
                    0 <= i < n - 1 && #[trigger] files[i] == before[a] && files[i].placement
                        == placement && counts(files, i);
                assert(files[n - 1] == now[b]);
            }
        }
    }
}

/// The files that are given for a place are what is installed there: each
/// lies at the place, holds the bytes that the installation stores under
/// its name, and no two of them have one name.
pub proof fn given_files_are_what_is_installed(files: Seq<RawEntry>, placement: Placement)
    ensures
        forall|k: int|
            0 <= k < stored_at(files, placement).len() ==> (#[trigger] stored_at(
                files,
                placement,
            )[k]).placement == placement && stored(
                files,
                placement,
                stored_at(files, placement)[k].name,
            ) == Some(stored_at(files, placement)[k].bytes),
        forall|a: int, b: int|
            0 <= a < b < stored_at(files, placement).len() ==> (#[trigger] stored_at(
                files,
                placement,
            )[a]).name != (#[trigger] stored_at(files, placement)[b]).name,
{
    let n = files.len() as int;
    stored_among_is_of_the_list(files, placement, n);
    stored_among_has_each_name_once(files, placement, n);
    let given = stored_at(files, placement);
    assert forall|k: int| 0 <= k < given.len() implies (#[trigger] given[k]).placement
        == placement && stored(files, placement, given[k].name) == Some(given[k].bytes) by {
        let i = choose|i: int|
            0 <= i < n && #[trigger] files[i] == given[k] && files[i].placement == placement
                && counts(files, i);
        counting_file_is_stored(files, i);
    }
}

/// Every name under which something is installed at a place is the name of
/// one of the files that are given for the place.
pub proof fn what_is_installed_is_given(
    files: Seq<RawEntry>,
    placement: Placement,
    name: Seq<char>,
)
    requires
        stored(files, placement, name) is Some,
    ensures
        exists|k: int|
            0 <= k < stored_at(files, placement).len() && (#[trigger] stored_at(
                files,
                placement,
            )[k]).name == name,
{
    let i = last_there(files, placement, name);
    let n = files.len() as int;
    given_from(files, placement, n, i);
    let k = choose|k: int|
        0 <= k < stored_among(files, placement, n).len() && (#[trigger] stored_among(
            files,
            placement,
            n,
        )[k]) == files[i];
    assert(stored_at(files, placement)[k].name == name);
}

/// The index of the last file of the list at a place under a name.
proof fn last_there(files: Seq<RawEntry>, placement: Placement, name: Seq<char>) -> (i: int)
    requires
        stored(files, placement, name) is Some,
    ensures
        0 <= i < files.len(),
        files[i].placement == placement,
        files[i].name == name,
        counts(files, i),
    decreases files.len(),
{
    if files.last().placement == placement && files.last().name == name {
        files.len() - 1
    } else {
        let shorter = files.drop_last();
        let i = last_there(shorter, placement, name);
        assert(shorter[i] == files[i]);
        assert forall|j: int| i < j < files.len() implies !((#[trigger] files[j]).placement
            == files[i].placement && files[j].name == files[i].name) by {
            if j < shorter.len() {
                assert(shorter[j] == files[j]);
            }
        }
        i
    }
}

/// A file that lies at the place and that no later one replaces is among
/// the files given for the place.
proof fn given_from(files: Seq<RawEntry>, placement: Placement, n: int, i: int)
    requires
        0 <= i < n <= files.len(),
        files[i].placement == placement,
        counts(files, i),
    ensures
        exists|k: int|
            0 <= k < stored_among(files, placement, n).len() && (#[trigger] stored_among(
                files,
                placement,
                n,
            )[k]) == files[i],
    decreases n,
{
    let now = stored_among(files, placement, n);
    if i == n - 1 {
        assert(now[now.len() - 1] == files[i]);
    } else {
        given_from(files, placement, n - 1, i);
        let before = stored_among(files, placement, n - 1);
        let k = choose|k: int| 0 <= k < before.len() && (#[trigger] before[k]) == files[i];
        assert(now[k] == files[i]);
    }
}

} // verus!
