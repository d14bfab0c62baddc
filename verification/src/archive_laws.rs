//! What holds of a livery that is packed into an archive and read again.

use crate::archive::{archive_entry, archive_len, listed};
use crate::laws::{grouping_is_orderly, grouping_keeps_every_entry};
use crate::livery_ops::{
    all_entries, bundle_entries, entry_of, extracted, first_taking, folder_key, grouped,
    holds_something, internal_path, packed, packed_entries, placement_text, takes, Bundle,
    Placement, RawEntry,
};
use crate::text::{
    last_segment, leading_spaces, lemma_tail_run_is, lemma_trailing_slashes_is, lowered,
    parent_path, same_ignoring_case, trailing_spaces, trimmed, without_trailing_slashes,
};
use vstd::multiset::Multiset;
use vstd::prelude::*;
use vstd::seq_lib::*;

verus! {

/// Whether a text can stand as one segment of a path: it is not empty and
/// holds no slash.
pub open spec fn is_segment(name: Seq<char>) -> bool {
    name.len() > 0 && forall|i: int| 0 <= i < name.len() ==> #[trigger] name[i] != '/'
}

/// Whether a place can be told again from the path of an entry: a livery
/// folder must be a segment without white space around it, and must not be
/// called `cars`.
pub open spec fn is_plain_place(placement: Placement) -> bool {
    match placement {
        Placement::Descriptor => true,
        Placement::AssetFolder(folder) => is_segment(folder) && trimmed(folder) == folder
            && !same_ignoring_case(folder, "cars"@),
    }
}

/// A path that ends in a slash and a segment has that segment as its final
/// segment, and the rest, with the slash, in front of it.
proof fn final_segment_of(front: Seq<char>, name: Seq<char>)
    requires
        is_segment(name),
    ensures
        last_segment(front + "/"@ + name) == name,
        parent_path(front + "/"@ + name) == front + "/"@,
{
    reveal_strlit("/");
    let path = front + "/"@ + name;
    let n = name.len() as int;
    assert(path.len() == front.len() + 1 + n);
    assert forall|i: int| path.len() - n <= i < path.len() implies #[trigger] path[i] != '/' by {
        assert(path[i] == name[i - front.len() - 1]);
    }
    assert(path[path.len() - 1] == name[n - 1]);
    lemma_trailing_slashes_is(path, 0);
    assert(without_trailing_slashes(path) =~= path);
    assert(path[path.len() - n - 1] == '/');
    lemma_tail_run_is(path, n);
    assert(path.skip(path.len() - n) =~= name);
    assert(path.take(path.len() - n) =~= front + "/"@);
}

/// A segment followed by one slash has that segment as its final segment.
proof fn final_segment_before_slash(front: Seq<char>, name: Seq<char>)
    requires
        is_segment(name),
        front.len() == 0 || front.last() == '/',
    ensures
        last_segment(front + name + "/"@) == name,
{
    reveal_strlit("/");
    let path = front + name + "/"@;
    let n = name.len() as int;
    assert(path.len() == front.len() + n + 1);
    assert(path[path.len() - 1] == '/');
    assert(path[path.len() - 2] == name[n - 1]);
    lemma_trailing_slashes_is(path, 1);
    let q = without_trailing_slashes(path);
    assert(q =~= front + name);
    assert forall|i: int| q.len() - n <= i < q.len() implies #[trigger] q[i] != '/' by {
        assert(q[i] == name[i - front.len()]);
    }
    if n < q.len() {
        assert(q[q.len() - n - 1] == front.last());
    }
    lemma_tail_run_is(q, n);
    assert(q.skip(q.len() - n) =~= name);
}

/// The folder of the car descriptors is told again from its name.
proof fn cars_is_cars()
    ensures
        is_segment("Cars"@),
        trimmed("Cars"@) == "Cars"@,
        same_ignoring_case("Cars"@, "cars"@),
{
    reveal_strlit("Cars");
    reveal_strlit("cars");
    let cars = "Cars"@;
    assert(leading_spaces(cars) == 0);
    assert(cars.skip(0) =~= cars);
    assert(trailing_spaces(cars) == 0);
    assert(cars.take(4) =~= cars);
    assert(lowered(cars) =~= lowered("cars"@));
}

/// The path under which a file is packed leads back to the file: read from
/// an archive, the entry has the name and the place of the file, whatever
/// the archive is called. The name must be a segment, and the place one
/// that a path can tell.
pub proof fn packed_path_leads_back(entry: RawEntry, archive_stem: Seq<char>)
    requires
        is_segment(entry.name),
        is_plain_place(entry.placement),
    ensures
        entry_of(internal_path(entry), entry.bytes, archive_stem) == Some(entry),
{
    reveal_strlit("/");
    reveal_strlit("Liveries");
    let place = placement_text(entry.placement);
    let path = internal_path(entry);
    final_segment_of(place, entry.name);
    match entry.placement {
        Placement::Descriptor => {
            cars_is_cars();
            assert("Cars"@ =~= Seq::<char>::empty() + "Cars"@);
            assert(place + "/"@ =~= Seq::<char>::empty() + "Cars"@ + "/"@);
            final_segment_before_slash(Seq::<char>::empty(), "Cars"@);
        },
        Placement::AssetFolder(folder) => {
            let front = "Liveries"@ + "/"@;
            assert(front.last() == '/');
            assert(place + "/"@ =~= front + folder + "/"@);
            final_segment_before_slash(front, folder);
        },
    }
}

/// Whether a file belongs to the livery folder `key`: a livery file of that
/// folder, or a car descriptor that names it.
pub open spec fn belongs_to(entry: RawEntry, key: Seq<char>) -> bool {
    match entry.placement {
        Placement::Descriptor => folder_key(entry.bytes) == Some(key),
        Placement::AssetFolder(folder) => folder == key,
    }
}

/// Whether a list of files is what one livery of the folder `key` is made
/// of: every file belongs to the folder, and at most one of them is a car
/// descriptor.
pub open spec fn makes_one_livery(entries: Seq<RawEntry>, key: Seq<char>) -> bool {
    &&& forall|i: int| 0 <= i < entries.len() ==> belongs_to(#[trigger] entries[i], key)
    &&& forall|i: int, j: int|
        0 <= i < j < entries.len() ==> !((#[trigger] entries[i]).placement is Descriptor && (
        #[trigger] entries[j]).placement is Descriptor)
}

proof fn one_livery_is_grouped(entries: Seq<RawEntry>, key: Seq<char>)
    requires
        makes_one_livery(entries, key),
        entries.len() > 0,
    ensures
        grouped(entries).len() == 1,
        grouped(entries)[0].folder == Some(key),
        grouped(entries)[0].descriptor is Some ==> exists|i: int|
            0 <= i < entries.len() && (#[trigger] entries[i]).placement is Descriptor,
    decreases entries.len(),
{
    let rest = entries.drop_first();
    let entry = entries.first();
    assert(belongs_to(entries[0], key));
    assert forall|i: int| 0 <= i < rest.len() implies belongs_to(#[trigger] rest[i], key) by {
        assert(rest[i] == entries[i + 1]);
    }
    assert forall|i: int, j: int| 0 <= i < j < rest.len() implies !((
    #[trigger] rest[i]).placement is Descriptor && (#[trigger] rest[j]).placement
        is Descriptor) by {
        assert(rest[i] == entries[i + 1]);
        assert(rest[j] == entries[j + 1]);
    }
    let bundles = grouped(rest);
    if rest.len() == 0 {
        assert(bundles.len() == 0);
        assert(first_taking(bundles, key, true, 0) == 0);
        assert(first_taking(bundles, key, false, 0) == 0);
        if grouped(entries)[0].descriptor is Some {
            assert(entries[0].placement is Descriptor);
        }
    } else {
        one_livery_is_grouped(rest, key);
        let descriptor = entry.placement is Descriptor;
        assert(!(descriptor && bundles[0].descriptor is Some)) by {
            if descriptor && bundles[0].descriptor is Some {
                let i = choose|i: int| 0 <= i < rest.len() && (#[trigger] rest[i]).placement
                    is Descriptor;
                assert(rest[i] == entries[i + 1]);
                assert(entries[0].placement is Descriptor);
            }
        }
        assert(takes(bundles[0], key, descriptor));
        assert(first_taking(bundles, key, descriptor, 0) == 0);
        if grouped(entries)[0].descriptor is Some {
            if descriptor {
                assert(entries[0].placement is Descriptor);
            } else {
                let i = choose|i: int| 0 <= i < rest.len() && (#[trigger] rest[i]).placement
                    is Descriptor;
                assert(rest[i] == entries[i + 1]);
            }
        }
    }
}

/// The files of one livery, grouped in whatever order, come out as one
/// livery again: it has the folder that they belong to, and it holds each of
/// them exactly as often as the list.
pub proof fn files_of_one_livery_are_one_livery(entries: Seq<RawEntry>, key: Seq<char>)
    requires
        makes_one_livery(entries, key),
        entries.len() > 0,
    ensures
        grouped(entries).len() == 1,
        grouped(entries)[0].folder == Some(key),
        bundle_entries(grouped(entries)[0]) == entries.to_multiset(),
{
    broadcast use vstd::multiset::group_multiset_axioms;

    one_livery_is_grouped(entries, key);
    grouping_keeps_every_entry(entries);
    let bundles = grouped(entries);
    assert(bundles.drop_last().len() == 0);
    assert(all_entries(bundles.drop_last()) == Multiset::<RawEntry>::empty());
    assert(all_entries(bundles) =~= bundle_entries(bundles[0]));
}

/// Whether a livery can be packed and told again from its archive: it has a
/// folder and holds something, its descriptor names the folder, its livery
/// files lie in the folder, and the names and the folder can stand in paths.
pub open spec fn is_packable(bundle: Bundle) -> bool {
    &&& holds_something(bundle)
    &&& bundle.folder is Some
    &&& is_plain_place(Placement::AssetFolder(bundle.folder->0))
    &&& bundle.descriptor matches Some(car) ==> car.placement is Descriptor && is_segment(car.name)
        && folder_key(car.bytes) == bundle.folder
    &&& forall|i: int|
        0 <= i < bundle.assets.len() ==> (#[trigger] bundle.assets[i]).placement
            == Placement::AssetFolder(bundle.folder->0) && is_segment(bundle.assets[i].name)
}

/// A value that stands at two places of a list is counted twice.
proof fn counted_twice(entries: Seq<RawEntry>, i: int, j: int)
    requires
        0 <= i < j < entries.len(),
        entries[i] == entries[j],
    ensures
        entries.to_multiset().count(entries[i]) >= 2,
{
    broadcast use vstd::multiset::group_multiset_axioms;
    broadcast use group_to_multiset_ensures;

    let shorter = entries.remove(i);
    assert(shorter[j - 1] == entries[j]);
    assert(shorter.contains(entries[i]));
    assert(shorter.to_multiset().count(entries[i]) > 0);
    assert(shorter.to_multiset() == entries.to_multiset().remove(entries[i]));
}

/// A livery that is packed and read again is the livery that was packed.
///
/// Each of its files is read under its name and at its place, whatever the
/// archive is called. And the files, grouped in whatever order the archive
/// lists them, make one livery: with the folder and the descriptor of the
/// packed one, and with its livery files, each of them as often as before.
pub proof fn a_packed_livery_is_read_back(
    bundle: Bundle,
    archive_stem: Seq<char>,
    entries: Seq<RawEntry>,
)
    requires
        is_packable(bundle),
        entries.to_multiset() == packed(bundle).to_multiset(),
    ensures
        forall|i: int|
            0 <= i < packed(bundle).len() ==> entry_of(
                internal_path(#[trigger] packed(bundle)[i]),
                packed(bundle)[i].bytes,
                archive_stem,
            ) == Some(packed(bundle)[i]),
        grouped(entries).len() == 1,
        grouped(entries)[0].folder == bundle.folder,
        grouped(entries)[0].descriptor == bundle.descriptor,
        grouped(entries)[0].assets.to_multiset() == bundle.assets.to_multiset(),
{
    broadcast use vstd::multiset::group_multiset_axioms;
    broadcast use group_to_multiset_ensures;

    let key = bundle.folder->0;
    let files = packed(bundle);
    let front: Seq<RawEntry> = match bundle.descriptor {
        Some(car) => seq![car],
        None => seq![],
    };
    assert(files == front + bundle.assets);
    assert forall|i: int| 0 <= i < files.len() implies belongs_to(#[trigger] files[i], key)
        && is_segment(files[i].name) && is_plain_place(files[i].placement) && (
    files[i].placement is Descriptor ==> bundle.descriptor == Some(files[i])) by {
        if i >= front.len() {
            assert(files[i] == bundle.assets[i - front.len()]);
        }
    }
    assert forall|i: int| 0 <= i < files.len() implies entry_of(
        internal_path(#[trigger] files[i]),
        files[i].bytes,
        archive_stem,
    ) == Some(files[i]) by {
        packed_path_leads_back(files[i], archive_stem);
    }
    // every file that is read is one that was packed
    assert forall|i: int| 0 <= i < entries.len() implies belongs_to(#[trigger] entries[i], key) && (
    entries[i].placement is Descriptor ==> bundle.descriptor == Some(entries[i])) by {
        assert(entries.contains(entries[i]));
        assert(entries.to_multiset().count(entries[i]) > 0);
        assert(files.contains(entries[i]));
        let k = choose|k: int| 0 <= k < files.len() && files[k] == entries[i];
        assert(belongs_to(files[k], key));
    }
    lemma_multiset_commutative(front, bundle.assets);
    assert forall|i: int, j: int| 0 <= i < j < entries.len() implies !((
    #[trigger] entries[i]).placement is Descriptor && (#[trigger] entries[j]).placement
        is Descriptor) by {
        if entries[i].placement is Descriptor && entries[j].placement is Descriptor {
            let car = bundle.descriptor->0;
            assert(entries[i] == car && entries[j] == car);
            counted_twice(entries, i, j);
            assert(!bundle.assets.contains(car)) by {
                if bundle.assets.contains(car) {
                    let k = choose|k: int| 0 <= k < bundle.assets.len() && bundle.assets[k] == car;
                    assert(bundle.assets[k].placement is AssetFolder);
                }
            }
            assert(bundle.assets.to_multiset().count(car) == 0);
            assert(front =~= Seq::<RawEntry>::empty().push(car));
            assert(Seq::<RawEntry>::empty().to_multiset().len() == 0);
            assert(front.to_multiset().count(car) == 1);
            assert(files.to_multiset().count(car) == 1);
        }
    }
    assert(entries.len() == entries.to_multiset().len());
    assert(files.len() == files.to_multiset().len());
    files_of_one_livery_are_one_livery(entries, key);
    grouping_is_orderly(entries);
    let read = grouped(entries)[0];
    let held = read.assets.to_multiset();
    assert forall|entry: RawEntry| #[trigger] held.count(entry) > 0 implies entry.placement
        is AssetFolder by {
        assert(read.assets.contains(entry));
        let k = choose|k: int| 0 <= k < read.assets.len() && read.assets[k] == entry;
        assert(read.assets[k].placement is AssetFolder);
    }
    assert forall|entry: RawEntry| #[trigger]
        bundle.assets.to_multiset().count(entry) > 0 implies entry.placement is AssetFolder by {
        assert(bundle.assets.contains(entry));
        let k = choose|k: int| 0 <= k < bundle.assets.len() && bundle.assets[k] == entry;
        assert(bundle.assets[k].placement is AssetFolder);
    }
    assert(Seq::<RawEntry>::empty().to_multiset().len() == 0);
    match bundle.descriptor {
        Some(car) => {
            assert(front =~= Seq::<RawEntry>::empty().push(car));
            assert(files.to_multiset() =~= bundle.assets.to_multiset().insert(car));
            assert(bundle_entries(read).count(car) > 0);
            assert(held.count(car) == 0);
            assert(read.descriptor == Some(car));
            assert(held =~= bundle.assets.to_multiset()) by {
                assert forall|entry: RawEntry|
                    held.count(entry) == bundle.assets.to_multiset().count(entry) by {
                    assert(bundle_entries(read).count(entry) == files.to_multiset().count(entry));
                }
            }
        },
        None => {
            assert(front =~= Seq::<RawEntry>::empty());
            assert(files.to_multiset() =~= bundle.assets.to_multiset());
            if read.descriptor is Some {
                let other = read.descriptor->0;
                assert(bundle_entries(read).count(other) > 0);
                assert(bundle.assets.to_multiset().count(other) > 0);
            }
            assert(held =~= bundle.assets.to_multiset());
        },
    }
}

/// Whether an archive gives back the entries of a list: it has as many
/// entries, and each is found at its index under its name, with its data.
pub open spec fn gives_back(archive: Seq<u8>, list: Seq<(Seq<char>, Seq<u8>)>) -> bool {
    &&& archive_len(archive) == Some(list.len())
    &&& forall|i: int|
        0 <= i < list.len() ==> archive_entry(archive, i as nat) == Some(
            ((#[trigger] list[i]).0, Some(list[i].1)),
        )
}

/// The files that are read from an archive that gives back the packed
/// entries of a livery are the packed files.
proof fn packed_files_are_read(
    bundle: Bundle,
    archive: Seq<u8>,
    archive_stem: Seq<char>,
    count: nat,
)
    requires
        is_packable(bundle),
        gives_back(archive, packed_entries(bundle)),
        count <= packed(bundle).len(),
    ensures
        extracted(listed(archive, count), archive_stem) == packed(bundle).take(count as int),
    decreases count,
{
    let files = packed(bundle);
    if count == 0 {
        assert(files.take(0) =~= Seq::<RawEntry>::empty());
    } else {
        packed_files_are_read(bundle, archive, archive_stem, (count - 1) as nat);
        let at = count - 1;
        let file = files[at];
        assert(packed_entries(bundle)[at] == (internal_path(file), file.bytes));
        let before = listed(archive, (count - 1) as nat);
        let now = listed(archive, count);
        assert(now == before.push((internal_path(file), Some(file.bytes))));
        assert(now.drop_last() =~= before);
        let front: Seq<RawEntry> = match bundle.descriptor {
            Some(car) => seq![car],
            None => seq![],
        };
        assert(files == front + bundle.assets);
        if at >= front.len() {
            assert(file == bundle.assets[at - front.len()]);
        }
        packed_path_leads_back(file, archive_stem);
        assert(files.take(count as int) =~= files.take(at).push(file));
    }
}

/// A livery that is packed and read from an archive that gives back what
/// was packed is the livery that was packed: the files that are read,
/// grouped, make one livery with its folder, its descriptor and its livery
/// files, each of them as often as before.
///
/// That the archive which the writer sealed gives back its entries is what
/// the archive format is for; it is taken as given here.
pub proof fn a_packed_archive_is_read_back(
    bundle: Bundle,
    archive: Seq<u8>,
    archive_stem: Seq<char>,
)
    requires
        is_packable(bundle),
        gives_back(archive, packed_entries(bundle)),
    ensures
        archive_len(archive) is Some,
        ({
            let read = extracted(listed(archive, archive_len(archive)->0), archive_stem);
            &&& grouped(read).len() == 1
            &&& grouped(read)[0].folder == bundle.folder
            &&& grouped(read)[0].descriptor == bundle.descriptor
            &&& grouped(read)[0].assets.to_multiset() == bundle.assets.to_multiset()
        }),
{
    let files = packed(bundle);
    packed_files_are_read(bundle, archive, archive_stem, files.len());
    assert(files.take(files.len() as int) =~= files);
    a_packed_livery_is_read_back(bundle, archive_stem, files);
}

} // verus!
