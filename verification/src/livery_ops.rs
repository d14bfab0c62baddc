//! Liveries: the files that belong to one, how loose files are grouped into
//! them, and what installing one would overwrite.

use crate::archive::{
    archive_len, entry_count, entry_data, entry_facts, entry_opens, filled, finish,
    is_marked_plain, listed, new_writer, packs, Packing,
    refused_stays_refused, sealed, start_file, write_all, written, ArchiveWriter,
};
use crate::document::{
    document_of, get_member, read_json_from_bytes, text_of, tree_of, Tree,
};
use crate::laws::{
    given_files_are_what_is_installed, grouping_is_orderly, grouping_keeps_every_entry,
};
use crate::text::{
    eq_ignoring_case, file_stem, last_segment, parent_path, same_ignoring_case, split_last,
    stem_of, trim, trimmed,
};
use vstd::multiset::Multiset;
use vstd::prelude::*;
use vstd::string::*;

verus! {

pub const ACC_CUSTOMS_FOLDER_NAME: &'static str = "Customs";

pub const ACC_CAR_FOLDER_NAME: &'static str = "Cars";

pub const ACC_LIVERY_FOLDER_NAME: &'static str = "Liveries";

/// Where a file belongs below the customs folder.
#[derive(Debug, Clone, PartialEq, Eq)]
pub enum CustomFolder {
    /// Among the car descriptors.
    Cars,
    /// In the livery folder of this name.
    Liveries(String),
}

/// The classification of what installing a livery would overwrite.
#[derive(Debug, Clone, Copy, PartialEq, Eq, Structural)]
pub enum Conflict {
    /// Nothing that counts is in the way.
    Nothing,
    /// A different car descriptor of the same name is installed.
    CarOnly,
    /// A different livery file is installed, and no descriptor is in the way.
    LiveryOnly,
    /// Both the descriptor and the livery folder are in the way.
    Both,
    /// Everything that is installed already is the same.
    Identical,
}

/// One file, with the place it belongs to.
#[derive(Debug, Clone)]
pub struct ZipLiveryContent {
    pub upper: CustomFolder,
    pub name: String,
    pub file: Vec<u8>,
}

/// A car descriptor and the livery files that go with it.
#[derive(Debug, Clone)]
pub struct Livery {
    pub livery_folder: Option<String>,
    pub car_json: Option<ZipLiveryContent>,
    pub livery_files: Vec<ZipLiveryContent>,
}

/// The installation as the library sees it: the root folder, the files that
/// are stored below its customs folder, and the livery folders that are
/// there, be it without a file. A file that is stored again stands twice in
/// the list of files: the later one is the one that is installed.
#[derive(Debug, Clone)]
pub struct State {
    pub root_folder: String,
    pub installed: Vec<ZipLiveryContent>,
    pub folders: Vec<String>,
}

/// The place of a file, as a value.
pub enum Placement {
    Descriptor,
    AssetFolder(Seq<char>),
}

/// A file, as a value.
pub struct RawEntry {
    pub placement: Placement,
    pub name: Seq<char>,
    pub bytes: Seq<u8>,
}

/// A livery, as a value.
pub struct Bundle {
    pub folder: Option<Seq<char>>,
    pub descriptor: Option<RawEntry>,
    pub assets: Seq<RawEntry>,
}

impl View for CustomFolder {
    type V = Placement;

    open spec fn view(&self) -> Placement {
        match self {
            CustomFolder::Cars => Placement::Descriptor,
            CustomFolder::Liveries(folder) => Placement::AssetFolder(folder@),
        }
    }
}

impl View for ZipLiveryContent {
    type V = RawEntry;

    open spec fn view(&self) -> RawEntry {
        RawEntry { placement: self.upper@, name: self.name@, bytes: self.file@ }
    }
}

/// The files of a list, as values.
pub open spec fn entries_view(files: Seq<ZipLiveryContent>) -> Seq<RawEntry> {
    files.map_values(|file: ZipLiveryContent| file@)
}

impl View for Livery {
    type V = Bundle;

    open spec fn view(&self) -> Bundle {
        Bundle {
            folder: match self.livery_folder {
                Some(folder) => Some(folder@),
                None => None,
            },
            descriptor: match self.car_json {
                Some(car) => Some(car@),
                None => None,
            },
            assets: entries_view(self.livery_files@),
        }
    }
}

/// The liveries of a list, as values.
pub open spec fn bundles_view(liveries: Seq<Livery>) -> Seq<Bundle> {
    liveries.map_values(|livery: Livery| livery@)
}

/// The text that names a place inside an archive.
pub open spec fn placement_text(placement: Placement) -> Seq<char> {
    match placement {
        Placement::Descriptor => "Cars"@,
        Placement::AssetFolder(folder) => "Liveries"@ + "/"@ + folder,
    }
}

/// The path of a file inside an archive.
pub open spec fn internal_path(entry: RawEntry) -> Seq<char> {
    placement_text(entry.placement) + "/"@ + entry.name
}

/// The path of a file in an installation with the given root folder.
pub open spec fn target_path(root: Seq<char>, entry: RawEntry) -> Seq<char> {
    root + "/"@ + "Customs"@ + "/"@ + internal_path(entry)
}

/// What an installation stores at a place under a name. Where the list of
/// stored files names a file twice, the later one counts.
pub open spec fn stored(files: Seq<RawEntry>, placement: Placement, name: Seq<char>) -> Option<
    Seq<u8>,
>
    decreases files.len(),
{
    if files.len() == 0 {
        None
    } else if files.last().placement == placement && files.last().name == name {
        Some(files.last().bytes)
    } else {
        stored(files.drop_last(), placement, name)
    }
}

/// The names of livery files that never count as a conflict: the lists that
/// the simulation writes by itself, a readme and a marker of where a livery
/// came from. The case of letters makes no difference.
pub open spec fn is_ignored(name: Seq<char>) -> bool {
    ||| same_ignoring_case(name, "decals.json"@)
    ||| same_ignoring_case(name, "sponsors.json"@)
    ||| same_ignoring_case(name, "readme.txt"@)
    ||| same_ignoring_case(name, "awesome.txt"@)
}

/// The livery file at index `i` counts and is installed already.
pub open spec fn asset_present(bundle: Bundle, files: Seq<RawEntry>, i: int) -> bool {
    &&& 0 <= i < bundle.assets.len()
    &&& !is_ignored(bundle.assets[i].name)
    &&& stored(files, bundle.assets[i].placement, bundle.assets[i].name) is Some
}

/// The livery file at index `i` counts, and what is installed in its place is
/// something else.
pub open spec fn asset_differs(bundle: Bundle, files: Seq<RawEntry>, i: int) -> bool {
    &&& asset_present(bundle, files, i)
    &&& stored(files, bundle.assets[i].placement, bundle.assets[i].name) != Some(
        bundle.assets[i].bytes,
    )
}

/// What is installed in the place of the descriptor of a livery.
pub open spec fn stored_descriptor(bundle: Bundle, files: Seq<RawEntry>) -> Option<Seq<u8>> {
    match bundle.descriptor {
        Some(car) => stored(files, car.placement, car.name),
        None => None,
    }
}

/// The classification of a livery against the installed files.
///
/// With a descriptor installed in the place of the livery's own, a
/// differing livery file makes it `Both`; without one, it is `CarOnly` where
/// the installed descriptor differs and `Identical` where it is the same. An
/// installed livery file that is the same adds nothing to either. With no
/// descriptor in the way, a differing livery file makes it `LiveryOnly`;
/// livery files that are all the same make it `Identical`; and with nothing
/// installed it is `Nothing`.
pub open spec fn verdict(bundle: Bundle, files: Seq<RawEntry>) -> Conflict {
    let some_present = exists|i: int| asset_present(bundle, files, i);
    let some_differs = exists|i: int| asset_differs(bundle, files, i);
    match stored_descriptor(bundle, files) {
        Some(found) => if found == bundle.descriptor->0.bytes {
            if some_differs {
                Conflict::Both
            } else {
                Conflict::Identical
            }
        } else {
            if some_differs {
                Conflict::Both
            } else {
                Conflict::CarOnly
            }
        },
        None => if some_differs {
            Conflict::LiveryOnly
        } else if some_present {
            Conflict::Identical
        } else {
            Conflict::Nothing
        },
    }
}

/// The key under which a car descriptor names its livery folder.
pub open spec fn skin_name(tree: Tree) -> Option<Seq<char>> {
    match tree.at("customSkinName"@) {
        Tree::Text(name) => if name.len() > 0 {
            Some(name)
        } else {
            None
        },
        _ => None,
    }
}

/// The livery folder that the bytes of a car descriptor name: the bytes must
/// hold a document, and the document a text that is not empty under the key.
pub open spec fn folder_key(bytes: Seq<u8>) -> Option<Seq<char>> {
    match document_of(bytes) {
        Some(tree) => skin_name(tree),
        None => None,
    }
}

/// Whether a livery can take a file that names the folder `key`. A livery
/// that already has its descriptor does not take another.
pub open spec fn takes(bundle: Bundle, key: Seq<char>, descriptor: bool) -> bool {
    bundle.folder == Some(key) && (descriptor ==> bundle.descriptor is None)
}

/// The index, not below `from`, of the first livery that takes a file for
/// the folder `key`; the number of liveries where none does.
pub open spec fn first_taking(
    bundles: Seq<Bundle>,
    key: Seq<char>,
    descriptor: bool,
    from: int,
) -> int
    decreases bundles.len() - from,
{
    if from >= bundles.len() {
        bundles.len() as int
    } else if takes(bundles[from], key, descriptor) {
        from
    } else {
        first_taking(bundles, key, descriptor, from + 1)
    }
}

/// The liveries after one more file has been grouped.
///
/// A descriptor that names a folder goes to the first livery of that folder
/// that has no descriptor yet, a livery file to the first livery of its
/// folder. A file that no livery takes starts a livery of its own, and so
/// does a descriptor that names no folder.
pub open spec fn absorb(bundles: Seq<Bundle>, entry: RawEntry) -> Seq<Bundle> {
    match entry.placement {
        Placement::Descriptor => match folder_key(entry.bytes) {
            Some(key) => {
                let slot = first_taking(bundles, key, true, 0);
                if slot < bundles.len() {
                    bundles.update(slot, Bundle { descriptor: Some(entry), ..bundles[slot] })
                } else {
                    bundles.push(
                        Bundle { folder: Some(key), descriptor: Some(entry), assets: seq![] },
                    )
                }
            },
            None => bundles.push(Bundle { folder: None, descriptor: Some(entry), assets: seq![] }),
        },
        Placement::AssetFolder(key) => {
            let slot = first_taking(bundles, key, false, 0);
            if slot < bundles.len() {
                bundles.update(
                    slot,
                    Bundle { assets: bundles[slot].assets.push(entry), ..bundles[slot] },
                )
            } else {
                bundles.push(Bundle { folder: Some(key), descriptor: None, assets: seq![entry] })
            }
        },
    }
}

/// The liveries that a list of files is grouped into. The files are taken
/// from the back of the list: the last file is grouped first.
pub open spec fn grouped(entries: Seq<RawEntry>) -> Seq<Bundle>
    decreases entries.len(),
{
    if entries.len() == 0 {
        seq![]
    } else {
        absorb(grouped(entries.drop_first()), entries.first())
    }
}

/// The files that a livery holds, each as often as it holds it.
pub open spec fn bundle_entries(bundle: Bundle) -> Multiset<RawEntry> {
    match bundle.descriptor {
        Some(car) => bundle.assets.to_multiset().insert(car),
        None => bundle.assets.to_multiset(),
    }
}

/// The files that a list of liveries holds, each as often as they hold it.
pub open spec fn all_entries(bundles: Seq<Bundle>) -> Multiset<RawEntry>
    decreases bundles.len(),
{
    if bundles.len() == 0 {
        Multiset::empty()
    } else {
        all_entries(bundles.drop_last()).add(bundle_entries(bundles.last()))
    }
}

/// Whether a livery holds anything: a descriptor, or a livery file. One that
/// holds neither stands for nothing.
pub open spec fn holds_something(bundle: Bundle) -> bool {
    bundle.descriptor is Some || bundle.assets.len() > 0
}

/// What holds of liveries that came out of grouping: each holds something, a
/// descriptor lies in a livery of the folder that it names, a livery file in
/// a livery of its own folder, and only the first livery of a folder has
/// livery files.
pub open spec fn well_grouped(bundles: Seq<Bundle>) -> bool {
    &&& forall|i: int| 0 <= i < bundles.len() ==> holds_something(#[trigger] bundles[i])
    &&& forall|i: int|
        0 <= i < bundles.len() ==> match (#[trigger] bundles[i]).descriptor {
            Some(car) => car.placement is Descriptor && bundles[i].folder == folder_key(car.bytes),
            None => true,
        }
    &&& forall|i: int, a: int|
        0 <= i < bundles.len() && 0 <= a < bundles[i].assets.len() ==> bundles[i].folder
            is Some && (#[trigger] bundles[i].assets[a]).placement == Placement::AssetFolder(
            bundles[i].folder->0,
        )
    &&& forall|i: int|
        0 <= i < bundles.len() && (#[trigger] bundles[i]).assets.len() > 0 ==> first_taking(
            bundles,
            bundles[i].folder->0,
            false,
            0,
        ) == i
}

impl CustomFolder {
    /// The text that names this place inside an archive: `Cars`, or
    /// `Liveries/` and the folder.
    pub fn to_string(&self) -> (r: String)
        ensures
            r@ == placement_text(self@),
    {
        match self {
            CustomFolder::Liveries(folder) => String::from_str(ACC_LIVERY_FOLDER_NAME).concat(
                "/",
            ).concat(folder.as_str()),
            CustomFolder::Cars => String::from_str(ACC_CAR_FOLDER_NAME),
        }
    }

    /// Whether two places are the same.
    pub fn same_as(&self, other: &CustomFolder) -> (r: bool)
        ensures
            r == (self@ == other@),
    {
        match (self, other) {
            (CustomFolder::Cars, CustomFolder::Cars) => true,
            (CustomFolder::Liveries(a), CustomFolder::Liveries(b)) => *a == *b,
            _ => false,
        }
    }
}

/// Whether two byte strings have the same length and the same bytes.
pub fn same_bytes(a: &Vec<u8>, b: &Vec<u8>) -> (r: bool)
    ensures
        r == (a@ == b@),
{
    if a.len() != b.len() {
        return false;
    }
    let mut i: usize = 0;
    while i < a.len()
        invariant
            i <= a.len(),
            a.len() == b.len(),
            forall|j: int| 0 <= j < i ==> a@[j] == b@[j],
        decreases a.len() - i,
    {
        if a[i] != b[i] {
            return false;
        }
        i += 1;
    }
    assert(a@ =~= b@);
    true
}

impl State {
    /// The files that are installed, as values.
    pub open spec fn files(&self) -> Seq<RawEntry> {
        entries_view(self.installed@)
    }

    /// The livery folders that are listed, as values.
    pub open spec fn folder_names(&self) -> Seq<Seq<char>> {
        self.folders@.map_values(|folder: String| folder@)
    }

    /// Whether a livery folder is listed.
    pub fn lists_folder(&self, name: &String) -> (r: bool)
        ensures
            r == self.folder_names().contains(name@),
    {
        let mut i: usize = 0;
        while i < self.folders.len()
            invariant
                i <= self.folders.len(),
                forall|k: int| 0 <= k < i ==> self.folder_names()[k] != name@,
            decreases self.folders.len() - i,
        {
            if self.folders[i] == *name {
                assert(self.folder_names()[i as int] == name@);
                return true;
            }
            i += 1;
        }
        false
    }

    /// Whether the file at an index is the one that is installed in its
    /// place.
    pub fn counts_at(&self, i: usize) -> (r: bool)
        requires
            i < self.installed@.len(),
        ensures
            r == counts(self.files(), i as int),
    {
        let n = self.installed.len();
        let mut j: usize = i + 1;
        while j < n
            invariant
                i < j <= n,
                n == self.installed.len(),
                forall|k: int|
                    i < k < j ==> !((#[trigger] self.files()[k]).placement
                        == self.files()[i as int].placement && self.files()[k].name
                        == self.files()[i as int].name),
            decreases n - j,
        {
            assert(self.files()[j as int] == self.installed@[j as int]@);
            assert(self.files()[i as int] == self.installed@[i as int]@);
            if self.installed[j].upper.same_as(&self.installed[i].upper) && self.installed[j].name
                == self.installed[i].name {
                return false;
            }
            j += 1;
        }
        true
    }

    /// The installed file at a place under a name, if there is one.
    pub fn find(&self, upper: &CustomFolder, name: &String) -> (r: Option<&Vec<u8>>)
        ensures
            r is Some == stored(self.files(), upper@, name@) is Some,
            r matches Some(bytes) ==> stored(self.files(), upper@, name@) == Some(bytes@),
    {
        let mut i: usize = self.installed.len();
        assert(self.files().take(i as int) =~= self.files());
        while i > 0
            invariant
                i <= self.installed.len(),
                stored(self.files(), upper@, name@) == stored(
                    self.files().take(i as int),
                    upper@,
                    name@,
                ),
            decreases i,
        {
            i -= 1;
            let ghost prefix = self.files().take(i + 1);
            assert(prefix.last() == self.installed@[i as int]@);
            assert(prefix.drop_last() =~= self.files().take(i as int));
            if self.installed[i].upper.same_as(upper) && self.installed[i].name == *name {
                return Some(&self.installed[i].file);
            }
        }
        assert(self.files().take(0).len() == 0);
        None
    }
}

impl ZipLiveryContent {
    /// The path at which this file is installed.
    pub fn get_target(&self, state: &State) -> (r: String)
        ensures
            r@ == target_path(state.root_folder@, self@),
    {
        let path = state.root_folder.clone().concat("/").concat(ACC_CUSTOMS_FOLDER_NAME).concat(
            "/",
        ).concat(self.get_interal_path().as_str());
        assert(path@ =~= target_path(state.root_folder@, self@));
        path
    }

    /// Whether a file is installed in the place of this one.
    pub fn is_installed(&self, state: &State) -> (r: bool)
        ensures
            r == stored(state.files(), self@.placement, self@.name) is Some,
    {
        state.find(&self.upper, &self.name).is_some()
    }

    /// Whether the installed file in the place of this one has the same
    /// length and the same bytes.
    pub fn is_same_as_target(&self, state: &State) -> (r: bool)
        ensures
            r == (stored(state.files(), self@.placement, self@.name) == Some(self@.bytes)),
    {
        match state.find(&self.upper, &self.name) {
            Some(content) => same_bytes(content, &self.file),
            None => false,
        }
    }

    /// The path of this file inside an archive.
    pub fn get_interal_path(&self) -> (r: String)
        ensures
            r@ == internal_path(self@),
    {
        self.upper.to_string().concat("/").concat(self.name.as_str())
    }
}

/// Whether the file at `i` is the one that is installed in its place: no
/// later file of the list lies at the same place under the same name.
pub open spec fn counts(files: Seq<RawEntry>, i: int) -> bool {
    forall|j: int|
        i < j < files.len() ==> !((#[trigger] files[j]).placement == files[i].placement
            && files[j].name == files[i].name)
}

/// The files that are installed at one place, among the first `n` of the
/// list, in their order.
pub open spec fn stored_among(files: Seq<RawEntry>, placement: Placement, n: int) -> Seq<RawEntry>
    decreases n,
{
    if n <= 0 {
        seq![]
    } else if files[n - 1].placement == placement && counts(files, n - 1) {
        stored_among(files, placement, n - 1).push(files[n - 1])
    } else {
        stored_among(files, placement, n - 1)
    }
}

/// The files that are installed at one place, in their order: of the files
/// that lie there, each one that no later file replaces.
pub open spec fn stored_at(files: Seq<RawEntry>, placement: Placement) -> Seq<RawEntry> {
    stored_among(files, placement, files.len() as int)
}

/// Whether a livery folder is there: it is listed, or a file is installed
/// in it.
pub open spec fn has_folder(files: Seq<RawEntry>, folders: Seq<Seq<char>>, name: Seq<char>) -> bool {
    folders.contains(name) || stored_at(files, Placement::AssetFolder(name)).len() > 0
}

/// The file name of a car descriptor, as a name given without or with an
/// extension leads to it: the final segment, its extension replaced by
/// `json`.
pub open spec fn descriptor_name(car: Seq<char>) -> Seq<char> {
    file_stem(last_segment(car)) + ".json"@
}

impl CustomFolder {
    /// A copy of this place.
    pub fn duplicate(&self) -> (r: CustomFolder)
        ensures
            r@ == self@,
    {
        match self {
            CustomFolder::Cars => CustomFolder::Cars,
            CustomFolder::Liveries(folder) => CustomFolder::Liveries(folder.clone()),
        }
    }
}

impl ZipLiveryContent {
    /// A copy of this file.
    pub fn duplicate(&self) -> (r: ZipLiveryContent)
        ensures
            r@ == self@,
    {
        ZipLiveryContent {
            upper: self.upper.duplicate(),
            name: self.name.clone(),
            file: self.file.clone(),
        }
    }
}

/// Copies of the installed files at one place.
fn installed_at(state: &State, upper: &CustomFolder) -> (r: Vec<ZipLiveryContent>)
    ensures
        entries_view(r@) == stored_at(state.files(), upper@),
{
    let mut output = Vec::<ZipLiveryContent>::new();
    let mut i: usize = 0;
    assert(entries_view(output@) =~= Seq::<RawEntry>::empty());
    while i < state.installed.len()
        invariant
            i <= state.installed.len(),
            entries_view(output@) == stored_among(state.files(), upper@, i as int),
        decreases state.installed.len() - i,
    {
        let ghost before = entries_view(output@);
        assert(state.files()[i as int] == state.installed@[i as int]@);
        if state.installed[i].upper.same_as(upper) && state.counts_at(i) {
            let item = state.installed[i].duplicate();
            output.push(item);
            assert(entries_view(output@) =~= before.push(item@));
        }
        i += 1;
    }
    output
}

/// The file name of the car descriptor that a name leads to: the final
/// segment of the name, with `json` for its extension.
pub fn descriptor_file_name(car: &str) -> (r: String)
    requires
        last_segment(car@).len() > 0,
    ensures
        r@ == descriptor_name(car@),
{
    let (_, last) = split_last(car);
    stem_of(last.as_str()).concat(".json")
}

/// Finds a car descriptor among the installed ones, by its name without or
/// with an extension.
pub fn get_car_file(car: &String, state: &State) -> (r: Option<ZipLiveryContent>)
    requires
        last_segment(car@).len() > 0,
    ensures
        r is Some == stored(state.files(), Placement::Descriptor, descriptor_name(car@)) is Some,
        r matches Some(file) ==> file@ == (RawEntry {
            placement: Placement::Descriptor,
            name: descriptor_name(car@),
            bytes: stored(state.files(), Placement::Descriptor, descriptor_name(car@))->0,
        }),
{
    let name = descriptor_file_name(car.as_str());
    let upper = CustomFolder::Cars;
    match state.find(&upper, &name) {
        Some(content) => Some(ZipLiveryContent { upper, name, file: content.clone() }),
        None => None,
    }
}

/// The installed files of one livery folder, each file once and with the
/// bytes that are installed; nothing where the folder is not there. A
/// folder without files gives an empty list.
pub fn get_livery_files(livery: &String, state: &State) -> (r: Option<Vec<ZipLiveryContent>>)
    ensures
        r is Some == has_folder(state.files(), state.folder_names(), livery@),
        r matches Some(output) ==> entries_view(output@) == stored_at(
            state.files(),
            Placement::AssetFolder(livery@),
        ),
        r matches Some(output) ==> forall|k: int|
            0 <= k < output@.len() ==> (#[trigger] output@[k])@.placement
                == Placement::AssetFolder(livery@) && stored(
                state.files(),
                Placement::AssetFolder(livery@),
                output@[k]@.name,
            ) == Some(output@[k]@.bytes),
        r matches Some(output) ==> forall|a: int, b: int|
            0 <= a < b < output@.len() ==> (#[trigger] output@[a])@.name != (
            #[trigger] output@[b])@.name,
{
    let output = installed_at(state, &CustomFolder::Liveries(livery.clone()));
    proof {
        given_files_are_what_is_installed(state.files(), Placement::AssetFolder(livery@));
        let given = stored_at(state.files(), Placement::AssetFolder(livery@));
        assert forall|k: int| 0 <= k < output@.len() implies (#[trigger] output@[k])@
            == given[k] by {
            assert(entries_view(output@)[k] == output@[k]@);
        }
    }
    if output.len() > 0 || state.lists_folder(livery) {
        Some(output)
    } else {
        None
    }
}

/// All installed car descriptors, each once and with the bytes that are
/// installed.
pub fn get_all_car_json(state: &State) -> (r: Vec<ZipLiveryContent>)
    ensures
        entries_view(r@) == stored_at(state.files(), Placement::Descriptor),
        forall|k: int|
            0 <= k < r@.len() ==> (#[trigger] r@[k])@.placement == Placement::Descriptor && stored(
                state.files(),
                Placement::Descriptor,
                r@[k]@.name,
            ) == Some(r@[k]@.bytes),
        forall|a: int, b: int|
            0 <= a < b < r@.len() ==> (#[trigger] r@[a])@.name != (#[trigger] r@[b])@.name,
{
    let output = installed_at(state, &CustomFolder::Cars);
    proof {
        given_files_are_what_is_installed(state.files(), Placement::Descriptor);
        let given = stored_at(state.files(), Placement::Descriptor);
        assert forall|k: int| 0 <= k < output@.len() implies (#[trigger] output@[k])@
            == given[k] by {
            assert(entries_view(output@)[k] == output@[k]@);
        }
    }
    output
}

/// Whether a livery file of this name never counts as a conflict.
pub fn is_ignored_name(name: &str) -> (r: bool)
    ensures
        r == is_ignored(name@),
{
    eq_ignoring_case(name, "decals.json") || eq_ignoring_case(name, "sponsors.json")
        || eq_ignoring_case(name, "readme.txt") || eq_ignoring_case(name, "awesome.txt")
}

impl Livery {
    /// The folder in which the livery files are installed, if the livery
    /// has one.
    pub fn get_livery_folder(&self, state: &State) -> (r: Option<String>)
        ensures
            r is Some == self@.folder is Some,
            r matches Some(path) ==> path@ == state.root_folder@ + "/"@ + "Customs"@ + "/"@
                + "Liveries"@ + "/"@ + self@.folder->0,
    {
        match &self.livery_folder {
            Some(folder) => {
                let path = state.root_folder.clone().concat("/").concat(
                    ACC_CUSTOMS_FOLDER_NAME,
                ).concat("/").concat(ACC_LIVERY_FOLDER_NAME).concat("/").concat(folder.as_str());
                Some(path)
            },
            None => None,
        }
    }

    /// The files that installing this livery writes, in their order: the
    /// descriptor, then every livery file.
    pub open spec fn written(bundle: Bundle) -> Seq<RawEntry> {
        (match bundle.descriptor {
            Some(car) => seq![car],
            None => seq![],
        }) + bundle.assets
    }

    /// The livery folders that are listed once this livery is installed:
    /// its own folder is added where it was not listed.
    pub open spec fn folders_after(bundle: Bundle, folders: Seq<Seq<char>>) -> Seq<Seq<char>> {
        match bundle.folder {
            Some(folder) => if folders.contains(folder) {
                folders
            } else {
                folders.push(folder)
            },
            None => folders,
        }
    }

    /// Installs this livery: its descriptor and its livery files are stored,
    /// each in its place, over what was stored there, and its folder is
    /// there afterwards. Every other installed file stays.
    pub fn write(&self, state: &mut State)
        ensures
            final(state).root_folder == old(state).root_folder,
            final(state).files() == old(state).files() + Self::written(self@),
            final(state).folder_names() == Self::folders_after(self@, old(state).folder_names()),
    {
        let ghost before = state.files();
        let ghost listed = state.folder_names();
        if let Some(folder) = &self.livery_folder {
            if !state.lists_folder(folder) {
                state.folders.push(folder.clone());
                assert(state.folder_names() =~= listed.push(folder@));
            }
        }
        let ghost folders = state.folder_names();
        if let Some(car) = &self.car_json {
            let item = car.duplicate();
            state.installed.push(item);
            assert(state.files() =~= before.push(item@));
        }
        let ghost front = state.files();
        assert(front =~= before + (match self@.descriptor {
            Some(car) => seq![car],
            None => seq![],
        }));
        let mut i: usize = 0;
        while i < self.livery_files.len()
            invariant
                i <= self.livery_files.len(),
                state.root_folder == old(state).root_folder,
                state.folder_names() == folders,
                state.files() == front + self@.assets.take(i as int),
            decreases self.livery_files.len() - i,
        {
            let ghost so_far = state.files();
            let item = self.livery_files[i].duplicate();
            state.installed.push(item);
            assert(state.files() =~= so_far.push(item@));
            assert(self@.assets.take(i + 1) =~= self@.assets.take(i as int).push(item@));
            i += 1;
        }
        assert(self@.assets.take(i as int) =~= self@.assets);
    }

    /// Classifies this livery against what is installed.
    pub fn check_if_conflict(&self, state: &State) -> (r: Conflict)
        ensures
            r == verdict(self@, state.files()),
    {
        let ghost bundle = self@;
        let ghost files = state.files();
        let mut car_json_conflict = false;
        let mut car_differs = false;
        if let Some(car) = &self.car_json {
            if car.is_installed(state) {
                car_json_conflict = true;
                car_differs = !car.is_same_as_target(state);
            }
        }
        let mut some_present = false;
        let mut i: usize = 0;
        while i < self.livery_files.len()
            invariant
                i <= self.livery_files.len(),
                bundle == self@,
                files == state.files(),
                car_json_conflict == stored_descriptor(bundle, files) is Some,
                car_differs == (car_json_conflict && stored_descriptor(bundle, files) != Some(
                    bundle.descriptor->0.bytes,
                )),
                some_present == (exists|j: int| j < i && asset_present(bundle, files, j)),
                forall|j: int| j < i ==> !asset_differs(bundle, files, j),
            decreases self.livery_files.len() - i,
        {
            let item = &self.livery_files[i];
            assert(bundle.assets[i as int] == item@);
            if !is_ignored_name(item.name.as_str()) && item.is_installed(state) {
                assert(asset_present(bundle, files, i as int));
                if !item.is_same_as_target(state) {
                    assert(asset_differs(bundle, files, i as int));
                    if car_json_conflict {
                        return Conflict::Both;
                    } else {
                        return Conflict::LiveryOnly;
                    }
                }
                some_present = true;
            }
            i += 1;
        }
        if car_differs {
            Conflict::CarOnly
        } else if car_json_conflict || some_present {
            Conflict::Identical
        } else {
            Conflict::Nothing
        }
    }
}

/// The livery folder that a parsed car descriptor names: the text under its
/// key, unless that is missing, no text or empty.
pub fn key_in_document(doc: &json::JsonValue) -> (r: Option<String>)
    ensures
        r is Some == skin_name(tree_of(*doc)) is Some,
        r matches Some(key) ==> skin_name(tree_of(*doc)) == Some(key@),
{
    if let Some(target_foldername) = get_member(doc, "customSkinName") {
        if let Some(target_foldername) = text_of(target_foldername) {
            if !target_foldername.as_str().is_empty() {
                return Some(target_foldername);
            }
        }
    }
    None
}

/// Parses a car descriptor and returns the folder in which its livery files
/// are stored. A descriptor that cannot be read names no folder.
pub fn read_car_for_livery_folder(car_json: &ZipLiveryContent) -> (r: Option<String>)
    ensures
        r is Some == folder_key(car_json@.bytes) is Some,
        r matches Some(key) ==> folder_key(car_json@.bytes) == Some(key@),
{
    match read_json_from_bytes(car_json.file.clone()) {
        Ok(parsed_json) => key_in_document(&parsed_json),
        Err(_) => None,
    }
}

/// Finds the first livery that takes a file for the folder `key`.
fn find_taking(liveries: &Vec<Livery>, key: &String, descriptor: bool) -> (slot: usize)
    ensures
        slot == first_taking(bundles_view(liveries@), key@, descriptor, 0),
{
    let ghost bundles = bundles_view(liveries@);
    let mut slot: usize = 0;
    while slot < liveries.len()
        invariant
            slot <= liveries.len(),
            bundles == bundles_view(liveries@),
            first_taking(bundles, key@, descriptor, 0) == first_taking(
                bundles,
                key@,
                descriptor,
                slot as int,
            ),
        decreases liveries.len() - slot,
    {
        let liver = &liveries[slot];
        assert(bundles[slot as int] == liver@);
        if !descriptor || liver.car_json.is_none() {
            if let Some(liver_folder) = &liver.livery_folder {
                if *liver_folder == *key {
                    return slot;
                }
            }
        }
        slot += 1;
    }
    slot
}

/// Groups one more file into the liveries.
fn absorb_entry(liveries: &mut Vec<Livery>, item: ZipLiveryContent)
    ensures
        bundles_view(final(liveries)@) == absorb(bundles_view(old(liveries)@), item@),
{
    let ghost before = bundles_view(liveries@);
    let ghost entry = item@;
    let target: Option<String> = match &item.upper {
        CustomFolder::Cars => read_car_for_livery_folder(&item),
        CustomFolder::Liveries(target_foldername) => Some(target_foldername.clone()),
    };
    let is_car = match &item.upper {
        CustomFolder::Cars => true,
        CustomFolder::Liveries(_) => false,
    };
    match target {
        Some(target_foldername) => {
            let slot = find_taking(liveries, &target_foldername, is_car);
            if slot < liveries.len() {
                let mut liver = liveries.remove(slot);
                let ghost found = liver@;
                if is_car {
                    liver.car_json = Some(item);
                } else {
                    liver.livery_files.push(item);
                    assert(liver@.assets =~= found.assets.push(entry));
                }
                liveries.insert(slot, liver);
                assert(bundles_view(liveries@) =~= absorb(before, entry));
            } else {
                let liver = if is_car {
                    Livery {
                        livery_folder: Some(target_foldername),
                        car_json: Some(item),
                        livery_files: Vec::new(),
                    }
                } else {
                    let mut list = Vec::<ZipLiveryContent>::new();
                    list.push(item);
                    Livery {
                        livery_folder: Some(target_foldername),
                        car_json: None,
                        livery_files: list,
                    }
                };
                assert(liver@.assets =~= if is_car {
                    Seq::<RawEntry>::empty()
                } else {
                    seq![entry]
                });
                liveries.push(liver);
                assert(bundles_view(liveries@) =~= absorb(before, entry));
            }
        },
        None => {
            let liver = Livery {
                livery_folder: None,
                car_json: Some(item),
                livery_files: Vec::new(),
            };
            assert(liver@.assets =~= Seq::<RawEntry>::empty());
            liveries.push(liver);
            assert(bundles_view(liveries@) =~= absorb(before, entry));
        },
    }
}

/// Takes an unsorted list of files and groups the car descriptors and the
/// livery files together. The files are taken from the back of the list.
pub fn group_up(files: Vec<ZipLiveryContent>) -> (liveries: Vec<Livery>)
    ensures
        bundles_view(liveries@) == grouped(entries_view(files@)),
        well_grouped(bundles_view(liveries@)),
        all_entries(bundles_view(liveries@)) == entries_view(files@).to_multiset(),
{
    let ghost all = entries_view(files@);
    let mut files = files;
    let mut liveries = Vec::<Livery>::new();
    assert(all.skip(all.len() as int) =~= Seq::<RawEntry>::empty());
    assert(bundles_view(liveries@) =~= Seq::<Bundle>::empty());
    while files.len() > 0
        invariant
            files@.len() <= all.len(),
            entries_view(files@) == all.take(files@.len() as int),
            bundles_view(liveries@) == grouped(all.skip(files@.len() as int)),
        decreases files@.len(),
    {
        let ghost rest = all.skip(files@.len() as int);
        let ghost kept = files@;
        let item = files.pop().unwrap();
        proof {
            let n = files@.len() as int;
            assert(entries_view(kept)[n] == item@);
            assert(all.take(n + 1)[n] == item@);
            assert(all.skip(n).drop_first() =~= rest);
            assert(all.skip(n).first() == item@);
            assert(entries_view(files@) =~= all.take(n));
        }
        absorb_entry(&mut liveries, item);
    }
    proof {
        assert(all.skip(0) =~= all);
        grouping_is_orderly(all);
        grouping_keeps_every_entry(all);
    }
    liveries
}

/// The place of an archive entry, as its path gives it: the car descriptors
/// where the folder that holds the entry is called `cars`, in whatever case;
/// else the livery folder of that name, trimmed; and for an entry that no
/// folder holds, the livery folder named after the archive.
pub open spec fn placement_of(path: Seq<char>, archive_stem: Seq<char>) -> Placement {
    let folder = last_segment(parent_path(path));
    if folder.len() == 0 {
        Placement::AssetFolder(archive_stem)
    } else if same_ignoring_case(trimmed(folder), "cars"@) {
        Placement::Descriptor
    } else {
        Placement::AssetFolder(trimmed(folder))
    }
}

/// The file that an archive entry stands for: none where the path has no
/// final segment to name it.
pub open spec fn entry_of(path: Seq<char>, data: Seq<u8>, archive_stem: Seq<char>) -> Option<
    RawEntry,
> {
    if last_segment(path).len() > 0 {
        Some(
            RawEntry {
                placement: placement_of(path, archive_stem),
                name: last_segment(path),
                bytes: data,
            },
        )
    } else {
        None
    }
}

/// The files that the entries of an archive stand for, in the order of the
/// entries: each entry is given by its path, with its data where it could
/// be read. An entry that could not be read, or whose path names no file, is
/// passed over.
pub open spec fn extracted(
    entries: Seq<(Seq<char>, Option<Seq<u8>>)>,
    archive_stem: Seq<char>,
) -> Seq<RawEntry>
    decreases entries.len(),
{
    if entries.len() == 0 {
        seq![]
    } else {
        let before = extracted(entries.drop_last(), archive_stem);
        match entries.last().1 {
            Some(data) => match entry_of(entries.last().0, data, archive_stem) {
                Some(entry) => before.push(entry),
                None => before,
            },
            None => before,
        }
    }
}

/// The files that go into the archive of a livery: the descriptor first,
/// then the livery files if the livery has a folder.
pub open spec fn packed(bundle: Bundle) -> Seq<RawEntry> {
    let front = match bundle.descriptor {
        Some(car) => seq![car],
        None => seq![],
    };
    if bundle.folder is Some {
        front + bundle.assets
    } else {
        front
    }
}

/// The name of the archive of a livery: its folder, else the name of its
/// descriptor, else nothing, and `.zip`.
pub open spec fn archive_name(bundle: Bundle) -> Seq<char> {
    (match bundle.folder {
        Some(folder) => folder,
        None => match bundle.descriptor {
            Some(car) => car.name,
            None => seq![],
        },
    }) + ".zip"@
}

/// A livery as an archive.
#[derive(Debug, Clone)]
pub struct Packed {
    pub name: String,
    pub archive: Vec<u8>,
}

/// Makes the file that an archive entry stands for, from the path of the
/// entry and its data.
pub fn content_of_entry(path: &str, data: Vec<u8>, archive_stem: &str) -> (r: Option<
    ZipLiveryContent,
>)
    ensures
        r is Some == entry_of(path@, data@, archive_stem@) is Some,
        r matches Some(content) ==> entry_of(path@, data@, archive_stem@) == Some(content@),
{
    let (parent, name) = split_last(path);
    if name.as_str().is_empty() {
        return None;
    }
    let (_, folder) = split_last(parent.as_str());
    let upper = if folder.as_str().is_empty() {
        CustomFolder::Liveries(archive_stem.to_owned())
    } else {
        let folder_name = trim(folder.as_str());
        if eq_ignoring_case(folder_name.as_str(), "cars") {
            CustomFolder::Cars
        } else {
            CustomFolder::Liveries(folder_name)
        }
    };
    Some(ZipLiveryContent { upper, name, file: data })
}

/// Reads an archive into an unsorted list of files; `group_up` sorts them.
///
/// `archive_stem` is the file name of the archive without its extension: it
/// names the livery folder of the entries that no folder holds. Bytes that
/// are no archive give nothing at all. Else every entry of the archive gives
/// a file, in the order of the entries, but for the entries that cannot be
/// read or name no file: those are passed over.
pub fn get_zip_content(archive: &Vec<u8>, archive_stem: &str) -> (r: Option<Vec<ZipLiveryContent>>)
    ensures
        r is Some == archive_len(archive@) is Some,
        r matches Some(content) ==> entries_view(content@) == extracted(
            listed(archive@, archive_len(archive@)->0),
            archive_stem@,
        ),
{
    let count = match entry_count(archive) {
        Some(count) => count,
        None => {
            return None;
        },
    };
    let mut content = Vec::<ZipLiveryContent>::new();
    assert(entries_view(content@) =~= Seq::<RawEntry>::empty());
    let mut i: usize = 0;
    while i < count
        invariant
            i <= count,
            entries_view(content@) == extracted(listed(archive@, i as nat), archive_stem@),
        decreases count - i,
    {
        let ghost before = entries_view(content@);
        let ghost seen = listed(archive@, i as nat);
        if let Some((path, packing, header)) = entry_facts(archive, i) {
            assert(listed(archive@, (i + 1) as nat).drop_last() =~= seen);
            let read = match packing {
                Packing::Other => false,
                _ => is_marked_plain(archive, header) && entry_opens(archive, i),
            };
            let data = if read {
                entry_data(archive, i)
            } else {
                None
            };
            if let Some(data) = data {
                if let Some(item) = content_of_entry(path.as_str(), data, archive_stem) {
                    content.push(item);
                    assert(entries_view(content@) =~= before.push(item@));
                }
            }
        }
        i += 1;
    }
    Some(content)
}

/// The name under which the archive of a livery is stored.
pub fn archive_name_of(livery: &Livery) -> (r: String)
    ensures
        r@ == archive_name(livery@),
{
    let target_name = if let Some(liver) = &livery.livery_folder {
        liver.clone()
    } else {
        if let Some(car) = &livery.car_json {
            car.name.clone()
        } else {
            String::new()
        }
    };
    let named = target_name.concat(".zip");
    assert(named@ =~= archive_name(livery@));
    named
}

/// The paths and the data of the entries that the archive of a livery is
/// made of, in their order.
pub fn pack_list(livery: &Livery) -> (r: Vec<(String, Vec<u8>)>)
    ensures
        r@.len() == packed(livery@).len(),
        forall|i: int|
            0 <= i < r@.len() ==> (#[trigger] r@[i]).0@ == internal_path(packed(livery@)[i])
                && r@[i].1@ == packed(livery@)[i].bytes,
{
    let mut list = Vec::<(String, Vec<u8>)>::new();
    if let Some(car) = &livery.car_json {
        list.push((car.get_interal_path(), car.file.clone()));
    }
    if livery.livery_folder.is_some() {
        let ghost front = list@;
        let mut i: usize = 0;
        while i < livery.livery_files.len()
            invariant
                i <= livery.livery_files.len(),
                livery.livery_folder is Some,
                front.len() == (if livery.car_json is Some {
                    1int
                } else {
                    0int
                }),
                list@.len() == front.len() + i,
                forall|k: int|
                    0 <= k < list@.len() ==> (#[trigger] list@[k]).0@ == internal_path(
                        packed(livery@)[k],
                    ) && list@[k].1@ == packed(livery@)[k].bytes,
            decreases livery.livery_files.len() - i,
        {
            let item = &livery.livery_files[i];
            assert(packed(livery@)[front.len() + i] == item@);
            list.push((item.get_interal_path(), item.file.clone()));
            i += 1;
        }
    }
    list
}

/// The paths and the data of a list of entries, as values.
pub open spec fn list_view(list: Seq<(String, Vec<u8>)>) -> Seq<(Seq<char>, Seq<u8>)> {
    list.map_values(|entry: (String, Vec<u8>)| (entry.0@, entry.1@))
}

/// The entries that the archive of a livery is made of: the path of each
/// packed file inside the archive, with its bytes.
pub open spec fn packed_entries(bundle: Bundle) -> Seq<(Seq<char>, Seq<u8>)> {
    packed(bundle).map_values(|entry: RawEntry| (internal_path(entry), entry.bytes))
}

/// Hands the entries of a list to a writer, each started under its path and
/// then written in one piece. The writer has then been handed what it had
/// before and the entries, in their order; where it refuses one, the result
/// is false and the writer is of no more use.
fn fill_archive(writer: &mut ArchiveWriter, list: &Vec<(String, Vec<u8>)>) -> (r: bool)
    ensures
        r == filled(written(*old(writer)), list_view(list@)) is Some,
        r ==> Some(written(*final(writer))) == filled(written(*old(writer)), list_view(list@)),
{
    let ghost before = written(*writer);
    let ghost all = list_view(list@);
    let mut i: usize = 0;
    assert(all.take(0) =~= Seq::<(Seq<char>, Seq<u8>)>::empty());
    while i < list.len()
        invariant
            i <= list.len(),
            all == list_view(list@),
            before == written(*old(writer)),
            filled(before, all.take(i as int)) == Some(written(*writer)),
        decreases list.len() - i,
    {
        let ghost so_far = written(*writer);
        let ghost upto = all.take(i + 1);
        assert(upto.drop_last() =~= all.take(i as int));
        assert(upto.last() == (list@[i as int].0@, list@[i as int].1@));
        if !start_file(writer, list[i].0.as_str()) {
            proof {
                refused_stays_refused(before, all, i + 1);
            }
            return false;
        }
        if !write_all(writer, &list[i].1) {
            proof {
                refused_stays_refused(before, all, i + 1);
            }
            return false;
        }
        i += 1;
    }
    assert(all.take(i as int) =~= all);
    true
}

/// Packs a livery into an archive: the descriptor under `Cars`, the livery
/// files under `Liveries` and their folder, handed to the writer in the
/// order of `packed`. The archive is returned, under the name of the
/// livery, exactly where the writer takes every one of these entries and
/// closes the archive; else nothing is returned. The bytes that are returned
/// are those with which the writer sealed exactly these entries.
pub fn write_livery_in_zip(livery: Livery) -> (r: Option<Packed>)
    ensures
        r is Some == packs(packed_entries(livery@)),
        r matches Some(packed) ==> packed.name@ == archive_name(livery@),
        r matches Some(packed) ==> sealed(
            filled(Seq::empty(), packed_entries(livery@))->0,
            packed.archive@,
        ),
{
    let name = archive_name_of(&livery);
    let list = pack_list(&livery);
    assert(list_view(list@) =~= packed_entries(livery@));
    let mut writer = new_writer();
    if !fill_archive(&mut writer, &list) {
        return None;
    }
    match finish(&mut writer) {
        Some(archive) => Some(Packed { name, archive }),
        None => None,
    }
}

} // verus!
