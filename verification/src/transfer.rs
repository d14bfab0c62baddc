//! What the manager does with a livery: how an installation goes on after
//! its classification, and which files an export takes.

use crate::livery_ops::{
    descriptor_name, entries_view, folder_key, get_all_car_json, get_car_file, get_livery_files,
    has_folder, read_car_for_livery_folder, stored, stored_at, Bundle, Conflict, Livery,
    Placement, RawEntry, State, ZipLiveryContent,
};
use crate::text::last_segment;
use vstd::prelude::*;

verus! {

/// How the installation of a livery goes on.
#[derive(Debug, Clone, Copy, PartialEq, Eq, Structural)]
pub enum Handling {
    /// The livery is written.
    Write,
    /// The livery is installed already and is passed over.
    Skip,
    /// A different descriptor is installed: the user is offered to give
    /// the descriptor another name or to overwrite what is installed.
    RenameOrOverride,
    /// Different livery files are installed and no descriptor is in the
    /// way: the user is offered to overwrite the livery folder or to pass
    /// the livery over.
    OverrideOrSkip,
}

/// How the installation goes on after a classification.
pub open spec fn handling_of(conflict: Conflict) -> Handling {
    match conflict {
        Conflict::Nothing => Handling::Write,
        Conflict::Identical => Handling::Skip,
        Conflict::CarOnly => Handling::RenameOrOverride,
        Conflict::LiveryOnly => Handling::OverrideOrSkip,
        Conflict::Both => Handling::RenameOrOverride,
    }
}

/// Decides how the installation of a livery goes on.
pub fn handling(conflict: Conflict) -> (r: Handling)
    ensures
        r == handling_of(conflict),
{
    match conflict {
        Conflict::Nothing => Handling::Write,
        Conflict::Identical => Handling::Skip,
        Conflict::CarOnly => Handling::RenameOrOverride,
        Conflict::LiveryOnly => Handling::OverrideOrSkip,
        Conflict::Both => Handling::RenameOrOverride,
    }
}

impl Livery {
    /// Splits a livery for the installation of its descriptor under another
    /// name: into the descriptor alone, renamed, and the livery without it.
    pub fn rename_descriptor(self, name: String) -> (r: (Livery, Livery))
        requires
            self.car_json is Some,
        ensures
            r.0@ == (Bundle {
                folder: None,
                descriptor: Some(RawEntry { name: name@, ..self@.descriptor->0 }),
                assets: seq![],
            }),
            r.1@ == (Bundle { descriptor: None, ..self@ }),
    {
        let Livery { livery_folder, car_json, livery_files } = self;
        let mut car = car_json.unwrap();
        car.name = name;
        let alt = Livery { car_json: Some(car), livery_folder: None, livery_files: Vec::new() };
        assert(alt@.assets =~= Seq::<RawEntry>::empty());
        (alt, Livery { livery_folder, car_json: None, livery_files })
    }
}

/// The index, not below `from`, of the first car descriptor that names the
/// livery folder; the number of descriptors where none does.
pub open spec fn first_naming(cars: Seq<RawEntry>, folder: Seq<char>, from: int) -> int
    decreases cars.len() - from,
{
    if from >= cars.len() {
        cars.len() as int
    } else if folder_key(cars[from].bytes) == Some(folder) {
        from
    } else {
        first_naming(cars, folder, from + 1)
    }
}

/// The first of the car descriptors that names the livery folder.
pub open spec fn car_naming(cars: Seq<RawEntry>, folder: Seq<char>) -> Option<RawEntry> {
    if first_naming(cars, folder, 0) < cars.len() {
        Some(cars[first_naming(cars, folder, 0)])
    } else {
        None
    }
}

/// The livery that an export takes for a name.
///
/// The name is tried as that of an installed car descriptor first: the
/// livery then has the folder that the descriptor names and the files
/// installed there, or neither where that folder is not there. Else the
/// name is tried as that of a livery folder: the livery then has the files
/// installed there, and the first installed descriptor that names the
/// folder. An export of the livery folder alone leaves the descriptor out.
/// There is no livery where neither a descriptor nor a folder of the name
/// is there.
pub open spec fn export_of(
    name: Seq<char>,
    only_livery: bool,
    files: Seq<RawEntry>,
    folders: Seq<Seq<char>>,
) -> Option<Bundle> {
    let car_name = descriptor_name(name);
    match stored(files, Placement::Descriptor, car_name) {
        Some(bytes) => {
            let car = RawEntry { placement: Placement::Descriptor, name: car_name, bytes };
            let folder = match folder_key(bytes) {
                Some(folder) => if has_folder(files, folders, folder) {
                    Some(folder)
                } else {
                    None
                },
                None => None,
            };
            Some(
                Bundle {
                    folder,
                    descriptor: if only_livery {
                        None
                    } else {
                        Some(car)
                    },
                    assets: match folder {
                        Some(folder) => stored_at(files, Placement::AssetFolder(folder)),
                        None => seq![],
                    },
                },
            )
        },
        None => {
            if has_folder(files, folders, name) {
                Some(
                    Bundle {
                        folder: Some(name),
                        descriptor: if only_livery {
                            None
                        } else {
                            car_naming(stored_at(files, Placement::Descriptor), name)
                        },
                        assets: stored_at(files, Placement::AssetFolder(name)),
                    },
                )
            } else {
                None
            }
        },
    }
}

/// Finds the first car descriptor that names a livery folder.
pub fn find_car_for_folder(cars: &Vec<ZipLiveryContent>, folder: &String) -> (r: Option<
    ZipLiveryContent,
>)
    ensures
        r is Some == car_naming(entries_view(cars@), folder@) is Some,
        r matches Some(car) ==> car_naming(entries_view(cars@), folder@) == Some(car@),
{
    let ghost all = entries_view(cars@);
    let mut i: usize = 0;
    while i < cars.len()
        invariant
            i <= cars.len(),
            all == entries_view(cars@),
            first_naming(all, folder@, 0) == first_naming(all, folder@, i as int),
        decreases cars.len() - i,
    {
        assert(all[i as int] == cars@[i as int]@);
        if let Some(key) = read_car_for_livery_folder(&cars[i]) {
            if key == *folder {
                return Some(cars[i].duplicate());
            }
        }
        i += 1;
    }
    None
}

/// Puts together the livery that an export takes for a name.
pub fn export_bundle(name: &String, only_livery: bool, state: &State) -> (r: Option<Livery>)
    requires
        last_segment(name@).len() > 0,
    ensures
        r is Some == export_of(name@, only_livery, state.files(), state.folder_names()) is Some,
        r matches Some(livery) ==> export_of(
            name@,
            only_livery,
            state.files(),
            state.folder_names(),
        ) == Some(livery@),
{
    if let Some(car) = get_car_file(name, state) {
        let (folder, content) = match read_car_for_livery_folder(&car) {
            Some(folder) => match get_livery_files(&folder, state) {
                Some(content) => (Some(folder), content),
                None => (None, Vec::<ZipLiveryContent>::new()),
            },
            None => (None, Vec::<ZipLiveryContent>::new()),
        };
        assert(content@.len() == 0 ==> entries_view(content@) =~= Seq::<RawEntry>::empty());
        if !only_livery {
            Some(Livery { car_json: Some(car), livery_folder: folder, livery_files: content })
        } else {
            Some(Livery { car_json: None, livery_folder: folder, livery_files: content })
        }
    } else if let Some(content) = get_livery_files(name, state) {
        if only_livery {
            Some(Livery { car_json: None, livery_folder: Some(name.clone()), livery_files: content })
        } else {
            let all_cars = get_all_car_json(state);
            let car = find_car_for_folder(&all_cars, name);
            Some(Livery { car_json: car, livery_folder: Some(name.clone()), livery_files: content })
        }
    } else {
        None
    }
}

} // verus!
