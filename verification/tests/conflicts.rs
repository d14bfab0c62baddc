use skinmanager::livery_ops::{
    get_all_car_json, get_car_file, get_livery_files, is_ignored_name, same_bytes, Conflict,
    CustomFolder, Livery, State, ZipLiveryContent,
};

fn car(name: &str, bytes: &[u8]) -> ZipLiveryContent {
    ZipLiveryContent { upper: CustomFolder::Cars, name: name.to_string(), file: bytes.to_vec() }
}

fn asset(folder: &str, name: &str, bytes: &[u8]) -> ZipLiveryContent {
    ZipLiveryContent {
        upper: CustomFolder::Liveries(folder.to_string()),
        name: name.to_string(),
        file: bytes.to_vec(),
    }
}

fn state(installed: Vec<ZipLiveryContent>) -> State {
    State { folders: Vec::new(), root_folder: "/home/user/ACC".to_string(), installed }
}

fn team_a() -> Livery {
    Livery {
        livery_folder: Some("TeamA".to_string()),
        car_json: Some(car("alpha.json", b"{\"customSkinName\": \"TeamA\"}")),
        livery_files: vec![
            asset("TeamA", "decals.json", b"{}"),
            asset("TeamA", "decals.png", &[1, 2, 3]),
            asset("TeamA", "sponsors.png", &[4, 5]),
        ],
    }
}

#[test]
fn nothing_installed_is_no_conflict() {
    assert_eq!(team_a().check_if_conflict(&state(Vec::new())), Conflict::Nothing);
}

#[test]
fn an_identical_ignored_file_is_no_conflict() {
    let livery = Livery {
        livery_folder: Some("TeamB".to_string()),
        car_json: None,
        livery_files: vec![asset("TeamB", "sponsors.json", b"[1]")],
    };
    let installed = state(vec![asset("TeamB", "sponsors.json", b"[1]")]);
    assert_eq!(livery.check_if_conflict(&installed), Conflict::Nothing);
}

#[test]
fn a_differing_ignored_file_is_no_conflict() {
    let livery = Livery {
        livery_folder: Some("TeamB".to_string()),
        car_json: None,
        livery_files: vec![
            asset("TeamB", "Decals.JSON", b"[1]"),
            asset("TeamB", "README.txt", b"read"),
            asset("TeamB", "awesome.txt", b"from"),
        ],
    };
    let installed = state(vec![
        asset("TeamB", "Decals.JSON", b"[2]"),
        asset("TeamB", "README.txt", b"other"),
        asset("TeamB", "awesome.txt", b"else"),
    ]);
    assert_eq!(livery.check_if_conflict(&installed), Conflict::Nothing);
}

#[test]
fn a_different_descriptor_alone_is_car_only() {
    let installed = state(vec![car("alpha.json", b"{\"customSkinName\": \"Old\"}")]);
    assert_eq!(team_a().check_if_conflict(&installed), Conflict::CarOnly);
}

#[test]
fn a_different_descriptor_and_a_different_asset_are_both() {
    let installed = state(vec![
        car("alpha.json", b"{\"customSkinName\": \"Old\"}"),
        asset("TeamA", "decals.png", &[9, 9, 9]),
    ]);
    assert_eq!(team_a().check_if_conflict(&installed), Conflict::Both);
}

#[test]
fn a_different_descriptor_and_an_identical_asset_are_car_only() {
    let installed = state(vec![
        car("alpha.json", b"{\"customSkinName\": \"Old\"}"),
        asset("TeamA", "decals.png", &[1, 2, 3]),
    ]);
    assert_eq!(team_a().check_if_conflict(&installed), Conflict::CarOnly);
    let livery = Livery {
        livery_folder: Some("T".to_string()),
        car_json: Some(car("a.json", b"{\"customSkinName\":\"T\"}")),
        livery_files: vec![asset("T", "skin.png", &[1])],
    };
    let tree = state(vec![car("a.json", b"{}"), asset("T", "skin.png", &[1])]);
    assert_eq!(livery.check_if_conflict(&tree), Conflict::CarOnly);
}

#[test]
fn a_different_descriptor_with_an_identical_and_a_different_asset_are_both() {
    let installed = state(vec![
        car("alpha.json", b"old"),
        asset("TeamA", "decals.png", &[1, 2, 3]),
        asset("TeamA", "sponsors.png", &[9]),
    ]);
    assert_eq!(team_a().check_if_conflict(&installed), Conflict::Both);
}

#[test]
fn the_same_descriptor_and_a_different_asset_are_both() {
    let installed = state(vec![
        car("alpha.json", b"{\"customSkinName\": \"TeamA\"}"),
        asset("TeamA", "sponsors.png", &[4, 6]),
    ]);
    assert_eq!(team_a().check_if_conflict(&installed), Conflict::Both);
}

#[test]
fn a_different_asset_alone_is_livery_only() {
    let installed = state(vec![asset("TeamA", "sponsors.png", &[4])]);
    assert_eq!(team_a().check_if_conflict(&installed), Conflict::LiveryOnly);
}

#[test]
fn an_identical_asset_before_a_different_one_is_livery_only() {
    let installed = state(vec![
        asset("TeamA", "decals.png", &[1, 2, 3]),
        asset("TeamA", "sponsors.png", &[0, 0]),
    ]);
    assert_eq!(team_a().check_if_conflict(&installed), Conflict::LiveryOnly);
}

#[test]
fn everything_installed_and_the_same_is_identical() {
    let livery = team_a();
    let mut installed = state(Vec::new());
    livery.write(&mut installed);
    assert_eq!(installed.installed.len(), 4);
    assert_eq!(installed.root_folder, "/home/user/ACC");
    assert_eq!(livery.check_if_conflict(&installed), Conflict::Identical);
}

#[test]
fn the_same_descriptor_alone_is_identical() {
    let installed = state(vec![car("alpha.json", b"{\"customSkinName\": \"TeamA\"}")]);
    assert_eq!(team_a().check_if_conflict(&installed), Conflict::Identical);
}

#[test]
fn files_of_other_liveries_do_not_count() {
    let installed = state(vec![
        car("beta.json", b"{}"),
        asset("TeamB", "decals.png", &[1, 2, 3]),
        asset("TeamA", "other.png", &[1]),
    ]);
    assert_eq!(team_a().check_if_conflict(&installed), Conflict::Nothing);
}

#[test]
fn more_identical_files_keep_a_conflict() {
    let livery = team_a();
    let mut installed = state(vec![car("alpha.json", b"old")]);
    assert_eq!(livery.check_if_conflict(&installed), Conflict::CarOnly);
    installed.installed.push(asset("TeamA", "decals.png", &[1, 2, 3]));
    assert_ne!(livery.check_if_conflict(&installed), Conflict::Nothing);
    installed.installed.push(asset("TeamA", "sponsors.png", &[4, 5]));
    assert_ne!(livery.check_if_conflict(&installed), Conflict::Nothing);
    let mut same = state(vec![asset("TeamA", "decals.png", &[1, 2, 3])]);
    assert_eq!(livery.check_if_conflict(&same), Conflict::Identical);
    same.installed.push(asset("TeamA", "sponsors.png", &[4, 5]));
    assert_eq!(livery.check_if_conflict(&same), Conflict::Identical);
}

#[test]
fn one_differing_file_makes_a_conflict() {
    let livery = team_a();
    let with_car = state(vec![car("alpha.json", b"x")]);
    assert_eq!(livery.check_if_conflict(&with_car), Conflict::CarOnly);
    let with_asset = state(vec![asset("TeamA", "decals.png", &[1, 2])]);
    assert_eq!(livery.check_if_conflict(&with_asset), Conflict::LiveryOnly);
}

#[test]
fn the_later_of_two_stored_files_counts() {
    let livery = team_a();
    let installed = state(vec![
        asset("TeamA", "decals.png", &[0]),
        asset("TeamA", "decals.png", &[1, 2, 3]),
    ]);
    assert_eq!(livery.check_if_conflict(&installed), Conflict::Identical);
    assert_eq!(
        installed.find(&CustomFolder::Liveries("TeamA".to_string()), &"decals.png".to_string()),
        Some(&vec![1u8, 2, 3])
    );
}

#[test]
fn a_file_is_compared_by_length_and_bytes() {
    assert!(same_bytes(&vec![1, 2, 3], &vec![1, 2, 3]));
    assert!(!same_bytes(&vec![1, 2, 3], &vec![1, 2]));
    assert!(!same_bytes(&vec![1, 2, 3], &vec![1, 2, 4]));
    assert!(same_bytes(&Vec::new(), &Vec::new()));
    let file = asset("T", "a.png", &[1, 2]);
    assert!(file.is_same_as_target(&state(vec![asset("T", "a.png", &[1, 2])])));
    assert!(!file.is_same_as_target(&state(vec![asset("T", "a.png", &[1, 2, 3])])));
    assert!(!file.is_same_as_target(&state(vec![asset("U", "a.png", &[1, 2])])));
    assert!(!file.is_same_as_target(&state(Vec::new())));
    assert!(file.is_installed(&state(vec![asset("T", "a.png", &[])])));
    assert!(!file.is_installed(&state(vec![car("a.png", &[1, 2])])));
}

#[test]
fn the_names_that_never_count() {
    assert!(is_ignored_name("decals.json"));
    assert!(is_ignored_name("sponsors.json"));
    assert!(is_ignored_name("README.txt"));
    assert!(is_ignored_name("readme.TXT"));
    assert!(is_ignored_name("awesome.txt"));
    assert!(is_ignored_name("Awesome.Txt"));
    assert!(!is_ignored_name("decals.png"));
    assert!(!is_ignored_name("decals.json "));
    assert!(!is_ignored_name(""));
    assert!(!is_ignored_name("sponsors_1.dds"));
}

#[test]
fn places_and_paths() {
    let root = state(Vec::new());
    let descriptor = car("alpha.json", b"");
    assert_eq!(descriptor.upper.to_string(), "Cars");
    assert_eq!(descriptor.get_interal_path(), "Cars/alpha.json");
    assert_eq!(descriptor.get_target(&root), "/home/user/ACC/Customs/Cars/alpha.json");
    let file = asset("TeamA", "decals.png", b"");
    assert_eq!(file.upper.to_string(), "Liveries/TeamA");
    assert_eq!(file.get_interal_path(), "Liveries/TeamA/decals.png");
    assert_eq!(file.get_target(&root), "/home/user/ACC/Customs/Liveries/TeamA/decals.png");
    assert_eq!(
        team_a().get_livery_folder(&root),
        Some("/home/user/ACC/Customs/Liveries/TeamA".to_string())
    );
    let loose = Livery { livery_folder: None, car_json: None, livery_files: Vec::new() };
    assert_eq!(loose.get_livery_folder(&root), None);
    assert!(file.upper.same_as(&CustomFolder::Liveries("TeamA".to_string())));
    assert!(!file.upper.same_as(&CustomFolder::Liveries("teama".to_string())));
    assert!(!file.upper.same_as(&CustomFolder::Cars));
    assert_eq!(file.duplicate().name, "decals.png");
    assert_eq!(file.upper.duplicate(), file.upper);
}

#[test]
fn a_file_that_is_stored_twice_is_given_once() {
    let installed = state(vec![
        asset("TeamA", "decals.png", &[0]),
        car("alpha.json", b"old"),
        asset("TeamA", "sponsors.png", &[5]),
        asset("TeamA", "decals.png", &[1, 2, 3]),
        car("alpha.json", b"new"),
    ]);
    let files = get_livery_files(&"TeamA".to_string(), &installed).unwrap();
    assert_eq!(files.len(), 2);
    assert_eq!(files[0].name, "sponsors.png");
    assert_eq!(files[1].name, "decals.png");
    assert_eq!(files[1].file, vec![1, 2, 3]);
    let cars = get_all_car_json(&installed);
    assert_eq!(cars.len(), 1);
    assert_eq!(cars[0].file, b"new".to_vec());
    assert!(installed.counts_at(4));
    assert!(!installed.counts_at(0));
    assert!(installed.counts_at(2));
}

#[test]
fn a_livery_that_is_written_again_is_given_once() {
    let livery = team_a();
    let mut installed = state(vec![asset("TeamA", "decals.png", &[9, 9])]);
    livery.write(&mut installed);
    livery.write(&mut installed);
    assert_eq!(installed.folders, vec!["TeamA".to_string()]);
    let files = get_livery_files(&"TeamA".to_string(), &installed).unwrap();
    let names: Vec<&str> = files.iter().map(|file| file.name.as_str()).collect();
    assert_eq!(names, vec!["decals.json", "decals.png", "sponsors.png"]);
    assert_eq!(files[1].file, vec![1, 2, 3]);
    assert_eq!(get_all_car_json(&installed).len(), 1);
    assert_eq!(livery.check_if_conflict(&installed), Conflict::Identical);
}

#[test]
fn a_folder_without_files_gives_an_empty_list() {
    let mut installed = state(vec![car("alpha.json", b"a")]);
    assert!(get_livery_files(&"Empty".to_string(), &installed).is_none());
    assert!(!installed.lists_folder(&"Empty".to_string()));
    installed.folders.push("Empty".to_string());
    assert!(installed.lists_folder(&"Empty".to_string()));
    assert_eq!(get_livery_files(&"Empty".to_string(), &installed).unwrap().len(), 0);
    assert!(get_livery_files(&"empty".to_string(), &installed).is_none());
    let bare = Livery {
        livery_folder: Some("Bare".to_string()),
        car_json: None,
        livery_files: Vec::new(),
    };
    bare.write(&mut installed);
    assert_eq!(installed.folders, vec!["Empty".to_string(), "Bare".to_string()]);
    assert_eq!(get_livery_files(&"Bare".to_string(), &installed).unwrap().len(), 0);
}

#[test]
fn installed_files_are_found() {
    let installed = state(vec![
        car("alpha.json", b"a"),
        asset("TeamA", "decals.png", &[1]),
        car("beta.json", b"b"),
        asset("TeamB", "decals.png", &[2]),
        asset("TeamA", "sponsors.png", &[3]),
    ]);
    let cars = get_all_car_json(&installed);
    assert_eq!(cars.len(), 2);
    assert_eq!(cars[0].name, "alpha.json");
    assert_eq!(cars[1].name, "beta.json");
    let files = get_livery_files(&"TeamA".to_string(), &installed).unwrap();
    assert_eq!(files.len(), 2);
    assert_eq!(files[0].file, vec![1]);
    assert_eq!(files[1].file, vec![3]);
    assert!(get_livery_files(&"TeamC".to_string(), &installed).is_none());
    let found = get_car_file(&"beta".to_string(), &installed).unwrap();
    assert_eq!(found.name, "beta.json");
    assert_eq!(found.file, b"b".to_vec());
    assert_eq!(found.upper, CustomFolder::Cars);
    assert_eq!(get_car_file(&"alpha.json".to_string(), &installed).unwrap().file, b"a".to_vec());
    assert_eq!(get_car_file(&"some/dir/alpha.txt".to_string(), &installed).unwrap().name, "alpha.json");
    assert!(get_car_file(&"gamma".to_string(), &installed).is_none());
}
