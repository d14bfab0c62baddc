use skinmanager::livery_ops::{
    descriptor_file_name, Conflict, CustomFolder, Livery, State, ZipLiveryContent,
};
use skinmanager::transfer::{export_bundle, find_car_for_folder, handling, Handling};

fn car(name: &str, text: &str) -> ZipLiveryContent {
    ZipLiveryContent {
        upper: CustomFolder::Cars,
        name: name.to_string(),
        file: text.as_bytes().to_vec(),
    }
}

fn asset(folder: &str, name: &str, bytes: &[u8]) -> ZipLiveryContent {
    ZipLiveryContent {
        upper: CustomFolder::Liveries(folder.to_string()),
        name: name.to_string(),
        file: bytes.to_vec(),
    }
}

fn installation() -> State {
    State {
        folders: Vec::new(),
        root_folder: "root".to_string(),
        installed: vec![
            car("alpha.json", r#"{"customSkinName": "TeamA"}"#),
            car("beta.json", r#"{"customSkinName": "TeamB"}"#),
            car("again.json", r#"{"customSkinName": "TeamB"}"#),
            car("gamma.json", r#"{"customSkinName": "Missing"}"#),
            car("loose.json", r#"{"raceNumber": 1}"#),
            asset("TeamA", "decals.png", &[1]),
            asset("TeamB", "decals.png", &[2]),
            asset("TeamA", "sponsors.png", &[3]),
            asset("Alone", "decals.png", &[4]),
        ],
    }
}

fn names(files: &[ZipLiveryContent]) -> Vec<String> {
    files.iter().map(|file| file.name.clone()).collect()
}

#[test]
fn how_an_installation_goes_on() {
    assert_eq!(handling(Conflict::Nothing), Handling::Write);
    assert_eq!(handling(Conflict::Identical), Handling::Skip);
    assert_eq!(handling(Conflict::CarOnly), Handling::RenameOrOverride);
    assert_eq!(handling(Conflict::LiveryOnly), Handling::OverrideOrSkip);
    assert_eq!(handling(Conflict::Both), Handling::RenameOrOverride);
}

#[test]
fn a_descriptor_is_split_off_under_another_name() {
    let livery = Livery {
        livery_folder: Some("TeamA".to_string()),
        car_json: Some(car("alpha.json", "{}")),
        livery_files: vec![asset("TeamA", "decals.png", &[1])],
    };
    let (alone, rest) = livery.rename_descriptor("other.json".to_string());
    assert_eq!(alone.livery_folder, None);
    assert!(alone.livery_files.is_empty());
    let renamed = alone.car_json.unwrap();
    assert_eq!(renamed.name, "other.json");
    assert_eq!(renamed.file, b"{}".to_vec());
    assert_eq!(renamed.upper, CustomFolder::Cars);
    assert_eq!(rest.livery_folder, Some("TeamA".to_string()));
    assert!(rest.car_json.is_none());
    assert_eq!(names(&rest.livery_files), vec!["decals.png"]);
    let installed = State { folders: Vec::new(), root_folder: "root".to_string(), installed: vec![car("alpha.json", "x")] };
    assert_eq!(rest.check_if_conflict(&installed), Conflict::Nothing);
}

#[test]
fn the_file_name_of_a_descriptor() {
    assert_eq!(descriptor_file_name("alpha"), "alpha.json");
    assert_eq!(descriptor_file_name("alpha.json"), "alpha.json");
    assert_eq!(descriptor_file_name("alpha.txt"), "alpha.json");
    assert_eq!(descriptor_file_name("some/folder/alpha.backup.json"), "alpha.backup.json");
    assert_eq!(descriptor_file_name(".hidden"), ".hidden.json");
    assert_eq!(descriptor_file_name("#2_Team 992"), "#2_Team 992.json");
}

#[test]
fn an_export_by_the_name_of_a_descriptor() {
    let livery = export_bundle(&"alpha".to_string(), false, &installation()).unwrap();
    assert_eq!(livery.livery_folder, Some("TeamA".to_string()));
    assert_eq!(livery.car_json.as_ref().unwrap().name, "alpha.json");
    assert_eq!(names(&livery.livery_files), vec!["decals.png", "sponsors.png"]);
    let only = export_bundle(&"alpha.json".to_string(), true, &installation()).unwrap();
    assert_eq!(only.livery_folder, Some("TeamA".to_string()));
    assert!(only.car_json.is_none());
    assert_eq!(only.livery_files.len(), 2);
}

#[test]
fn an_export_of_a_descriptor_without_installed_files() {
    let livery = export_bundle(&"gamma".to_string(), false, &installation()).unwrap();
    assert_eq!(livery.livery_folder, None);
    assert_eq!(livery.car_json.as_ref().unwrap().name, "gamma.json");
    assert!(livery.livery_files.is_empty());
    let loose = export_bundle(&"loose".to_string(), false, &installation()).unwrap();
    assert_eq!(loose.livery_folder, None);
    assert!(loose.livery_files.is_empty());
    let nothing = export_bundle(&"loose".to_string(), true, &installation()).unwrap();
    assert!(nothing.car_json.is_none());
    assert!(nothing.livery_files.is_empty());
}

#[test]
fn an_export_by_the_name_of_a_folder() {
    let livery = export_bundle(&"TeamB".to_string(), false, &installation()).unwrap();
    assert_eq!(livery.livery_folder, Some("TeamB".to_string()));
    assert_eq!(livery.car_json.as_ref().unwrap().name, "beta.json");
    assert_eq!(livery.livery_files.len(), 1);
    assert_eq!(livery.livery_files[0].file, vec![2]);
    let alone = export_bundle(&"Alone".to_string(), false, &installation()).unwrap();
    assert_eq!(alone.livery_folder, Some("Alone".to_string()));
    assert!(alone.car_json.is_none());
    assert_eq!(alone.livery_files.len(), 1);
    let only = export_bundle(&"TeamB".to_string(), true, &installation()).unwrap();
    assert!(only.car_json.is_none());
    assert_eq!(only.livery_folder, Some("TeamB".to_string()));
}

#[test]
fn an_export_of_a_folder_without_files() {
    let mut state = installation();
    state.folders.push("Missing".to_string());
    state.folders.push("Hollow".to_string());
    let by_car = export_bundle(&"gamma".to_string(), false, &state).unwrap();
    assert_eq!(by_car.livery_folder, Some("Missing".to_string()));
    assert_eq!(by_car.car_json.as_ref().unwrap().name, "gamma.json");
    assert!(by_car.livery_files.is_empty());
    let by_folder = export_bundle(&"Hollow".to_string(), false, &state).unwrap();
    assert_eq!(by_folder.livery_folder, Some("Hollow".to_string()));
    assert!(by_folder.car_json.is_none());
    assert!(by_folder.livery_files.is_empty());
    let named = export_bundle(&"Missing".to_string(), false, &state).unwrap();
    assert_eq!(named.car_json.as_ref().unwrap().name, "gamma.json");
}

#[test]
fn an_export_of_what_is_not_installed() {
    assert!(export_bundle(&"Missing".to_string(), false, &installation()).is_none());
    assert!(export_bundle(&"delta".to_string(), true, &installation()).is_none());
}

#[test]
fn the_first_descriptor_that_names_a_folder() {
    let cars = vec![
        car("loose.json", "{}"),
        car("beta.json", r#"{"customSkinName": "TeamB"}"#),
        car("again.json", r#"{"customSkinName": "TeamB"}"#),
    ];
    assert_eq!(find_car_for_folder(&cars, &"TeamB".to_string()).unwrap().name, "beta.json");
    assert!(find_car_for_folder(&cars, &"TeamA".to_string()).is_none());
    assert!(find_car_for_folder(&Vec::new(), &"TeamA".to_string()).is_none());
}
