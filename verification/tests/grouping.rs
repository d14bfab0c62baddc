use skinmanager::livery_ops::{
    group_up, key_in_document, read_car_for_livery_folder, CustomFolder, Livery, ZipLiveryContent,
};

fn car(name: &str, text: &str) -> ZipLiveryContent {
    ZipLiveryContent {
        upper: CustomFolder::Cars,
        name: name.to_string(),
        file: text.as_bytes().to_vec(),
    }
}

fn asset(folder: &str, name: &str, bytes: &[u8]) -> ZipLiveryContent {
    ZipLiveryContent {
        upper: CustomFolder::Liveries(folder.to_string()),
        name: name.to_string(),
        file: bytes.to_vec(),
    }
}

fn held(liveries: &[Livery]) -> Vec<(String, Vec<u8>)> {
    let mut all = Vec::new();
    for livery in liveries {
        if let Some(car) = &livery.car_json {
            all.push((car.name.clone(), car.file.clone()));
        }
        for file in &livery.livery_files {
            all.push((file.name.clone(), file.file.clone()));
        }
    }
    all.sort();
    all
}

#[test]
fn descriptor_and_asset_of_one_folder_make_one_livery() {
    let files = vec![
        car("alpha.json", r#"{"customSkinName": "TeamA", "raceNumber": 2}"#),
        asset("TeamA", "decals.json", b"{}"),
    ];
    let liveries = group_up(files);
    assert_eq!(liveries.len(), 1);
    assert_eq!(liveries[0].livery_folder, Some("TeamA".to_string()));
    let descriptor = liveries[0].car_json.as_ref().expect("the descriptor is attached");
    assert_eq!(descriptor.name, "alpha.json");
    assert_eq!(descriptor.upper, CustomFolder::Cars);
    assert_eq!(liveries[0].livery_files.len(), 1);
    assert_eq!(liveries[0].livery_files[0].name, "decals.json");
    assert_eq!(liveries[0].livery_files[0].file, b"{}".to_vec());
}

#[test]
fn the_order_of_descriptor_and_asset_makes_no_difference() {
    let files = vec![
        asset("TeamA", "decals.json", b"{}"),
        car("alpha.json", r#"{"customSkinName": "TeamA"}"#),
    ];
    let liveries = group_up(files);
    assert_eq!(liveries.len(), 1);
    assert_eq!(liveries[0].livery_folder, Some("TeamA".to_string()));
    assert_eq!(liveries[0].car_json.as_ref().unwrap().name, "alpha.json");
    assert_eq!(liveries[0].livery_files.len(), 1);
}

#[test]
fn an_asset_alone_makes_a_livery_without_descriptor() {
    let liveries = group_up(vec![asset("TeamB", "sponsors.json", b"[1]")]);
    assert_eq!(liveries.len(), 1);
    assert_eq!(liveries[0].livery_folder, Some("TeamB".to_string()));
    assert!(liveries[0].car_json.is_none());
    assert_eq!(liveries[0].livery_files.len(), 1);
    assert_eq!(liveries[0].livery_files[0].name, "sponsors.json");
}

#[test]
fn no_files_make_no_livery() {
    assert!(group_up(Vec::new()).is_empty());
}

#[test]
fn every_file_is_held_exactly_once() {
    let files = vec![
        car("one.json", r#"{"customSkinName": "A"}"#),
        asset("A", "decals.png", &[1, 2, 3]),
        asset("B", "decals.png", &[4]),
        car("broken.json", "not a document"),
        asset("A", "sponsors.png", &[5, 6]),
        car("two.json", r#"{"customSkinName": "C"}"#),
        asset("A", "decals.png", &[1, 2, 3]),
    ];
    let mut given: Vec<(String, Vec<u8>)> =
        files.iter().map(|file| (file.name.clone(), file.file.clone())).collect();
    given.sort();
    let liveries = group_up(files);
    assert_eq!(held(&liveries), given);
    assert_eq!(liveries.len(), 4);
}

#[test]
fn assets_of_one_folder_share_a_livery_in_every_order() {
    let orders: Vec<Vec<usize>> = vec![
        vec![0, 1, 2, 3],
        vec![3, 2, 1, 0],
        vec![1, 3, 0, 2],
        vec![2, 0, 3, 1],
    ];
    for order in orders {
        let pool = vec![
            asset("A", "one.png", &[1]),
            asset("B", "other.png", &[9]),
            asset("A", "two.png", &[2]),
            car("car.json", r#"{"customSkinName": "A"}"#),
        ];
        let files: Vec<ZipLiveryContent> = order.iter().map(|i| pool[*i].clone()).collect();
        let liveries = group_up(files);
        assert_eq!(liveries.len(), 2);
        let of_a: Vec<&Livery> = liveries
            .iter()
            .filter(|livery| livery.livery_folder == Some("A".to_string()))
            .collect();
        assert_eq!(of_a.len(), 1);
        assert_eq!(of_a[0].livery_files.len(), 2);
        assert!(of_a[0].car_json.is_some());
        for livery in &liveries {
            for file in &livery.livery_files {
                assert_eq!(
                    Some(file.upper.clone()),
                    livery.livery_folder.clone().map(CustomFolder::Liveries)
                );
            }
        }
    }
}

#[test]
fn files_are_taken_from_the_back() {
    let files = vec![
        asset("A", "first.png", &[1]),
        asset("A", "second.png", &[2]),
        asset("B", "third.png", &[3]),
    ];
    let liveries = group_up(files);
    assert_eq!(liveries.len(), 2);
    assert_eq!(liveries[0].livery_folder, Some("B".to_string()));
    assert_eq!(liveries[1].livery_folder, Some("A".to_string()));
    assert_eq!(liveries[1].livery_files[0].name, "second.png");
    assert_eq!(liveries[1].livery_files[1].name, "first.png");
}

#[test]
fn a_second_descriptor_of_a_folder_starts_its_own_livery() {
    let files = vec![
        car("first.json", r#"{"customSkinName": "K"}"#),
        car("second.json", r#"{"customSkinName": "K"}"#),
        asset("K", "decals.png", &[7]),
    ];
    let liveries = group_up(files);
    assert_eq!(liveries.len(), 2);
    assert_eq!(liveries[0].livery_folder, Some("K".to_string()));
    assert_eq!(liveries[0].car_json.as_ref().unwrap().name, "second.json");
    assert_eq!(liveries[0].livery_files.len(), 1);
    assert_eq!(liveries[1].livery_folder, Some("K".to_string()));
    assert_eq!(liveries[1].car_json.as_ref().unwrap().name, "first.json");
    assert!(liveries[1].livery_files.is_empty());
}

#[test]
fn two_descriptors_before_any_asset_leave_the_asset_with_the_first() {
    let files = vec![
        asset("K", "decals.png", &[7]),
        car("first.json", r#"{"customSkinName": "K"}"#),
        car("second.json", r#"{"customSkinName": "K"}"#),
    ];
    let liveries = group_up(files);
    assert_eq!(liveries.len(), 2);
    assert_eq!(liveries[0].car_json.as_ref().unwrap().name, "second.json");
    assert_eq!(liveries[0].livery_files.len(), 1);
    assert_eq!(liveries[1].car_json.as_ref().unwrap().name, "first.json");
    assert!(liveries[1].livery_files.is_empty());
}

#[test]
fn a_descriptor_without_key_stands_alone() {
    let files = vec![
        asset("", "loose.png", &[1]),
        car("empty.json", r#"{"customSkinName": ""}"#),
        car("missing.json", r#"{"raceNumber": 4}"#),
        car("number.json", r#"{"customSkinName": 12}"#),
        car("list.json", r#"[1, 2]"#),
    ];
    let liveries = group_up(files);
    assert_eq!(liveries.len(), 5);
    for livery in &liveries[0..4] {
        assert_eq!(livery.livery_folder, None);
        assert!(livery.car_json.is_some());
        assert!(livery.livery_files.is_empty());
    }
    assert_eq!(liveries[4].livery_folder, Some(String::new()));
    assert!(liveries[4].car_json.is_none());
}

#[test]
fn the_key_of_a_descriptor_is_its_skin_name() {
    let descriptor = car("a.json", r##"{"carGuid": 0, "customSkinName": "#2_TeamIris_992"}"##);
    assert_eq!(read_car_for_livery_folder(&descriptor), Some("#2_TeamIris_992".to_string()));
}

#[test]
fn a_descriptor_in_two_byte_characters_is_read() {
    let mut bytes = Vec::new();
    for byte in br#"{"customSkinName": "Wide"}"# {
        bytes.push(*byte);
        bytes.push(0);
    }
    let descriptor =
        ZipLiveryContent { upper: CustomFolder::Cars, name: "wide.json".to_string(), file: bytes };
    assert_eq!(read_car_for_livery_folder(&descriptor), Some("Wide".to_string()));
}

#[test]
fn a_descriptor_that_is_no_text_names_no_folder() {
    let descriptor = ZipLiveryContent {
        upper: CustomFolder::Cars,
        name: "bad.json".to_string(),
        file: vec![0xff, 0xfe, 0x00],
    };
    assert_eq!(read_car_for_livery_folder(&descriptor), None);
}

#[test]
fn the_key_is_read_from_a_parsed_document() {
    let document = json::parse(r#"{"customSkinName": "Team", "teamName": "Other"}"#).unwrap();
    assert_eq!(key_in_document(&document), Some("Team".to_string()));
    let without = json::parse(r#"{"teamName": "Other"}"#).unwrap();
    assert_eq!(key_in_document(&without), None);
    let empty = json::parse(r#"{"customSkinName": ""}"#).unwrap();
    assert_eq!(key_in_document(&empty), None);
    let flag = json::parse(r#"{"customSkinName": true}"#).unwrap();
    assert_eq!(key_in_document(&flag), None);
}
