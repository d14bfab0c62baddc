use skinmanager::app_data::{get_file_path, override_menu, FileType, MenuSettings, Settings};
use skinmanager::livery_ops::State;
use skinmanager::menu_changer::{
    get_config_path, read_audio, read_graphic, set_audio_settings, set_dds_generation,
    set_graphic_settings, signed, unsigned, update_audio, update_dds, update_graphic, volume,
    volumes_equal, AudioSettings, ConfigName, GraphicSettings, Volume,
};

const MENU: &str = r#"{
    "texDDS": 1,
    "lastCar": "alpha.json",
    "graphicOptions": {
        "useFullscreen": true,
        "vsync": false,
        "resolution": { "x": 1920, "y": 1080, "refresh": 60 }
    },
    "audio": {
        "main": 0.65,
        "engineExt": 0.94999998807907104,
        "spotter": true,
        "music": 0.8,
        "driverAudio": { "index": 255, "name": "System default driver" }
    },
    "multiplayerCarGroupSelection": { "GT3": "140-230514-202639.json", "GT2": "None" }
}"#;

fn decimal(positive: bool, mantissa: u64, exponent: i16) -> Volume {
    Volume { positive, mantissa, exponent }
}

fn as_float(volume: &Volume) -> f64 {
    json::number::Number::from_parts(volume.positive, volume.mantissa, volume.exponent).into()
}

fn livery_mode() -> MenuSettings {
    MenuSettings {
        dds_generation: false,
        graphic: GraphicSettings { resolution: (1600, 900), fullscreen: false },
        audio: AudioSettings { master: decimal(true, 5, -1), music: decimal(true, 0, 0) },
    }
}

#[test]
fn the_paths_of_the_settings_files() {
    let state = State { folders: Vec::new(), root_folder: "/home/user/ACC".to_string(), installed: Vec::new() };
    assert_eq!(
        get_config_path(ConfigName::MenuSettings, &state),
        "/home/user/ACC/Config/menuSettings.json"
    );
    assert_eq!(
        get_file_path(FileType::MainSettings, &state),
        "/home/user/ACC/Apps/Skinmanager/settings.json"
    );
}

#[test]
fn dds_generation_is_turned_off() {
    let change = set_dds_generation(false, MENU).expect("the document has the number");
    assert_eq!(change.previous, true);
    let written = json::parse(&change.document.expect("the document changes")).unwrap();
    assert_eq!(written["texDDS"], 0);
    let mut expected = json::parse(MENU).unwrap();
    expected["texDDS"] = 0.into();
    assert_eq!(written, expected);
}

#[test]
fn dds_generation_that_is_on_already_is_left() {
    let change = set_dds_generation(true, MENU).unwrap();
    assert_eq!(change.previous, true);
    assert!(change.document.is_none());
    let off = set_dds_generation(false, r#"{"texDDS": 0}"#).unwrap();
    assert_eq!(off.previous, false);
    assert!(off.document.is_none());
}

#[test]
fn another_number_for_dds_generation_counts_as_off() {
    let change = set_dds_generation(false, r#"{"texDDS": 5}"#).unwrap();
    assert_eq!(change.previous, false);
    assert_eq!(json::parse(&change.document.unwrap()).unwrap()["texDDS"], 0);
    let negative = set_dds_generation(true, r#"{"texDDS": -1}"#).unwrap();
    assert_eq!(negative.previous, false);
    assert_eq!(json::parse(&negative.document.unwrap()).unwrap()["texDDS"], 1);
}

#[test]
fn a_document_without_the_dds_number_fails() {
    assert!(set_dds_generation(true, r#"{"graphicOptions": {}}"#).is_none());
    assert!(set_dds_generation(true, r#"{"texDDS": true}"#).is_none());
    assert!(set_dds_generation(true, r#"{"texDDS": 0.5}"#).is_none());
    assert!(set_dds_generation(true, r#"{"texDDS": 3000000000}"#).is_none());
    assert!(set_dds_generation(true, r#"{"texDDS": "1"}"#).is_none());
    assert!(set_dds_generation(true, r#"[1]"#).is_none());
    assert!(set_dds_generation(true, "no document").is_none());
    assert!(set_dds_generation(true, "").is_none());
}

#[test]
fn a_written_document_is_indented_by_four_spaces() {
    let change = set_dds_generation(true, r#"{"texDDS":0,"a":{"b":[1,2]}}"#).unwrap();
    assert_eq!(
        change.document.unwrap(),
        "{\n    \"texDDS\": 1,\n    \"a\": {\n        \"b\": [\n            1,\n            2\n        ]\n    }\n}"
    );
}

#[test]
fn a_deeply_nested_document_is_written() {
    let deep = format!("{{\"texDDS\": 1, \"deep\": {}7{}}}", "[".repeat(511), "]".repeat(511));
    let change = set_dds_generation(false, &deep).expect("the parser takes 512 levels");
    assert_eq!(change.previous, true);
    let text = change.document.expect("the document changes");
    let written = json::parse(&text).unwrap();
    assert_eq!(written["texDDS"], 0);
    let innermost = format!("\n{}7\n", " ".repeat(4 * 512));
    assert!(text.contains(&innermost));
    let deeper = format!("{{\"texDDS\": 1, \"deep\": {}7{}}}", "[".repeat(512), "]".repeat(512));
    assert!(set_dds_generation(false, &deeper).is_none());
}

#[test]
fn the_same_resolution_is_not_written_again() {
    let document = r#"{"graphicOptions": {"useFullscreen": false, "resolution": {"x": 1600, "y": 900}}}"#;
    let wanted = GraphicSettings { resolution: (1600, 900), fullscreen: false };
    let change = set_graphic_settings(wanted, document).expect("the document has the settings");
    assert_eq!(change.previous.resolution, (1600, 900));
    assert_eq!(change.previous.fullscreen, false);
    assert!(change.document.is_none());
    let mut content = json::parse(document).unwrap();
    let before = content.dump();
    assert_eq!(update_graphic(&wanted, &mut content), Some((wanted, false)));
    assert_eq!(content.dump(), before);
}

#[test]
fn the_screen_settings_are_set() {
    let wanted = GraphicSettings { resolution: (1600, 900), fullscreen: false };
    let change = set_graphic_settings(wanted, MENU).unwrap();
    assert_eq!(
        change.previous,
        GraphicSettings { resolution: (1920, 1080), fullscreen: true }
    );
    let written = json::parse(&change.document.unwrap()).unwrap();
    let mut expected = json::parse(MENU).unwrap();
    expected["graphicOptions"]["useFullscreen"] = false.into();
    expected["graphicOptions"]["resolution"]["x"] = 1600.into();
    expected["graphicOptions"]["resolution"]["y"] = 900.into();
    assert_eq!(written, expected);
    assert_eq!(written["graphicOptions"]["resolution"]["refresh"], 60);
    assert_eq!(written["graphicOptions"]["vsync"], false);
}

#[test]
fn only_the_flag_is_written_where_the_resolution_is_the_same() {
    let wanted = GraphicSettings { resolution: (1920, 1080), fullscreen: false };
    let change = set_graphic_settings(wanted, MENU).unwrap();
    assert_eq!(change.previous.fullscreen, true);
    let written = json::parse(&change.document.unwrap()).unwrap();
    let mut expected = json::parse(MENU).unwrap();
    expected["graphicOptions"]["useFullscreen"] = false.into();
    assert_eq!(written, expected);
}

#[test]
fn both_numbers_of_the_resolution_are_written_where_one_differs() {
    let wanted = GraphicSettings { resolution: (1920, 1200), fullscreen: true };
    let mut content = json::parse(MENU).unwrap();
    let outcome = update_graphic(&wanted, &mut content).unwrap();
    assert_eq!(outcome.0.resolution, (1920, 1080));
    assert!(outcome.1);
    assert_eq!(content["graphicOptions"]["resolution"]["x"], 1920);
    assert_eq!(content["graphicOptions"]["resolution"]["y"], 1200);
    assert_eq!(content["graphicOptions"]["useFullscreen"], true);
    assert_eq!(read_graphic(&content), Some(wanted));
}

#[test]
fn a_document_without_screen_settings_fails() {
    let wanted = GraphicSettings { resolution: (1, 1), fullscreen: false };
    let documents = [
        r#"{}"#,
        r#"{"graphicOptions": 1}"#,
        r#"{"graphicOptions": {"resolution": {"x": 1, "y": 1}}}"#,
        r#"{"graphicOptions": {"useFullscreen": 1, "resolution": {"x": 1, "y": 1}}}"#,
        r#"{"graphicOptions": {"useFullscreen": true}}"#,
        r#"{"graphicOptions": {"useFullscreen": true, "resolution": {"x": 1}}}"#,
        r#"{"graphicOptions": {"useFullscreen": true, "resolution": {"x": -1, "y": 1}}}"#,
        r#"{"graphicOptions": {"useFullscreen": true, "resolution": {"x": 1, "y": 1.5}}}"#,
        r#"{"graphicOptions": {"useFullscreen": true, "resolution": {"x": 1, "y": 4294967296}}}"#,
        r#"{"graphicOptions": {"useFullscreen": true, "resolution": [1, 1]}}"#,
        r#"{"graphicOptions": "#,
    ];
    for document in documents {
        assert!(set_graphic_settings(wanted, document).is_none());
        if let Ok(mut content) = json::parse(document) {
            let before = content.dump();
            assert!(update_graphic(&wanted, &mut content).is_none());
            assert_eq!(content.dump(), before);
        }
    }
}

#[test]
fn the_largest_resolution_is_read() {
    let document = r#"{"graphicOptions": {"useFullscreen": true, "resolution": {"x": 4294967295, "y": 0}}}"#;
    let content = json::parse(document).unwrap();
    assert_eq!(
        read_graphic(&content),
        Some(GraphicSettings { resolution: (4294967295, 0), fullscreen: true })
    );
}

#[test]
fn the_volume_levels_are_set() {
    let wanted = AudioSettings { master: decimal(true, 5, -1), music: decimal(true, 0, 0) };
    let change = set_audio_settings(wanted, MENU).expect("the document has the levels");
    assert_eq!(as_float(&change.previous.master), 0.65);
    assert_eq!(as_float(&change.previous.music), 0.8);
    let written = json::parse(&change.document.unwrap()).unwrap();
    assert_eq!(written["audio"]["main"], 0.5);
    assert_eq!(written["audio"]["music"], 0.0);
    let mut expected = json::parse(MENU).unwrap();
    expected["audio"]["main"] = 0.5.into();
    expected["audio"]["music"] = 0.into();
    assert_eq!(written, expected);
    assert_eq!(written["audio"]["driverAudio"]["index"], 255);
}

#[test]
fn a_written_volume_level_drops_the_zeros_at_its_end() {
    let wanted = AudioSettings { master: decimal(true, 2500, -4), music: decimal(true, 70, 0) };
    let change = set_audio_settings(wanted, MENU).unwrap();
    let written = json::parse(&change.document.unwrap()).unwrap();
    assert_eq!(written["audio"]["main"].as_number().unwrap().as_parts(), (true, 25, -2));
    assert_eq!(written["audio"]["music"].as_number().unwrap().as_parts(), (true, 70, 0));
    assert_eq!(written["audio"]["main"], 0.25);
    assert_eq!(written["audio"]["music"], 70);
}

#[test]
fn the_same_volume_levels_are_not_written_again() {
    let document = r#"{"audio": {"main": 0.50, "music": 0}}"#;
    let wanted = AudioSettings { master: decimal(true, 5, -1), music: decimal(false, 0, -3) };
    let change = set_audio_settings(wanted, document).unwrap();
    assert!(change.document.is_none());
    assert_eq!(as_float(&change.previous.master), 0.5);
    assert_eq!(as_float(&change.previous.music), 0.0);
}

#[test]
fn one_volume_level_is_written_alone() {
    let wanted = AudioSettings { master: decimal(true, 65, -2), music: decimal(true, 1, 0) };
    let mut content = json::parse(MENU).unwrap();
    let (previous, changed) = update_audio(&wanted, &mut content).unwrap();
    assert!(changed);
    assert_eq!(as_float(&previous.music), 0.8);
    let mut expected = json::parse(MENU).unwrap();
    expected["audio"]["music"] = 1.into();
    assert_eq!(content, expected);
    assert_eq!(read_audio(&content).map(|audio| as_float(&audio.music)), Some(1.0));
}

#[test]
fn a_document_without_volume_levels_fails() {
    let wanted = AudioSettings { master: decimal(true, 1, 0), music: decimal(true, 1, 0) };
    let documents = [
        r#"{}"#,
        r#"{"audio": 0.5}"#,
        r#"{"audio": {"main": 0.5}}"#,
        r#"{"audio": {"music": 0.5}}"#,
        r#"{"audio": {"main": "0.5", "music": 0.5}}"#,
        r#"{"audio": {"main": 0.5, "music": true}}"#,
    ];
    for document in documents {
        assert!(set_audio_settings(wanted, document).is_none());
    }
}

#[test]
fn volumes_are_compared_as_numbers() {
    assert!(volumes_equal(&decimal(true, 5, -1), &decimal(true, 50, -2)));
    assert!(volumes_equal(&decimal(true, 5000, -4), &decimal(true, 5, -1)));
    assert!(volumes_equal(&decimal(true, 10, 0), &decimal(true, 1, 1)));
    assert!(volumes_equal(&decimal(true, 0, 0), &decimal(false, 0, -5)));
    assert!(volumes_equal(&decimal(false, 25, -2), &decimal(false, 250, -3)));
    assert!(!volumes_equal(&decimal(true, 5, -1), &decimal(false, 5, -1)));
    assert!(!volumes_equal(&decimal(true, 5, -1), &decimal(true, 5, -2)));
    assert!(!volumes_equal(&decimal(true, 5, -1), &decimal(true, 51, -2)));
    assert!(!volumes_equal(&decimal(true, 0, 0), &decimal(true, 1, 0)));
    assert!(volumes_equal(
        &decimal(true, 10000000000000000000, -19),
        &decimal(true, 1, 0)
    ));
    assert!(volumes_equal(&decimal(true, 1, i16::MAX), &decimal(true, 1, i16::MAX)));
    assert!(!volumes_equal(&decimal(true, 1, i16::MAX), &decimal(true, 1, i16::MIN)));
}

#[test]
fn numbers_are_read_from_a_document() {
    let content = json::parse(
        r#"{"a": 7, "b": -7, "c": 2147483647, "d": -2147483648, "e": 2147483648, "f": 1.5,
            "g": "7", "h": 4294967295, "i": 4294967296, "j": 0.25, "k": -0.0, "l": 1e3,
            "m": -2147483649}"#,
    )
    .unwrap();
    assert_eq!(signed(&content["a"]), Some(7));
    assert_eq!(signed(&content["b"]), Some(-7));
    assert_eq!(signed(&content["c"]), Some(2147483647));
    assert_eq!(signed(&content["d"]), Some(-2147483648));
    assert_eq!(signed(&content["e"]), None);
    assert_eq!(signed(&content["m"]), None);
    assert_eq!(signed(&content["f"]), None);
    assert_eq!(signed(&content["g"]), None);
    assert_eq!(signed(&content["missing"]), None);
    assert_eq!(unsigned(&content["a"]), Some(7));
    assert_eq!(unsigned(&content["b"]), None);
    assert_eq!(unsigned(&content["h"]), Some(4294967295));
    assert_eq!(unsigned(&content["i"]), None);
    assert_eq!(unsigned(&content["f"]), None);
    assert_eq!(volume(&content["j"]), Some(decimal(true, 25, -2)));
    assert_eq!(volume(&content["a"]), Some(decimal(true, 7, 0)));
    assert_eq!(volume(&content["g"]), None);
    for key in ["a", "b", "f", "j", "k", "l"] {
        let parts = volume(&content[key]).unwrap();
        assert_eq!(as_float(&parts), content[key].as_f64().unwrap());
    }
}

#[test]
fn the_dds_number_is_updated_in_a_parsed_document() {
    let mut content = json::parse(MENU).unwrap();
    assert_eq!(update_dds(false, &mut content), Some((true, true)));
    assert_eq!(content["texDDS"], 0);
    assert_eq!(update_dds(false, &mut content), Some((false, false)));
    assert_eq!(update_dds(true, &mut content), Some((false, true)));
    assert_eq!(content["texDDS"], 1);
    let mut without = json::parse("{\"a\": 1}").unwrap();
    assert_eq!(update_dds(true, &mut without), None);
    assert_eq!(without.dump(), "{\"a\":1}");
}

#[test]
fn the_first_settings() {
    let settings = Settings::default();
    assert!(!settings.is_in_liverymode());
    assert_eq!(settings.backup_settings, None);
    assert_eq!(settings.livery_mode_settings, livery_mode());
    assert_eq!(as_float(&settings.livery_mode_settings.audio.master), 0.5);
    assert_eq!(as_float(&settings.livery_mode_settings.audio.music), 0.0);
}

#[test]
fn the_livery_mode_is_switched_on_and_off() {
    let mut settings = Settings::default();
    let on = settings.switch_liverymode(MENU).expect("the document has all fields");
    assert!(on.active);
    assert!(settings.is_in_liverymode());
    let backup = settings.backup_settings.unwrap();
    assert_eq!(backup.dds_generation, true);
    assert_eq!(backup.graphic, GraphicSettings { resolution: (1920, 1080), fullscreen: true });
    assert_eq!(as_float(&backup.audio.master), 0.65);
    assert_eq!(as_float(&backup.audio.music), 0.8);
    let text = on.document.expect("the document changes");
    let during = json::parse(&text).unwrap();
    assert_eq!(during["texDDS"], 0);
    assert_eq!(during["graphicOptions"]["useFullscreen"], false);
    assert_eq!(during["graphicOptions"]["resolution"]["x"], 1600);
    assert_eq!(during["graphicOptions"]["resolution"]["y"], 900);
    assert_eq!(during["audio"]["main"], 0.5);
    assert_eq!(during["audio"]["music"], 0);
    assert_eq!(during["lastCar"], "alpha.json");

    let off = settings.switch_liverymode(&text).expect("the document has all fields");
    assert!(!off.active);
    assert!(!settings.is_in_liverymode());
    assert_eq!(settings, Settings::default());
    let after = json::parse(&off.document.expect("the document changes back")).unwrap();
    assert_eq!(after, json::parse(MENU).unwrap());
    assert_eq!(after.pretty(4), json::parse(MENU).unwrap().pretty(4));
}

#[test]
fn leaving_the_livery_mode_that_is_off_does_nothing() {
    let mut settings = Settings::default();
    let outcome = settings.leave_liverymode(MENU).unwrap();
    assert!(!outcome.active);
    assert!(outcome.document.is_none());
    assert_eq!(settings, Settings::default());
    let broken = settings.leave_liverymode("no document at all").unwrap();
    assert!(!broken.active);
    assert!(broken.document.is_none());
    assert_eq!(settings, Settings::default());
}

#[test]
fn entering_the_livery_mode_that_is_on_does_nothing() {
    let mut settings = Settings::default();
    let on = settings.enter_liverymode(MENU).unwrap();
    let entered = settings;
    let again = settings.enter_liverymode(&on.document.unwrap()).unwrap();
    assert!(again.active);
    assert!(again.document.is_none());
    assert_eq!(settings, entered);
}

#[test]
fn a_document_that_holds_the_wanted_values_is_not_written() {
    let mut settings = Settings::default();
    let on = settings.switch_liverymode(MENU).unwrap();
    let text = on.document.unwrap();
    let mut second = Settings::default();
    let outcome = second.switch_liverymode(&text).unwrap();
    assert!(outcome.active);
    assert!(outcome.document.is_none());
    assert_eq!(second.backup_settings.unwrap().graphic, livery_mode().graphic);
    let off = second.switch_liverymode(&text).unwrap();
    assert!(!off.active);
    assert!(off.document.is_none());
    assert_eq!(second, Settings::default());
}

#[test]
fn a_document_that_lacks_a_field_fails_the_switch() {
    let documents = [
        r#"{"graphicOptions": {"useFullscreen": true, "resolution": {"x": 1, "y": 1}}, "audio": {"main": 1, "music": 1}}"#,
        r#"{"texDDS": 1, "audio": {"main": 1, "music": 1}}"#,
        r#"{"texDDS": 1, "graphicOptions": {"useFullscreen": true, "resolution": {"x": 1, "y": 1}}}"#,
        r#"{"texDDS": 1, "graphicOptions": {"useFullscreen": true, "resolution": {"x": 1, "y": 1}}, "audio": {"main": 1}}"#,
        "not a document",
    ];
    for document in documents {
        let mut settings = Settings::default();
        assert!(settings.switch_liverymode(document).is_none());
        assert_eq!(settings, Settings::default());
        let mut active = Settings::default();
        active.backup_settings = Some(livery_mode());
        assert!(active.switch_liverymode(document).is_none());
        assert!(active.is_in_liverymode());
        assert_eq!(active.backup_settings, Some(livery_mode()));
    }
}

#[test]
fn all_fields_are_overridden_in_a_parsed_document() {
    let mut content = json::parse(MENU).unwrap();
    let (previous, changed) = override_menu(&livery_mode(), &mut content).unwrap();
    assert!(changed);
    assert_eq!(previous.dds_generation, true);
    assert_eq!(previous.graphic.resolution, (1920, 1080));
    let (back, changed_again) = override_menu(&livery_mode(), &mut content).unwrap();
    assert!(!changed_again);
    assert_eq!(back.dds_generation, false);
    assert_eq!(back.graphic, livery_mode().graphic);
    assert!(volumes_equal(&back.audio.master, &livery_mode().audio.master));
    assert!(volumes_equal(&back.audio.music, &livery_mode().audio.music));
    let (_, restored) = override_menu(&previous, &mut content).unwrap();
    assert!(restored);
    assert_eq!(content, json::parse(MENU).unwrap());
}
