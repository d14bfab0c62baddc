//! The settings of the manager itself, and the livery mode: a switch that
//! overrides five fields of the menu settings and remembers what stood there.

use crate::document::{depth_of, document_tree, parse_document, pretty_text, tree_of, Tree};
use crate::livery_ops::State;
use crate::menu_changer::{
    audio_state, audio_tree, change_of, dds_number, dds_tree, flag_number, graphic_state,
    graphic_tree, same_volume, update_audio, update_dds, update_graphic, AudioSettings,
    GraphicSettings, Volume, INDENT,
};
use vstd::prelude::*;
use vstd::string::*;

verus! {

pub const ACC_APP_FOLDER_NAME: &'static str = "Apps/Skinmanager";

pub const SETTINGS_FILE: &'static str = "settings.json";

/// The files that the manager keeps for itself.
#[derive(Debug, Clone, Copy, PartialEq, Eq, Structural)]
pub enum FileType {
    MainSettings,
}

/// The path of one of the manager's own files in an installation.
pub fn get_file_path(file: FileType, state: &State) -> (r: String)
    ensures
        r@ == state.root_folder@ + "/"@ + "Apps/Skinmanager"@ + "/"@ + "settings.json"@,
{
    let name = match file {
        FileType::MainSettings => SETTINGS_FILE,
    };
    state.root_folder.clone().concat("/").concat(ACC_APP_FOLDER_NAME).concat("/").concat(name)
}

/// The five fields of the menu settings that the livery mode overrides.
#[derive(Debug, Clone, Copy, PartialEq, Eq)]
pub struct MenuSettings {
    pub dds_generation: bool,
    pub graphic: GraphicSettings,
    pub audio: AudioSettings,
}

/// The settings of the manager: what the livery mode sets, and, while the
/// livery mode is on, what stood in the menu settings before.
#[derive(Debug, Clone, Copy, PartialEq, Eq)]
pub struct Settings {
    pub livery_mode_settings: MenuSettings,
    pub backup_settings: Option<MenuSettings>,
}

/// The outcome of a switch: whether the livery mode is on now, and the new
/// text of the menu settings where they had to change.
#[derive(Debug, Clone)]
pub struct Switch {
    pub active: bool,
    pub document: Option<String>,
}

/// The outcome of overriding the five fields of a document with `wanted`:
/// the settings that stood there, and the document after. There is none
/// where the document lacks a field.
pub open spec fn overridden(tree: Tree, wanted: MenuSettings) -> Option<(MenuSettings, Tree)> {
    let with_dds = dds_tree(tree, wanted.dds_generation);
    let with_graphic = graphic_tree(with_dds, wanted.graphic);
    match (dds_number(tree), graphic_state(with_dds), audio_state(with_graphic)) {
        (Some(n), Some(graphic), Some(audio)) => Some(
            (
                MenuSettings { dds_generation: n == 1, graphic, audio },
                audio_tree(with_graphic, wanted.audio),
            ),
        ),
        _ => None,
    }
}

/// The settings that stood in a document before it was overridden.
pub open spec fn previous_of(outcome: Option<(MenuSettings, Tree)>) -> MenuSettings {
    match outcome {
        Some((previous, _)) => previous,
        None => arbitrary(),
    }
}

/// The document after it was overridden.
pub open spec fn after_of(outcome: Option<(MenuSettings, Tree)>) -> Tree {
    match outcome {
        Some((_, after)) => after,
        None => arbitrary(),
    }
}

/// Whether overriding the five fields of a document with `wanted` changes
/// the document: whether one of them holds another value.
pub open spec fn overrides(tree: Tree, wanted: MenuSettings) -> bool {
    let previous = previous_of(overridden(tree, wanted));
    ||| dds_number(tree) != Some(flag_number(wanted.dds_generation))
    ||| previous.graphic != wanted.graphic
    ||| !same_volume(previous.audio.master, wanted.audio.master)
    ||| !same_volume(previous.audio.music, wanted.audio.music)
}

/// Overrides the five fields of a parsed document and returns the settings
/// that stood there, with whether the document changed. Where the document
/// lacks a field nothing is returned, and the document is not to be used.
pub fn override_menu(wanted: &MenuSettings, content: &mut json::JsonValue) -> (r: Option<
    (MenuSettings, bool),
>)
    ensures
        r is Some == overridden(tree_of(*old(content)), *wanted) is Some,
        r matches Some((previous, changed)) ==> {
            &&& previous == previous_of(overridden(tree_of(*old(content)), *wanted))
            &&& tree_of(*final(content)) == after_of(overridden(tree_of(*old(content)), *wanted))
            &&& changed == overrides(tree_of(*old(content)), *wanted)
        },
        depth_of(*final(content)) <= depth_of(*old(content)) + 9,
{
    let (dds_generation, dds_changed) = match update_dds(wanted.dds_generation, content) {
        Some(outcome) => outcome,
        None => {
            return None;
        },
    };
    let (graphic, graphic_changed) = match update_graphic(&wanted.graphic, content) {
        Some(outcome) => outcome,
        None => {
            return None;
        },
    };
    let (audio, audio_changed) = match update_audio(&wanted.audio, content) {
        Some(outcome) => outcome,
        None => {
            return None;
        },
    };
    Some(
        (
            MenuSettings { dds_generation, graphic, audio },
            dds_changed || graphic_changed || audio_changed,
        ),
    )
}

impl Default for Settings {
    /// The settings of a first run: the livery mode is off, and it sets no
    /// generated textures, a window of 1600 by 900, the master volume at one
    /// half and no music.
    fn default() -> (r: Settings)
        ensures
            r == (Settings {
                livery_mode_settings: MenuSettings {
                    dds_generation: false,
                    graphic: GraphicSettings { resolution: (1600, 900), fullscreen: false },
                    audio: AudioSettings {
                        master: Volume { positive: true, mantissa: 5, exponent: -1i16 },
                        music: Volume { positive: true, mantissa: 0, exponent: 0 },
                    },
                },
                backup_settings: None,
            }),
    {
        Settings {
            livery_mode_settings: MenuSettings {
                dds_generation: false,
                graphic: GraphicSettings { resolution: (1600, 900), fullscreen: false },
                audio: AudioSettings {
                    master: Volume { positive: true, mantissa: 5, exponent: -1i16 },
                    music: Volume { positive: true, mantissa: 0, exponent: 0 },
                },
            },
            backup_settings: None,
        }
    }
}

impl Settings {
    /// The settings after the livery mode has been turned on for a document,
    /// with the document after. There are none where the document lacks a
    /// field.
    pub open spec fn entered(self, tree: Tree) -> Option<(Settings, Tree)> {
        match overridden(tree, self.livery_mode_settings) {
            Some((previous, after)) => Some(
                (Settings { backup_settings: Some(previous), ..self }, after),
            ),
            None => None,
        }
    }

    /// The settings after the livery mode has been turned off for a
    /// document, with the document after. There are none where the document
    /// lacks a field.
    pub open spec fn left(self, tree: Tree) -> Option<(Settings, Tree)> {
        match overridden(tree, self.backup_settings->0) {
            Some((_, after)) => Some((Settings { backup_settings: None, ..self }, after)),
            None => None,
        }
    }

    /// Whether the livery mode is on.
    pub fn is_in_liverymode(&self) -> (r: bool)
        ensures
            r == self.backup_settings is Some,
    {
        self.backup_settings.is_some()
    }

    /// Turns the livery mode on: the five fields of the menu settings in
    /// `document` are overridden, and what stood there is kept as the backup.
    ///
    /// While the livery mode is on already, nothing happens. Where the text
    /// is no document or lacks a field, nothing is returned and nothing
    /// changes.
    pub fn enter_liverymode(&mut self, document: &str) -> (r: Option<Switch>)
        ensures
            old(self).backup_settings is Some ==> {
                &&& *final(self) == *old(self)
                &&& r matches Some(switch)
                &&& switch.active
                &&& switch.document is None
            },
            old(self).backup_settings is None ==> match document_tree(document@) {
                Some(tree) => match old(self).entered(tree) {
                    Some((next, after)) => {
                        &&& *final(self) == next
                        &&& r matches Some(switch)
                        &&& switch.active
                        &&& switch.document is Some == overrides(
                            tree,
                            old(self).livery_mode_settings,
                        )
                        &&& switch.document matches Some(text) ==> text@ == pretty_text(
                            after,
                            INDENT,
                        )
                    },
                    None => r is None && *final(self) == *old(self),
                },
                None => r is None && *final(self) == *old(self),
            },
    {
        if self.backup_settings.is_some() {
            return Some(Switch { active: true, document: None });
        }
        match parse_document(document) {
            Some(content) => {
                let mut content = content;
                match override_menu(&self.livery_mode_settings, &mut content) {
                    Some((old_settings, changed)) => {
                        self.backup_settings = Some(old_settings);
                        let change = change_of(true, changed, content);
                        Some(Switch { active: true, document: change.document })
                    },
                    None => None,
                }
            },
            None => None,
        }
    }

    /// Turns the livery mode off: the backup is written back to the menu
    /// settings in `document` and then dropped.
    ///
    /// While the livery mode is off already, nothing happens. Where the text
    /// is no document or lacks a field, nothing is returned and the livery
    /// mode stays on, so that it can be turned off later.
    pub fn leave_liverymode(&mut self, document: &str) -> (r: Option<Switch>)
        ensures
            old(self).backup_settings is None ==> {
                &&& *final(self) == *old(self)
                &&& r matches Some(switch)
                &&& !switch.active
                &&& switch.document is None
            },
            old(self).backup_settings is Some ==> match document_tree(document@) {
                Some(tree) => match old(self).left(tree) {
                    Some((next, after)) => {
                        &&& *final(self) == next
                        &&& r matches Some(switch)
                        &&& !switch.active
                        &&& switch.document is Some == overrides(
                            tree,
                            old(self).backup_settings->0,
                        )
                        &&& switch.document matches Some(text) ==> text@ == pretty_text(
                            after,
                            INDENT,
                        )
                    },
                    None => r is None && *final(self) == *old(self),
                },
                None => r is None && *final(self) == *old(self),
            },
    {
        let backup = match self.backup_settings {
            Some(backup) => backup,
            None => {
                return Some(Switch { active: false, document: None });
            },
        };
        match parse_document(document) {
            Some(content) => {
                let mut content = content;
                match override_menu(&backup, &mut content) {
                    Some((_, changed)) => {
                        self.backup_settings = None;
                        let change = change_of(false, changed, content);
                        Some(Switch { active: false, document: change.document })
                    },
                    None => None,
                }
            },
            None => None,
        }
    }

    /// Switches the livery mode: on when it is off, off when it is on.
    /// Returns whether it is on afterwards, with the new text of the menu
    /// settings where they had to change.
    pub fn switch_liverymode(&mut self, document: &str) -> (r: Option<Switch>)
        ensures
            match document_tree(document@) {
                Some(tree) => match (if old(self).backup_settings is Some {
                    old(self).left(tree)
                } else {
                    old(self).entered(tree)
                }) {
                    Some((next, after)) => {
                        &&& *final(self) == next
                        &&& r matches Some(switch)
                        &&& switch.active == old(self).backup_settings is None
                        &&& switch.document is Some == overrides(
                            tree,
                            if old(self).backup_settings is Some {
                                old(self).backup_settings->0
                            } else {
                                old(self).livery_mode_settings
                            },
                        )
                        &&& switch.document matches Some(text) ==> text@ == pretty_text(
                            after,
                            INDENT,
                        )
                    },
                    None => r is None && *final(self) == *old(self),
                },
                None => r is None && *final(self) == *old(self),
            },
    {
        if self.is_in_liverymode() {
            self.leave_liverymode(document)
        } else {
            self.enter_liverymode(document)
        }
    }
}

} // verus!
