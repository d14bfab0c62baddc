//! The settings document of the simulation's menu: the five fields that the
//! livery mode overrides, each read, compared and written on its own.

use crate::document::{
    can_render, copy_of, depth_of, document_tree, flag_of, flag_value, get_member, member,
    number_parts, number_value, parse_document, pretty_text, render, set_member, shortened,
    tree_of, Tree,
};
use crate::livery_ops::State;
use vstd::prelude::*;
use vstd::string::*;

verus! {

pub const ACC_CONFIG_FOLDER_NAME: &'static str = "Config";

pub const FILE_ENDING: &'static str = "json";

/// The settings documents of the simulation that the manager knows.
#[derive(Debug, Clone, Copy, PartialEq, Eq, Structural)]
pub enum ConfigName {
    MenuSettings,
}

/// The path of a settings document of the simulation in an installation.
pub fn get_config_path(filename: ConfigName, state: &State) -> (r: String)
    ensures
        r@ == state.root_folder@ + "/"@ + "Config"@ + "/"@ + "menuSettings"@ + "."@ + "json"@,
{
    let name = match filename {
        ConfigName::MenuSettings => "menuSettings",
    };
    state.root_folder.clone().concat("/").concat(ACC_CONFIG_FOLDER_NAME).concat("/").concat(
        name,
    ).concat(".").concat(FILE_ENDING)
}

/// The number of spaces by which each level of a written document is
/// indented.
pub const INDENT: u16 = 4;

/// The screen settings that the livery mode overrides.
#[derive(Debug, Clone, Copy, PartialEq, Eq)]
pub struct GraphicSettings {
    pub resolution: (u32, u32),
    pub fullscreen: bool,
}

/// A volume level as the decimal number that a document holds: a sign, a
/// mantissa and a power of ten.
#[derive(Debug, Clone, Copy, PartialEq, Eq)]
pub struct Volume {
    pub positive: bool,
    pub mantissa: u64,
    pub exponent: i16,
}

/// The volume levels that the livery mode overrides.
#[derive(Debug, Clone, Copy, PartialEq, Eq)]
pub struct AudioSettings {
    pub master: Volume,
    pub music: Volume,
}

/// The outcome of setting a field: the value that stood there before, and
/// the text of the document where it had to change.
#[derive(Debug, Clone)]
pub struct Change<T> {
    pub previous: T,
    pub document: Option<String>,
}

/// The whole number that a document value holds, if it is a number without
/// a decimal exponent that fits 32 bits with a sign. A mantissa beyond that,
/// be it beyond 63 bits, is no such number, whatever its sign; the value
/// that is no number counts as zero.
pub open spec fn signed_of(tree: Tree) -> Option<int> {
    match tree {
        Tree::Number { positive, mantissa, exponent } => {
            let n = if positive {
                mantissa as int
            } else {
                -(mantissa as int)
            };
            if exponent == 0 && -0x8000_0000 <= n <= 0x7fff_ffff {
                Some(n)
            } else {
                None
            }
        },
        Tree::NotANumber => Some(0),
        _ => None,
    }
}

/// The whole number that a document value holds, if it is a number without
/// a sign or a decimal exponent that fits 32 bits.
pub open spec fn unsigned_of(tree: Tree) -> Option<int> {
    match tree {
        Tree::Number { positive, mantissa, exponent } => if positive && exponent == 0 && mantissa
            <= 0xffff_ffff {
            Some(mantissa as int)
        } else {
            None
        },
        _ => None,
    }
}

/// The decimal number that a document value holds.
pub open spec fn volume_of(tree: Tree) -> Option<Volume> {
    match tree {
        Tree::Number { positive, mantissa, exponent } => Some(
            Volume { positive, mantissa, exponent },
        ),
        Tree::NotANumber => Some(Volume { positive: false, mantissa: 0, exponent: 0 }),
        _ => None,
    }
}

/// The document value of a whole number.
pub open spec fn whole(n: u64) -> Tree {
    Tree::Number { positive: true, mantissa: n, exponent: 0 }
}

/// The document value that is written for a volume.
pub open spec fn volume_tree(volume: Volume) -> Tree {
    Tree::Number {
        positive: volume.positive,
        mantissa: shortened(volume.mantissa, volume.exponent).0,
        exponent: shortened(volume.mantissa, volume.exponent).1,
    }
}

/// A mantissa and its power of ten after every zero at the end of the
/// mantissa has been moved into the power.
pub open spec fn reduced(mantissa: u64, exponent: int) -> (u64, int)
    decreases mantissa,
{
    if mantissa != 0 && mantissa % 10 == 0 {
        reduced(mantissa / 10, exponent + 1)
    } else {
        (mantissa, exponent)
    }
}

/// Whether two volumes are the same number: both zero, or of one sign and
/// with the same digits once the zeros at the end of the mantissa have been
/// moved into the power of ten.
pub open spec fn same_volume(a: Volume, b: Volume) -> bool {
    if a.mantissa == 0 || b.mantissa == 0 {
        a.mantissa == b.mantissa
    } else {
        a.positive == b.positive && reduced(a.mantissa, a.exponent as int) == reduced(
            b.mantissa,
            b.exponent as int,
        )
    }
}

/// The number that stands for a flag in the document.
pub open spec fn flag_number(flag: bool) -> int {
    if flag {
        1
    } else {
        0
    }
}

/// The number under `texDDS`.
pub open spec fn dds_number(tree: Tree) -> Option<int> {
    signed_of(tree.at("texDDS"@))
}

/// The document after the flag for generated textures has been set. It is
/// the same document where the number under `texDDS` is the wanted one
/// already.
pub open spec fn dds_tree(tree: Tree, mode_state: bool) -> Tree {
    if dds_number(tree) == Some(flag_number(mode_state)) {
        tree
    } else {
        tree.with("texDDS"@, whole(flag_number(mode_state) as u64))
    }
}

/// The screen settings that a document holds.
pub open spec fn graphic_state(tree: Tree) -> Option<GraphicSettings> {
    let graphic = tree.at("graphicOptions"@);
    let resolution = graphic.at("resolution"@);
    match (
        graphic.at("useFullscreen"@),
        unsigned_of(resolution.at("x"@)),
        unsigned_of(resolution.at("y"@)),
    ) {
        (Tree::Flag(fullscreen), Some(x), Some(y)) => Some(
            GraphicSettings { resolution: (x as u32, y as u32), fullscreen },
        ),
        _ => None,
    }
}

/// The document after the screen settings have been set: the flag is
/// written where it differs, both numbers of the resolution where one of
/// them differs, and everything else stays.
pub open spec fn graphic_tree(tree: Tree, settings: GraphicSettings) -> Tree {
    let graphic = tree.at("graphicOptions"@);
    let resolution = graphic.at("resolution"@);
    let previous = graphic_state(tree)->0;
    let with_flag = if settings.fullscreen != previous.fullscreen {
        graphic.with("useFullscreen"@, Tree::Flag(settings.fullscreen))
    } else {
        graphic
    };
    let with_resolution = if settings.resolution != previous.resolution {
        with_flag.with(
            "resolution"@,
            resolution.with("x"@, whole(settings.resolution.0 as u64)).with(
                "y"@,
                whole(settings.resolution.1 as u64),
            ),
        )
    } else {
        with_flag
    };
    if previous != settings {
        tree.with("graphicOptions"@, with_resolution)
    } else {
        tree
    }
}

/// The volume levels that a document holds.
pub open spec fn audio_state(tree: Tree) -> Option<AudioSettings> {
    let audio = tree.at("audio"@);
    match (volume_of(audio.at("main"@)), volume_of(audio.at("music"@))) {
        (Some(master), Some(music)) => if tree.has("audio"@) && audio.has("main"@) && audio.has(
            "music"@,
        ) {
            Some(AudioSettings { master, music })
        } else {
            None
        },
        _ => None,
    }
}

/// The document after the volume levels have been set: each level is
/// written where it is another number than the one that stands there.
pub open spec fn audio_tree(tree: Tree, settings: AudioSettings) -> Tree {
    let audio = tree.at("audio"@);
    let previous = audio_state(tree)->0;
    let with_master = if !same_volume(previous.master, settings.master) {
        audio.with("main"@, volume_tree(settings.master))
    } else {
        audio
    };
    let with_music = if !same_volume(previous.music, settings.music) {
        with_master.with("music"@, volume_tree(settings.music))
    } else {
        with_master
    };
    if !same_volume(previous.master, settings.master) || !same_volume(
        previous.music,
        settings.music,
    ) {
        tree.with("audio"@, with_music)
    } else {
        tree
    }
}

/// Reads a whole number of 32 bits with a sign from a document value. The
/// parts of the number are compared as they stand, with no conversion that
/// could wrap: a mantissa that does not fit gives nothing.
pub fn signed(value: &json::JsonValue) -> (r: Option<i32>)
    ensures
        r is Some == signed_of(tree_of(*value)) is Some,
        r matches Some(n) ==> signed_of(tree_of(*value)) == Some(n as int),
{
    match number_parts(value) {
        Some((positive, mantissa, exponent)) => {
            if exponent != 0 {
                None
            } else if positive {
                if mantissa <= 0x7fff_ffff {
                    Some(mantissa as i32)
                } else {
                    None
                }
            } else {
                if mantissa <= 0x8000_0000 {
                    Some((-(mantissa as i64)) as i32)
                } else {
                    None
                }
            }
        },
        None => None,
    }
}

/// Reads a whole number of 32 bits without a sign from a document value.
pub fn unsigned(value: &json::JsonValue) -> (r: Option<u32>)
    ensures
        r is Some == unsigned_of(tree_of(*value)) is Some,
        r matches Some(n) ==> unsigned_of(tree_of(*value)) == Some(n as int),
{
    match number_parts(value) {
        Some((positive, mantissa, exponent)) => {
            if positive && exponent == 0 && mantissa <= 0xffff_ffff {
                Some(mantissa as u32)
            } else {
                None
            }
        },
        None => None,
    }
}

/// Reads a volume from a document value.
pub fn volume(value: &json::JsonValue) -> (r: Option<Volume>)
    ensures
        r == volume_of(tree_of(*value)),
{
    match number_parts(value) {
        Some((positive, mantissa, exponent)) => Some(Volume { positive, mantissa, exponent }),
        None => None,
    }
}

/// Moves the zeros at the end of a mantissa into its power of ten.
fn reduce(mantissa: u64, exponent: i16) -> (r: (u64, i128))
    ensures
        reduced(mantissa, exponent as int) == (r.0, r.1 as int),
{
    let mut m: u64 = mantissa;
    let mut e: i128 = exponent as i128;
    while m != 0 && m % 10 == 0
        invariant
            reduced(mantissa, exponent as int) == reduced(m, e as int),
            m <= mantissa,
            e - exponent <= mantissa - m,
        decreases m,
    {
        m = m / 10;
        e = e + 1;
    }
    (m, e)
}

/// Whether two volumes are the same number.
pub fn volumes_equal(a: &Volume, b: &Volume) -> (r: bool)
    ensures
        r == same_volume(*a, *b),
{
    if a.mantissa == 0 || b.mantissa == 0 {
        return a.mantissa == b.mantissa;
    }
    let left = reduce(a.mantissa, a.exponent);
    let right = reduce(b.mantissa, b.exponent);
    a.positive == b.positive && left.0 == right.0 && left.1 == right.1
}

/// The document value that is written for a flag that is kept as a number.
fn flag_as_number(flag: bool) -> (r: json::JsonValue)
    ensures
        tree_of(r) == whole(flag_number(flag) as u64),
        depth_of(r) == 0,
{
    number_value(
        true,
        if flag {
            1
        } else {
            0
        },
        0,
    )
}

/// Sets the flag for generated textures in a parsed document and returns
/// the flag that stood there, with whether the document changed. A document
/// without the number is left as it is.
pub fn update_dds(mode_state: bool, content: &mut json::JsonValue) -> (r: Option<(bool, bool)>)
    ensures
        match dds_number(tree_of(*old(content))) {
            Some(n) => r == Some((n == 1, n != flag_number(mode_state))) && tree_of(
                *final(content),
            ) == dds_tree(tree_of(*old(content)), mode_state),
            None => r is None && tree_of(*final(content)) == tree_of(*old(content)),
        },
        depth_of(*final(content)) <= depth_of(*old(content)) + 3,
{
    let old_state = match get_member(content, "texDDS") {
        Some(old_state) => signed(old_state),
        None => None,
    };
    match old_state {
        Some(old_state) => {
            let state_i: i32 = if mode_state {
                1
            } else {
                0
            };
            if old_state != state_i {
                set_member(content, "texDDS", flag_as_number(mode_state));
                Some((old_state == 1, true))
            } else {
                Some((old_state == 1, false))
            }
        },
        None => None,
    }
}

/// Reads the screen settings of a parsed document.
pub fn read_graphic(content: &json::JsonValue) -> (r: Option<GraphicSettings>)
    ensures
        r == graphic_state(tree_of(*content)),
{
    let graphic = member(content, "graphicOptions");
    let resolution = member(graphic, "resolution");
    let fullscreen = flag_of(member(graphic, "useFullscreen"));
    let old_x = unsigned(member(resolution, "x"));
    let old_y = unsigned(member(resolution, "y"));
    match (fullscreen, old_x, old_y) {
        (Some(fullscreen), Some(old_x), Some(old_y)) => Some(
            GraphicSettings { resolution: (old_x, old_y), fullscreen },
        ),
        _ => None,
    }
}

/// Sets the screen settings in a parsed document and returns those that
/// stood there, with whether the document changed. A document that lacks
/// one of them is left as it is.
pub fn update_graphic(settings: &GraphicSettings, content: &mut json::JsonValue) -> (r: Option<
    (GraphicSettings, bool),
>)
    ensures
        match graphic_state(tree_of(*old(content))) {
            Some(previous) => r == Some((previous, previous != *settings)) && tree_of(
                *final(content),
            ) == graphic_tree(tree_of(*old(content)), *settings),
            None => r is None && tree_of(*final(content)) == tree_of(*old(content)),
        },
        depth_of(*final(content)) <= depth_of(*old(content)) + 3,
{
    let old_settings = match read_graphic(content) {
        Some(old_settings) => old_settings,
        None => {
            return None;
        },
    };
    let same_resolution = settings.resolution.0 == old_settings.resolution.0
        && settings.resolution.1 == old_settings.resolution.1;
    if same_resolution && settings.fullscreen == old_settings.fullscreen {
        assert(old_settings == *settings);
        return Some((old_settings, false));
    }
    let graphic = member(content, "graphicOptions");
    let mut graphic_new = copy_of(graphic);
    if settings.fullscreen != old_settings.fullscreen {
        set_member(&mut graphic_new, "useFullscreen", flag_value(settings.fullscreen));
    }
    if !same_resolution {
        let mut new_resolution = copy_of(member(graphic, "resolution"));
        set_member(&mut new_resolution, "x", number_value(true, settings.resolution.0 as u64, 0));
        set_member(&mut new_resolution, "y", number_value(true, settings.resolution.1 as u64, 0));
        set_member(&mut graphic_new, "resolution", new_resolution);
    }
    set_member(content, "graphicOptions", graphic_new);
    Some((old_settings, true))
}

/// Reads the volume levels of a parsed document.
pub fn read_audio(content: &json::JsonValue) -> (r: Option<AudioSettings>)
    ensures
        r == audio_state(tree_of(*content)),
{
    match get_member(content, "audio") {
        Some(audio) => match (get_member(audio, "main"), get_member(audio, "music")) {
            (Some(old_master), Some(old_music)) => match (volume(old_master), volume(old_music)) {
                (Some(master), Some(music)) => Some(AudioSettings { master, music }),
                _ => None,
            },
            _ => None,
        },
        None => None,
    }
}

/// Sets the volume levels in a parsed document and returns those that stood
/// there, with whether the document changed. A document that lacks one of
/// them is left as it is.
pub fn update_audio(settings: &AudioSettings, content: &mut json::JsonValue) -> (r: Option<
    (AudioSettings, bool),
>)
    ensures
        match audio_state(tree_of(*old(content))) {
            Some(previous) => r == Some(
                (
                    previous,
                    !same_volume(previous.master, settings.master) || !same_volume(
                        previous.music,
                        settings.music,
                    ),
                ),
            ) && tree_of(*final(content)) == audio_tree(tree_of(*old(content)), *settings),
            None => r is None && tree_of(*final(content)) == tree_of(*old(content)),
        },
        depth_of(*final(content)) <= depth_of(*old(content)) + 3,
{
    let old_settings = match read_audio(content) {
        Some(old_settings) => old_settings,
        None => {
            return None;
        },
    };
    let same_master = volumes_equal(&old_settings.master, &settings.master);
    let same_music = volumes_equal(&old_settings.music, &settings.music);
    if same_master && same_music {
        return Some((old_settings, false));
    }
    let mut audio_new = copy_of(member(content, "audio"));
    if !same_master {
        set_member(
            &mut audio_new,
            "main",
            number_value(
                settings.master.positive,
                settings.master.mantissa,
                settings.master.exponent,
            ),
        );
    }
    if !same_music {
        set_member(
            &mut audio_new,
            "music",
            number_value(
                settings.music.positive,
                settings.music.mantissa,
                settings.music.exponent,
            ),
        );
    }
    set_member(content, "audio", audio_new);
    Some((old_settings, true))
}

/// The outcome for a document that was changed or left as it was: its new
/// text in the first case, none in the second. The document must not be
/// nested so deep that its lines cannot be indented.
pub fn change_of<T>(previous: T, changed: bool, content: json::JsonValue) -> (r: Change<T>)
    requires
        can_render(depth_of(content), INDENT),
    ensures
        r.previous == previous,
        r.document is Some == changed,
        r.document matches Some(text) ==> text@ == pretty_text(tree_of(content), INDENT),
{
    if changed {
        Change { previous, document: Some(render(content, INDENT)) }
    } else {
        Change { previous, document: None }
    }
}

/// Sets the flag for generated textures in the text of a settings document.
///
/// Returns the flag that stood there, and the new text of the document if
/// the number under `texDDS` was another one. Nothing is returned for a text
/// that is no document or has no such number.
pub fn set_dds_generation(mode_state: bool, document: &str) -> (r: Option<Change<bool>>)
    ensures
        r is Some == (document_tree(document@) is Some && dds_number(document_tree(document@)->0)
            is Some),
        r matches Some(change) ==> {
            let tree = document_tree(document@)->0;
            let n = dds_number(tree)->0;
            &&& change.previous == (n == 1)
            &&& change.document is Some == (n != flag_number(mode_state))
            &&& change.document matches Some(text) ==> text@ == pretty_text(
                dds_tree(tree, mode_state),
                INDENT,
            )
        },
{
    match parse_document(document) {
        Some(content) => {
            let mut content = content;
            match update_dds(mode_state, &mut content) {
                Some((old_state, changed)) => Some(change_of(old_state, changed, content)),
                None => None,
            }
        },
        None => None,
    }
}

/// Sets the screen settings in the text of a settings document.
///
/// Returns the settings that stood there, and the new text of the document
/// if they were others. Nothing is returned for a text that is no document
/// or lacks one of the settings.
pub fn set_graphic_settings(settings: GraphicSettings, document: &str) -> (r: Option<
    Change<GraphicSettings>,
>)
    ensures
        r is Some == (document_tree(document@) is Some && graphic_state(document_tree(document@)->0)
            is Some),
        r matches Some(change) ==> {
            let tree = document_tree(document@)->0;
            &&& Some(change.previous) == graphic_state(tree)
            &&& change.document is Some == (change.previous != settings)
            &&& change.document matches Some(text) ==> text@ == pretty_text(
                graphic_tree(tree, settings),
                INDENT,
            )
        },
{
    match parse_document(document) {
        Some(content) => {
            let mut content = content;
            match update_graphic(&settings, &mut content) {
                Some((old_settings, changed)) => Some(change_of(old_settings, changed, content)),
                None => None,
            }
        },
        None => None,
    }
}

/// Sets the volume levels in the text of a settings document.
///
/// Returns the levels that stood there, and the new text of the document if
/// one of them was another number. Nothing is returned for a text that is
/// no document or lacks one of the levels.
pub fn set_audio_settings(settings: AudioSettings, document: &str) -> (r: Option<
    Change<AudioSettings>,
>)
    ensures
        r is Some == (document_tree(document@) is Some && audio_state(document_tree(document@)->0)
            is Some),
        r matches Some(change) ==> {
            let tree = document_tree(document@)->0;
            &&& Some(change.previous) == audio_state(tree)
            &&& change.document is Some == (!same_volume(change.previous.master, settings.master)
                || !same_volume(change.previous.music, settings.music))
            &&& change.document matches Some(text) ==> text@ == pretty_text(
                audio_tree(tree, settings),
                INDENT,
            )
        },
{
    match parse_document(document) {
        Some(content) => {
            let mut content = content;
            match update_audio(&settings, &mut content) {
                Some((old_settings, changed)) => Some(change_of(old_settings, changed, content)),
                None => None,
            }
        },
        None => None,
    }
}

} // verus!
