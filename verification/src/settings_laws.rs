//! What holds of the livery mode, whatever the document is.

use crate::app_data::{overridden, previous_of, Settings};
use crate::document::{document_tree, pretty_text, shortened, Tree};
use crate::menu_changer::{
    audio_state, audio_tree, dds_number, dds_tree, flag_number, graphic_state, graphic_tree,
    reduced, same_volume, volume_of, volume_tree, whole, AudioSettings, GraphicSettings, Volume,
    INDENT,
};
use vstd::prelude::*;

verus! {

/// Whether the number under `texDDS` and the volume levels of a document
/// stand there in the form in which they are written: the number as a plain
/// 0 or 1, each level without zeros that a negative power of ten could take.
pub open spec fn plainly_written(tree: Tree) -> bool {
    let audio = tree.at("audio"@);
    &&& tree.at("texDDS"@) == whole(0) || tree.at("texDDS"@) == whole(1)
    &&& volume_of(audio.at("main"@)) matches Some(master) && volume_tree(master) == audio.at(
        "main"@,
    )
    &&& volume_of(audio.at("music"@)) matches Some(music) && volume_tree(music) == audio.at(
        "music"@,
    )
}

/// The keys of the five fields are all different.
proof fn keys_differ()
    ensures
        "texDDS"@ != "graphicOptions"@,
        "texDDS"@ != "audio"@,
        "graphicOptions"@ != "audio"@,
        "useFullscreen"@ != "resolution"@,
        "x"@ != "y"@,
        "main"@ != "music"@,
{
    reveal_strlit("texDDS");
    reveal_strlit("graphicOptions");
    reveal_strlit("audio");
    reveal_strlit("useFullscreen");
    reveal_strlit("resolution");
    reveal_strlit("x");
    reveal_strlit("y");
    reveal_strlit("main");
    reveal_strlit("music");
    assert("texDDS"@.len() != "graphicOptions"@.len());
    assert("texDDS"@.len() != "audio"@.len());
    assert("graphicOptions"@.len() != "audio"@.len());
    assert("useFullscreen"@.len() != "resolution"@.len());
    assert("x"@[0] != "y"@[0]);
    assert("main"@.len() != "music"@.len());
}

/// Putting back the member that stood under a key undoes a change of that
/// member.
proof fn with_restores(tree: Tree, key: Seq<char>, value: Tree)
    requires
        tree.has(key),
    ensures
        tree.with(key, value).with(key, tree.at(key)) == tree,
{
    let changed = tree.with(key, value);
    let restored = changed.with(key, tree.at(key));
    assert(restored->members =~= tree->members);
    assert(restored =~~= tree);
}

/// Shortening a number leaves it the same number.
proof fn shortened_is_same(mantissa: u64, exponent: i16)
    ensures
        mantissa != 0 ==> reduced(
            shortened(mantissa, exponent).0,
            shortened(mantissa, exponent).1 as int,
        ) == reduced(mantissa, exponent as int),
        (shortened(mantissa, exponent).0 == 0) == (mantissa == 0),
    decreases -exponent,
{
    if exponent < 0 && mantissa % 10 == 0 {
        shortened_is_same(mantissa / 10, (exponent + 1) as i16);
    }
}

/// A volume that is written and read again is the same number.
proof fn written_volume_is_same(volume: Volume, other: Volume)
    ensures
        volume_of(volume_tree(volume)) matches Some(read) && same_volume(read, other)
            == same_volume(volume, other),
{
    shortened_is_same(volume.mantissa, volume.exponent);
}

/// Setting the flag for generated textures back to what it was gives the
/// document back.
proof fn dds_restores(tree: Tree, mode_state: bool)
    requires
        dds_number(tree) is Some,
        tree.at("texDDS"@) == whole(0) || tree.at("texDDS"@) == whole(1),
    ensures
        dds_number(dds_tree(tree, mode_state)) == Some(flag_number(mode_state)),
        dds_tree(dds_tree(tree, mode_state), dds_number(tree)->0 == 1) == tree,
{
    let n = dds_number(tree)->0;
    assert(tree.has("texDDS"@));
    if n != flag_number(mode_state) {
        with_restores(tree, "texDDS"@, whole(flag_number(mode_state) as u64));
    }
}

/// Setting the screen settings back to what they were gives the document
/// back.
proof fn graphic_restores(tree: Tree, settings: GraphicSettings)
    requires
        graphic_state(tree) is Some,
    ensures
        graphic_state(graphic_tree(tree, settings)) == Some(settings),
        graphic_tree(graphic_tree(tree, settings), graphic_state(tree)->0) == tree,
{
    keys_differ();
    let previous = graphic_state(tree)->0;
    let graphic = tree.at("graphicOptions"@);
    let resolution = graphic.at("resolution"@);
    assert(tree.has("graphicOptions"@));
    assert(graphic.has("useFullscreen"@));
    assert(graphic.has("resolution"@));
    assert(resolution.has("x"@));
    assert(resolution.has("y"@));
    let changed = graphic_tree(tree, settings);
    if previous != settings {
        let graphic_new = changed.at("graphicOptions"@);
        let restored = graphic_tree(changed, previous);
        let graphic_back = restored.at("graphicOptions"@);
        if settings.resolution != previous.resolution {
            let resolution_new = graphic_new.at("resolution"@);
            let resolution_back = graphic_back.at("resolution"@);
            assert(resolution_back->members =~= resolution->members);
            assert(resolution_back =~~= resolution);
        }
        assert(graphic_back->members =~= graphic->members);
        assert(graphic_back =~~= graphic);
        assert(restored->members =~= tree->members);
        assert(restored =~~= tree);
    }
}

/// Setting the volume levels back to what they were gives the document
/// back.
proof fn audio_restores(tree: Tree, settings: AudioSettings)
    requires
        audio_state(tree) is Some,
        plainly_written(tree),
    ensures
        audio_state(audio_tree(tree, settings)) is Some,
        audio_tree(audio_tree(tree, settings), audio_state(tree)->0) == tree,
{
    keys_differ();
    let previous = audio_state(tree)->0;
    let audio = tree.at("audio"@);
    let changed = audio_tree(tree, settings);
    written_volume_is_same(settings.master, previous.master);
    written_volume_is_same(settings.music, previous.music);
    let master_differs = !same_volume(previous.master, settings.master);
    let music_differs = !same_volume(previous.music, settings.music);
    same_volume_is_symmetric(previous.master, settings.master);
    same_volume_is_symmetric(previous.music, settings.music);
    same_volume_is_reflexive(previous.master);
    same_volume_is_reflexive(previous.music);
    if master_differs || music_differs {
        let audio_new = changed.at("audio"@);
        let now = audio_state(changed)->0;
        same_volume_is_symmetric(now.master, previous.master);
        same_volume_is_symmetric(now.music, previous.music);
        let restored = audio_tree(changed, previous);
        let audio_back = restored.at("audio"@);
        assert(audio_back->members =~= audio->members);
        assert(audio_back =~~= audio);
        assert(restored->members =~= tree->members);
        assert(restored =~~= tree);
    }
}

proof fn same_volume_is_symmetric(a: Volume, b: Volume)
    ensures
        same_volume(a, b) == same_volume(b, a),
{
}

proof fn same_volume_is_reflexive(a: Volume)
    ensures
        same_volume(a, a),
{
}

/// Turning the livery mode on and then off again gives back the settings and
/// the document with which it began: the five fields hold what they held,
/// and nothing else in the document has changed.
pub proof fn leaving_restores_the_document(settings: Settings, tree: Tree)
    requires
        settings.backup_settings is None,
        settings.entered(tree) is Some,
        plainly_written(tree),
    ensures
        ({
            let (active, changed) = settings.entered(tree)->0;
            active.left(changed) == Some((settings, tree))
        }),
{
    keys_differ();
    let wanted = settings.livery_mode_settings;
    let n = dds_number(tree)->0;
    let t1 = dds_tree(tree, wanted.dds_generation);
    let t2 = graphic_tree(t1, wanted.graphic);
    let t3 = audio_tree(t2, wanted.audio);
    let previous = previous_of(overridden(tree, wanted));
    assert(tree.has("texDDS"@));
    assert(tree.has("graphicOptions"@));
    assert(tree.has("audio"@));
    dds_restores(tree, wanted.dds_generation);
    assert(graphic_state(t1) == graphic_state(tree));
    graphic_restores(t1, wanted.graphic);
    assert(audio_state(t2) == audio_state(tree));
    assert(plainly_written(t2));
    audio_restores(t2, wanted.audio);
    // back again, field by field
    let u1 = dds_tree(t3, previous.dds_generation);
    assert(dds_number(t3) == dds_number(t1));
    let u2 = graphic_tree(u1, previous.graphic);
    assert(graphic_state(u1) == graphic_state(t2));
    let u3 = audio_tree(u2, previous.audio);
    assert(audio_state(u2) == audio_state(t3));
    assert(u3->members =~= tree->members);
    assert(u3 =~~= tree);
}

/// Switching the livery mode on and off again, on the text of a document
/// and then on the text that was written for it, gives back the settings
/// and the document with which it began.
///
/// That the written text is read as the document it was written for is
/// taken as given here.
pub proof fn switching_back_restores_the_document(
    settings: Settings,
    first: Seq<char>,
    second: Seq<char>,
)
    requires
        settings.backup_settings is None,
        document_tree(first) is Some,
        plainly_written(document_tree(first)->0),
        settings.entered(document_tree(first)->0) is Some,
        second == pretty_text(after_entering(settings, document_tree(first)->0), INDENT),
        document_tree(second) == Some(after_entering(settings, document_tree(first)->0)),
    ensures
        settings.entered(document_tree(first)->0) matches Some((active, _)) && active.left(
            document_tree(second)->0,
        ) == Some((settings, document_tree(first)->0)),
{
    leaving_restores_the_document(settings, document_tree(first)->0);
}

/// The document after the livery mode has been turned on.
pub open spec fn after_entering(settings: Settings, tree: Tree) -> Tree {
    match settings.entered(tree) {
        Some((_, changed)) => changed,
        None => tree,
    }
}

} // verus!
