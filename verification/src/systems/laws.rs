//! What holds of commands, placing and digging.

use vstd::prelude::*;
use crate::big_endian::{be_bytes, lemma_be_bytes_len};
use crate::console::{gamemode_named, joined, law_modes_have_names_and_numbers};
use crate::systems::commands::{mode_asked, reply_to, GameMode, ReplyStyle};
use crate::number::signed_decimal;
use crate::systems::interactions::{breaks, dug_blocks, dug_item, overrides_key_text, placed, step, DiggingState, DugBlock, Face};
use crate::systems::persistence::{state_record_bytes, PlayerState};
use crate::text::ascii_lower_all;

verus! {

/// The name of a mode is the word that asks for its number: 0 survival, 1
/// creative, 2 adventure, 3 spectator.
pub proof fn law_mode_names_ask_for_the_mode(mode: GameMode)
    ensures
        gamemode_named(mode.spec_name()) == Some(
            match mode {
                GameMode::Survival => 0u8,
                GameMode::Creative => 1,
                GameMode::Adventure => 2,
                GameMode::Spectator => 3,
            },
        ),
{
    reveal_strlit("Survival");
    reveal_strlit("Creative");
    reveal_strlit("Adventure");
    reveal_strlit("Spectator");
    reveal_strlit("survival");
    reveal_strlit("creative");
    reveal_strlit("adventure");
    reveal_strlit("spectator");
    assert(ascii_lower_all("Survival"@) =~= ascii_lower_all("survival"@));
    assert(ascii_lower_all("Creative"@) =~= ascii_lower_all("creative"@));
    assert(ascii_lower_all("Adventure"@) =~= ascii_lower_all("adventure"@));
    assert(ascii_lower_all("Spectator"@) =~= ascii_lower_all("spectator"@));
    law_modes_have_names_and_numbers(mode.spec_name());
}

/// In the chat a mode is asked for by its number, its name, or what its name is
/// shortened to; everything else asks for creative mode.
pub proof fn law_chat_words_for_modes(word: Seq<char>)
    ensures
        word == seq!['0'] || word == seq!['s'] || word == "survival"@ <==> mode_asked(Some(word))
            == GameMode::Survival,
        word == seq!['2'] || word == seq!['a'] || word == "adventure"@ <==> mode_asked(Some(word))
            == GameMode::Adventure,
        word == seq!['3'] || word == seq!['s', 'p'] || word == "spectator"@ <==> mode_asked(
            Some(word),
        ) == GameMode::Spectator,
        word == seq!['1'] || word == seq!['c'] || word == "creative"@ ==> mode_asked(Some(word))
            == GameMode::Creative,
        mode_asked(None) == GameMode::Creative,
{
    reveal_strlit("0");
    reveal_strlit("2");
    reveal_strlit("3");
    reveal_strlit("s");
    reveal_strlit("a");
    reveal_strlit("sp");
    reveal_strlit("survival");
    reveal_strlit("adventure");
    reveal_strlit("spectator");
    reveal_strlit("creative");
    assert("0"@ =~= seq!['0'] && "2"@ =~= seq!['2'] && "3"@ =~= seq!['3'] && "s"@ =~= seq!['s']
        && "a"@ =~= seq!['a'] && "sp"@ =~= seq!['s', 'p']);
    assert("0"@[0] == '0' && "2"@[0] == '2' && "3"@[0] == '3' && "s"@[0] == 's' && "a"@[0] == 'a');
    assert(seq!['1'][0] == '1' && seq!['c'][0] == 'c');
    assert("survival"@[0] == 's' && "adventure"@[0] == 'a' && "spectator"@[0] == 's'
        && "creative"@[0] == 'c');
    assert("survival"@.len() == 8 && "adventure"@.len() == 9 && "spectator"@.len() == 9
        && "creative"@.len() == 8);
}

/// From level 2 on both names of the game mode command set the mode that is
/// asked for, and the reply names it. Below, the reply is red and nothing is
/// set.
pub proof fn law_chat_sets_the_mode_asked_for(name: Seq<char>, word: Seq<char>, level: u8)
    requires
        name == "gm"@ || name == "gamemode"@,
    ensures
        level >= 2 ==> {
            let reply = reply_to(seq![name, word], level);
            let mode = mode_asked(Some(word));
            &&& reply.game_mode == Some(mode)
            &&& reply.message == "Gamemode set to "@ + mode.spec_name()
            &&& reply.style == ReplyStyle::Plain
        },
        level >= 2 ==> reply_to(seq![name], level).game_mode == Some(GameMode::Creative),
        level < 2 ==> {
            let reply = reply_to(seq![name, word], level);
            reply.game_mode is None && reply.style == ReplyStyle::Red
        },
{
    reveal_strlit("gm");
    reveal_strlit("gamemode");
    reveal_strlit("help");
    assert("gm"@.len() == 2 && "gamemode"@.len() == 8 && "help"@.len() == 4);
}

/// What is said is repeated word by word, in gold and as coming from the server.
pub proof fn law_said_words_are_repeated(first: Seq<char>, second: Seq<char>, level: u8)
    ensures
        reply_to(seq!["say"@, first, second], level).message == "[Server] "@ + (first + " "@
            + second),
        reply_to(seq!["say"@, first, second], level).style == ReplyStyle::Gold,
        reply_to(seq!["say"@, first, second], level).game_mode is None,
{
    reveal_strlit("say");
    reveal_strlit("gm");
    reveal_strlit("gamemode");
    reveal_strlit("help");
    assert("say"@.len() == 3 && "gm"@.len() == 2 && "gamemode"@.len() == 8 && "help"@.len() == 4);
    let rest = seq!["say"@, first, second].skip(1);
    assert(rest.len() == 2 && rest[0] == first && rest[1] == second);
    assert(rest.drop_last().len() == 1 && rest.drop_last()[0] == first);
    assert(joined(rest.drop_last(), " "@) == first);
    assert(joined(rest, " "@) == first + " "@ + second);
}

/// The faces of a block look along the axes: up to greater y, south to greater
/// z, east to greater x, and each opposite face the other way.
pub proof fn law_faces_look_along_the_axes()
    ensures
        step(Face::Up) == (0int, 1int, 0int),
        step(Face::South) == (0int, 0int, 1int),
        step(Face::East) == (1int, 0int, 0int),
        step(Face::Down) == (0int, -1int, 0int),
        step(Face::North) == (0int, 0int, -1int),
        step(Face::West) == (-1int, 0int, 0int),
{
}

/// Creative players break a block with the first blow; everyone breaks it when
/// the digging is done, and nobody who gives up.
pub proof fn law_when_digging_breaks(state: DiggingState, mode: GameMode)
    ensures
        breaks(DiggingState::Stop, mode),
        !breaks(DiggingState::Abort, mode),
        breaks(DiggingState::Start, mode) <==> mode == GameMode::Creative,
{
}

/// The record of a state holds x, y and z in eight bytes each, yaw and pitch in
/// four, all with the lowest byte first, and behind the number of its bytes the
/// identity with the highest byte first.
pub proof fn law_state_record_layout(s: PlayerState)
    ensures
        state_record_bytes(s).len() == 49,
        state_record_bytes(s).subrange(0, 8) == be_bytes(s.x as nat, 8).reverse(),
        state_record_bytes(s).subrange(8, 16) == be_bytes(s.y as nat, 8).reverse(),
        state_record_bytes(s).subrange(16, 24) == be_bytes(s.z as nat, 8).reverse(),
        state_record_bytes(s).subrange(24, 28) == be_bytes(s.yaw as nat, 4).reverse(),
        state_record_bytes(s).subrange(28, 32) == be_bytes(s.pitch as nat, 4).reverse(),
        state_record_bytes(s)[32] == 16,
        state_record_bytes(s).subrange(33, 49) == be_bytes(s.uuid as nat, 16),
{
    lemma_be_bytes_len(s.x as nat, 8);
    lemma_be_bytes_len(s.y as nat, 8);
    lemma_be_bytes_len(s.z as nat, 8);
    lemma_be_bytes_len(s.yaw as nat, 4);
    lemma_be_bytes_len(s.pitch as nat, 4);
    lemma_be_bytes_len(s.uuid as nat, 16);
    let r = state_record_bytes(s);
    assert(r.subrange(0, 8) =~= be_bytes(s.x as nat, 8).reverse());
    assert(r.subrange(8, 16) =~= be_bytes(s.y as nat, 8).reverse());
    assert(r.subrange(16, 24) =~= be_bytes(s.z as nat, 8).reverse());
    assert(r.subrange(24, 28) =~= be_bytes(s.yaw as nat, 4).reverse());
    assert(r.subrange(28, 32) =~= be_bytes(s.pitch as nat, 4).reverse());
    assert(r.subrange(33, 49) =~= be_bytes(s.uuid as nat, 16));
}

/// A block is placed one step off the block that was clicked, towards its face.
pub proof fn law_blocks_are_placed_at_the_face(x: i32, y: i32, z: i32, state: u16)
    requires
        i32::MIN < x < i32::MAX,
        i32::MIN < y < i32::MAX,
        i32::MIN < z < i32::MAX,
    ensures
        placed((x, y, z), Face::Down, Some(state)) == Some(((x, (y - 1) as i32, z), state)),
        placed((x, y, z), Face::Up, Some(state)) == Some(((x, (y + 1) as i32, z), state)),
        placed((x, y, z), Face::North, Some(state)) == Some(((x, y, (z - 1) as i32), state)),
        placed((x, y, z), Face::South, Some(state)) == Some(((x, y, (z + 1) as i32), state)),
        placed((x, y, z), Face::West, Some(state)) == Some((((x - 1) as i32, y, z), state)),
        placed((x, y, z), Face::East, Some(state)) == Some((((x + 1) as i32, y, z), state)),
        placed((x, y, z), Face::Up, None) is None,
{
}

/// A block that is dug out to the end is gone, and outside creative mode its
/// item falls, if it has one. TNT takes the blocks around it along and drops
/// nothing. Where nothing stands, nothing happens.
pub proof fn law_what_digging_does(
    mode: GameMode,
    position: (i32, i32, i32),
    item: u16,
    air: u16,
    air_item: u16,
)
    ensures
        ({
            let plain = Some(DugBlock { tnt: false, item });
            let tnt = Some(DugBlock { tnt: true, item });
            let done = DiggingState::Stop;
            &&& dug_blocks(done, mode, position, plain, air) == seq![(position, air)]
            &&& dug_blocks(done, mode, position, tnt, air).len() == 27
            &&& dug_blocks(done, mode, position, None, air).len() == 0
            &&& dug_blocks(DiggingState::Abort, mode, position, plain, air).len() == 0
            &&& dug_item(done, mode, tnt, air_item) is None
            &&& dug_item(done, GameMode::Creative, plain, air_item) is None
            &&& item != air_item && mode != GameMode::Creative ==> dug_item(
                done,
                mode,
                plain,
                air_item,
            ) == Some(item)
            &&& item == air_item ==> dug_item(done, mode, plain, air_item) is None
            &&& dug_blocks(DiggingState::Start, GameMode::Creative, position, plain, air) == seq![
                (position, air),
            ]
            &&& mode != GameMode::Creative ==> dug_blocks(
                DiggingState::Start,
                mode,
                position,
                plain,
                air,
            ).len() == 0
        }),
{
}

/// The overrides of a chunk are stored under its two numbers, behind a letter.
pub proof fn law_layout_of_override_keys(x: int, z: int)
    ensures
        overrides_key_text(x, z) == seq!['c', '_'] + (signed_decimal(x) + seq!['_']
            + signed_decimal(z)),
{
    reveal_strlit("c_");
    reveal_strlit("_");
    assert("c_"@ =~= seq!['c', '_']);
    assert("_"@ =~= seq!['_']);
}

} // verus!
