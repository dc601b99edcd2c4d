//! The operator console: what a line asks for, and the texts it prints.

use vstd::prelude::*;
use vstd::string::StringExecFns;
use crate::number::{decimal, lemma_decimal_reads_back, parse_unsigned, parse_unsigned_spec, push_decimal};
use crate::text::{ascii_lower, ascii_lower_all, chars_of, drop_prefix, eq_ignoring_case, has_prefix, is_blank, is_space, is_text_ignoring_case, is_word, law_words_come_apart, lemma_trimmed, same_ignoring_case, split_words, string_of, texts, trim, trim_chars, trim_start, without_prefix, words};
use crate::viakraken::java::backend::state::{ConsoleCommand, OnlinePlayer};

verus! {

/// What a console line asks for. Names are kept as they were typed.
#[derive(Debug)]
pub enum ConsoleRequest {
    Nothing,
    Help,
    List,
    Op { player: String, level: u8 },
    Deop { player: String },
    Kill { player: String },
    Gamemode { gamemode: u8, player: String },
    UnknownGamemode { gamemode: String },
    Summon { typed: String, entity: String, coordinates: Option<(String, String, String)> },
    Unknown,
}

/// A request with its texts as character sequences.
pub enum RequestText {
    Nothing,
    Help,
    List,
    Op { player: Seq<char>, level: u8 },
    Deop { player: Seq<char> },
    Kill { player: Seq<char> },
    Gamemode { gamemode: u8, player: Seq<char> },
    UnknownGamemode { gamemode: Seq<char> },
    Summon {
        typed: Seq<char>,
        entity: Seq<char>,
        coordinates: Option<(Seq<char>, Seq<char>, Seq<char>)>,
    },
    Unknown,
}

impl View for ConsoleRequest {
    type V = RequestText;

    open spec fn view(&self) -> RequestText {
        match self {
            ConsoleRequest::Nothing => RequestText::Nothing,
            ConsoleRequest::Help => RequestText::Help,
            ConsoleRequest::List => RequestText::List,
            ConsoleRequest::Op { player, level } => RequestText::Op {
                player: player@,
                level: *level,
            },
            ConsoleRequest::Deop { player } => RequestText::Deop { player: player@ },
            ConsoleRequest::Kill { player } => RequestText::Kill { player: player@ },
            ConsoleRequest::Gamemode { gamemode, player } => RequestText::Gamemode {
                gamemode: *gamemode,
                player: player@,
            },
            ConsoleRequest::UnknownGamemode { gamemode } => RequestText::UnknownGamemode {
                gamemode: gamemode@,
            },
            ConsoleRequest::Summon { typed, entity, coordinates } => RequestText::Summon {
                typed: typed@,
                entity: entity@,
                coordinates: match coordinates {
                    Some((x, y, z)) => Some((x@, y@, z@)),
                    None => None,
                },
            },
            ConsoleRequest::Unknown => RequestText::Unknown,
        }
    }
}

/// The game mode with this name or number.
pub open spec fn gamemode_named(value: Seq<char>) -> Option<u8> {
    if same_ignoring_case(value, "survival"@) || same_ignoring_case(value, "0"@) {
        Some(0)
    } else if same_ignoring_case(value, "creative"@) || same_ignoring_case(value, "1"@) {
        Some(1)
    } else if same_ignoring_case(value, "adventure"@) || same_ignoring_case(value, "2"@) {
        Some(2)
    } else if same_ignoring_case(value, "spectator"@) || same_ignoring_case(value, "3"@) {
        Some(3)
    } else {
        None
    }
}

pub fn gamemode_of(value: &[char]) -> (r: Option<u8>)
    ensures
        r == gamemode_named(value@),
{
    if is_text_ignoring_case(value, "survival") || is_text_ignoring_case(value, "0") {
        Some(0)
    } else if is_text_ignoring_case(value, "creative") || is_text_ignoring_case(value, "1") {
        Some(1)
    } else if is_text_ignoring_case(value, "adventure") || is_text_ignoring_case(value, "2") {
        Some(2)
    } else if is_text_ignoring_case(value, "spectator") || is_text_ignoring_case(value, "3") {
        Some(3)
    } else {
        None
    }
}

pub fn parse_gamemode(value: &str) -> (r: Option<u8>)
    ensures
        r == gamemode_named(value@),
{
    let text = chars_of(value);
    gamemode_of(text.as_slice())
}

/// The operator level that a word asks for: 1 to 4, and 4 where there is none.
pub open spec fn level_asked(word: Option<Seq<char>>) -> u8 {
    match word {
        Some(w) => match parse_unsigned_spec(w, 255) {
            Some(n) => if n < 1 {
                1
            } else if n > 4 {
                4
            } else {
                n as u8
            },
            None => 4,
        },
        None => 4,
    }
}

/// What the words of a command line ask for.
pub open spec fn request_of(ws: Seq<Seq<char>>) -> RequestText {
    if ws.len() == 0 {
        RequestText::Nothing
    } else if same_ignoring_case(ws[0], "help"@) {
        RequestText::Help
    } else if same_ignoring_case(ws[0], "list"@) {
        RequestText::List
    } else if same_ignoring_case(ws[0], "op"@) && 2 <= ws.len() <= 3 {
        RequestText::Op {
            player: ws[1],
            level: level_asked(
                if ws.len() == 3 {
                    Some(ws[2])
                } else {
                    None
                },
            ),
        }
    } else if same_ignoring_case(ws[0], "deop"@) && ws.len() == 2 {
        RequestText::Deop { player: ws[1] }
    } else if same_ignoring_case(ws[0], "kill"@) && ws.len() == 2 {
        RequestText::Kill { player: ws[1] }
    } else if same_ignoring_case(ws[0], "gamemode"@) && ws.len() == 3 {
        match gamemode_named(ws[1]) {
            Some(gamemode) => RequestText::Gamemode { gamemode, player: ws[2] },
            None => RequestText::UnknownGamemode { gamemode: ws[1] },
        }
    } else if same_ignoring_case(ws[0], "summon"@) && (ws.len() == 2 || ws.len() == 5) {
        RequestText::Summon {
            typed: ws[1],
            entity: without_prefix(ws[1], "minecraft:"@),
            coordinates: if ws.len() == 5 {
                Some((ws[2], ws[3], ws[4]))
            } else {
                None
            },
        }
    } else {
        RequestText::Unknown
    }
}

/// The words of a command, without the slash that may stand in front of it.
pub open spec fn command_words(input: Seq<char>) -> Seq<Seq<char>> {
    words(trim(without_prefix(input, "/"@)))
}

/// A command asks for the same with and without a slash in front.
pub proof fn law_slash_is_optional(input: Seq<char>)
    requires
        input.len() > 0 ==> input[0] != '/',
    ensures
        command_words("/"@ + input) == command_words(input),
        request_of(command_words("/"@ + input)) == request_of(command_words(input)),
{
    reveal_strlit("/");
    assert(("/"@ + input).take(1) =~= "/"@);
    assert(("/"@ + input).skip(1) =~= input);
    if input.len() > 0 {
        assert(input.take(1)[0] == input[0]);
        assert("/"@[0] == '/');
    }
}

/// The name of a command may be written in capitals.
pub proof fn law_command_names_ignore_case(ws: Seq<Seq<char>>, name: Seq<char>)
    requires
        ws.len() > 0,
        same_ignoring_case(name, ws[0]),
    ensures
        request_of(ws.update(0, name)) == request_of(ws),
{
}

/// A blank input, and a slash with nothing behind it, ask for nothing.
pub proof fn law_blank_input_does_nothing(blank: Seq<char>)
    requires
        forall|i: int| 0 <= i < blank.len() ==> is_space(#[trigger] blank[i]),
    ensures
        request_of(command_words(blank)) == RequestText::Nothing,
        request_of(command_words("/"@ + blank)) == RequestText::Nothing,
{
    if blank.len() > 0 {
        assert(is_space(blank[0]));
    }
    law_slash_is_optional(blank);
    reveal_strlit("/");
    if blank.len() > 0 {
        assert(blank.take(1)[0] == blank[0]);
        assert("/"@[0] == '/');
    }
    assert(without_prefix(blank, "/"@) == blank);
    lemma_blank(blank);
}

proof fn lemma_blank(blank: Seq<char>)
    requires
        forall|i: int| 0 <= i < blank.len() ==> is_space(#[trigger] blank[i]),
    ensures
        trim_start(blank) == Seq::<char>::empty(),
    decreases blank.len(),
{
    if blank.len() > 0 {
        assert(is_space(blank[0]));
        let rest = blank.drop_first();
        assert forall|i: int| 0 <= i < rest.len() implies is_space(#[trigger] rest[i]) by {
            assert(rest[i] == blank[i + 1]);
        }
        lemma_blank(rest);
    } else {
        assert(blank =~= Seq::<char>::empty());
    }
}

proof fn lemma_other_word(value: Seq<char>, a: Seq<char>, b: Seq<char>)
    requires
        same_ignoring_case(value, a),
        a.len() != b.len() || (a.len() > 0 && ascii_lower(a[0]) != ascii_lower(b[0])),
    ensures
        !same_ignoring_case(value, b),
{
    if same_ignoring_case(value, b) {
        assert(ascii_lower_all(a).len() == ascii_lower_all(b).len());
        assert(ascii_lower_all(a)[0] == ascii_lower_all(b)[0]);
    }
}

/// The modes are numbered: 0 is survival, 1 creative, 2 adventure and 3
/// spectator. A mode is asked for by its number or by its name, in capitals or
/// not, and no other word asks for one.
pub proof fn law_modes_have_names_and_numbers(value: Seq<char>)
    ensures
        gamemode_named(value) == Some(0u8) <==> value == seq!['0'] || same_ignoring_case(
            value,
            "survival"@,
        ),
        gamemode_named(value) == Some(1u8) <==> value == seq!['1'] || same_ignoring_case(
            value,
            "creative"@,
        ),
        gamemode_named(value) == Some(2u8) <==> value == seq!['2'] || same_ignoring_case(
            value,
            "adventure"@,
        ),
        gamemode_named(value) == Some(3u8) <==> value == seq!['3'] || same_ignoring_case(
            value,
            "spectator"@,
        ),
        gamemode_named(value) matches Some(mode) ==> mode <= 3,
{
    reveal_strlit("survival");
    reveal_strlit("creative");
    reveal_strlit("adventure");
    reveal_strlit("spectator");
    reveal_strlit("0");
    reveal_strlit("1");
    reveal_strlit("2");
    reveal_strlit("3");
    lemma_digit_word(value, "0"@);
    lemma_digit_word(value, "1"@);
    lemma_digit_word(value, "2"@);
    lemma_digit_word(value, "3"@);
    assert("0"@ =~= seq!['0'] && "1"@ =~= seq!['1'] && "2"@ =~= seq!['2'] && "3"@ =~= seq!['3']);
    assert("0"@[0] == '0' && "1"@[0] == '1' && "2"@[0] == '2' && "3"@[0] == '3');
    if same_ignoring_case(value, "survival"@) {
        lemma_other_word(value, "survival"@, "creative"@);
        lemma_other_word(value, "survival"@, "adventure"@);
        lemma_other_word(value, "survival"@, "spectator"@);
    }
    if same_ignoring_case(value, "creative"@) {
        lemma_other_word(value, "creative"@, "adventure"@);
        lemma_other_word(value, "creative"@, "spectator"@);
    }
    if same_ignoring_case(value, "adventure"@) {
        lemma_other_word(value, "adventure"@, "spectator"@);
    }
    assert(ascii_lower_all(value).len() == value.len());
    assert(ascii_lower_all("survival"@).len() == 8 && ascii_lower_all("creative"@).len() == 8
        && ascii_lower_all("adventure"@).len() == 9 && ascii_lower_all("spectator"@).len() == 9);
}

proof fn lemma_digit_word(value: Seq<char>, digit: Seq<char>)
    requires
        digit.len() == 1,
        '0' <= digit[0] <= '9',
    ensures
        same_ignoring_case(value, digit) <==> value == digit,
{
    if same_ignoring_case(value, digit) {
        assert(ascii_lower_all(value).len() == ascii_lower_all(digit).len());
        assert(ascii_lower_all(value)[0] == ascii_lower_all(digit)[0]);
        assert(value =~= digit);
    }
}

proof fn lemma_command_names(name: Seq<char>)
    ensures
        same_ignoring_case(name, "deop"@) ==> !same_ignoring_case(name, "help"@)
            && !same_ignoring_case(name, "list"@) && !same_ignoring_case(name, "op"@),
        same_ignoring_case(name, "op"@) ==> !same_ignoring_case(name, "help"@)
            && !same_ignoring_case(name, "list"@),
        same_ignoring_case(name, "list"@) ==> !same_ignoring_case(name, "help"@),
        same_ignoring_case(name, "kill"@) ==> !same_ignoring_case(name, "help"@)
            && !same_ignoring_case(name, "list"@) && !same_ignoring_case(name, "op"@)
            && !same_ignoring_case(name, "deop"@),
        same_ignoring_case(name, "gamemode"@) ==> !same_ignoring_case(name, "help"@)
            && !same_ignoring_case(name, "list"@) && !same_ignoring_case(name, "op"@)
            && !same_ignoring_case(name, "deop"@) && !same_ignoring_case(name, "kill"@),
        same_ignoring_case(name, "summon"@) ==> !same_ignoring_case(name, "help"@)
            && !same_ignoring_case(name, "list"@) && !same_ignoring_case(name, "op"@)
            && !same_ignoring_case(name, "deop"@) && !same_ignoring_case(name, "kill"@)
            && !same_ignoring_case(name, "gamemode"@),
{
    reveal_strlit("help");
    reveal_strlit("list");
    reveal_strlit("op");
    reveal_strlit("deop");
    reveal_strlit("kill");
    reveal_strlit("gamemode");
    reveal_strlit("summon");
    if same_ignoring_case(name, "op"@) {
        lemma_other_word(name, "op"@, "help"@);
        lemma_other_word(name, "op"@, "list"@);
    }
    if same_ignoring_case(name, "list"@) {
        lemma_other_word(name, "list"@, "help"@);
    }
    if same_ignoring_case(name, "deop"@) {
        lemma_other_word(name, "deop"@, "help"@);
        lemma_other_word(name, "deop"@, "list"@);
        lemma_other_word(name, "deop"@, "op"@);
    }
    if same_ignoring_case(name, "kill"@) {
        lemma_other_word(name, "kill"@, "help"@);
        lemma_other_word(name, "kill"@, "list"@);
        lemma_other_word(name, "kill"@, "op"@);
        lemma_other_word(name, "kill"@, "deop"@);
    }
    if same_ignoring_case(name, "gamemode"@) {
        lemma_other_word(name, "gamemode"@, "help"@);
        lemma_other_word(name, "gamemode"@, "list"@);
        lemma_other_word(name, "gamemode"@, "op"@);
        lemma_other_word(name, "gamemode"@, "deop"@);
        lemma_other_word(name, "gamemode"@, "kill"@);
    }
    if same_ignoring_case(name, "summon"@) {
        lemma_other_word(name, "summon"@, "help"@);
        lemma_other_word(name, "summon"@, "list"@);
        lemma_other_word(name, "summon"@, "op"@);
        lemma_other_word(name, "summon"@, "deop"@);
        lemma_other_word(name, "summon"@, "kill"@);
        lemma_other_word(name, "summon"@, "gamemode"@);
    }
}

/// A game mode command sets the mode that its second word names for the player
/// that its third word names.
pub proof fn law_gamemode_command_sets_the_named_mode(
    name: Seq<char>,
    mode: Seq<char>,
    player: Seq<char>,
)
    requires
        same_ignoring_case(name, "gamemode"@),
    ensures
        mode == seq!['0'] || same_ignoring_case(mode, "survival"@) ==> request_of(
            seq![name, mode, player],
        ) == (RequestText::Gamemode { gamemode: 0, player }),
        mode == seq!['1'] || same_ignoring_case(mode, "creative"@) ==> request_of(
            seq![name, mode, player],
        ) == (RequestText::Gamemode { gamemode: 1, player }),
        mode == seq!['2'] || same_ignoring_case(mode, "adventure"@) ==> request_of(
            seq![name, mode, player],
        ) == (RequestText::Gamemode { gamemode: 2, player }),
        mode == seq!['3'] || same_ignoring_case(mode, "spectator"@) ==> request_of(
            seq![name, mode, player],
        ) == (RequestText::Gamemode { gamemode: 3, player }),
        request_of(seq![name, mode, player]) matches RequestText::UnknownGamemode { gamemode }
            ==> gamemode == mode,
        request_of(seq![name]) == RequestText::Unknown,
        request_of(seq![name, mode]) == RequestText::Unknown,
{
    law_modes_have_names_and_numbers(mode);
    lemma_command_names(name);
    reveal_strlit("gamemode");
    reveal_strlit("summon");
    lemma_other_word(name, "gamemode"@, "summon"@);
}

/// The commands on a player are about the player that is named first, and `op`
/// grants the level that its last word gives as a number, limited to 1 to 4,
/// and level 4 without one.
pub proof fn law_commands_name_their_player(name: Seq<char>, player: Seq<char>, level: nat)
    ensures
        same_ignoring_case(name, "op"@) ==> request_of(seq![name, player]) == (RequestText::Op {
            player,
            level: 4,
        }),
        same_ignoring_case(name, "op"@) && 1 <= level <= 4 ==> request_of(
            seq![name, player, decimal(level)],
        ) == (RequestText::Op { player, level: level as u8 }),
        same_ignoring_case(name, "op"@) && level == 0 ==> request_of(
            seq![name, player, decimal(level)],
        ) == (RequestText::Op { player, level: 1 }),
        same_ignoring_case(name, "op"@) && level > 4 ==> request_of(
            seq![name, player, decimal(level)],
        ) == (RequestText::Op { player, level: 4 }),
        same_ignoring_case(name, "deop"@) ==> request_of(seq![name, player]) == (
        RequestText::Deop { player }),
        same_ignoring_case(name, "kill"@) ==> request_of(seq![name, player]) == (
        RequestText::Kill { player }),
        same_ignoring_case(name, "help"@) ==> request_of(seq![name]) == RequestText::Help,
        same_ignoring_case(name, "list"@) ==> request_of(seq![name]) == RequestText::List,
{
    lemma_command_names(name);
    lemma_decimal_reads_back(level);
    assert(decimal(level)[0] >= '0');
}

/// A summon command names the entity, with or without its namespace, and
/// afterwards three coordinates in the order x, y and z, or none.
pub proof fn law_summon_names_entity_and_place(
    name: Seq<char>,
    entity: Seq<char>,
    x: Seq<char>,
    y: Seq<char>,
    z: Seq<char>,
)
    requires
        same_ignoring_case(name, "summon"@),
        !has_prefix(entity, "minecraft:"@),
    ensures
        request_of(seq![name, entity]) == (RequestText::Summon {
            typed: entity,
            entity,
            coordinates: None,
        }),
        request_of(seq![name, "minecraft:"@ + entity]) == (RequestText::Summon {
            typed: "minecraft:"@ + entity,
            entity,
            coordinates: None,
        }),
        request_of(seq![name, entity, x, y, z]) == (RequestText::Summon {
            typed: entity,
            entity,
            coordinates: Some((x, y, z)),
        }),
{
    lemma_command_names(name);
    let full = "minecraft:"@ + entity;
    assert(full.take("minecraft:"@.len() as int) =~= "minecraft:"@);
    assert(full.skip("minecraft:"@.len() as int) =~= entity);
}

/// The words of a command may stand any number of blanks apart.
pub proof fn law_command_is_split_at_blanks(
    name: Seq<char>,
    gap: Seq<char>,
    argument: Seq<char>,
    other_gap: Seq<char>,
    last: Seq<char>,
)
    requires
        is_word(name),
        is_word(argument),
        is_word(last),
        is_blank(gap),
        is_blank(other_gap),
        gap.len() > 0,
        other_gap.len() > 0,
        name[0] != '/',
    ensures
        command_words(name) == seq![name],
        command_words(name + gap + argument) == seq![name, argument],
        command_words(name + gap + (argument + other_gap + last)) == seq![name, argument, last],
        command_words("/"@ + (name + gap + argument)) == seq![name, argument],
{
    let short = name + gap + argument;
    let tail = argument + other_gap + last;
    let long = name + gap + tail;
    assert(argument.last() == argument[argument.len() - 1]);
    assert(last.last() == last[last.len() - 1]);
    assert(name.last() == name[name.len() - 1]);
    lemma_command_line(name);
    lemma_command_line(short);
    lemma_command_line(long);
    law_slash_is_optional(short);
    let none = Seq::<char>::empty();
    law_words_come_apart(name, none, none);
    assert(name + none + none =~= name);
    law_words_come_apart(name, gap, argument);
    law_words_come_apart(argument, none, none);
    assert(argument + none + none =~= argument);
    law_words_come_apart(name, gap, tail);
    law_words_come_apart(argument, other_gap, last);
    law_words_come_apart(last, none, none);
    assert(last + none + none =~= last);
    assert(command_words(name) =~= seq![name]);
    assert(command_words(short) =~= seq![name, argument]);
    assert(command_words(long) =~= seq![name, argument, last]);
}

proof fn lemma_command_line(line: Seq<char>)
    requires
        line.len() > 0,
        line[0] != '/',
        !is_space(line[0]),
        !is_space(line.last()),
    ensures
        command_words(line) == words(line),
{
    reveal_strlit("/");
    assert(line.take(1)[0] == line[0]);
    assert("/"@[0] == '/');
    lemma_trimmed(line);
}

/// Decides what a line of the console asks for: whitespace round it does not
/// count.
pub fn console_line(line: &str) -> (r: ConsoleRequest)
    ensures
        r@ == request_of(command_words(trim(line@))),
{
    let text = chars_of(line);
    let input = string_of(trim_chars(text.as_slice()));
    execute(input.as_str())
}

/// Decides what a command asks for.
pub fn execute(input: &str) -> (r: ConsoleRequest)
    ensures
        r@ == request_of(command_words(input@)),
{
    let text = chars_of(input);
    let parts = split_words(trim_chars(drop_prefix(text.as_slice(), "/")));
    let n: usize = parts.len();
    let ghost ws = texts(parts@);
    assert(ws == command_words(input@));
    assert(forall|i: int| 0 <= i < n ==> ws[i] == parts@[i]@);
    if n == 0 {
        return ConsoleRequest::Nothing;
    }
    let name = parts[0].as_slice();
    if is_text_ignoring_case(name, "help") {
        ConsoleRequest::Help
    } else if is_text_ignoring_case(name, "list") {
        ConsoleRequest::List
    } else if is_text_ignoring_case(name, "op") && 2 <= n && n <= 3 {
        let level: u8 = if n == 3 {
            match parse_unsigned(parts[2].as_slice(), 255) {
                Some(l) => if l < 1 {
                    1
                } else if l > 4 {
                    4
                } else {
                    l as u8
                },
                None => 4,
            }
        } else {
            4
        };
        ConsoleRequest::Op { player: string_of(parts[1].as_slice()), level }
    } else if is_text_ignoring_case(name, "deop") && n == 2 {
        ConsoleRequest::Deop { player: string_of(parts[1].as_slice()) }
    } else if is_text_ignoring_case(name, "kill") && n == 2 {
        ConsoleRequest::Kill { player: string_of(parts[1].as_slice()) }
    } else if is_text_ignoring_case(name, "gamemode") && n == 3 {
        match gamemode_of(parts[1].as_slice()) {
            Some(gamemode) => ConsoleRequest::Gamemode {
                gamemode,
                player: string_of(parts[2].as_slice()),
            },
            None => ConsoleRequest::UnknownGamemode { gamemode: string_of(parts[1].as_slice()) },
        }
    } else if is_text_ignoring_case(name, "summon") && (n == 2 || n == 5) {
        let typed = string_of(parts[1].as_slice());
        let entity = string_of(drop_prefix(parts[1].as_slice(), "minecraft:"));
        let coordinates: Option<(String, String, String)> = if n == 5 {
            Some(
                (
                    string_of(parts[2].as_slice()),
                    string_of(parts[3].as_slice()),
                    string_of(parts[4].as_slice()),
                ),
            )
        } else {
            None
        };
        ConsoleRequest::Summon { typed, entity, coordinates }
    } else {
        ConsoleRequest::Unknown
    }
}

/// What the entity tables say of a name.
#[derive(Clone, Copy, Debug, PartialEq, Eq, Structural)]
pub enum EntityLookup {
    Unknown,
    Known { id: u16, summonable: bool, is_player: bool },
}

/// Whether and where an entity is summoned. Coordinates are bit patterns.
#[derive(Clone, Copy, Debug, PartialEq, Eq, Structural)]
pub enum SummonOutcome {
    UnknownEntity,
    NotSummonable,
    BadCoordinates,
    Summon { entity_type: u16, x: u64, y: u64, z: u64 },
}

pub open spec fn summon_decided(
    lookup: EntityLookup,
    typed: Option<Option<(u64, u64, u64)>>,
    fallback: (u64, u64, u64),
) -> SummonOutcome {
    match lookup {
        EntityLookup::Unknown => SummonOutcome::UnknownEntity,
        EntityLookup::Known { id, summonable, is_player } => if !summonable || is_player {
            SummonOutcome::NotSummonable
        } else {
            match typed {
                Some(None) => SummonOutcome::BadCoordinates,
                Some(Some((x, y, z))) => SummonOutcome::Summon { entity_type: id, x, y, z },
                None => SummonOutcome::Summon {
                    entity_type: id,
                    x: fallback.0,
                    y: fallback.1,
                    z: fallback.2,
                },
            }
        },
    }
}

/// Decides a summon command. `typed` holds the coordinates that were given, if
/// any were, and nothing inside where they are not numbers.
pub fn decide_summon(
    lookup: EntityLookup,
    typed: Option<Option<(u64, u64, u64)>>,
    fallback: (u64, u64, u64),
) -> (r: SummonOutcome)
    ensures
        r == summon_decided(lookup, typed, fallback),
{
    match lookup {
        EntityLookup::Unknown => SummonOutcome::UnknownEntity,
        EntityLookup::Known { id, summonable, is_player } => {
            if !summonable || is_player {
                return SummonOutcome::NotSummonable;
            }
            match typed {
                Some(None) => SummonOutcome::BadCoordinates,
                Some(Some((x, y, z))) => SummonOutcome::Summon { entity_type: id, x, y, z },
                None => SummonOutcome::Summon {
                    entity_type: id,
                    x: fallback.0,
                    y: fallback.1,
                    z: fallback.2,
                },
            }
        },
    }
}

/// The first player on the list with this name, up to the case of letters.
pub fn find_online_player(players: &[OnlinePlayer], name: &str) -> (r: Option<usize>)
    ensures
        r matches Some(i) ==> i < players@.len() && same_ignoring_case(
            players@[i as int].username@,
            name@,
        ) && forall|j: int|
            0 <= j < i ==> !same_ignoring_case(#[trigger] players@[j].username@, name@),
        r is None ==> forall|j: int|
            0 <= j < players@.len() ==> !same_ignoring_case(
                #[trigger] players@[j].username@,
                name@,
            ),
{
    let wanted = chars_of(name);
    let mut i: usize = 0;
    while i < players.len()
        invariant
            i <= players.len(),
            wanted@ == name@,
            forall|j: int|
                0 <= j < i ==> !same_ignoring_case(#[trigger] players@[j].username@, name@),
        decreases players.len() - i,
    {
        let candidate = chars_of(players[i].username.as_str());
        if eq_ignoring_case(candidate.as_slice(), wanted.as_slice()) {
            return Some(i);
        }
        i += 1;
    }
    None
}

/// The player that a request is about.
pub open spec fn target_of(request: RequestText) -> Option<Seq<char>> {
    match request {
        RequestText::Op { player, .. } => Some(player),
        RequestText::Deop { player } => Some(player),
        RequestText::Kill { player } => Some(player),
        RequestText::Gamemode { player, .. } => Some(player),
        _ => None,
    }
}

/// What the session of that player is told.
pub open spec fn command_for(request: RequestText, uuid: u128) -> ConsoleCommand {
    match request {
        RequestText::Op { level, .. } => ConsoleCommand::OperatorLevel { uuid, level },
        RequestText::Gamemode { gamemode, .. } => ConsoleCommand::Gamemode { uuid, gamemode },
        RequestText::Kill { .. } => ConsoleCommand::Kill { uuid },
        _ => ConsoleCommand::OperatorLevel { uuid, level: 0 },
    }
}

/// What becomes of a request for a player.
#[derive(Clone, Copy, Debug, PartialEq, Eq, Structural)]
pub enum Delivery {
    /// It is not about a player.
    NoTarget,
    NotOnline,
    /// The player with this number on the list is told.
    Send { player: usize, command: ConsoleCommand },
}

/// Finds the player that a request is about, and what their session is told.
pub fn send_to_player(request: &ConsoleRequest, players: &[OnlinePlayer]) -> (r: Delivery)
    ensures
        match target_of(request@) {
            None => r == Delivery::NoTarget,
            Some(name) => match r {
                Delivery::NoTarget => false,
                Delivery::NotOnline => forall|j: int|
                    0 <= j < players@.len() ==> !same_ignoring_case(
                        #[trigger] players@[j].username@,
                        name,
                    ),
                Delivery::Send { player, command } => player < players@.len() && same_ignoring_case(
                    players@[player as int].username@,
                    name,
                ) && (forall|j: int|
                    0 <= j < player ==> !same_ignoring_case(
                        #[trigger] players@[j].username@,
                        name,
                    )) && command == command_for(request@, players@[player as int].uuid),
            },
        },
{
    let name: &String = match request {
        ConsoleRequest::Op { player, .. } => player,
        ConsoleRequest::Deop { player } => player,
        ConsoleRequest::Kill { player } => player,
        ConsoleRequest::Gamemode { player, .. } => player,
        _ => return Delivery::NoTarget,
    };
    let player: usize = match find_online_player(players, name.as_str()) {
        Some(player) => player,
        None => return Delivery::NotOnline,
    };
    let uuid: u128 = players[player].uuid;
    let command = match request {
        ConsoleRequest::Op { level, .. } => ConsoleCommand::OperatorLevel { uuid, level: *level },
        ConsoleRequest::Gamemode { gamemode, .. } => ConsoleCommand::Gamemode {
            uuid,
            gamemode: *gamemode,
        },
        ConsoleRequest::Kill { .. } => ConsoleCommand::Kill { uuid },
        _ => ConsoleCommand::OperatorLevel { uuid, level: 0 },
    };
    Delivery::Send { player, command }
}

/// `a` comes before `b`, or is the same, in the order of character codes.
pub open spec fn text_le(a: Seq<char>, b: Seq<char>) -> bool
    decreases a.len(),
{
    if a.len() == 0 {
        true
    } else if b.len() == 0 {
        false
    } else if a[0] != b[0] {
        a[0] < b[0]
    } else {
        text_le(a.drop_first(), b.drop_first())
    }
}

proof fn lemma_text_le_total(a: Seq<char>, b: Seq<char>)
    ensures
        text_le(a, b) || text_le(b, a),
    decreases a.len(),
{
    if a.len() > 0 && b.len() > 0 && a[0] == b[0] {
        lemma_text_le_total(a.drop_first(), b.drop_first());
    }
}

proof fn lemma_text_le_trans(a: Seq<char>, b: Seq<char>, c: Seq<char>)
    requires
        text_le(a, b),
        text_le(b, c),
    ensures
        text_le(a, c),
    decreases a.len(),
{
    if a.len() > 0 && b.len() > 0 && c.len() > 0 && a[0] == b[0] && b[0] == c[0] {
        lemma_text_le_trans(a.drop_first(), b.drop_first(), c.drop_first());
    }
}

fn is_text_le(a: &[char], b: &[char]) -> (r: bool)
    ensures
        r == text_le(a@, b@),
{
    let mut i: usize = 0;
    assert(a@.skip(0) =~= a@ && b@.skip(0) =~= b@);
    loop
        invariant
            i <= a.len(),
            i <= b.len(),
            text_le(a@, b@) == text_le(a@.skip(i as int), b@.skip(i as int)),
        decreases a.len() - i,
    {
        if i >= a.len() {
            return true;
        }
        if i >= b.len() {
            return false;
        }
        assert(a@.skip(i as int)[0] == a@[i as int] && b@.skip(i as int)[0] == b@[i as int]);
        if a[i] != b[i] {
            return a[i] < b[i];
        }
        assert(a@.skip(i as int).drop_first() =~= a@.skip(i + 1));
        assert(b@.skip(i as int).drop_first() =~= b@.skip(i + 1));
        i += 1;
    }
}

pub open spec fn text_sorted(s: Seq<Seq<char>>) -> bool {
    forall|i: int, j: int| 0 <= i <= j < s.len() ==> text_le(s[i], s[j])
}

/// The names in the order of character codes.
fn sort_names(names: &Vec<Vec<char>>) -> (r: Vec<Vec<char>>)
    ensures
        texts(r@).to_multiset() == texts(names@).to_multiset(),
        text_sorted(texts(r@)),
{
    broadcast use vstd::seq_lib::group_to_multiset_ensures;

    let mut r: Vec<Vec<char>> = Vec::new();
    let mut i: usize = 0;
    assert(texts(names@).take(0) =~= texts(r@));
    while i < names.len()
        invariant
            i <= names.len(),
            texts(r@).to_multiset() == texts(names@).take(i as int).to_multiset(),
            text_sorted(texts(r@)),
        decreases names.len() - i,
    {
        let ghost before = texts(r@);
        let ghost name = names@[i as int]@;
        let mut at: usize = r.len();
        while at > 0 && !is_text_le(r[at - 1].as_slice(), names[i].as_slice())
            invariant
                at <= r.len(),
                i < names.len(),
                before == texts(r@),
                name == names@[i as int]@,
                forall|k: int| at <= k < before.len() ==> !text_le(#[trigger] before[k], name),
            decreases at,
        {
            assert(before[at - 1] == r@[at - 1]@);
            at -= 1;
        }
        proof {
            if at > 0 {
                assert(before[at - 1] == r@[at - 1]@);
            }
        }
        let word = vstd::slice::slice_to_vec(names[i].as_slice());
        r.insert(at, word);
        proof {
            let after = texts(r@);
            assert(after =~= before.insert(at as int, name));
            before.to_multiset_ensures();
            vstd::seq_lib::to_multiset_insert(before, at as int, name);
            assert forall|a: int, b: int| 0 <= a <= b < after.len() implies text_le(
                after[a],
                after[b],
            ) by {
                let a1 = if a < at {
                    a
                } else {
                    a - 1
                };
                let b1 = if b < at {
                    b
                } else {
                    b - 1
                };
                if a != at && b != at {
                    assert(after[a] == before[a1] && after[b] == before[b1]);
                } else if a == at && b == at {
                    lemma_text_le_total(name, name);
                } else if a == at {
                    assert(after[b] == before[b1]);
                    lemma_text_le_total(before[b1], name);
                } else {
                    assert(after[a] == before[a]);
                    lemma_text_le_trans(before[a], before[at - 1], name);
                }
            }
            let seen = texts(names@).take(i as int);
            assert(texts(names@).take(i + 1) =~= seen.push(name));
            vstd::seq_lib::to_multiset_build(seen, name);
            assert(after == before.insert(at as int, name));
        }
        i += 1;
    }
    assert(texts(names@).take(i as int) =~= texts(names@));
    r
}

/// The texts with a separator between them.
pub open spec fn joined(s: Seq<Seq<char>>, separator: Seq<char>) -> Seq<char>
    decreases s.len(),
{
    if s.len() == 0 {
        Seq::empty()
    } else if s.len() == 1 {
        s[0]
    } else {
        joined(s.drop_last(), separator) + separator + s.last()
    }
}

/// The line that lists `order`, the names of the players.
pub open spec fn list_text(order: Seq<Seq<char>>) -> Seq<char> {
    if order.len() == 0 {
        "No players are online."@
    } else {
        "Online ("@ + decimal(order.len()) + "): "@ + joined(order, ", "@)
    }
}

pub open spec fn name_texts(names: Seq<String>) -> Seq<Seq<char>> {
    Seq::new(names.len(), |i: int| names[i]@)
}

/// The list of the players who are online, with their names in order.
pub fn list_players(names: &Vec<String>) -> (s: String)
    ensures
        exists|order: Seq<Seq<char>>|
            #![trigger text_sorted(order)]
            text_sorted(order) && order.to_multiset() == name_texts(names@).to_multiset() && s@
                == list_text(order),
{
    broadcast use vstd::seq_lib::group_to_multiset_ensures;

    let mut all: Vec<Vec<char>> = Vec::new();
    let mut i: usize = 0;
    while i < names.len()
        invariant
            i <= names.len(),
            texts(all@) == name_texts(names@).take(i as int),
        decreases names.len() - i,
    {
        let ghost before = all@;
        let name = chars_of(names[i].as_str());
        all.push(name);
        i += 1;
        assert(texts(all@) =~= texts(before).push(name@));
        assert(name_texts(names@).take(i as int) =~= name_texts(names@).take(i - 1).push(
            names@[i - 1]@,
        ));
    }
    assert(texts(all@) =~= name_texts(names@));
    let sorted = sort_names(&all);
    let ghost order = texts(sorted@);
    proof {
        order.to_multiset_ensures();
        name_texts(names@).to_multiset_ensures();
        assert(order.len() == order.to_multiset().len());
    }
    if sorted.len() == 0 {
        assert(text_sorted(order));
        return "No players are online.".to_owned();
    }
    let mut s = "Online (".to_owned();
    push_decimal(&mut s, sorted.len() as u64);
    s.append("): ");
    let ghost head = s@;
    let mut k: usize = 0;
    while k < sorted.len()
        invariant
            k <= sorted.len(),
            order == texts(sorted@),
            s@ == head + joined(order.take(k as int), ", "@),
        decreases sorted.len() - k,
    {
        if k > 0 {
            s.append(", ");
        }
        let name = string_of(sorted[k].as_slice());
        s.append(name.as_str());
        proof {
            assert(order.take(k + 1).drop_last() =~= order.take(k as int));
            assert(order.take(k + 1).last() == sorted@[k as int]@);
            if k == 0 {
                assert(order.take(0) =~= Seq::<Seq<char>>::empty());
            }
            assert(s@ =~= head + joined(order.take(k + 1), ", "@));
        }
        k += 1;
    }
    assert(order.take(k as int) =~= order);
    assert(text_sorted(order));
    s
}

/// The lines that the help command prints.
pub fn print_help() -> (r: Vec<&'static str>)
    ensures
        r@ == seq![
            "Console commands:",
            "  /help                         Show this command list",
            "  /list                         List online players",
            "  /op <player> [level]          Grant operator level 1-4",
            "  /deop <player>                Remove operator status",
            "  /kill <player>                Kill an online player",
            "  /gamemode <mode> <player>     Set survival/creative/adventure/spectator",
            "  /summon <entity> [x y z]      Summon an entity (default: 0 0 0)",
        ],
{
    vec![
        "Console commands:",
        "  /help                         Show this command list",
        "  /list                         List online players",
        "  /op <player> [level]          Grant operator level 1-4",
        "  /deop <player>                Remove operator status",
        "  /kill <player>                Kill an online player",
        "  /gamemode <mode> <player>     Set survival/creative/adventure/spectator",
        "  /summon <entity> [x y z]      Summon an entity (default: 0 0 0)",
    ]
}

/// A summon command needs an entity that can be summoned and is no player. It
/// appears where the command says, or at the fallback where it says nothing;
/// coordinates that are no numbers are refused.
pub proof fn law_summon_decisions(
    id: u16,
    summonable: bool,
    is_player: bool,
    typed: (u64, u64, u64),
    fallback: (u64, u64, u64),
)
    ensures
        ({
            let known = EntityLookup::Known { id, summonable, is_player };
            let given = Some(Some(typed));
            &&& summon_decided(EntityLookup::Unknown, given, fallback)
                == SummonOutcome::UnknownEntity
            &&& !summonable || is_player ==> summon_decided(known, given, fallback)
                == SummonOutcome::NotSummonable
            &&& summonable && !is_player ==> {
                &&& summon_decided(known, given, fallback) == (SummonOutcome::Summon {
                    entity_type: id,
                    x: typed.0,
                    y: typed.1,
                    z: typed.2,
                })
                &&& summon_decided(known, None, fallback) == (SummonOutcome::Summon {
                    entity_type: id,
                    x: fallback.0,
                    y: fallback.1,
                    z: fallback.2,
                })
                &&& summon_decided(known, Some(None), fallback) == SummonOutcome::BadCoordinates
            }
        }),
{
}

/// A request for a player reaches the session of the player that it names, with
/// what was asked: a level, no level any more, death, or a mode.
pub proof fn law_requests_become_commands(player: Seq<char>, level: u8, mode: u8, uuid: u128)
    ensures
        target_of(RequestText::Op { player, level }) == Some(player),
        target_of(RequestText::Deop { player }) == Some(player),
        target_of(RequestText::Kill { player }) == Some(player),
        target_of(RequestText::Gamemode { gamemode: mode, player }) == Some(player),
        target_of(RequestText::Help) is None,
        target_of(RequestText::List) is None,
        command_for(RequestText::Op { player, level }, uuid) == (ConsoleCommand::OperatorLevel {
            uuid,
            level,
        }),
        command_for(RequestText::Deop { player }, uuid) == (ConsoleCommand::OperatorLevel {
            uuid,
            level: 0,
        }),
        command_for(RequestText::Kill { player }, uuid) == (ConsoleCommand::Kill { uuid }),
        command_for(RequestText::Gamemode { gamemode: mode, player }, uuid) == (
        ConsoleCommand::Gamemode { uuid, gamemode: mode }),
{
}

/// The list of players gives their number and their names, with commas between
/// them.
pub proof fn law_list_of_players(first: Seq<char>, second: Seq<char>)
    ensures
        list_text(Seq::empty()) == "No players are online."@,
        list_text(seq![first]) == "Online ("@ + seq!['1'] + "): "@ + first,
        list_text(seq![first, second]) == "Online ("@ + seq!['2'] + "): "@ + (first + ", "@ + second),
{
    assert(decimal(1) =~= seq!['1'] && decimal(2) =~= seq!['2']);
    let two = seq![first, second];
    assert(two.drop_last() =~= seq![first]);
    assert(joined(two.drop_last(), ", "@) == first);
    assert(joined(two, ", "@) == first + ", "@ + second);
    assert(joined(seq![first], ", "@) == first);
}

/// Names are ordered by their first different character; a name comes before
/// those that it begins.
pub proof fn law_order_of_names(common: Seq<char>, a: Seq<char>, b: Seq<char>)
    ensures
        text_le(common, common + a),
        a.len() > 0 ==> !text_le(common + a, common),
        a.len() > 0 && b.len() > 0 && a[0] < b[0] ==> text_le(common + a, common + b) && !text_le(
            common + b,
            common + a,
        ),
    decreases common.len(),
{
    if common.len() > 0 {
        law_order_of_names(common.drop_first(), a, b);
        assert((common + a).drop_first() =~= common.drop_first() + a);
        assert((common + b).drop_first() =~= common.drop_first() + b);
        assert((common + a)[0] == common[0] && (common + b)[0] == common[0]);
    } else {
        assert(common + a =~= a);
        assert(common + b =~= b);
    }
}

} // verus!
