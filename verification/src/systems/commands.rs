//! The commands that players type into the chat.

use vstd::prelude::*;
use vstd::string::StringExecFns;
use crate::console::joined;
use crate::text::{chars_of, is_text, split_words, string_of, texts, words};

verus! {

/// The permission level of a player; none by default.
#[derive(Clone, Copy, Debug, PartialEq, Eq, Structural)]
pub struct OpLevel(pub u8);

impl Default for OpLevel {
    fn default() -> (r: Self)
        ensures
            r == OpLevel(0),
    {
        OpLevel(0)
    }
}

#[derive(Clone, Copy, Debug, PartialEq, Eq, Structural)]
pub enum GameMode {
    Survival,
    Creative,
    Adventure,
    Spectator,
}

impl GameMode {
    pub open spec fn spec_name(self) -> Seq<char> {
        match self {
            GameMode::Survival => "Survival"@,
            GameMode::Creative => "Creative"@,
            GameMode::Adventure => "Adventure"@,
            GameMode::Spectator => "Spectator"@,
        }
    }

    pub fn name(self) -> (r: &'static str)
        ensures
            r@ == self.spec_name(),
    {
        match self {
            GameMode::Survival => "Survival",
            GameMode::Creative => "Creative",
            GameMode::Adventure => "Adventure",
            GameMode::Spectator => "Spectator",
        }
    }
}

/// How a reply is shown.
#[derive(Clone, Copy, Debug, PartialEq, Eq, Structural)]
pub enum ReplyStyle {
    Plain,
    Italic,
    Gold,
    Green,
    Red,
}

/// The answer to a command: a message, and the game mode that it sets, if any.
#[derive(Debug)]
pub struct CommandReply {
    pub game_mode: Option<GameMode>,
    pub message: String,
    pub style: ReplyStyle,
}

/// An answer with its message as text.
#[verifier::ext_equal]
pub struct ReplyText {
    pub game_mode: Option<GameMode>,
    pub message: Seq<char>,
    pub style: ReplyStyle,
}

impl View for CommandReply {
    type V = ReplyText;

    open spec fn view(&self) -> ReplyText {
        ReplyText { game_mode: self.game_mode, message: self.message@, style: self.style }
    }
}

/// The game mode that a word asks for; creative where there is none, or an
/// unknown one.
pub open spec fn mode_asked(word: Option<Seq<char>>) -> GameMode {
    match word {
        None => GameMode::Creative,
        Some(w) => if w == "0"@ || w == "survival"@ || w == "s"@ {
            GameMode::Survival
        } else if w == "2"@ || w == "adventure"@ || w == "a"@ {
            GameMode::Adventure
        } else if w == "3"@ || w == "spectator"@ || w == "sp"@ {
            GameMode::Spectator
        } else {
            GameMode::Creative
        },
    }
}

fn asked_mode(w: &[char]) -> (r: GameMode)
    ensures
        r == mode_asked(Some(w@)),
{
    if is_text(w, "0") || is_text(w, "survival") || is_text(w, "s") {
        GameMode::Survival
    } else if is_text(w, "2") || is_text(w, "adventure") || is_text(w, "a") {
        GameMode::Adventure
    } else if is_text(w, "3") || is_text(w, "spectator") || is_text(w, "sp") {
        GameMode::Spectator
    } else {
        GameMode::Creative
    }
}

/// The level that changing the game mode takes.
pub const GAMEMODE_LEVEL: u8 = 2;

/// The answer to a command of the given words.
pub open spec fn reply_to(ws: Seq<Seq<char>>, level: u8) -> ReplyText {
    let name = if ws.len() > 0 {
        ws[0]
    } else {
        Seq::empty()
    };
    if name == "help"@ {
        ReplyText {
            game_mode: None,
            message: "Kraken Commands: /help, /gm, /say"@,
            style: ReplyStyle::Italic,
        }
    } else if name == "gm"@ || name == "gamemode"@ {
        if level >= GAMEMODE_LEVEL {
            let mode = mode_asked(
                if ws.len() > 1 {
                    Some(ws[1])
                } else {
                    None
                },
            );
            ReplyText {
                game_mode: Some(mode),
                message: "Gamemode set to "@ + mode.spec_name(),
                style: ReplyStyle::Plain,
            }
        } else {
            ReplyText {
                game_mode: None,
                message: "You do not have permission (Level 2 required)."@,
                style: ReplyStyle::Red,
            }
        }
    } else if name == "say"@ {
        ReplyText {
            game_mode: None,
            message: "[Server] "@ + joined(ws.skip(1), " "@),
            style: ReplyStyle::Gold,
        }
    } else if name == "op"@ {
        ReplyText {
            game_mode: None,
            message: "You are now OP!"@,
            style: ReplyStyle::Green,
        }
    } else {
        ReplyText {
            game_mode: None,
            message: "Unknown command: /"@ + name,
            style: ReplyStyle::Red,
        }
    }
}

fn push_joined(out: &mut String, ws: &Vec<Vec<char>>, from: usize)
    requires
        from <= ws.len(),
    ensures
        final(out)@ == old(out)@ + joined(texts(ws@).skip(from as int), " "@),
{
    let ghost rest = texts(ws@).skip(from as int);
    let ghost head = old(out)@;
    let mut k: usize = from;
    assert(rest.take(0) =~= Seq::<Seq<char>>::empty());
    assert(out@ =~= head + joined(rest.take(0), " "@));
    while k < ws.len()
        invariant
            from <= k <= ws.len(),
            rest == texts(ws@).skip(from as int),
            out@ == head + joined(rest.take(k - from), " "@),
        decreases ws.len() - k,
    {
        if k > from {
            out.append(" ");
        }
        let word = string_of(ws[k].as_slice());
        out.append(word.as_str());
        proof {
            assert(rest.take(k + 1 - from).drop_last() =~= rest.take(k - from));
            assert(rest.take(k + 1 - from).last() == ws@[k as int]@);
            if k == from {
                assert(rest.take(0) =~= Seq::<Seq<char>>::empty());
            }
            assert(out@ =~= head + joined(rest.take(k + 1 - from), " "@));
        }
        k += 1;
    }
    assert(rest.take(k - from) =~= rest);
}

/// Answers a command from the chat of a player with the given level.
pub fn in_game_commands(command: &str, level: OpLevel) -> (r: CommandReply)
    ensures
        r@ == reply_to(words(command@), level.0),
{
    let ws = split_words(chars_of(command).as_slice());
    let ghost t = texts(ws@);
    let name: Vec<char> = if ws.len() > 0 {
        let mut copy: Vec<char> = Vec::new();
        copy.extend_from_slice(ws[0].as_slice());
        assert(copy@ =~= t[0]);
        copy
    } else {
        Vec::new()
    };
    assert(name@ =~= if t.len() > 0 {
        t[0]
    } else {
        Seq::empty()
    });
    let n = name.as_slice();
    if is_text(n, "help") {
        CommandReply {
            game_mode: None,
            message: "Kraken Commands: /help, /gm, /say".to_owned(),
            style: ReplyStyle::Italic,
        }
    } else if is_text(n, "gm") || is_text(n, "gamemode") {
        if level.0 >= GAMEMODE_LEVEL {
            let mode = if ws.len() > 1 {
                asked_mode(ws[1].as_slice())
            } else {
                GameMode::Creative
            };
            let mut message = "Gamemode set to ".to_owned();
            message.append(mode.name());
            CommandReply { game_mode: Some(mode), message, style: ReplyStyle::Plain }
        } else {
            CommandReply {
                game_mode: None,
                message: "You do not have permission (Level 2 required).".to_owned(),
                style: ReplyStyle::Red,
            }
        }
    } else if is_text(n, "say") {
        let mut message = "[Server] ".to_owned();
        proof {
            reveal_strlit("say");
        }
        push_joined(&mut message, &ws, 1);
        CommandReply { game_mode: None, message, style: ReplyStyle::Gold }
    } else if is_text(n, "op") {
        CommandReply {
            game_mode: None,
            message: "You are now OP!".to_owned(),
            style: ReplyStyle::Green,
        }
    } else {
        let mut message = "Unknown command: /".to_owned();
        let text = string_of(n);
        message.append(text.as_str());
        CommandReply { game_mode: None, message, style: ReplyStyle::Red }
    }
}

/// Below level 2 no command changes a game mode.
pub proof fn law_game_modes_need_permission(ws: Seq<Seq<char>>, level: u8)
    requires
        level < 2,
    ensures
        reply_to(ws, level).game_mode is None,
{
}

} // verus!
