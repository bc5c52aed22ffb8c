//! The commands that a language model may give, one to a line.
//!
//! ```text
//! SAY {closest|local|all} "<text>"
//! GOTO x y z
//! GOAL {add "<text>"|remove N}
//! MEMORY {add "<text>"|remove N}
//! BLOCK {place|destroy} x y z
//! FILL {place|destroy} x1 y1 z1 dx dy dz
//! ```
//!
//! A line that fits none of these says nothing.

use vstd::prelude::*;
use crate::geometry::WorldVoxelPos;
use crate::lexing::{
    i32_of,
    parse_i32,
    parse_usize,
    quoted_of,
    quoted_text,
    split_words,
    texts_view,
    usize_of,
    words_of,
};
use crate::text::spells;

verus! {

/// Who is to hear what an agent says.
#[derive(Clone, Copy, PartialEq, Eq, Structural, Debug)]
pub enum SayMode {
    /// The agent that stands closest.
    Closest,
    /// Every agent within earshot.
    Local,
    /// Every agent.
    All,
}

/// Whether a voxel is put or taken away.
#[derive(Clone, Copy, PartialEq, Eq, Structural, Debug)]
pub enum BlockChange {
    Place,
    Destroy,
}

/// One command.
pub enum Command {
    Say(SayMode, Vec<char>),
    Goto(WorldVoxelPos),
    GoalAdd(Vec<char>),
    /// Place in the list of goals, counted from zero.
    GoalRemove(usize),
    MemoryAdd(Vec<char>),
    /// Place in the list of memories, counted from zero.
    MemoryRemove(usize),
    Block(BlockChange, WorldVoxelPos),
    /// The corner of a box and its size along each axis.
    Fill(BlockChange, WorldVoxelPos, WorldVoxelPos),
}

/// A `Command`, as plain values.
pub enum CommandView {
    Say(SayMode, Seq<char>),
    Goto(WorldVoxelPos),
    GoalAdd(Seq<char>),
    GoalRemove(usize),
    MemoryAdd(Seq<char>),
    MemoryRemove(usize),
    Block(BlockChange, WorldVoxelPos),
    Fill(BlockChange, WorldVoxelPos, WorldVoxelPos),
}

impl View for Command {
    type V = CommandView;

    open spec fn view(&self) -> CommandView {
        match self {
            Command::Say(mode, text) => CommandView::Say(*mode, text@),
            Command::Goto(target) => CommandView::Goto(*target),
            Command::GoalAdd(text) => CommandView::GoalAdd(text@),
            Command::GoalRemove(place) => CommandView::GoalRemove(*place),
            Command::MemoryAdd(text) => CommandView::MemoryAdd(text@),
            Command::MemoryRemove(place) => CommandView::MemoryRemove(*place),
            Command::Block(change, at) => CommandView::Block(*change, *at),
            Command::Fill(change, from, size) => CommandView::Fill(*change, *from, *size),
        }
    }
}

/// The mode that `word` names.
pub open spec fn say_mode_of(word: Seq<char>) -> Option<SayMode> {
    if word == "closest"@ {
        Some(SayMode::Closest)
    } else if word == "local"@ {
        Some(SayMode::Local)
    } else if word == "all"@ {
        Some(SayMode::All)
    } else {
        None
    }
}

/// The change that `word` names.
pub open spec fn block_change_of(word: Seq<char>) -> Option<BlockChange> {
    if word == "place"@ {
        Some(BlockChange::Place)
    } else if word == "destroy"@ {
        Some(BlockChange::Destroy)
    } else {
        None
    }
}

/// The voxel address that three words from `from` on spell.
pub open spec fn address_of(words: Seq<Seq<char>>, from: int) -> Option<WorldVoxelPos> {
    match (i32_of(words[from]), i32_of(words[from + 1]), i32_of(words[from + 2])) {
        (Some(x), Some(y), Some(z)) => Some(WorldVoxelPos { x, y, z }),
        _ => None,
    }
}

/// The place, counted from zero, that the number `word` names in a list
/// counted from one.
pub open spec fn place_of(word: Seq<char>) -> Option<usize> {
    match usize_of(word) {
        Some(number) => if number >= 1 {
            Some((number - 1) as usize)
        } else {
            None
        },
        None => None,
    }
}

/// The command that a line with the words `words` and the quoted text
/// `quoted` gives. A command has three words at least.
pub open spec fn command_from(words: Seq<Seq<char>>, quoted: Option<Seq<char>>) -> Option<
    CommandView,
> {
    if words.len() < 3 {
        None
    } else if words[0] == "SAY"@ {
        match (say_mode_of(words[1]), quoted) {
            (Some(mode), Some(text)) => Some(CommandView::Say(mode, text)),
            _ => None,
        }
    } else if words[0] == "GOTO"@ {
        if words.len() == 4 {
            match address_of(words, 1) {
                Some(target) => Some(CommandView::Goto(target)),
                None => None,
            }
        } else {
            None
        }
    } else if words[0] == "GOAL"@ {
        if words[1] == "add"@ {
            match quoted {
                Some(text) => Some(CommandView::GoalAdd(text)),
                None => None,
            }
        } else if words[1] == "remove"@ {
            match place_of(words[2]) {
                Some(place) => Some(CommandView::GoalRemove(place)),
                None => None,
            }
        } else {
            None
        }
    } else if words[0] == "MEMORY"@ {
        if words[1] == "add"@ {
            match quoted {
                Some(text) => Some(CommandView::MemoryAdd(text)),
                None => None,
            }
        } else if words[1] == "remove"@ {
            match place_of(words[2]) {
                Some(place) => Some(CommandView::MemoryRemove(place)),
                None => None,
            }
        } else {
            None
        }
    } else if words[0] == "BLOCK"@ {
        if words.len() == 5 {
            match (block_change_of(words[1]), address_of(words, 2)) {
                (Some(change), Some(at)) => Some(CommandView::Block(change, at)),
                _ => None,
            }
        } else {
            None
        }
    } else if words[0] == "FILL"@ {
        if words.len() == 8 {
            match (block_change_of(words[1]), address_of(words, 2), address_of(words, 5)) {
                (Some(change), Some(from), Some(size)) => Some(
                    CommandView::Fill(change, from, size),
                ),
                _ => None,
            }
        } else {
            None
        }
    } else {
        None
    }
}

/// The command that `line` gives.
pub open spec fn command_of(line: Seq<char>) -> Option<CommandView> {
    command_from(words_of(line), quoted_of(line))
}

/// An optional command, as plain values.
pub open spec fn command_view(command: Option<Command>) -> Option<CommandView> {
    match command {
        Some(c) => Some(c@),
        None => None,
    }
}

fn say_mode(word: &Vec<char>) -> (mode: Option<SayMode>)
    ensures
        mode == say_mode_of(word@),
{
    if spells(word, "closest") {
        Some(SayMode::Closest)
    } else if spells(word, "local") {
        Some(SayMode::Local)
    } else if spells(word, "all") {
        Some(SayMode::All)
    } else {
        None
    }
}

fn block_change(word: &Vec<char>) -> (change: Option<BlockChange>)
    ensures
        change == block_change_of(word@),
{
    if spells(word, "place") {
        Some(BlockChange::Place)
    } else if spells(word, "destroy") {
        Some(BlockChange::Destroy)
    } else {
        None
    }
}

fn address(words: &Vec<Vec<char>>, from: usize) -> (at: Option<WorldVoxelPos>)
    requires
        from + 2 < words.len(),
    ensures
        at == address_of(texts_view(words@), from as int),
{
    match (parse_i32(&words[from]), parse_i32(&words[from + 1]), parse_i32(&words[from + 2])) {
        (Some(x), Some(y), Some(z)) => Some(WorldVoxelPos { x, y, z }),
        _ => None,
    }
}

fn place(word: &Vec<char>) -> (place: Option<usize>)
    ensures
        place == place_of(word@),
{
    match parse_usize(word) {
        Some(number) => if number >= 1 {
            Some(number - 1)
        } else {
            None
        },
        None => None,
    }
}

/// The command that `line` gives, if it gives one.
pub fn parse_line(line: &Vec<char>) -> (command: Option<Command>)
    ensures
        command_view(command) == command_of(line@),
{
    let words = split_words(line);
    let ghost texts = texts_view(words@);
    if words.len() < 3 {
        return None;
    }
    assert(texts[0] == words[0]@ && texts[1] == words[1]@ && texts[2] == words[2]@);
    if spells(&words[0], "SAY") {
        match (say_mode(&words[1]), quoted_text(line)) {
            (Some(mode), Some(text)) => Some(Command::Say(mode, text)),
            _ => None,
        }
    } else if spells(&words[0], "GOTO") {
        if words.len() == 4 {
            match address(&words, 1) {
                Some(target) => Some(Command::Goto(target)),
                None => None,
            }
        } else {
            None
        }
    } else if spells(&words[0], "GOAL") {
        if spells(&words[1], "add") {
            match quoted_text(line) {
                Some(text) => Some(Command::GoalAdd(text)),
                None => None,
            }
        } else if spells(&words[1], "remove") {
            match place(&words[2]) {
                Some(place) => Some(Command::GoalRemove(place)),
                None => None,
            }
        } else {
            None
        }
    } else if spells(&words[0], "MEMORY") {
        if spells(&words[1], "add") {
            match quoted_text(line) {
                Some(text) => Some(Command::MemoryAdd(text)),
                None => None,
            }
        } else if spells(&words[1], "remove") {
            match place(&words[2]) {
                Some(place) => Some(Command::MemoryRemove(place)),
                None => None,
            }
        } else {
            None
        }
    } else if spells(&words[0], "BLOCK") {
        if words.len() == 5 {
            match (block_change(&words[1]), address(&words, 2)) {
                (Some(change), Some(at)) => Some(Command::Block(change, at)),
                _ => None,
            }
        } else {
            None
        }
    } else if spells(&words[0], "FILL") {
        if words.len() == 8 {
            match (block_change(&words[1]), address(&words, 2), address(&words, 5)) {
                (Some(change), Some(from), Some(size)) => Some(Command::Fill(change, from, size)),
                _ => None,
            }
        } else {
            None
        }
    } else {
        None
    }
}

} // verus!
