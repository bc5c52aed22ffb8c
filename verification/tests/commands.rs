use voxel_agents::commands::{parse_line, BlockChange, Command, SayMode};
use voxel_agents::geometry::WorldVoxelPos;
use voxel_agents::lexing::{
    is_space_char, parse_i32, parse_usize, quoted_text, split_lines, split_words,
};
use voxel_agents::text::{chars_of, decimal_string, spells, string_of};

fn chars(text: &str) -> Vec<char> {
    text.chars().collect()
}

fn strings(parts: Vec<Vec<char>>) -> Vec<String> {
    parts.into_iter().map(|part| part.into_iter().collect()).collect()
}

fn parse(line: &str) -> Option<Command> {
    parse_line(&chars(line))
}

fn text_of(text: &Vec<char>) -> String {
    text.iter().collect()
}

#[test]
fn strings_and_their_characters() {
    assert_eq!(chars_of("a\u{b5}\u{1F600}z"), vec!['a', '\u{b5}', '\u{1F600}', 'z']);
    assert_eq!(chars_of(""), Vec::<char>::new());
    assert_eq!(string_of(&vec!['G', 'O', '\u{e9}']), "GO\u{e9}");
    assert!(spells(&chars("GOTO"), "GOTO"));
    assert!(!spells(&chars("GOTO"), "GOT"));
    assert!(!spells(&chars("GOT"), "GOTO"));
    assert!(!spells(&chars("goto"), "GOTO"));
}

#[test]
fn numbers_in_decimal() {
    assert_eq!(decimal_string(0), "0");
    assert_eq!(decimal_string(7), "7");
    assert_eq!(decimal_string(10), "10");
    assert_eq!(decimal_string(-2), "-2");
    assert_eq!(decimal_string(15000), "15000");
    assert_eq!(decimal_string(i64::MAX), "9223372036854775807");
    assert_eq!(decimal_string(i64::MIN), "-9223372036854775808");
}

#[test]
fn lines_end_at_line_feeds() {
    assert_eq!(strings(split_lines(&chars("a\nb"))), vec!["a", "b"]);
    assert_eq!(strings(split_lines(&chars("a\nb\n"))), vec!["a", "b"]);
    assert_eq!(strings(split_lines(&chars("a\r\nb\r\n"))), vec!["a", "b"]);
    assert_eq!(strings(split_lines(&chars("a\n\nb"))), vec!["a", "", "b"]);
    assert_eq!(strings(split_lines(&chars("\n"))), vec![""]);
    assert_eq!(strings(split_lines(&chars(""))), Vec::<String>::new());
    // A carriage return is only taken off before a line feed.
    assert_eq!(strings(split_lines(&chars("a\rb\r"))), vec!["a\rb\r"]);
    assert_eq!(strings(split_lines(&chars("a\r\r\n"))), vec!["a\r"]);
    for text in ["x\ny\r\nz", "\n\n", "one line", "tail\n", "\r\n\r\n", "a\r"] {
        let ours = strings(split_lines(&chars(text)));
        let theirs: Vec<String> = text.lines().map(String::from).collect();
        assert_eq!(ours, theirs);
    }
}

#[test]
fn words_are_what_white_space_parts() {
    assert_eq!(strings(split_words(&chars("GOTO 5 -2 10"))), vec!["GOTO", "5", "-2", "10"]);
    assert_eq!(strings(split_words(&chars("  a \t b\u{a0}c\u{3000} "))), vec!["a", "b", "c"]);
    assert_eq!(strings(split_words(&chars(" \t "))), Vec::<String>::new());
    assert_eq!(strings(split_words(&chars(""))), Vec::<String>::new());
    for code in 0..0x3100u32 {
        if let Some(c) = char::from_u32(code) {
            assert_eq!(is_space_char(c), c.is_whitespace());
        }
    }
}

#[test]
fn quoted_text_stands_between_the_first_two_quotes() {
    let quoted = |line: &str| quoted_text(&chars(line)).map(|text| text_of(&text));
    assert_eq!(quoted("SAY all \"hello there\""), Some(String::from("hello there")));
    assert_eq!(quoted("a \"b\" c \"d\""), Some(String::from("b")));
    assert_eq!(quoted("a \"open to the end"), Some(String::from("open to the end")));
    assert_eq!(quoted("\"\""), Some(String::new()));
    assert_eq!(quoted("\""), Some(String::new()));
    assert_eq!(quoted("no quote"), None);
    assert_eq!(quoted(""), None);
}

#[test]
fn whole_numbers() {
    let number = |word: &str| parse_i32(&chars(word));
    assert_eq!(number("0"), Some(0));
    assert_eq!(number("5"), Some(5));
    assert_eq!(number("-2"), Some(-2));
    assert_eq!(number("+17"), Some(17));
    assert_eq!(number("-0"), Some(0));
    assert_eq!(number("007"), Some(7));
    assert_eq!(number("2147483647"), Some(i32::MAX));
    assert_eq!(number("-2147483648"), Some(i32::MIN));
    assert_eq!(number("2147483648"), None);
    assert_eq!(number("-2147483649"), None);
    assert_eq!(number("99999999999999999999999999"), None);
    for bad in ["", "-", "+", "1a", "a1", "1.5", " 1", "1 ", "--1", "+-1", "0x10", "\u{661}"] {
        assert_eq!(number(bad), None);
    }
    for word in ["12", "-12", "+12", "", "-", "4294967296", "1e3", "０"] {
        assert_eq!(number(word), word.parse::<i32>().ok());
    }
}

#[test]
fn counts_carry_no_minus_sign() {
    let count = |word: &str| parse_usize(&chars(word));
    assert_eq!(count("0"), Some(0));
    assert_eq!(count("+3"), Some(3));
    assert_eq!(count("18446744073709551615"), Some(usize::MAX));
    assert_eq!(count("18446744073709551616"), None);
    assert_eq!(count("-1"), None);
    assert_eq!(count("-0"), None);
    assert_eq!(count(""), None);
    assert_eq!(count("+"), None);
    assert_eq!(count("3rd"), None);
}

#[test]
fn say() {
    match parse("SAY closest \"come here\"") {
        Some(Command::Say(SayMode::Closest, text)) => assert_eq!(text_of(&text), "come here"),
        _ => panic!("expected speech"),
    }
    match parse("  SAY   local   \"hi\"  ") {
        Some(Command::Say(SayMode::Local, text)) => assert_eq!(text_of(&text), "hi"),
        _ => panic!("expected speech"),
    }
    match parse("SAY all \"to everyone\" and more") {
        Some(Command::Say(SayMode::All, text)) => assert_eq!(text_of(&text), "to everyone"),
        _ => panic!("expected speech"),
    }
    assert!(parse("SAY loud \"hi\"").is_none());
    assert!(parse("SAY all hello there").is_none());
    assert!(parse("SAY all").is_none());
    assert!(parse("say all \"hi\"").is_none());
}

#[test]
fn goto() {
    assert!(matches!(parse("GOTO 5 -2 10"), Some(Command::Goto(WorldVoxelPos { x: 5, y: -2, z: 10 }))));
    assert!(matches!(parse("GOTO +5 0 -0"), Some(Command::Goto(WorldVoxelPos { x: 5, y: 0, z: 0 }))));
    assert!(parse("GOTO 5 -2").is_none());
    assert!(parse("GOTO 5 -2 10 1").is_none());
    assert!(parse("GOTO 5 two 10").is_none());
    assert!(parse("GOTO 5 -2 2147483648").is_none());
    assert!(parse("GOTO 5.0 -2 10").is_none());
}

#[test]
fn goals_and_memories() {
    match parse("GOAL add \"find the key\"") {
        Some(Command::GoalAdd(text)) => assert_eq!(text_of(&text), "find the key"),
        _ => panic!("expected a goal"),
    }
    match parse("MEMORY add \"the door is locked\"") {
        Some(Command::MemoryAdd(text)) => assert_eq!(text_of(&text), "the door is locked"),
        _ => panic!("expected a memory"),
    }
    // Places in the lists are counted from one in the text, from zero inside.
    assert!(matches!(parse("GOAL remove 1"), Some(Command::GoalRemove(0))));
    assert!(matches!(parse("GOAL remove 12 please"), Some(Command::GoalRemove(11))));
    assert!(matches!(parse("MEMORY remove 3"), Some(Command::MemoryRemove(2))));
    assert!(parse("GOAL remove 0").is_none());
    assert!(parse("GOAL remove -1").is_none());
    assert!(parse("GOAL remove one").is_none());
    assert!(parse("GOAL add find the key").is_none());
    assert!(parse("GOAL drop 1").is_none());
    assert!(parse("GOAL remove").is_none());
    assert!(parse("MEMORY forget 1").is_none());
}

#[test]
fn blocks_and_boxes() {
    assert!(matches!(
        parse("BLOCK place 1 2 3"),
        Some(Command::Block(BlockChange::Place, WorldVoxelPos { x: 1, y: 2, z: 3 }))
    ));
    assert!(matches!(
        parse("BLOCK destroy -1 -2 -3"),
        Some(Command::Block(BlockChange::Destroy, WorldVoxelPos { x: -1, y: -2, z: -3 }))
    ));
    assert!(parse("BLOCK place 1 2").is_none());
    assert!(parse("BLOCK place 1 2 3 4").is_none());
    assert!(parse("BLOCK move 1 2 3").is_none());
    assert!(matches!(
        parse("FILL place 1 2 3 4 5 6"),
        Some(Command::Fill(
            BlockChange::Place,
            WorldVoxelPos { x: 1, y: 2, z: 3 },
            WorldVoxelPos { x: 4, y: 5, z: 6 }
        ))
    ));
    assert!(matches!(
        parse("FILL destroy 0 0 0 -1 2 2"),
        Some(Command::Fill(BlockChange::Destroy, _, WorldVoxelPos { x: -1, y: 2, z: 2 }))
    ));
    assert!(parse("FILL place 1 2 3 4 5").is_none());
    assert!(parse("FILL place 1 2 3 4 5 6 7").is_none());
    assert!(parse("FILL place 1 2 3 4 5 x").is_none());
}

#[test]
fn other_lines_say_nothing() {
    for line in ["", "   ", "GOTO", "JUMP 1 2 3", "I will go to 5 -2 10", "GOTO5 1 2 3", "# GOTO 1 2 3"] {
        assert!(parse(line).is_none());
    }
}
