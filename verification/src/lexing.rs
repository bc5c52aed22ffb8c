//! Cutting the text of an answer into lines, words, quoted text and numbers.

use vstd::prelude::*;

verus! {

/// White space, as Unicode lists it.
pub open spec fn is_space(c: char) -> bool {
    let code = c as u32;
    code == 0x20 || (0x9 <= code <= 0xd) || code == 0x85 || code == 0xa0 || code == 0x1680 || (
    0x2000 <= code <= 0x200a) || code == 0x2028 || code == 0x2029 || code == 0x202f || code
        == 0x205f || code == 0x3000
}

/// Whether `c` is white space.
pub fn is_space_char(c: char) -> (space: bool)
    ensures
        space == is_space(c),
{
    let code: u32 = c as u32;
    code == 0x20 || (0x9 <= code && code <= 0xd) || code == 0x85 || code == 0xa0 || code == 0x1680
        || (0x2000 <= code && code <= 0x200a) || code == 0x2028 || code == 0x2029 || code
        == 0x202f || code == 0x205f || code == 0x3000
}

/// A line without the carriage return that may close it.
pub open spec fn without_return(line: Seq<char>) -> Seq<char> {
    if line.len() > 0 && line.last() == '\r' {
        line.drop_last()
    } else {
        line
    }
}

/// The lines of `text` from the character `i` on, where `current` holds
/// what has been read of the line that `i` stands in. A line ends at a line
/// feed; the carriage return before the line feed is no part of it. What
/// follows the last line feed is a line if it holds anything.
pub open spec fn lines_from(text: Seq<char>, i: int, current: Seq<char>) -> Seq<Seq<char>>
    decreases text.len() - i,
{
    if i < 0 || i >= text.len() {
        if current.len() > 0 {
            seq![current]
        } else {
            Seq::empty()
        }
    } else if text[i] == '\n' {
        seq![without_return(current)] + lines_from(text, i + 1, Seq::empty())
    } else {
        lines_from(text, i + 1, current.push(text[i]))
    }
}

/// The lines of `text`.
pub open spec fn lines_of(text: Seq<char>) -> Seq<Seq<char>> {
    lines_from(text, 0, Seq::empty())
}

/// The words of `line` from the character `i` on, where `current` holds
/// what has been read of the word that `i` stands in. Words are what white
/// space parts.
pub open spec fn words_from(line: Seq<char>, i: int, current: Seq<char>) -> Seq<Seq<char>>
    decreases line.len() - i,
{
    if i < 0 || i >= line.len() {
        if current.len() > 0 {
            seq![current]
        } else {
            Seq::empty()
        }
    } else if is_space(line[i]) {
        if current.len() > 0 {
            seq![current] + words_from(line, i + 1, Seq::empty())
        } else {
            words_from(line, i + 1, Seq::empty())
        }
    } else {
        words_from(line, i + 1, current.push(line[i]))
    }
}

/// The words of `line`.
pub open spec fn words_of(line: Seq<char>) -> Seq<Seq<char>> {
    words_from(line, 0, Seq::empty())
}

/// Place of the first `c` in `s` from `from` on; the length of `s` where
/// there is none.
pub open spec fn find_char(s: Seq<char>, c: char, from: int) -> int
    decreases s.len() - from,
{
    if from < 0 || from >= s.len() {
        s.len() as int
    } else if s[from] == c {
        from
    } else {
        find_char(s, c, from + 1)
    }
}

/// What stands between the first double quote of `line` and the next one,
/// or the end of the line; `None` where the line has no double quote.
pub open spec fn quoted_of(line: Seq<char>) -> Option<Seq<char>> {
    let open = find_char(line, '"', 0);
    if open >= line.len() {
        None
    } else {
        Some(line.subrange(open + 1, find_char(line, '"', open + 1)))
    }
}

/// A list of texts, as plain values.
pub open spec fn texts_view(texts: Seq<Vec<char>>) -> Seq<Seq<char>> {
    texts.map_values(|text: Vec<char>| text@)
}

/// Moves what `current` holds to the end of `out`.
fn flush(out: &mut Vec<Vec<char>>, current: &mut Vec<char>)
    ensures
        texts_view(final(out)@) == texts_view(old(out)@).push(old(current)@),
        final(current)@ == Seq::<char>::empty(),
{
    let mut taken: Vec<char> = Vec::new();
    std::mem::swap(&mut taken, current);
    out.push(taken);
    assert(texts_view(out@) =~= texts_view(old(out)@).push(old(current)@));
}

/// The lines of `text`.
pub fn split_lines(text: &Vec<char>) -> (lines: Vec<Vec<char>>)
    ensures
        texts_view(lines@) == lines_of(text@),
{
    let mut lines: Vec<Vec<char>> = Vec::new();
    let mut current: Vec<char> = Vec::new();
    let mut i: usize = 0;
    assert(texts_view(lines@) =~= Seq::empty());
    while i < text.len()
        invariant
            i <= text.len(),
            texts_view(lines@) + lines_from(text@, i as int, current@) == lines_of(text@),
        decreases text.len() - i,
    {
        let c = text[i];
        if c == '\n' {
            if current.len() > 0 && current[current.len() - 1] == '\r' {
                current.pop();
            }
            let ghost before = texts_view(lines@);
            let ghost line = current@;
            flush(&mut lines, &mut current);
            assert(before.push(line) + lines_from(text@, i + 1, Seq::empty()) =~= before + (
            seq![line] + lines_from(text@, i + 1, Seq::empty())));
        } else {
            current.push(c);
        }
        i += 1;
    }
    if current.len() > 0 {
        let ghost before = texts_view(lines@);
        let ghost line = current@;
        flush(&mut lines, &mut current);
        assert(before.push(line) =~= before + seq![line]);
    } else {
        assert(texts_view(lines@) + Seq::<Seq<char>>::empty() =~= texts_view(lines@));
    }
    lines
}

/// The words of `line`.
pub fn split_words(line: &Vec<char>) -> (words: Vec<Vec<char>>)
    ensures
        texts_view(words@) == words_of(line@),
{
    let mut words: Vec<Vec<char>> = Vec::new();
    let mut current: Vec<char> = Vec::new();
    let mut i: usize = 0;
    assert(texts_view(words@) =~= Seq::empty());
    while i < line.len()
        invariant
            i <= line.len(),
            texts_view(words@) + words_from(line@, i as int, current@) == words_of(line@),
        decreases line.len() - i,
    {
        let c = line[i];
        if is_space_char(c) {
            if current.len() > 0 {
                let ghost before = texts_view(words@);
                let ghost word = current@;
                flush(&mut words, &mut current);
                assert(before.push(word) + words_from(line@, i + 1, Seq::empty()) =~= before + (
                seq![word] + words_from(line@, i + 1, Seq::empty())));
            } else {
                assert(current@ =~= Seq::empty());
            }
        } else {
            current.push(c);
        }
        i += 1;
    }
    if current.len() > 0 {
        let ghost before = texts_view(words@);
        let ghost word = current@;
        flush(&mut words, &mut current);
        assert(before.push(word) =~= before + seq![word]);
    } else {
        assert(texts_view(words@) + Seq::<Seq<char>>::empty() =~= texts_view(words@));
    }
    words
}

/// Place of the first `c` in `s` from `from` on.
fn find_char_in(s: &Vec<char>, c: char, from: usize) -> (place: usize)
    requires
        from <= s.len(),
    ensures
        place == find_char(s@, c, from as int),
        from <= place <= s.len(),
{
    let mut i: usize = from;
    while i < s.len()
        invariant
            from <= i <= s.len(),
            find_char(s@, c, from as int) == find_char(s@, c, i as int),
        decreases s.len() - i,
    {
        if s[i] == c {
            return i;
        }
        i += 1;
    }
    i
}

/// What stands between the first double quote of `line` and the next one.
pub fn quoted_text(line: &Vec<char>) -> (quoted: Option<Vec<char>>)
    ensures
        match quoted {
            Some(text) => quoted_of(line@) == Some(text@),
            None => quoted_of(line@) is None,
        },
{
    let open = find_char_in(line, '"', 0);
    if open >= line.len() {
        None
    } else {
        let close = find_char_in(line, '"', open + 1);
        let mut text: Vec<char> = Vec::new();
        let mut i: usize = open + 1;
        while i < close
            invariant
                open + 1 <= i <= close <= line.len(),
                text@ == line@.subrange(open + 1, i as int),
            decreases close - i,
        {
            text.push(line[i]);
            assert(line@.subrange(open + 1, i + 1) =~= line@.subrange(open + 1, i as int).push(
                line[i as int],
            ));
            i += 1;
        }
        Some(text)
    }
}

/// The value of the digit `c`; `None` for any other character.
pub open spec fn digit_value(c: char) -> Option<int> {
    let code = c as u32;
    if 0x30 <= code <= 0x39 {
        Some(code - 0x30)
    } else {
        None
    }
}

/// The number that the first `k` characters of `s` spell in decimal digits;
/// `None` where one of them is no digit.
pub open spec fn digits_value(s: Seq<char>, k: int) -> Option<int>
    decreases k,
{
    if k <= 0 {
        Some(0)
    } else {
        match (digits_value(s, k - 1), digit_value(s[k - 1])) {
            (Some(value), Some(digit)) => Some(value * 10 + digit),
            _ => None,
        }
    }
}

/// The whole number that `word` spells: decimal digits, at least one, with
/// a plus or a minus sign before them or none.
pub open spec fn number_of(word: Seq<char>) -> Option<int> {
    if word.len() == 0 {
        None
    } else if word[0] == '-' || word[0] == '+' {
        let digits = word.subrange(1, word.len() as int);
        if digits.len() == 0 {
            None
        } else {
            match digits_value(digits, digits.len() as int) {
                Some(value) => if word[0] == '-' {
                    Some(-value)
                } else {
                    Some(value)
                },
                None => None,
            }
        }
    } else {
        digits_value(word, word.len() as int)
    }
}

/// The 32-bit number that `word` spells; `None` where it spells none or
/// one out of range.
pub open spec fn i32_of(word: Seq<char>) -> Option<i32> {
    match number_of(word) {
        Some(value) => if i32::MIN <= value <= i32::MAX {
            Some(value as i32)
        } else {
            None
        },
        None => None,
    }
}

/// The count that `word` spells; `None` where it spells none, carries a
/// minus sign, or is out of range.
pub open spec fn usize_of(word: Seq<char>) -> Option<usize> {
    match number_of(word) {
        Some(value) => if word[0] != '-' && value <= usize::MAX {
            Some(value as usize)
        } else {
            None
        },
        None => None,
    }
}

/// No prefix of digits spells more than the whole does.
proof fn lemma_digits_grow(s: Seq<char>, j: int, k: int)
    requires
        0 <= j <= k,
        digits_value(s, k) is Some,
    ensures
        digits_value(s, j) is Some,
        0 <= digits_value(s, j)->0 <= digits_value(s, k)->0,
    decreases k - j,
{
    if j < k {
        lemma_digits_grow(s, j, k - 1);
    } else {
        lemma_digits_nonnegative(s, k);
    }
}

proof fn lemma_digits_nonnegative(s: Seq<char>, k: int)
    requires
        digits_value(s, k) is Some,
    ensures
        digits_value(s, k)->0 >= 0,
    decreases k,
{
    if k > 0 {
        lemma_digits_nonnegative(s, k - 1);
    }
}

/// The number that the characters of `word` from `from` on spell in digits,
/// as far as it stays at or below `limit`.
fn parse_digits(word: &Vec<char>, from: usize, limit: u128) -> (value: Option<u128>)
    requires
        from <= word.len(),
        limit <= 0xffff_ffff_ffff_ffff,
    ensures
        match value {
            Some(v) => digits_value(
                word@.subrange(from as int, word.len() as int),
                word.len() - from,
            ) == Some(v as int) && v <= limit,
            None => match digits_value(
                word@.subrange(from as int, word.len() as int),
                word.len() - from,
            ) {
                Some(v) => v > limit,
                None => true,
            },
        },
{
    let ghost digits = word@.subrange(from as int, word.len() as int);
    let mut value: u128 = 0;
    let mut i: usize = from;
    while i < word.len()
        invariant
            from <= i <= word.len(),
            digits == word@.subrange(from as int, word.len() as int),
            digits_value(digits, i - from) == Some(value as int),
            value <= limit <= 0xffff_ffff_ffff_ffff,
        decreases word.len() - i,
    {
        let code: u32 = word[i] as u32;
        assert(digits[i - from] == word[i as int]);
        if code < 0x30 || code > 0x39 {
            proof {
                if digits_value(digits, word.len() - from) is Some {
                    lemma_digits_grow(digits, i - from + 1, word.len() - from);
                }
            }
            return None;
        }
        let next: u128 = value * 10 + (code - 0x30) as u128;
        assert(digits_value(digits, i - from + 1) == Some(next as int));
        if next > limit {
            proof {
                if digits_value(digits, word.len() - from) is Some {
                    lemma_digits_grow(digits, i - from + 1, word.len() - from);
                }
            }
            return None;
        }
        value = next;
        i += 1;
    }
    Some(value)
}

/// The 32-bit number that `word` spells.
pub fn parse_i32(word: &Vec<char>) -> (value: Option<i32>)
    ensures
        value == i32_of(word@),
{
    if word.len() == 0 {
        return None;
    }
    let signed: bool = word[0] == '-' || word[0] == '+';
    let from: usize = if signed {
        1
    } else {
        0
    };
    if from == word.len() {
        return None;
    }
    assert(word@.subrange(0, word.len() as int) =~= word@);
    match parse_digits(word, from, 0x8000_0000) {
        Some(magnitude) => {
            if word[0] == '-' {
                Some((-(magnitude as i64)) as i32)
            } else if magnitude > 0x7fff_ffff {
                None
            } else {
                Some(magnitude as i32)
            }
        },
        None => None,
    }
}

/// The count that `word` spells.
pub fn parse_usize(word: &Vec<char>) -> (value: Option<usize>)
    ensures
        value == usize_of(word@),
{
    if word.len() == 0 {
        return None;
    }
    if word[0] == '-' {
        return None;
    }
    let from: usize = if word[0] == '+' {
        1
    } else {
        0
    };
    if from == word.len() {
        return None;
    }
    assert(word@.subrange(0, word.len() as int) =~= word@);
    match parse_digits(word, from, usize::MAX as u128) {
        Some(value) => Some(value as usize),
        None => None,
    }
}

} // verus!
