//! Path data read back.
//!
//! The path data that this crate writes puts no separator between one command and
//! the next. This module says how such text is read, and proves that reading what
//! was written gives the commands that were written: no two sequences of
//! commands have the same path data.

use vstd::prelude::*;
use crate::decimal::{
    decimal_text, decimal_value, is_decimal_char, lemma_decimal_text_chars,
    lemma_decimal_text_reads_back,
};
use crate::glyph::{glyphs_commands, glyphs_text, GlyphView};
use crate::outline::{
    commands_text, lemma_command_begins_with_its_letter, lemma_commands_text_begins_with_a_letter,
    lemma_commands_text_concat, Command, Place,
};

verus! {

/// The length of the number that `s` begins with: how many characters there are
/// before the first that no number holds.
pub open spec fn number_len(s: Seq<char>) -> int
    decreases s.len(),
{
    if s.len() > 0 && is_decimal_char(s[0]) {
        1 + number_len(s.skip(1))
    } else {
        0
    }
}

/// The position that `s` begins with, and the length of its text: a number, one
/// character that separates, and a second number.
pub open spec fn read_place(s: Seq<char>) -> (Place, int) {
    let n = number_len(s);
    let rest = s.skip(n + 1);
    let m = number_len(rest);
    (Place { x: decimal_value(s.take(n)), y: decimal_value(rest.take(m)) }, n + 1 + m)
}

/// The command that `s` begins with, and the length of its text. The letter
/// says how many positions follow. Two characters stand between the letter and
/// the first position, and between one position and the next.
pub open spec fn read_command(s: Seq<char>) -> (Command, int) {
    if s[0] == 'M' {
        let (p, n) = read_place(s.skip(2));
        (Command::MoveTo(p), 2 + n)
    } else if s[0] == 'L' {
        let (p, n) = read_place(s.skip(2));
        (Command::LineTo(p), 2 + n)
    } else if s[0] == 'Q' {
        let (c, n) = read_place(s.skip(2));
        let (p, m) = read_place(s.skip(2 + n + 2));
        (Command::QuadTo(c, p), 2 + n + 2 + m)
    } else if s[0] == 'C' {
        let (c1, n) = read_place(s.skip(2));
        let (c2, m) = read_place(s.skip(2 + n + 2));
        let (p, k) = read_place(s.skip(2 + n + 2 + m + 2));
        (Command::CurveTo(c1, c2, p), 2 + n + 2 + m + 2 + k)
    } else {
        (Command::Close, 1)
    }
}

/// The commands that the path data `s` holds, one after the other.
pub open spec fn read_commands(s: Seq<char>) -> Seq<Command>
    decreases s.len(),
{
    if s.len() == 0 {
        Seq::empty()
    } else {
        let (command, n) = read_command(s);
        if 0 < n <= s.len() {
            seq![command] + read_commands(s.skip(n))
        } else {
            seq![command]
        }
    }
}

/// Whether `s` is at its end or goes on with a character that no number holds.
pub open spec fn ends_number(s: Seq<char>) -> bool {
    s.len() == 0 || !is_decimal_char(s[0])
}

/// A text made of the characters of numbers, followed by something that ends a
/// number, is read as one number of its length.
proof fn lemma_number_len(a: Seq<char>, t: Seq<char>)
    requires
        forall|i: int| 0 <= i < a.len() ==> is_decimal_char(a[i]),
        ends_number(t),
    ensures
        number_len(a + t) == a.len(),
    decreases a.len(),
{
    if a.len() == 0 {
        assert(a + t =~= t);
    } else {
        assert((a + t).skip(1) =~= a.skip(1) + t);
        lemma_number_len(a.skip(1), t);
    }
}

/// The text of a position, followed by something that ends a number, is read as
/// that position.
proof fn lemma_place_reads_back(p: Place, t: Seq<char>)
    requires
        ends_number(t),
    ensures
        read_place(p.text() + t) == (p, p.text().len() as int),
{
    let x = decimal_text(p.x);
    let y = decimal_text(p.y);
    let s = p.text() + t;
    lemma_decimal_text_chars(p.x);
    lemma_decimal_text_chars(p.y);
    lemma_decimal_text_reads_back(p.x);
    lemma_decimal_text_reads_back(p.y);
    assert(s =~= x + (seq![' '] + y + t));
    lemma_number_len(x, seq![' '] + y + t);
    assert(s.take(x.len() as int) =~= x);
    let rest = s.skip(x.len() as int + 1);
    assert(rest =~= y + t);
    lemma_number_len(y, t);
    assert(rest.take(y.len() as int) =~= y);
}

/// The text of a command with one position, followed by something that ends a
/// number, is read as its head and that position.
proof fn lemma_one_place_reads_back(head: Seq<char>, p: Place, t: Seq<char>)
    requires
        head.len() == 2,
        ends_number(t),
    ensures
        read_place((head + p.text() + t).skip(2)) == (p, p.text().len() as int),
{
    assert((head + p.text() + t).skip(2) =~= p.text() + t);
    lemma_place_reads_back(p, t);
}

/// The text of a command with two positions, followed by something that ends a
/// number, is read as its head and those positions.
proof fn lemma_two_places_read_back(head: Seq<char>, c: Place, p: Place, t: Seq<char>)
    requires
        head.len() == 2,
        ends_number(t),
    ensures
        ({
            let s = head + c.text() + seq![',', ' '] + p.text() + t;
            let n = c.text().len() as int;
            &&& read_place(s.skip(2)) == (c, n)
            &&& read_place(s.skip(2 + n + 2)) == (p, p.text().len() as int)
        }),
{
    let comma = seq![',', ' '];
    let s = head + c.text() + comma + p.text() + t;
    let n = c.text().len() as int;
    let tail = comma + p.text() + t;
    assert(tail[0] == ',');
    assert(s.skip(2) =~= c.text() + tail);
    lemma_place_reads_back(c, tail);
    assert(s.skip(2 + n + 2) =~= p.text() + t);
    lemma_place_reads_back(p, t);
}

/// The text of a command with three positions, followed by something that ends a
/// number, is read as its head and those positions.
proof fn lemma_three_places_read_back(
    head: Seq<char>,
    c1: Place,
    c2: Place,
    p: Place,
    t: Seq<char>,
)
    requires
        head.len() == 2,
        ends_number(t),
    ensures
        ({
            let comma = seq![',', ' '];
            let s = head + c1.text() + comma + c2.text() + comma + p.text() + t;
            let n = c1.text().len() as int;
            let m = c2.text().len() as int;
            &&& read_place(s.skip(2)) == (c1, n)
            &&& read_place(s.skip(2 + n + 2)) == (c2, m)
            &&& read_place(s.skip(2 + n + 2 + m + 2)) == (p, p.text().len() as int)
        }),
{
    let comma = seq![',', ' '];
    let s = head + c1.text() + comma + c2.text() + comma + p.text() + t;
    let n = c1.text().len() as int;
    let tail = comma + c2.text() + comma + p.text() + t;
    assert(tail[0] == ',');
    assert(s.skip(2) =~= c1.text() + tail);
    lemma_place_reads_back(c1, tail);
    assert(s.skip(2 + n) =~= tail);
    assert(tail =~= comma + c2.text() + comma + p.text() + t);
    lemma_two_places_read_back(comma, c2, p, t);
    let m = c2.text().len() as int;
    assert(s.skip(2 + n + 2) =~= tail.skip(2));
    assert(s.skip(2 + n + 2 + m + 2) =~= tail.skip(2 + m + 2));
}

/// The text of a command, followed by something that ends a number, is read as
/// that command.
proof fn lemma_command_reads_back(command: Command, t: Seq<char>)
    requires
        ends_number(t),
    ensures
        read_command(command.text() + t) == (command, command.text().len() as int),
{
    let s = command.text() + t;
    let comma = seq![',', ' '];
    match command {
        Command::MoveTo(p) => {
            assert(s =~= seq!['M', ' '] + p.text() + t);
            lemma_one_place_reads_back(seq!['M', ' '], p, t);
        },
        Command::LineTo(p) => {
            assert(s =~= seq!['L', ' '] + p.text() + t);
            lemma_one_place_reads_back(seq!['L', ' '], p, t);
        },
        Command::QuadTo(c, p) => {
            assert(s =~= seq!['Q', ' '] + c.text() + comma + p.text() + t);
            lemma_two_places_read_back(seq!['Q', ' '], c, p, t);
        },
        Command::CurveTo(c1, c2, p) => {
            assert(s =~= seq!['C', ' '] + c1.text() + comma + c2.text() + comma + p.text() + t);
            lemma_three_places_read_back(seq!['C', ' '], c1, c2, p, t);
        },
        Command::Close => {},
    }
}

/// The path data of one command is the text of that command.
proof fn lemma_commands_text_of_one(command: Command)
    ensures
        commands_text(seq![command]) == command.text(),
{
    assert(seq![command].drop_last() =~= Seq::<Command>::empty());
    assert(seq![command].last() == command);
    assert(commands_text(Seq::<Command>::empty()) =~= Seq::<char>::empty());
    assert(commands_text(seq![command]) =~= command.text());
}

/// Path data that was written for a sequence of commands is read as that
/// sequence. So the path data tells the commands apart: two sequences of
/// commands with the same path data are the same.
pub proof fn lemma_path_data_reads_back(commands: Seq<Command>)
    ensures
        read_commands(commands_text(commands)) == commands,
    decreases commands.len(),
{
    if commands.len() == 0 {
        assert(read_commands(commands_text(commands)) =~= commands);
    } else {
        let first = commands.first();
        let rest = commands.drop_first();
        let s = commands_text(commands);
        let t = commands_text(rest);
        assert(commands =~= seq![first] + rest);
        lemma_commands_text_concat(seq![first], rest);
        lemma_commands_text_of_one(first);
        assert(s == first.text() + t);
        if rest.len() > 0 {
            lemma_commands_text_begins_with_a_letter(rest);
            lemma_command_begins_with_its_letter(rest[0]);
        }
        lemma_command_reads_back(first, t);
        lemma_command_begins_with_its_letter(first);
        assert(s.skip(first.text().len() as int) =~= t);
        lemma_path_data_reads_back(rest);
        assert(read_commands(s) =~= commands);
    }
}

/// The path data of a line of glyphs is read as the commands of the glyphs.
pub proof fn lemma_glyphs_text_reads_back(glyphs: Seq<GlyphView>)
    ensures
        read_commands(glyphs_text(glyphs)) == glyphs_commands(glyphs),
{
    lemma_path_data_reads_back(glyphs_commands(glyphs));
}

} // verus!
