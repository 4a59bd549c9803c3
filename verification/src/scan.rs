//! What the client reads off a raw line before it hands it to the decoder:
//! where the engine's identification starts, and whether the decoder can take
//! the line at all.

use vstd::prelude::*;
use vstd::string::StrSliceExecFns;

use crate::codec::{decode, parsed, Inbound};

verus! {

pub open spec fn is_digit(c: char) -> bool {
    '0' <= c && c <= '9'
}

/// A space or a tab: what separates the words of a line.
pub open spec fn is_blank(c: char) -> bool {
    c == ' ' || c == '\t'
}

pub open spec fn digit_value(c: char) -> int {
    c as int - '0' as int
}

/// The character is the small letter, or the capital of it.
pub open spec fn folds_to(c: char, small: char) -> bool {
    c == small || ('A' <= c && c <= 'Z' && c as int + 32 == small as int)
}

/// The word, given in small letters, stands at `at` in either case.
pub open spec fn word_at(line: Seq<char>, at: int, word: Seq<char>) -> bool {
    &&& 0 <= at
    &&& at + word.len() <= line.len()
    &&& forall|j: int| 0 <= j < word.len() ==> folds_to(line[at + j], #[trigger] word[j])
}

/// Where the blanks that start at `from` end.
pub open spec fn skip_blanks(line: Seq<char>, from: int) -> int
    decreases line.len() - from,
{
    if 0 <= from < line.len() && is_blank(line[from]) {
        skip_blanks(line, from + 1)
    } else {
        from
    }
}

/// Where the blanks that end before `to` start.
pub open spec fn blanks_start(line: Seq<char>, to: int) -> int
    decreases to,
{
    if 0 < to <= line.len() && is_blank(line[to - 1]) {
        blanks_start(line, to - 1)
    } else {
        to
    }
}

/// The line opens, after blanks, with the word.
pub open spec fn opens_with(line: Seq<char>, word: Seq<char>) -> bool {
    word_at(line, skip_blanks(line, 0), word)
}

/// The first word of the line is `go`: the decoder panics on some such lines,
/// a blank at the end of the line being enough.
pub open spec fn opens_go(line: Seq<char>) -> bool {
    let end = skip_blanks(line, 0) + "go"@.len();
    &&& opens_with(line, "go"@)
    &&& (end == line.len() || is_blank(line[end]) || line[end] == '\n' || line[end] == '\r')
}

/// The line is an `info` line: only in such a line does the decoder read a
/// byte.
pub open spec fn reads_bytes(line: Seq<char>) -> bool {
    opens_with(line, "info"@)
}

/// Where, from `from` on, the first word starts that opens with `string`
/// after a blank, or the end of the line where there is none. In an `info`
/// line the decoder takes what follows such a word as text, or does not read
/// it at all.
pub open spec fn text_start(line: Seq<char>, from: int) -> int
    decreases line.len() - from,
{
    if from < 0 || from >= line.len() {
        line.len() as int
    } else if from > 0 && is_blank(line[from - 1]) && word_at(line, from, "string"@) {
        from
    } else {
        text_start(line, from + 1)
    }
}

/// Where, from `from` on, the word `moves` first stands, or the end of the
/// line where it does not. In a `position` line the decoder reads moves only
/// after that word.
pub open spec fn moves_start(line: Seq<char>, from: int) -> int
    decreases line.len() - from,
{
    if from < 0 || from >= line.len() {
        line.len() as int
    } else if word_at(line, from, "moves"@) {
        from
    } else {
        moves_start(line, from + 1)
    }
}

/// From where the decoder may read a byte or a move in the line.
pub open spec fn scan_start(line: Seq<char>) -> int {
    if opens_with(line, "position"@) {
        moves_start(line, 0)
    } else {
        0
    }
}

/// Up to where the decoder may read a byte or a move in the line.
pub open spec fn scan_end(line: Seq<char>) -> int {
    if reads_bytes(line) {
        text_start(line, 0)
    } else {
        line.len() as int
    }
}

/// The line is one in which the decoder reads moves: `info`, `position` or
/// `bestmove`.
pub open spec fn reads_moves(line: Seq<char>) -> bool {
    reads_bytes(line) || opens_with(line, "position"@) || opens_with(line, "bestmove"@)
}

/// Three digits start at `i` and read as a number above 255.
pub open spec fn three_digits_above_byte(line: Seq<char>, i: int) -> bool {
    &&& 0 <= i
    &&& i + 3 <= line.len()
    &&& is_digit(line[i])
    &&& is_digit(line[i + 1])
    &&& is_digit(line[i + 2])
    &&& 100 * digit_value(line[i]) + 10 * digit_value(line[i + 1]) + digit_value(line[i + 2]) > 255
}

/// Blanks come before `i`, and before them a word that ends in `depth`: the
/// decoder reads a byte after `depth` and `seldepth`.
pub open spec fn after_depth(line: Seq<char>, i: int) -> bool {
    &&& blanks_start(line, i) < i
    &&& word_at(line, blanks_start(line, i) - "depth"@.len(), "depth"@)
}

pub open spec fn is_file(c: char) -> bool {
    ('a' <= c && c <= 'h') || ('A' <= c && c <= 'H')
}

pub open spec fn is_capital_file(c: char) -> bool {
    'A' <= c && c <= 'H'
}

pub open spec fn is_rank(c: char) -> bool {
    '1' <= c && c <= '8'
}

/// Four characters at `i` have the shape of a move, with a capital file letter.
pub open spec fn capital_move(line: Seq<char>, i: int) -> bool {
    &&& 0 <= i
    &&& i + 4 <= line.len()
    &&& is_file(line[i])
    &&& is_rank(line[i + 1])
    &&& is_file(line[i + 2])
    &&& is_rank(line[i + 3])
    &&& (is_capital_file(line[i]) || is_capital_file(line[i + 2]))
}

/// The decoder may panic at `i`: it may read a number above 255 as a byte
/// there, or a move written with a capital file letter.
pub open spec fn stops_decoder(line: Seq<char>, i: int) -> bool {
    &&& scan_start(line) <= i < scan_end(line)
    &&& {
        ||| (reads_bytes(line) && three_digits_above_byte(line, i) && after_depth(line, i))
        ||| (reads_moves(line) && capital_move(line, i))
    }
}

/// The decoder returns a message for this line. It may not where the first
/// word is `go`, where it reads a number above 255 as a byte, or where it
/// reads a move written with a capital file letter.
pub open spec fn decodable(line: Seq<char>) -> bool {
    &&& !opens_go(line)
    &&& forall|i: int| 0 <= i < line.len() ==> !#[trigger] stops_decoder(line, i)
}

/// The identification marker, `id` and a space, starts at `i`.
pub open spec fn marker_at(line: Seq<char>, i: int) -> bool {
    &&& 0 <= i
    &&& i + 3 <= line.len()
    &&& line[i] == 'i'
    &&& line[i + 1] == 'd'
    &&& line[i + 2] == ' '
}

/// Where the first identification marker of the line starts, if there is one.
#[verifier::opaque]
pub open spec fn first_marker(line: Seq<char>) -> Option<int> {
    if exists|i: int| marker_at(line, i) {
        Some(choose|i: int| marker_at(line, i) && forall|j: int| 0 <= j < i ==> !marker_at(line, j))
    } else {
        None
    }
}

/// The message that a line decodes to, where the decoder can take the line.
pub open spec fn received(line: Seq<char>) -> Option<Inbound> {
    if decodable(line) {
        Some(parsed(line))
    } else {
        None
    }
}

fn digit_of(c: char) -> (v: u32)
    requires
        is_digit(c),
    ensures
        v == digit_value(c),
        v <= 9,
{
    c as u32 - '0' as u32
}

fn digit(c: char) -> (b: bool)
    ensures
        b == is_digit(c),
{
    '0' <= c && c <= '9'
}

fn blank(c: char) -> (b: bool)
    ensures
        b == is_blank(c),
{
    c == ' ' || c == '\t'
}

fn file(c: char) -> (b: bool)
    ensures
        b == is_file(c),
{
    ('a' <= c && c <= 'h') || ('A' <= c && c <= 'H')
}

fn rank(c: char) -> (b: bool)
    ensures
        b == is_rank(c),
{
    '1' <= c && c <= '8'
}

fn folds(c: char, small: char) -> (b: bool)
    ensures
        b == folds_to(c, small),
{
    c == small || ('A' <= c && c <= 'Z' && c as u32 + 32 == small as u32)
}

fn is_word_at(line: &str, len: usize, at: usize, word: &str) -> (found: bool)
    requires
        len == line@.len(),
    ensures
        found == word_at(line@, at as int, word@),
{
    let size: usize = word.unicode_len();
    if at > len || size > len - at {
        return false;
    }
    let mut j: usize = 0;
    while j < size
        invariant
            len == line@.len(),
            size == word@.len(),
            at + size <= len,
            j <= size,
            forall|k: int| 0 <= k < j ==> folds_to(line@[at + k], #[trigger] word@[k]),
        decreases size - j,
    {
        if !folds(line.get_char(at + j), word.get_char(j)) {
            return false;
        }
        j += 1;
    }
    true
}

fn blanks_end(line: &str, len: usize, from: usize) -> (end: usize)
    requires
        len == line@.len(),
        from <= len,
    ensures
        end == skip_blanks(line@, from as int),
        from <= end <= len,
{
    let mut end: usize = from;
    while end < len && blank(line.get_char(end))
        invariant
            len == line@.len(),
            from <= end <= len,
            skip_blanks(line@, from as int) == skip_blanks(line@, end as int),
        decreases len - end,
    {
        end += 1;
    }
    end
}

fn blanks_begin(line: &str, len: usize, to: usize) -> (start: usize)
    requires
        len == line@.len(),
        to <= len,
    ensures
        start == blanks_start(line@, to as int),
        start <= to,
{
    let mut start: usize = to;
    while start > 0 && blank(line.get_char(start - 1))
        invariant
            len == line@.len(),
            start <= to <= len,
            blanks_start(line@, to as int) == blanks_start(line@, start as int),
        decreases start,
    {
        start -= 1;
    }
    start
}

fn is_go(line: &str, len: usize, first: usize) -> (go: bool)
    requires
        len == line@.len(),
        first == skip_blanks(line@, 0),
        first <= len,
    ensures
        go == opens_go(line@),
{
    if !is_word_at(line, len, first, "go") {
        return false;
    }
    let end: usize = first + "go".unicode_len();
    if end == len {
        return true;
    }
    let next = line.get_char(end);
    blank(next) || next == '\n' || next == '\r'
}

fn find_text(line: &str, len: usize) -> (start: usize)
    requires
        len == line@.len(),
    ensures
        start == text_start(line@, 0),
        start <= len,
{
    let mut start: usize = 0;
    while start < len
        invariant
            len == line@.len(),
            start <= len,
            text_start(line@, 0) == text_start(line@, start as int),
        decreases len - start,
    {
        if start > 0 && blank(line.get_char(start - 1)) && is_word_at(line, len, start, "string") {
            return start;
        }
        start += 1;
    }
    start
}

fn is_after_depth(line: &str, len: usize, i: usize) -> (after: bool)
    requires
        len == line@.len(),
        i <= len,
    ensures
        after == after_depth(line@, i as int),
{
    let start: usize = blanks_begin(line, len, i);
    let size: usize = "depth".unicode_len();
    start < i && size <= start && is_word_at(line, len, start - size, "depth")
}

fn find_moves(line: &str, len: usize) -> (start: usize)
    requires
        len == line@.len(),
    ensures
        start == moves_start(line@, 0),
        start <= len,
{
    let mut start: usize = 0;
    while start < len
        invariant
            len == line@.len(),
            start <= len,
            moves_start(line@, 0) == moves_start(line@, start as int),
        decreases len - start,
    {
        if is_word_at(line, len, start, "moves") {
            return start;
        }
        start += 1;
    }
    start
}

fn stops_at(line: &str, len: usize, i: usize, bytes: bool, moves: bool) -> (r: bool)
    requires
        len == line@.len(),
        i < len,
        scan_start(line@) <= i < scan_end(line@),
        bytes == reads_bytes(line@),
        moves == reads_moves(line@),
    ensures
        r == stops_decoder(line@, i as int),
{
    let mut above: bool = false;
    if bytes && len - i >= 3 {
        let c0 = line.get_char(i);
        let c1 = line.get_char(i + 1);
        let c2 = line.get_char(i + 2);
        if digit(c0) && digit(c1) && digit(c2) {
            let value: u32 = 100 * digit_of(c0) + 10 * digit_of(c1) + digit_of(c2);
            above = value > 255 && is_after_depth(line, len, i);
        }
    }
    let mut capital: bool = false;
    if moves && len - i >= 4 {
        let f0 = line.get_char(i);
        let f1 = line.get_char(i + 2);
        if file(f0) && rank(line.get_char(i + 1)) && file(f1) && rank(line.get_char(i + 3)) {
            capital = ('A' <= f0 && f0 <= 'H') || ('A' <= f1 && f1 <= 'H');
        }
    }
    above || capital
}

/// Whether the decoder returns a message for this line.
pub fn is_decodable(line: &str) -> (ok: bool)
    ensures
        ok == decodable(line@),
{
    let len: usize = line.unicode_len();
    let first: usize = blanks_end(line, len, 0);
    if is_go(line, len, first) {
        return false;
    }
    let bytes = is_word_at(line, len, first, "info");
    let position = is_word_at(line, len, first, "position");
    let moves = bytes || position || is_word_at(line, len, first, "bestmove");
    if !moves {
        return true;
    }
    let start: usize = if position {
        find_moves(line, len)
    } else {
        0
    };
    let end: usize = if bytes {
        find_text(line, len)
    } else {
        len
    };
    let mut i: usize = start;
    while i < end
        invariant
            len == line@.len(),
            start <= i,
            end <= len,
            start == scan_start(line@),
            end == scan_end(line@),
            bytes == reads_bytes(line@),
            moves == reads_moves(line@),
            forall|j: int| 0 <= j < i ==> !#[trigger] stops_decoder(line@, j),
        decreases end - i,
    {
        if stops_at(line, len, i, bytes, moves) {
            return false;
        }
        i += 1;
    }
    true
}

/// Decodes a line where the decoder can take it, and says so where it cannot.
pub fn receive(line: &str) -> (message: Option<Inbound>)
    ensures
        message == received(line@),
{
    if is_decodable(line) {
        Some(decode(line))
    } else {
        None
    }
}

/// Finds the first identification marker of the line.
pub fn find_marker(line: &str) -> (at: Option<usize>)
    ensures
        match at {
            Some(i) => first_marker(line@) == Some(i as int) && i + 3 <= line@.len(),
            None => first_marker(line@) is None,
        },
{
    let len: usize = line.unicode_len();
    let mut i: usize = 0;
    while i < len
        invariant
            len == line@.len(),
            i <= len,
            forall|j: int| 0 <= j < i ==> !marker_at(line@, j),
        decreases len - i,
    {
        if len - i >= 3 && line.get_char(i) == 'i' && line.get_char(i + 1) == 'd' && line.get_char(i + 2) == ' ' {
            proof {
                reveal(first_marker);
                assert(marker_at(line@, i as int));
                let first = choose|k: int| marker_at(line@, k) && forall|j: int| 0 <= j < k ==> !marker_at(line@, j);
                assert(marker_at(line@, first) && forall|j: int| 0 <= j < first ==> !marker_at(line@, j));
                assert(first == i);
            }
            return Some(i);
        }
        i += 1;
    }
    proof {
        reveal(first_marker);
        assert forall|j: int| !marker_at(line@, j) by {
            if marker_at(line@, j) {
                assert(0 <= j < len);
            }
        }
    }
    None
}

} // verus!
