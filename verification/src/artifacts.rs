//! The executables that a build produced, read off the messages that cargo
//! prints with `--message-format json`: one JSON document per line.

use crate::text::{lines_of, split_lines, texts};
use vstd::prelude::*;
use vstd::utf8::{decode_utf8, valid_utf8};

verus! {

/// The key under which a message names the executable that was built.
pub const EXECUTABLE_KEY: &'static str = "executable";

/// The longest run of digits that a line may hold to be parsed.
pub const DIGIT_RUN_LIMIT: usize = 32767;

/// Whether a character is one of the digits `0` to `9`.
pub open spec fn is_digit(ch: char) -> bool {
    '0' <= ch <= '9'
}

/// Whether `length` digits stand in a row in the text from `start` on.
pub open spec fn is_digit_run(text: Seq<char>, start: int, length: int) -> bool {
    &&& 0 <= start
    &&& start + length <= text.len()
    &&& forall|k: int| start <= k < start + length ==> is_digit(#[trigger] text[k])
}

/// Whether `length` digits stand in a row somewhere in the text.
pub open spec fn has_digit_run(text: Seq<char>, length: int) -> bool {
    exists|start: int| is_digit_run(text, start, length)
}

/// Whether a line holds more digits in a row than it may to be parsed.
pub open spec fn too_many_digits(line: Seq<char>) -> bool {
    has_digit_run(line, DIGIT_RUN_LIMIT + 1)
}

/// Whether a line holds no more than [`DIGIT_RUN_LIMIT`] digits in a row.
pub fn within_digit_limit(line: &str) -> (within: bool)
    ensures
        within == !too_many_digits(line@),
{
    // The digits in a row that end where the walk stands.
    let mut run: usize = 0;
    for ch in it: line.chars()
        invariant
            it.seq() == line@,
            run <= DIGIT_RUN_LIMIT,
            run <= it.index(),
            forall|k: int| it.index() - run <= k < it.index() ==> is_digit(#[trigger] line@[k]),
            run < it.index() ==> !is_digit(line@[it.index() - run - 1]),
            forall|start: int|
                start + DIGIT_RUN_LIMIT + 1 <= it.index() ==> !#[trigger] is_digit_run(
                    line@,
                    start,
                    DIGIT_RUN_LIMIT + 1,
                ),
    {
        let ghost at = it.index() as int;
        if ch >= '0' && ch <= '9' {
            if run == DIGIT_RUN_LIMIT {
                assert(is_digit_run(line@, at - DIGIT_RUN_LIMIT, DIGIT_RUN_LIMIT + 1));
                return false;
            }
            run += 1;
        } else {
            run = 0;
        }
        assert forall|start: int| start + DIGIT_RUN_LIMIT + 1 <= at + 1 implies !#[trigger] is_digit_run(
            line@,
            start,
            DIGIT_RUN_LIMIT + 1,
        ) by {
            if start + DIGIT_RUN_LIMIT + 1 == at + 1 && start >= 0 {
                if run == 0 {
                    assert(!is_digit(line@[at]));
                } else {
                    assert(!is_digit(line@[at - run]));
                }
            }
        }
    }
    assert forall|start: int| !#[trigger] is_digit_run(line@, start, DIGIT_RUN_LIMIT + 1) by {
        if is_digit_run(line@, start, DIGIT_RUN_LIMIT + 1) {
            assert(start + DIGIT_RUN_LIMIT + 1 <= line@.len());
        }
    }
    true
}

/// What the JSON parser makes of a line and a key: nothing where the line is
/// not JSON; otherwise the text under the key, where the line is an object
/// that keeps a string there.
pub uninterp spec fn json_string_member(line: Seq<char>, key: Seq<char>) -> Option<
    Option<Seq<char>>,
>;

/// What was found in a line, as a mathematical value.
pub open spec fn found_view(found: Option<Option<String>>) -> Option<Option<Seq<char>>> {
    match found {
        Some(Some(text)) => Some(Some(text@)),
        Some(None) => Some(None),
        None => None,
    }
}

/// Parses the line with `json::parse` and takes the string under the key out
/// of the result, with `JsonValue`'s `IndexMut<&str>` and
/// `JsonValue::take_string`. The index yields null for every value that is no
/// object with that key, and `take_string` yields a string only for a
/// string.
///
/// The parser counts the digits of a fraction in a 16-bit exponent, one step
/// for each digit, and does not guard the count. The precondition keeps out
/// lines with enough digits in a row to carry it out of range.
///
/// Not proved: that the answer depends on the line and the key alone, so
/// that [`json_string_member`] can stand for it.
#[verifier::external_body]
fn string_member_in_json(line: &str, key: &str) -> (found: Option<Option<String>>)
    requires
        !too_many_digits(line@),
    ensures
        found_view(found) == json_string_member(line@, key@),
{
    match json::parse(line) {
        Ok(mut message) => Some(message[key].take_string()),
        Err(_) => None,
    }
}

/// Why a line of build output cannot be read.
#[derive(Clone, Copy, Debug, PartialEq, Eq, Structural)]
pub enum LineFault {
    /// The line holds more than [`DIGIT_RUN_LIMIT`] digits in a row. It is
    /// not handed to the parser.
    TooManyDigits,
    /// The line is not JSON.
    NotJson,
}

/// A line of build output that cannot be read.
#[derive(Clone, Copy, Debug, PartialEq, Eq, Structural)]
pub struct InvalidLine {
    /// The place of the line among the lines, counted from zero.
    pub line: usize,
    /// What is wrong with it.
    pub fault: LineFault,
}

/// What a line says: the executable that it names, if it names one, or why
/// it cannot be read. A line names an executable where it is a JSON object
/// with a string under [`EXECUTABLE_KEY`].
pub open spec fn line_reading(line: Seq<char>) -> Result<Option<Seq<char>>, LineFault> {
    if too_many_digits(line) {
        Err(LineFault::TooManyDigits)
    } else {
        match json_string_member(line, EXECUTABLE_KEY@) {
            Some(found) => Ok(found),
            None => Err(LineFault::NotJson),
        }
    }
}

/// What was read in a line, as a mathematical value.
pub open spec fn reading_view(reading: Result<Option<String>, LineFault>) -> Result<
    Option<Seq<char>>,
    LineFault,
> {
    match reading {
        Ok(Some(path)) => Ok(Some(path@)),
        Ok(None) => Ok(None),
        Err(fault) => Err(fault),
    }
}

/// Reads one line of build output.
///
/// A line with too many digits in a row is refused unread. Every other line
/// is parsed as JSON.
pub fn read_line(line: &str) -> (reading: Result<Option<String>, LineFault>)
    ensures
        reading_view(reading) == line_reading(line@),
{
    if !within_digit_limit(line) {
        return Err(LineFault::TooManyDigits);
    }
    match string_member_in_json(line, EXECUTABLE_KEY) {
        Some(found) => Ok(found),
        None => Err(LineFault::NotJson),
    }
}

/// The executables that the lines name, in the order of the lines. A line
/// that names none adds nothing.
pub open spec fn named_executables(lines: Seq<Seq<char>>) -> Seq<Seq<char>>
    decreases lines.len(),
{
    if lines.len() == 0 {
        Seq::empty()
    } else {
        let before = named_executables(lines.drop_last());
        match line_reading(lines.last()) {
            Ok(Some(path)) => before.push(path),
            _ => before,
        }
    }
}

/// Whether every line can be read.
pub open spec fn all_readable(lines: Seq<Seq<char>>) -> bool {
    forall|i: int| 0 <= i < lines.len() ==> line_reading(#[trigger] lines[i]) is Ok
}

/// Whether `line` is the place of the first line that cannot be read.
pub open spec fn is_first_invalid(lines: Seq<Seq<char>>, line: int) -> bool {
    &&& 0 <= line < lines.len()
    &&& line_reading(lines[line]) is Err
    &&& forall|j: int| 0 <= j < line ==> line_reading(#[trigger] lines[j]) is Ok
}

/// The place of the first line that cannot be read, where there is one.
pub open spec fn first_invalid(lines: Seq<Seq<char>>) -> int {
    choose|line: int| is_first_invalid(lines, line)
}

/// What the lines yield: the executables that they name where every line
/// can be read, and otherwise the place of the first line that cannot, with
/// what is wrong with it.
pub open spec fn executables_of(lines: Seq<Seq<char>>) -> Result<Seq<Seq<char>>, (int, LineFault)> {
    if all_readable(lines) {
        Ok(named_executables(lines))
    } else {
        Err((first_invalid(lines), line_reading(lines[first_invalid(lines)])->Err_0))
    }
}

/// What a text yields, read line by line.
pub open spec fn executables_in(text: Seq<char>) -> Result<Seq<Seq<char>>, (int, LineFault)> {
    executables_of(split_lines(text))
}

/// What was collected, as a mathematical value.
pub open spec fn loaded_view(collected: Result<Vec<String>, InvalidLine>) -> Result<
    Seq<Seq<char>>,
    (int, LineFault),
> {
    match collected {
        Ok(executables) => Ok(texts(executables@)),
        Err(invalid) => Err((invalid.line as int, invalid.fault)),
    }
}

/// Where not every line can be read, one line is the first that cannot, and
/// only one.
pub proof fn lemma_first_invalid(lines: Seq<Seq<char>>)
    requires
        !all_readable(lines),
    ensures
        is_first_invalid(lines, first_invalid(lines)),
        forall|line: int| is_first_invalid(lines, line) ==> line == first_invalid(lines),
{
    let invalid = choose|i: int| 0 <= i < lines.len() && !(line_reading(#[trigger] lines[i]) is Ok);
    lemma_invalid_by(lines, invalid);
    let chosen = first_invalid(lines);
    assert forall|line: int| is_first_invalid(lines, line) implies line == chosen by {
        if chosen < line {
            assert(line_reading(lines[chosen]) is Ok);
        } else if line < chosen {
            assert(line_reading(lines[line]) is Ok);
        }
    }
}

/// Lines of which the one at `invalid` cannot be read have a first line that
/// cannot.
proof fn lemma_invalid_by(lines: Seq<Seq<char>>, invalid: int)
    requires
        0 <= invalid < lines.len(),
        line_reading(lines[invalid]) is Err,
    ensures
        exists|line: int| is_first_invalid(lines, line),
    decreases invalid,
{
    if forall|j: int| 0 <= j < invalid ==> line_reading(#[trigger] lines[j]) is Ok {
        assert(is_first_invalid(lines, invalid));
    } else {
        let earlier = choose|j: int| 0 <= j < invalid && !(line_reading(#[trigger] lines[j]) is Ok);
        lemma_invalid_by(lines, earlier);
    }
}

/// Takes in what was read in one line: an executable is added to the list,
/// a line without one leaves the list as it is, and so does a line that
/// could not be read, whose fault is handed back.
pub fn absorb(executables: &mut Vec<String>, reading: Result<Option<String>, LineFault>) -> (fault:
    Option<LineFault>)
    ensures
        fault == match reading {
            Ok(_) => None::<LineFault>,
            Err(fault) => Some(fault),
        },
        final(executables)@ == match reading {
            Ok(Some(path)) => old(executables)@.push(path),
            _ => old(executables)@,
        },
{
    match reading {
        Ok(Some(path)) => {
            executables.push(path);
            None
        },
        Ok(None) => None,
        Err(fault) => Some(fault),
    }
}

/// Collects the executables that the lines of a build's output name.
///
/// The first line that cannot be read ends the collection.
pub fn executables_of_lines(lines: &Vec<String>) -> (collected: Result<Vec<String>, InvalidLine>)
    ensures
        loaded_view(collected) == executables_of(texts(lines@)),
{
    let ghost all = texts(lines@);
    let mut executables: Vec<String> = Vec::new();
    let mut index: usize = 0;
    assert(all.take(0) =~= Seq::<Seq<char>>::empty());
    while index < lines.len()
        invariant
            index <= lines.len(),
            all == texts(lines@),
            forall|j: int| 0 <= j < index ==> line_reading(#[trigger] all[j]) is Ok,
            texts(executables@) == named_executables(all.take(index as int)),
        decreases lines.len() - index,
    {
        let ghost before = executables@;
        let reading = read_line(lines[index].as_str());
        assert(all.take(index + 1).drop_last() =~= all.take(index as int));
        assert(all.take(index + 1).last() == all[index as int]);
        match absorb(&mut executables, reading) {
            Some(fault) => {
                proof {
                    assert(is_first_invalid(all, index as int));
                    lemma_first_invalid(all);
                }
                return Err(InvalidLine { line: index, fault });
            },
            None => {},
        }
        assert(texts(executables@) =~= named_executables(all.take(index + 1))) by {
            match reading {
                Ok(Some(path)) => {
                    assert(texts(before.push(path)) =~= texts(before).push(path@));
                },
                _ => {},
            }
        }
        index += 1;
    }
    assert(all.take(index as int) =~= all);
    Ok(executables)
}

/// Collects the executables that a text names, line by line.
pub fn executables_of_text(text: &str) -> (collected: Result<Vec<String>, InvalidLine>)
    ensures
        loaded_view(collected) == executables_in(text@),
{
    let lines = lines_of(text);
    executables_of_lines(&lines)
}

/// The error of `String::from_utf8`.
#[verifier::external_type_specification]
#[verifier::external_body]
pub struct ExFromUtf8Error(std::string::FromUtf8Error);

/// `String::from_utf8` turns bytes that are UTF-8 into the string that they
/// encode, and fails on all other bytes.
pub assume_specification[ std::string::String::from_utf8 ](bytes: Vec<u8>) -> (decoded: Result<
    std::string::String,
    std::string::FromUtf8Error,
>)
    ensures
        decoded is Ok <==> valid_utf8(bytes@),
        decoded matches Ok(text) ==> text@ == decode_utf8(bytes@),
;

/// Why a build's output names no executables.
#[derive(Clone, Copy, Debug, PartialEq, Eq, Structural)]
pub enum OutputError {
    /// The output is not UTF-8.
    InvalidUtf8,
    /// A line of the output cannot be read.
    InvalidLine(InvalidLine),
}

/// Collects the executables that a build's output names.
///
/// The output must be UTF-8, and each of its lines must be JSON with no more
/// than [`DIGIT_RUN_LIMIT`] digits in a row.
pub fn executables_of_output(output: Vec<u8>) -> (collected: Result<Vec<String>, OutputError>)
    ensures
        collected == Err::<Vec<String>, OutputError>(OutputError::InvalidUtf8) <==> !valid_utf8(
            output@,
        ),
        collected matches Ok(executables) ==> executables_in(decode_utf8(output@)) == Ok::<
            Seq<Seq<char>>,
            (int, LineFault),
        >(texts(executables@)),
        collected matches Err(OutputError::InvalidLine(invalid)) ==> executables_in(
            decode_utf8(output@),
        ) == Err::<Seq<Seq<char>>, (int, LineFault)>((invalid.line as int, invalid.fault)),
{
    match String::from_utf8(output) {
        Ok(text) => match executables_of_text(text.as_str()) {
            Ok(executables) => Ok(executables),
            Err(invalid) => Err(OutputError::InvalidLine(invalid)),
        },
        Err(_) => Err(OutputError::InvalidUtf8),
    }
}

} // verus!
