//! The server's process: its threads, its address and its console.

use vstd::prelude::*;
use vstd::string::*;
use vstd::utf8::is_ascii_chars;

verus! {

/// What a thread of the pool is told.
#[derive(Clone, Copy, Debug, PartialEq, Eq, Structural)]
pub enum ThreadMessage {
    Terminate,
}

/// Why a thread of the pool ends.
#[derive(Clone, Copy, Debug, PartialEq, Eq, Structural)]
pub enum ThreadEnd {
    /// It was told to.
    Terminated,
    /// Nobody is left who could tell it anything.
    QueueClosed,
}

/// A thread of the pool ends with the first thing that its queue gives, whatever it is.
pub fn thread_end(message: Option<ThreadMessage>) -> (res: ThreadEnd)
    ensures
        res == match message {
            Some(ThreadMessage::Terminate) => ThreadEnd::Terminated,
            None => ThreadEnd::QueueClosed,
        },
{
    match message {
        Some(ThreadMessage::Terminate) => ThreadEnd::Terminated,
        None => ThreadEnd::QueueClosed,
    }
}

/// `num_cpus::get` counts the processors that the process may use. It is documented to
/// return at least one, and nothing more is claimed: the count depends on the machine.
pub assume_specification[ num_cpus::get ]() -> (res: usize)
    ensures
        res >= 1,
;

/// How many threads the pool has on a machine with so many processors: one each, and at
/// least one.
pub fn pool_size_for(cpus: usize) -> (res: usize)
    ensures
        res == if cpus < 1 {
            1
        } else {
            cpus
        },
{
    if cpus < 1 {
        1
    } else {
        cpus
    }
}

/// How many threads the pool has on this machine: as many as a call of `num_cpus::get` gives
/// processors, and at least one.
pub fn pool_size() -> (res: usize)
    ensures
        res >= 1,
        exists|cpus: usize|
            #[trigger] call_ensures(num_cpus::get, (), cpus) && res == if cpus < 1 {
                1
            } else {
                cpus
            },
{
    pool_size_for(num_cpus::get())
}

/// The address that the server listens on: the one that was given, or port 8080 of every
/// interface.
pub fn listen_address(argument: Option<String>) -> (res: String)
    ensures
        res@ == match argument {
            Some(address) => address@,
            None => "0.0.0.0:8080"@,
        },
{
    match argument {
        Some(address) => address,
        None => "0.0.0.0:8080".to_owned(),
    }
}

/// What is asked for on the console.
#[derive(Clone, Copy, Debug, PartialEq, Eq, Structural)]
pub enum ConsoleCommand {
    /// Shut the server down.
    Stop,
    /// Nothing that the console knows.
    Invalid,
}

/// Whether a character is white space: what `char::is_whitespace` returns.
pub uninterp spec fn is_white_space(c: char) -> bool;

/// Whether an ASCII character is white space: the blank, and those from the tab to the
/// carriage return.
pub open spec fn is_ascii_space(c: char) -> bool {
    c == ' ' || '\t' <= c <= '\r'
}

/// `char::is_whitespace` tells, by the character alone, whether it has Unicode's property
/// `White_Space`. Of the ASCII characters these are the blank and U+0009 to U+000D; which
/// others have it is left unsaid.
pub assume_specification[ char::is_whitespace ](c: char) -> (res: bool)
    ensures
        res == is_white_space(c),
        c <= '\u{7f}' ==> res == is_ascii_space(c),
;

/// A text in lower case: what `str::to_lowercase` returns.
pub uninterp spec fn lowercased(text: Seq<char>) -> Seq<char>;

/// An ASCII character in lower case.
pub open spec fn ascii_lower(c: char) -> char {
    if 'A' <= c <= 'Z' {
        (c as u8 + 32) as char
    } else {
        c
    }
}

/// An ASCII text in lower case.
pub open spec fn ascii_lowercased(text: Seq<char>) -> Seq<char> {
    text.map_values(|c: char| ascii_lower(c))
}

/// `str::to_lowercase` maps a text to lower case by Unicode's rules, which know no locale:
/// the result depends on the text alone. In an ASCII text the letters from A to Z become
/// those from a to z and the rest stays; what the rules say of other texts is left unsaid.
pub assume_specification[ str::to_lowercase ](text: &str) -> (res: String)
    ensures
        res@ == lowercased(text@),
        is_ascii_chars(text@) ==> res@ == ascii_lowercased(text@),
;

/// A text without the white space at its end.
pub open spec fn trimmed(text: Seq<char>) -> Seq<char>
    decreases text.len(),
{
    if text.len() > 0 && is_white_space(text.last()) {
        trimmed(text.drop_last())
    } else {
        text
    }
}

/// An ASCII text without the white space at its end.
pub open spec fn ascii_trimmed(text: Seq<char>) -> Seq<char>
    decreases text.len(),
{
    if text.len() > 0 && is_ascii_space(text.last()) {
        ascii_trimmed(text.drop_last())
    } else {
        text
    }
}

/// A text up to its first blank.
pub open spec fn first_word(text: Seq<char>) -> Seq<char> {
    match text.index_of_first(' ') {
        Some(blank) => text.take(blank),
        None => text,
    }
}

/// The word of a line that names a command: the first, where blanks part the words and
/// white space at the end of the line does not count.
pub fn command_word(line: &str) -> (res: String)
    ensures
        res@ == first_word(trimmed(line@)),
        is_ascii_chars(line@) ==> res@ == first_word(ascii_trimmed(line@)) && is_ascii_chars(res@),
{
    let mut chars: Vec<char> = Vec::new();
    for c in iter: line.chars()
        invariant
            iter.seq() == line@,
            chars@ == line@.take(iter.index()),
    {
        chars.push(c);
    }
    assert(chars@ =~= line@);
    let mut end: usize = chars.len();
    assert(line@.take(end as int) =~= line@);
    while end > 0 && chars[end - 1].is_whitespace()
        invariant
            end <= chars.len(),
            chars@ == line@,
            trimmed(line@.take(end as int)) == trimmed(line@),
            is_ascii_chars(line@) ==> ascii_trimmed(line@.take(end as int)) == ascii_trimmed(line@),
        ensures
            end <= chars.len(),
            line@.take(end as int) == trimmed(line@),
            is_ascii_chars(line@) ==> line@.take(end as int) == ascii_trimmed(line@),
        decreases end,
    {
        assert(line@.take(end as int).drop_last() =~= line@.take(end - 1));
        end -= 1;
    }
    let ghost rest = line@.take(end as int);
    let mut blank: usize = 0;
    while blank < end && chars[blank] != ' '
        invariant
            blank <= end <= chars.len(),
            chars@ == line@,
            rest == line@.take(end as int),
            forall|i: int| 0 <= i < blank ==> rest[i] != ' ',
        decreases end - blank,
    {
        blank += 1;
    }
    proof {
        rest.index_of_first_ensures(' ');
        assert(rest.take(blank as int) =~= line@.subrange(0, blank as int));
        if blank == end {
            assert(rest.take(blank as int) =~= rest);
        } else {
            assert(rest[blank as int] == ' ');
        }
    }
    line.substring_char(0, blank).to_owned()
}

/// The command that a word in lower case names.
pub fn named_command(word: &String) -> (res: ConsoleCommand)
    ensures
        res == if word@ == "stop"@ {
            ConsoleCommand::Stop
        } else {
            ConsoleCommand::Invalid
        },
{
    if *word == "stop".to_owned() {
        ConsoleCommand::Stop
    } else {
        ConsoleCommand::Invalid
    }
}

/// The command that a line of the console gives, in upper or lower case. An ASCII line gives
/// the command to stop exactly where its first word, in lower case, is "stop".
pub fn console_command(line: &str) -> (res: ConsoleCommand)
    ensures
        is_ascii_chars(line@) ==> (res == ConsoleCommand::Stop <==> ascii_lowercased(
            first_word(ascii_trimmed(line@)),
        ) == "stop"@),
        res == if lowercased(first_word(trimmed(line@))) == "stop"@ {
            ConsoleCommand::Stop
        } else {
            ConsoleCommand::Invalid
        },
{
    let word = command_word(line);
    named_command(&word.as_str().to_lowercase())
}

/// White space at the end of a line, such as its line feed, does not count.
pub proof fn law_white_space_at_the_end_does_not_count(text: Seq<char>, c: char)
    requires
        is_white_space(c),
    ensures
        trimmed(text.push(c)) == trimmed(text),
{
    assert(text.push(c).drop_last() =~= text);
}

/// What is left of a text without the white space at its end is its beginning: nothing but
/// white space is cut off, and no white space is left at the end.
pub proof fn law_only_white_space_is_cut_off(text: Seq<char>)
    ensures
        ({
            let rest = trimmed(text);
            &&& rest.len() <= text.len()
            &&& rest == text.take(rest.len() as int)
            &&& forall|i: int|
                rest.len() <= i < text.len() ==> is_white_space(#[trigger] text[i])
            &&& rest.len() > 0 ==> !is_white_space(rest[rest.len() - 1])
        }),
    decreases text.len(),
{
    if text.len() > 0 && is_white_space(text.last()) {
        law_only_white_space_is_cut_off(text.drop_last());
        let rest = trimmed(text);
        assert(text.drop_last().take(rest.len() as int) =~= text.take(rest.len() as int));
        assert forall|i: int| rest.len() <= i < text.len() implies is_white_space(
            #[trigger] text[i],
        ) by {
            if i < text.len() - 1 {
                assert(text.drop_last()[i] == text[i]);
            }
        }
    } else {
        assert(text.take(text.len() as int) =~= text);
    }
}

/// Of an ASCII text, blanks and the characters from 9 to 13 are cut off at the end, these and
/// no others, and none of them is left there.
pub proof fn law_only_ascii_space_is_cut_off(text: Seq<char>)
    ensures
        ({
            let rest = ascii_trimmed(text);
            &&& rest.len() <= text.len()
            &&& rest == text.take(rest.len() as int)
            &&& forall|i: int|
                rest.len() <= i < text.len() ==> #[trigger] text[i] == ' ' || 9 <= text[i] as int
                    <= 13
            &&& rest.len() > 0 ==> rest[rest.len() - 1] != ' ' && !(9 <= rest[rest.len() - 1] as int
                <= 13)
        }),
    decreases text.len(),
{
    if text.len() > 0 && is_ascii_space(text.last()) {
        law_only_ascii_space_is_cut_off(text.drop_last());
        let rest = ascii_trimmed(text);
        assert(text.drop_last().take(rest.len() as int) =~= text.take(rest.len() as int));
        assert forall|i: int| rest.len() <= i < text.len() implies #[trigger] text[i] == ' ' || 9
            <= text[i] as int <= 13 by {
            if i < text.len() - 1 {
                assert(text.drop_last()[i] == text[i]);
            }
        }
    } else {
        assert(text.take(text.len() as int) =~= text);
    }
}

/// The first word is the beginning of a text, has no blank in it, and ends with the text or
/// at a blank.
pub proof fn law_the_first_word_ends_at_a_blank(text: Seq<char>)
    ensures
        ({
            let word = first_word(text);
            &&& word.len() <= text.len()
            &&& word == text.take(word.len() as int)
            &&& forall|i: int| 0 <= i < word.len() ==> #[trigger] word[i] != ' '
            &&& word.len() < text.len() ==> text[word.len() as int] == ' '
        }),
{
    text.index_of_first_ensures(' ');
    assert(text.take(text.len() as int) =~= text);
}

/// In lower case a text is as long as it was, each letter from A to Z is the one that comes 32
/// places later, and nothing else changes.
pub proof fn law_only_capitals_change_in_lower_case(text: Seq<char>)
    ensures
        ascii_lowercased(text).len() == text.len(),
        forall|i: int|
            0 <= i < text.len() ==> (#[trigger] ascii_lowercased(text)[i]) as int == if 65
                <= text[i] as int <= 90 {
                text[i] as int + 32
            } else {
                text[i] as int
            },
{
}

/// An ASCII line is the command to stop exactly where it begins with the four letters of the
/// word, in upper or lower case, and a blank or nothing but white space comes after them.
pub proof fn law_which_lines_stop_the_server(line: Seq<char>)
    ensures
        ascii_lowercased(first_word(ascii_trimmed(line))) == "stop"@ <==> {
            &&& line.len() >= 4
            &&& line[0] == 's' || line[0] == 'S'
            &&& line[1] == 't' || line[1] == 'T'
            &&& line[2] == 'o' || line[2] == 'O'
            &&& line[3] == 'p' || line[3] == 'P'
            &&& {
                ||| line.len() > 4 && line[4] == ' '
                ||| forall|i: int|
                    4 <= i < line.len() ==> #[trigger] line[i] == ' ' || 9 <= line[i] as int <= 13
            }
        },
{
    reveal_strlit("stop");
    law_only_ascii_space_is_cut_off(line);
    law_the_first_word_ends_at_a_blank(ascii_trimmed(line));
    let rest = ascii_trimmed(line);
    let word = first_word(rest);
    let lower = ascii_lowercased(word);
    assert forall|i: int| 0 <= i < word.len() implies word[i] == line[i] by {
        assert(rest[i] == line[i]);
    }
    law_only_capitals_change_in_lower_case(word);
    if lower == "stop"@ {
        assert(lower[0] == 's' && lower[1] == 't' && lower[2] == 'o' && lower[3] == 'p');
        if rest.len() > 4 {
            assert(rest[4] == line[4]);
        }
    } else if line.len() >= 4 && (line[0] == 's' || line[0] == 'S') && (line[1] == 't' || line[1]
        == 'T') && (line[2] == 'o' || line[2] == 'O') && (line[3] == 'p' || line[3] == 'P') {
        assert(rest.len() >= 4);
        if word.len() < 4 {
            assert(rest[word.len() as int] == line[word.len() as int]);
        }
        if word.len() == 4 {
            assert(lower =~= "stop"@);
        }
        assert(word[4] == line[4]);
        assert(rest[4] == line[4]);
        assert(rest[rest.len() - 1] == line[rest.len() - 1]);
    }
}

} // verus!
