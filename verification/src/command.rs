//! Keyboard commands of the recorder.

use vstd::prelude::*;
use crate::text::{
    ascii_upper, ascii_uppercase, chars_eq, chars_of, is_blank, string_of, trim,
    trim_commutes_with_ascii_upper, trim_ignores_surrounding_whitespace, trimmed,
};

verus! {

/// A line typed by the user, as the recorder understands it.
#[derive(Debug, PartialEq, Eq)]
pub enum Command {
    /// `a` / `accident`: save the clips around an accident.
    Accident,
    /// `e` / `event` / `manual`: save the clips around a manual event.
    Manual,
    /// `i` / `init`: re-initialise both cameras before their next clip.
    Init,
    /// `f` / `stop`: stop recording.
    Stop,
    /// A line with nothing but whitespace.
    Empty,
    /// Anything else, in its normalised form.
    Unknown(String),
}

/// Where and under which names a save request files its clips.
#[derive(Debug, Clone, Copy, PartialEq, Eq)]
pub struct SaveRequest {
    /// Prefix of the event id (`<prefix>_<timestamp>`).
    pub prefix: &'static str,
    /// Label shown in messages.
    pub label: &'static str,
    /// Folder under the camera directory that receives the clips.
    pub target: &'static str,
}

/// The form in which a command is matched: without surrounding whitespace,
/// ASCII letters in upper case.
pub open spec fn normalized(line: Seq<char>) -> Seq<char> {
    ascii_upper(trim(line))
}

pub open spec fn is_accident(u: Seq<char>) -> bool {
    u == "A"@ || u == "ACCIDENT"@
}

pub open spec fn is_manual(u: Seq<char>) -> bool {
    u == "E"@ || u == "EVENT"@ || u == "MANUAL"@
}

pub open spec fn is_init(u: Seq<char>) -> bool {
    u == "I"@ || u == "INIT"@
}

pub open spec fn is_stop(u: Seq<char>) -> bool {
    u == "F"@ || u == "STOP"@
}

/// The command a line means, matched on its normalised form.
pub fn parse_command(line: &str) -> (c: Command)
    ensures
        (c is Accident) == is_accident(normalized(line@)),
        (c is Manual) == is_manual(normalized(line@)),
        (c is Init) == is_init(normalized(line@)),
        (c is Stop) == is_stop(normalized(line@)),
        (c is Empty) == (normalized(line@).len() == 0),
        match c {
            Command::Unknown(s) => s@ == normalized(line@),
            _ => true,
        },
{
    let u = ascii_uppercase(&trimmed(line));
    let a = chars_eq(&u, &chars_of("A"));
    let accident = chars_eq(&u, &chars_of("ACCIDENT"));
    let e = chars_eq(&u, &chars_of("E"));
    let event = chars_eq(&u, &chars_of("EVENT"));
    let manual = chars_eq(&u, &chars_of("MANUAL"));
    let i = chars_eq(&u, &chars_of("I"));
    let init = chars_eq(&u, &chars_of("INIT"));
    let f = chars_eq(&u, &chars_of("F"));
    let stop = chars_eq(&u, &chars_of("STOP"));
    proof {
        reveal_strlit("A");
        assert("A"@ =~= seq!['A']);
        reveal_strlit("ACCIDENT");
        assert("ACCIDENT"@ =~= seq!['A', 'C', 'C', 'I', 'D', 'E', 'N', 'T']);
        reveal_strlit("E");
        assert("E"@ =~= seq!['E']);
        reveal_strlit("EVENT");
        assert("EVENT"@ =~= seq!['E', 'V', 'E', 'N', 'T']);
        reveal_strlit("MANUAL");
        assert("MANUAL"@ =~= seq!['M', 'A', 'N', 'U', 'A', 'L']);
        reveal_strlit("I");
        assert("I"@ =~= seq!['I']);
        reveal_strlit("INIT");
        assert("INIT"@ =~= seq!['I', 'N', 'I', 'T']);
        reveal_strlit("F");
        assert("F"@ =~= seq!['F']);
        reveal_strlit("STOP");
        assert("STOP"@ =~= seq!['S', 'T', 'O', 'P']);
    }
    proof {
        if u@.len() > 0 {
            let first = u@[0];
            assert(u@ == "A"@ ==> first == 'A');
            assert(u@ == "E"@ ==> first == 'E');
            assert(u@ == "I"@ ==> first == 'I');
            assert(u@ == "F"@ ==> first == 'F');
            assert(u@ == "INIT"@ ==> first == 'I');
            assert(u@ == "STOP"@ ==> first == 'S');
        }
    }
    if a || accident {
        Command::Accident
    } else if e || event || manual {
        Command::Manual
    } else if i || init {
        Command::Init
    } else if f || stop {
        Command::Stop
    } else if u.len() == 0 {
        Command::Empty
    } else {
        Command::Unknown(string_of(&u))
    }
}

impl Command {
    /// The save that an accident or manual command requests.
    pub fn save_request(&self) -> (r: Option<SaveRequest>)
        ensures
            match self {
                Command::Accident => r matches Some(q) && q.prefix@ == "ACCIDENT"@ && q.label@
                    == "事故"@ && q.target@ == "event"@,
                Command::Manual => r matches Some(q) && q.prefix@ == "MANUAL"@ && q.label@
                    == "手動"@ && q.target@ == "manual"@,
                _ => r is None,
            },
    {
        match self {
            Command::Accident => Some(SaveRequest { prefix: "ACCIDENT", label: "事故", target: "event" }),
            Command::Manual => Some(SaveRequest { prefix: "MANUAL", label: "手動", target: "manual" }),
            _ => None,
        }
    }
}

/// Commands are matched regardless of surrounding whitespace and of the
/// case of ASCII letters: two lines with the same normalised form mean the
/// same command.
pub proof fn command_ignores_case_and_spacing(a: Seq<char>, b: Seq<char>)
    requires
        normalized(a) == normalized(b),
    ensures
        is_accident(normalized(a)) == is_accident(normalized(b)),
        is_manual(normalized(a)) == is_manual(normalized(b)),
        is_init(normalized(a)) == is_init(normalized(b)),
        is_stop(normalized(a)) == is_stop(normalized(b)),
{
}

/// The words of each command, in upper case: `A`/`ACCIDENT`,
/// `E`/`EVENT`/`MANUAL`, `I`/`INIT` and `F`/`STOP`.
pub proof fn command_words(u: Seq<char>)
    ensures
        is_accident(u) <==> (u == seq!['A'] || u == seq!['A', 'C', 'C', 'I', 'D', 'E', 'N', 'T']),
        is_manual(u) <==> (u == seq!['E'] || u == seq!['E', 'V', 'E', 'N', 'T'] || u == seq!['M', 'A', 'N', 'U', 'A', 'L']),
        is_init(u) <==> (u == seq!['I'] || u == seq!['I', 'N', 'I', 'T']),
        is_stop(u) <==> (u == seq!['F'] || u == seq!['S', 'T', 'O', 'P']),
{
    reveal_strlit("A");
    assert("A"@ =~= seq!['A']);
    reveal_strlit("ACCIDENT");
    assert("ACCIDENT"@ =~= seq!['A', 'C', 'C', 'I', 'D', 'E', 'N', 'T']);
    reveal_strlit("E");
    assert("E"@ =~= seq!['E']);
    reveal_strlit("EVENT");
    assert("EVENT"@ =~= seq!['E', 'V', 'E', 'N', 'T']);
    reveal_strlit("MANUAL");
    assert("MANUAL"@ =~= seq!['M', 'A', 'N', 'U', 'A', 'L']);
    reveal_strlit("I");
    assert("I"@ =~= seq!['I']);
    reveal_strlit("INIT");
    assert("INIT"@ =~= seq!['I', 'N', 'I', 'T']);
    reveal_strlit("F");
    assert("F"@ =~= seq!['F']);
    reveal_strlit("STOP");
    assert("STOP"@ =~= seq!['S', 'T', 'O', 'P']);
}

/// Whitespace around a typed line does not change the command it means.
pub proof fn command_ignores_surrounding_whitespace(w1: Seq<char>, line: Seq<char>, w2: Seq<char>)
    requires
        is_blank(w1),
        is_blank(w2),
    ensures
        normalized(w1 + line + w2) == normalized(line),
{
    trim_ignores_surrounding_whitespace(w1, line, w2);
}

/// Lines that differ only in the case of ASCII letters mean the same
/// command.
pub proof fn command_ignores_ascii_case(a: Seq<char>, b: Seq<char>)
    requires
        ascii_upper(a) == ascii_upper(b),
    ensures
        normalized(a) == normalized(b),
{
    trim_commutes_with_ascii_upper(a);
    trim_commutes_with_ascii_upper(b);
}

} // verus!
