use vstd::prelude::*;
use crate::text::{
    chars_of, copy_range, eq_str, find_whitespace, find_ws, lemma_trim_idempotent, string_of, trim,
    trim_chars,
};

verus! {

/// A slash command typed on the command line.
#[derive(Debug, PartialEq)]
pub enum Command {
    Zhihu,
    V2ex,
    Hupu,
    Nga,
    LinuxDo,
    Hot,
    Refresh,
    Search(String),
    Login,
    Help,
    Back,
    Quit,
    /// Show the stock watch list.
    Stock,
    /// Add a stock code to the watch list.
    AddStock(String),
    /// Remove a stock code from the watch list.
    DeleteStock(String),
    Unknown(String),
}

/// A command as a mathematical value.
pub enum SpecCommand {
    Zhihu,
    V2ex,
    Hupu,
    Nga,
    LinuxDo,
    Hot,
    Refresh,
    Search(Seq<char>),
    Login,
    Help,
    Back,
    Quit,
    Stock,
    AddStock(Seq<char>),
    DeleteStock(Seq<char>),
    Unknown(Seq<char>),
}

impl View for Command {
    type V = SpecCommand;

    open spec fn view(&self) -> SpecCommand {
        match self {
            Command::Zhihu => SpecCommand::Zhihu,
            Command::V2ex => SpecCommand::V2ex,
            Command::Hupu => SpecCommand::Hupu,
            Command::Nga => SpecCommand::Nga,
            Command::LinuxDo => SpecCommand::LinuxDo,
            Command::Hot => SpecCommand::Hot,
            Command::Refresh => SpecCommand::Refresh,
            Command::Search(q) => SpecCommand::Search(q@),
            Command::Login => SpecCommand::Login,
            Command::Help => SpecCommand::Help,
            Command::Back => SpecCommand::Back,
            Command::Quit => SpecCommand::Quit,
            Command::Stock => SpecCommand::Stock,
            Command::AddStock(c) => SpecCommand::AddStock(c@),
            Command::DeleteStock(c) => SpecCommand::DeleteStock(c@),
            Command::Unknown(s) => SpecCommand::Unknown(s@),
        }
    }
}

/// The command word and its (trimmed) argument: the line is cut at its first
/// whitespace character, which belongs to neither part.
pub open spec fn head_rest(line: Seq<char>) -> (Seq<char>, Seq<char>) {
    match find_ws(line, 0) {
        Some(j) => (line.take(j), trim(line.skip(j + 1))),
        None => (line, Seq::empty()),
    }
}

/// What a command line means.
pub open spec fn spec_parse(s: Seq<char>) -> SpecCommand {
    let line = trim(s);
    let head = head_rest(line).0;
    let rest = head_rest(line).1;
    if head == "/zhihu"@ {
        SpecCommand::Zhihu
    } else if head == "/v2ex"@ {
        SpecCommand::V2ex
    } else if head == "/hupu"@ {
        SpecCommand::Hupu
    } else if head == "/nga"@ {
        SpecCommand::Nga
    } else if head == "/linuxdo"@ {
        SpecCommand::LinuxDo
    } else if head == "/hot"@ {
        SpecCommand::Hot
    } else if head == "/refresh"@ {
        SpecCommand::Refresh
    } else if head == "/login"@ {
        SpecCommand::Login
    } else if head == "/help"@ || head == "/?"@ || head == "/h"@ {
        SpecCommand::Help
    } else if head == "/back"@ {
        SpecCommand::Back
    } else if head == "/quit"@ {
        SpecCommand::Quit
    } else if head == "/stock"@ {
        SpecCommand::Stock
    } else if head == "/add"@ && rest.len() > 0 {
        SpecCommand::AddStock(rest)
    } else if head == "/delete"@ && rest.len() > 0 {
        SpecCommand::DeleteStock(rest)
    } else if head == "/search"@ && rest.len() > 0 {
        SpecCommand::Search(rest)
    } else {
        SpecCommand::Unknown(line)
    }
}

/// Parsing a line gives what parsing it trimmed gives; an unknown command
/// carries the trimmed line; a search carries a non-empty query without
/// surrounding whitespace.
pub proof fn law_parse_ignores_surrounding_space(s: Seq<char>)
    ensures
        spec_parse(trim(s)) == spec_parse(s),
        spec_parse(s) matches SpecCommand::Unknown(u) ==> u == trim(s),
        spec_parse(s) matches SpecCommand::Search(q) ==> q.len() > 0 && trim(q) == q,
{
    lemma_trim_idempotent(s);
    let line = trim(s);
    if let Some(j) = find_ws(line, 0) {
        lemma_trim_idempotent(line.skip(j + 1));
    }
}

/// Parse a slash-command line into a `Command`.
pub fn parse(line: &str) -> (c: Command)
    ensures
        c@ == spec_parse(line@),
{
    let all = chars_of(line);
    let t = trim_chars(&all);
    let (head, rest) = match find_whitespace(&t) {
        Some(j) => {
            let n = t.len();
            assert(j < n);
            let r = copy_range(&t, j + 1, n);
            assert(r@ =~= t@.skip(j + 1));
            let h = copy_range(&t, 0, j);
            assert(h@ =~= t@.take(j as int));
            (h, trim_chars(&r))
        },
        None => (t.clone(), Vec::new()),
    };
    assert(head@ == head_rest(t@).0 && rest@ == head_rest(t@).1);
    if eq_str(&head, "/zhihu") {
        Command::Zhihu
    } else if eq_str(&head, "/v2ex") {
        Command::V2ex
    } else if eq_str(&head, "/hupu") {
        Command::Hupu
    } else if eq_str(&head, "/nga") {
        Command::Nga
    } else if eq_str(&head, "/linuxdo") {
        Command::LinuxDo
    } else if eq_str(&head, "/hot") {
        Command::Hot
    } else if eq_str(&head, "/refresh") {
        Command::Refresh
    } else if eq_str(&head, "/login") {
        Command::Login
    } else if eq_str(&head, "/help") || eq_str(&head, "/?") || eq_str(&head, "/h") {
        Command::Help
    } else if eq_str(&head, "/back") {
        Command::Back
    } else if eq_str(&head, "/quit") {
        Command::Quit
    } else if eq_str(&head, "/stock") {
        Command::Stock
    } else if eq_str(&head, "/add") && rest.len() > 0 {
        Command::AddStock(string_of(rest.as_slice()))
    } else if eq_str(&head, "/delete") && rest.len() > 0 {
        Command::DeleteStock(string_of(rest.as_slice()))
    } else if eq_str(&head, "/search") && rest.len() > 0 {
        Command::Search(string_of(rest.as_slice()))
    } else {
        Command::Unknown(string_of(t.as_slice()))
    }
}

} // verus!
