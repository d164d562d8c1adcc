//! The command line, and the lines that one instance of the tool sends to
//! another that runs in the background.

use vstd::prelude::*;

use crate::cycle_state::CycleOp;
use crate::text::{
    decimal, is_digit, law_number_reads_back, number, parse_number, push_decimal, same, skip,
    starts_with, texts, unsigned_part,
};

verus! {

/// What the tool is asked to do.
#[derive(Debug, Clone, Copy, PartialEq, Eq, Structural)]
pub enum Command {
    /// Start everything.
    Start,
    /// Run in the background only.
    Daemon,
    /// Put all clients at the same place.
    Stack,
    /// Go to another client.
    Cycle(CycleOp),
    /// Stop every instance.
    Stop,
    /// Write the default configuration.
    InitConfig,
    /// Started without a command, as by a double click: start everything.
    Open,
    /// Show how the tool is used.
    Help,
}

/// The jump that a text names, or how the tool is used if it names none.
pub open spec fn jump(s: Seq<char>) -> Command {
    match number(s) {
        Some(n) => Command::Cycle(CycleOp::Switch(n)),
        None => Command::Help,
    }
}

/// What a command line asks for. Its first word is the name of the program.
pub open spec fn command_of(args: Seq<Seq<char>>) -> Command {
    if args.len() < 2 || args[1] == ""@ {
        Command::Open
    } else if args[1] == "start"@ {
        Command::Start
    } else if args[1] == "daemon"@ {
        Command::Daemon
    } else if args[1] == "stack"@ {
        Command::Stack
    } else if args[1] == "cycle-forward"@ || args[1] == "forward"@ || args[1] == "f"@ {
        Command::Cycle(CycleOp::Forward)
    } else if args[1] == "cycle-backward"@ || args[1] == "backward"@ || args[1] == "b"@ {
        Command::Cycle(CycleOp::Backward)
    } else if args[1] == "stop"@ {
        Command::Stop
    } else if args[1] == "init-config"@ {
        Command::InitConfig
    } else if args[1] == "switch"@ {
        if args.len() > 2 {
            jump(args[2])
        } else {
            Command::Help
        }
    } else {
        jump(args[1])
    }
}

fn jump_to(s: &str) -> (r: Command)
    ensures
        r == jump(s@),
{
    match parse_number(s) {
        Some(n) => Command::Cycle(CycleOp::Switch(n)),
        None => Command::Help,
    }
}

/// What a command line asks for.
pub fn parse_command(args: &Vec<String>) -> (r: Command)
    ensures
        r == command_of(texts(args@)),
{
    if args.len() < 2 {
        return Command::Open;
    }
    assert(texts(args@)[1] == args@[1]@);
    let word: &str = args[1].as_str();
    if same(word, "") {
        Command::Open
    } else if same(word, "start") {
        Command::Start
    } else if same(word, "daemon") {
        Command::Daemon
    } else if same(word, "stack") {
        Command::Stack
    } else if same(word, "cycle-forward") || same(word, "forward") || same(word, "f") {
        Command::Cycle(CycleOp::Forward)
    } else if same(word, "cycle-backward") || same(word, "backward") || same(word, "b") {
        Command::Cycle(CycleOp::Backward)
    } else if same(word, "stop") {
        Command::Stop
    } else if same(word, "init-config") {
        Command::InitConfig
    } else if same(word, "switch") {
        if args.len() > 2 {
            assert(texts(args@)[2] == args@[2]@);
            jump_to(args[2].as_str())
        } else {
            Command::Help
        }
    } else {
        jump_to(word)
    }
}

/// A number by itself is short for a jump to it.
pub proof fn law_number_is_short_for_switch(program: Seq<char>, s: Seq<char>)
    requires
        number(s) is Some,
    ensures
        command_of(seq![program, s]) == command_of(seq![program, "switch"@, s]),
        command_of(seq![program, s]) == Command::Cycle(CycleOp::Switch(number(s)->0)),
{
    reveal_strlit("");
    reveal_strlit("start");
    reveal_strlit("daemon");
    reveal_strlit("stack");
    reveal_strlit("cycle-forward");
    reveal_strlit("forward");
    reveal_strlit("f");
    reveal_strlit("cycle-backward");
    reveal_strlit("backward");
    reveal_strlit("b");
    reveal_strlit("stop");
    reveal_strlit("init-config");
    reveal_strlit("switch");
    let d = unsigned_part(s);
    assert(is_digit(d[0]));
    assert(s.len() > 0);
    assert(s[0] == '+' || is_digit(s[0])) by {
        if s[0] != '+' {
            assert(d == s);
        }
    }
    assert("switch"@[0] == 's');
    assert("switch"@.len() == 6);
    assert("start"@[2] == 'a' && "stack"@[2] == 'a' && "stop"@[2] == 'o');
    let long = seq![program, "switch"@, s];
    assert(long[1] == "switch"@);
    assert(long[1][0] == 's' && long[1][1] == 'w');
    assert("start"@[1] == 't' && "stack"@[1] == 't' && "stop"@[1] == 't');
    let word = seq![program, s][1];
    assert(word == s);
    assert("start"@[0] == 's' && "daemon"@[0] == 'd' && "stack"@[0] == 's');
    assert("cycle-forward"@[0] == 'c' && "forward"@[0] == 'f' && "f"@[0] == 'f');
    assert("cycle-backward"@[0] == 'c' && "backward"@[0] == 'b' && "b"@[0] == 'b');
    assert("stop"@[0] == 's' && "init-config"@[0] == 'i');
}

/// What one instance asks another for.
#[derive(Debug, Clone, Copy, PartialEq, Eq, Structural)]
pub enum Request {
    Cycle(CycleOp),
    Quit,
}

/// The line for a request.
pub open spec fn request_text(request: Request) -> Seq<char> {
    match request {
        Request::Cycle(CycleOp::Forward) => "forward"@,
        Request::Cycle(CycleOp::Backward) => "backward"@,
        Request::Cycle(CycleOp::Switch(n)) => "switch:"@ + decimal(n as nat),
        Request::Quit => "quit"@,
    }
}

/// The request that a line makes.
pub open spec fn request_of(line: Seq<char>) -> Option<Request> {
    if line == "forward"@ {
        Some(Request::Cycle(CycleOp::Forward))
    } else if line == "backward"@ {
        Some(Request::Cycle(CycleOp::Backward))
    } else if line == "quit"@ {
        Some(Request::Quit)
    } else if "switch:"@.is_prefix_of(line) {
        match number(line.skip("switch:"@.len() as int)) {
            Some(n) => Some(Request::Cycle(CycleOp::Switch(n))),
            None => None,
        }
    } else {
        None
    }
}

/// The line for a request.
pub fn request_line(request: Request) -> (r: String)
    ensures
        r@ == request_text(request),
{
    match request {
        Request::Cycle(CycleOp::Forward) => "forward".to_owned(),
        Request::Cycle(CycleOp::Backward) => "backward".to_owned(),
        Request::Cycle(CycleOp::Switch(n)) => {
            let mut r: String = "switch:".to_owned();
            push_decimal(&mut r, n);
            r
        },
        Request::Quit => "quit".to_owned(),
    }
}

/// The request that a line makes, if it makes one.
pub fn parse_request(line: &str) -> (r: Option<Request>)
    ensures
        r == request_of(line@),
{
    if same(line, "forward") {
        Some(Request::Cycle(CycleOp::Forward))
    } else if same(line, "backward") {
        Some(Request::Cycle(CycleOp::Backward))
    } else if same(line, "quit") {
        Some(Request::Quit)
    } else if starts_with(line, "switch:") {
        proof {
            reveal_strlit("switch:");
        }
        match parse_number(skip(line, 7).as_str()) {
            Some(n) => Some(Request::Cycle(CycleOp::Switch(n))),
            None => None,
        }
    } else {
        None
    }
}

/// Every request is understood as it was meant.
pub proof fn law_requests_are_understood(request: Request)
    ensures
        request_of(request_text(request)) == Some(request),
{
    reveal_strlit("forward");
    reveal_strlit("backward");
    reveal_strlit("quit");
    reveal_strlit("switch:");
    let line = request_text(request);
    assert("forward"@[0] == 'f' && "backward"@[0] == 'b' && "quit"@[0] == 'q');
    if let Request::Cycle(CycleOp::Switch(n)) = request {
        law_number_reads_back(n);
        assert(line[0] == "switch:"@[0]);
        assert(line.subrange(0, 7) =~= "switch:"@);
        assert(line.skip(7) =~= decimal(n as nat));
    }
}

/// What each word on the command line asks for. A number by itself is a jump, the
/// word `switch` takes the number behind it, and anything else is answered by
/// how the tool is used.
pub proof fn law_words_of_the_command_line(args: Seq<Seq<char>>)
    ensures
        args.len() < 2 || args[1].len() == 0 ==> command_of(args) == Command::Open,
        args.len() >= 2 && args[1] == "start"@ ==> command_of(args) == Command::Start,
        args.len() >= 2 && args[1] == "daemon"@ ==> command_of(args) == Command::Daemon,
        args.len() >= 2 && args[1] == "stack"@ ==> command_of(args) == Command::Stack,
        args.len() >= 2 && args[1] == "cycle-forward"@ ==> command_of(args)
            == Command::Cycle(CycleOp::Forward),
        args.len() >= 2 && args[1] == "forward"@ ==> command_of(args)
            == Command::Cycle(CycleOp::Forward),
        args.len() >= 2 && args[1] == "f"@ ==> command_of(args) == Command::Cycle(CycleOp::Forward),
        args.len() >= 2 && args[1] == "cycle-backward"@ ==> command_of(args)
            == Command::Cycle(CycleOp::Backward),
        args.len() >= 2 && args[1] == "backward"@ ==> command_of(args)
            == Command::Cycle(CycleOp::Backward),
        args.len() >= 2 && args[1] == "b"@ ==> command_of(args)
            == Command::Cycle(CycleOp::Backward),
        args.len() >= 2 && args[1] == "stop"@ ==> command_of(args) == Command::Stop,
        args.len() >= 2 && args[1] == "init-config"@ ==> command_of(args) == Command::InitConfig,
        args.len() == 2 && args[1] == "switch"@ ==> command_of(args) == Command::Help,
        args.len() > 2 && args[1] == "switch"@ ==> (number(args[2]) matches Some(n) ==> command_of(
            args,
        ) == Command::Cycle(CycleOp::Switch(n))),
        args.len() > 2 && args[1] == "switch"@ && number(args[2]) is None ==> command_of(args)
            == Command::Help,
        args.len() >= 2 ==> (number(args[1]) matches Some(n) ==> command_of(args)
            == Command::Cycle(CycleOp::Switch(n))),
        args.len() >= 2 && args[1].len() > 0 && args[1] != "switch"@ && number(args[1]) is None
            && args[1] != "start"@ && args[1] != "daemon"@ && args[1] != "stack"@
            && args[1] != "cycle-forward"@ && args[1] != "forward"@ && args[1] != "f"@
            && args[1] != "cycle-backward"@ && args[1] != "backward"@ && args[1] != "b"@
            && args[1] != "stop"@ && args[1] != "init-config"@ ==> command_of(args)
            == Command::Help,
{
    reveal_strlit("");
    reveal_strlit("start");
    reveal_strlit("daemon");
    reveal_strlit("stack");
    reveal_strlit("cycle-forward");
    reveal_strlit("forward");
    reveal_strlit("f");
    reveal_strlit("cycle-backward");
    reveal_strlit("backward");
    reveal_strlit("b");
    reveal_strlit("stop");
    reveal_strlit("init-config");
    reveal_strlit("switch");
    assert("start"@[3] == 'r' && "stack"@[3] == 'c');
    assert("daemon"@[0] == 'd' && "switch"@[0] == 's');
    assert("f"@[0] == 'f' && "b"@[0] == 'b');
    if args.len() >= 2 {
        if args[1].len() == 0 {
            assert(args[1] =~= ""@);
        }
        if number(args[1]) is Some {
            law_number_is_short_for_switch(args[0], args[1]);
            lemma_numbers_are_no_words(args[1]);
        }
    }
}

proof fn lemma_numbers_are_no_words(s: Seq<char>)
    requires
        number(s) is Some,
    ensures
        s.len() > 0,
        s[0] == '+' || is_digit(s[0]),
{
    let d = unsigned_part(s);
    assert(is_digit(d[0]));
    if s[0] != '+' {
        assert(d == s);
    }
}

/// Which lines make which request.
pub proof fn law_lines_of_requests(line: Seq<char>, n: usize)
    ensures
        request_of(line) == Some(Request::Cycle(CycleOp::Forward)) <==> line == "forward"@,
        request_of(line) == Some(Request::Cycle(CycleOp::Backward)) <==> line == "backward"@,
        request_of(line) == Some(Request::Quit) <==> line == "quit"@,
        request_of(line) == Some(Request::Cycle(CycleOp::Switch(n))) <==> "switch:"@.is_prefix_of(
            line,
        ) && number(line.skip(7)) == Some(n),
{
    reveal_strlit("forward");
    reveal_strlit("backward");
    reveal_strlit("quit");
    reveal_strlit("switch:");
    assert("forward"@[0] == 'f' && "backward"@[0] == 'b' && "quit"@[0] == 'q');
    if "switch:"@.is_prefix_of(line) {
        assert(line[0] == "switch:"@[0]);
    }
}

/// How each request is written.
pub proof fn law_requests_are_written(n: usize)
    ensures
        request_text(Request::Cycle(CycleOp::Forward)) == "forward"@,
        request_text(Request::Cycle(CycleOp::Backward)) == "backward"@,
        request_text(Request::Quit) == "quit"@,
        request_text(Request::Cycle(CycleOp::Switch(n))) == "switch:"@ + decimal(n as nat),
{
}

} // verus!
