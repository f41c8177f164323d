//! What the debugger front end reads from its prompt: the command that a
//! line of input stands for, the address that a breakpoint names, and the
//! list of breakpoints set.
//!
//! An address is written in hexadecimal, with or without a leading `0x`. The
//! grammar is stated on the bytes of the text: every character that may occur
//! in an address is a single byte.

use vstd::prelude::*;
use vstd::string::*;
use vstd::utf8::encode_utf8;
use vstd::utf8::encode_utf8_decode_utf8;

verus! {

/// A command of the debugger.
#[derive(Debug, PartialEq, Eq)]
pub enum DebuggerCommand {
    /// Leave the debugger.
    Quit,
    /// Start the program with these arguments.
    Run(Vec<String>),
    /// Let the stopped program go on.
    Cont,
    /// Print the call stack.
    Back,
    /// Set a breakpoint at this target.
    Break(String),
}

/// A command as a mathematical value.
pub enum CommandView {
    Quit,
    Run(Seq<Seq<char>>),
    Cont,
    Back,
    Break(Seq<char>),
}

impl View for DebuggerCommand {
    type V = CommandView;

    open spec fn view(&self) -> CommandView {
        match *self {
            DebuggerCommand::Quit => CommandView::Quit,
            DebuggerCommand::Run(args) => CommandView::Run(texts(args@)),
            DebuggerCommand::Cont => CommandView::Cont,
            DebuggerCommand::Back => CommandView::Back,
            DebuggerCommand::Break(target) => CommandView::Break(target@),
        }
    }
}

/// The texts that a list of strings holds.
pub open spec fn texts(strings: Seq<String>) -> Seq<Seq<char>> {
    Seq::new(strings.len(), |i: int| strings[i]@)
}

/// The texts that a list of tokens holds.
pub open spec fn token_texts(tokens: Seq<&str>) -> Seq<Seq<char>> {
    Seq::new(tokens.len(), |i: int| tokens[i]@)
}

/// The command that a line of tokens stands for. The first token names the
/// command, in full or by its short form. `run` takes the tokens behind it as
/// the program's arguments, `break` takes the one behind it as its target and
/// is no command without it. Any other line is no command.
pub open spec fn command_of(tokens: Seq<Seq<char>>) -> Option<CommandView> {
    if tokens.len() == 0 {
        None
    } else if tokens[0] == "q"@ || tokens[0] == "quit"@ {
        Some(CommandView::Quit)
    } else if tokens[0] == "r"@ || tokens[0] == "run"@ {
        Some(CommandView::Run(tokens.subrange(1, tokens.len() as int)))
    } else if tokens[0] == "c"@ || tokens[0] == "cont"@ || tokens[0] == "continue"@ {
        Some(CommandView::Cont)
    } else if tokens[0] == "bt"@ || tokens[0] == "back"@ || tokens[0] == "backtrace"@ {
        Some(CommandView::Back)
    } else if tokens[0] == "b"@ || tokens[0] == "break"@ {
        if tokens.len() >= 2 {
            Some(CommandView::Break(tokens[1]))
        } else {
            None
        }
    } else {
        None
    }
}

/// Whether two texts have the same characters. The texts are compared byte by
/// byte: two texts are the same exactly if their encodings are.
fn same_text(a: &str, b: &str) -> (same: bool)
    ensures
        same == (a@ == b@),
{
    let x = a.as_bytes();
    let y = b.as_bytes();
    if x.len() != y.len() {
        return false;
    }
    let mut i: usize = 0;
    while i < x.len()
        invariant
            i <= x.len(),
            x.len() == y.len(),
            x@ == encode_utf8(a@),
            y@ == encode_utf8(b@),
            x@.subrange(0, i as int) == y@.subrange(0, i as int),
        decreases x.len() - i,
    {
        if x[i] != y[i] {
            return false;
        }
        assert(x@.subrange(0, i + 1) =~= x@.subrange(0, i as int).push(x[i as int]));
        assert(y@.subrange(0, i + 1) =~= y@.subrange(0, i as int).push(y[i as int]));
        i = i + 1;
    }
    proof {
        assert(x@ =~= x@.subrange(0, i as int));
        assert(y@ =~= y@.subrange(0, i as int));
        encode_utf8_decode_utf8(a@);
        encode_utf8_decode_utf8(b@);
    }
    true
}

impl DebuggerCommand {
    /// Reads a command from the tokens of a line of input.
    pub fn from_tokens(tokens: &Vec<&str>) -> (command: Option<DebuggerCommand>)
        ensures
            match command {
                Some(c) => command_of(token_texts(tokens@)) == Some(c@),
                None => command_of(token_texts(tokens@)) is None,
            },
    {
        if tokens.len() == 0 {
            return None;
        }
        let name = tokens[0];
        if same_text(name, "q") || same_text(name, "quit") {
            Some(DebuggerCommand::Quit)
        } else if same_text(name, "r") || same_text(name, "run") {
            let mut args: Vec<String> = Vec::new();
            let mut i: usize = 1;
            while i < tokens.len()
                invariant
                    1 <= i <= tokens.len(),
                    args.len() == i - 1,
                    forall|j: int| 0 <= j < args.len() ==> (#[trigger] args[j])@ == tokens[j + 1]@,
                decreases tokens.len() - i,
            {
                args.push(tokens[i].to_owned());
                i = i + 1;
            }
            assert(texts(args@) =~= token_texts(tokens@).subrange(1, tokens.len() as int));
            Some(DebuggerCommand::Run(args))
        } else if same_text(name, "c") || same_text(name, "cont") || same_text(name, "continue") {
            Some(DebuggerCommand::Cont)
        } else if same_text(name, "bt") || same_text(name, "back") || same_text(
            name,
            "backtrace",
        ) {
            Some(DebuggerCommand::Back)
        } else if same_text(name, "b") || same_text(name, "break") {
            if tokens.len() >= 2 {
                Some(DebuggerCommand::Break(tokens[1].to_owned()))
            } else {
                None
            }
        } else {
            None
        }
    }
}

/// The value of a hexadecimal digit, for the bytes that are one.
pub open spec fn hex_digit(byte: u8) -> Option<nat> {
    if 0x30 <= byte <= 0x39 {
        Some((byte - 0x30) as nat)
    } else if 0x61 <= byte <= 0x66 {
        Some((byte - 0x61 + 10) as nat)
    } else if 0x41 <= byte <= 0x46 {
        Some((byte - 0x41 + 10) as nat)
    } else {
        None
    }
}

/// Every byte is a hexadecimal digit.
pub open spec fn all_hex(digits: Seq<u8>) -> bool {
    forall|i: int| 0 <= i < digits.len() ==> hex_digit(#[trigger] digits[i]) is Some
}

/// The number that a run of hexadecimal digits writes, most significant digit
/// first.
pub open spec fn hex_value(digits: Seq<u8>) -> nat
    decreases digits.len(),
{
    if digits.len() == 0 {
        0
    } else {
        hex_value(digits.drop_last()) * 16 + match hex_digit(digits.last()) {
            Some(d) => d,
            None => 0,
        }
    }
}

/// Where the digits of an address start, searching from `start`: behind a
/// `0x` or `0X` if there is one, and behind one `+` after that.
pub open spec fn digits_start(text: Seq<u8>, start: int) -> int {
    let body = if start + 2 <= text.len() && text[start] == 0x30 && (text[start + 1] == 0x78
        || text[start + 1] == 0x58) {
        start + 2
    } else {
        start
    };
    if body < text.len() && text[body] == 0x2b {
        body + 1
    } else {
        body
    }
}

/// The address written by the bytes of `text` from position `start` on, if
/// they write one: an optional `0x` or `0X`, an optional `+`, then at least
/// one hexadecimal digit and nothing else, with a value that a machine
/// address can hold.
pub open spec fn address_from(text: Seq<u8>, start: int) -> Option<usize> {
    let first = digits_start(text, start);
    let digits = text.subrange(first, text.len() as int);
    if 0 <= start <= text.len() && first < text.len() && all_hex(digits) && hex_value(digits)
        <= usize::MAX {
        Some(hex_value(digits) as usize)
    } else {
        None
    }
}

/// The address that `text` writes, if it writes one.
pub open spec fn parsed_address(text: Seq<u8>) -> Option<usize> {
    address_from(text, 0)
}

/// The address that a breakpoint target names, if it names one: a `*`
/// followed by an address.
pub open spec fn parsed_breakpoint(text: Seq<u8>) -> Option<usize> {
    if text.len() > 0 && text[0] == 0x2a {
        address_from(text, 1)
    } else {
        None
    }
}

/// The list of breakpoints once `address` has been set: a new address goes
/// to the end, a known one changes nothing.
pub open spec fn with_breakpoint(breakpoints: Seq<usize>, address: usize) -> Seq<usize> {
    if breakpoints.contains(address) {
        breakpoints
    } else {
        breakpoints.push(address)
    }
}

/// More digits never write a smaller number.
pub proof fn lemma_hex_value_prefix(digits: Seq<u8>, n: int)
    requires
        0 <= n <= digits.len(),
    ensures
        hex_value(digits.subrange(0, n)) <= hex_value(digits),
    decreases digits.len() - n,
{
    if n == digits.len() {
        assert(digits.subrange(0, n) =~= digits);
    } else {
        lemma_hex_value_prefix(digits, n + 1);
        assert(digits.subrange(0, n + 1).drop_last() =~= digits.subrange(0, n));
    }
}

/// The value of the byte as a hexadecimal digit, if it is one.
fn hex_digit_of(byte: u8) -> (digit: Option<usize>)
    ensures
        match digit {
            Some(d) => hex_digit(byte) == Some(d as nat) && d < 16,
            None => hex_digit(byte) is None,
        },
{
    if 0x30 <= byte && byte <= 0x39 {
        Some((byte - 0x30) as usize)
    } else if 0x61 <= byte && byte <= 0x66 {
        Some((byte - 0x61 + 10) as usize)
    } else if 0x41 <= byte && byte <= 0x46 {
        Some((byte - 0x41 + 10) as usize)
    } else {
        None
    }
}

/// Reads the address written by `text` from position `start` on.
fn parse_from(text: &[u8], start: usize) -> (parsed: Option<usize>)
    requires
        start <= text.len(),
    ensures
        parsed == address_from(text@, start as int),
{
    let n = text.len();
    let mut i: usize = start;
    if n - start >= 2 && text[start] == 0x30 && (text[start + 1] == 0x78 || text[start + 1]
        == 0x58) {
        i = start + 2;
    }
    if i < n && text[i] == 0x2b {
        i = i + 1;
    }
    if i >= n {
        return None;
    }
    let first = i;
    let ghost digits = text@.subrange(first as int, n as int);
    let mut value: usize = 0;
    while i < n
        invariant
            first <= i <= n,
            first < n,
            n == text.len(),
            start <= n,
            first == digits_start(text@, start as int),
            digits == text@.subrange(first as int, n as int),
            all_hex(digits.subrange(0, i - first)),
            value == hex_value(digits.subrange(0, i - first)),
        decreases n - i,
    {
        let ghost seen = digits.subrange(0, i - first);
        let ghost more = digits.subrange(0, i - first + 1);
        proof {
            assert(more.drop_last() =~= seen);
            assert(more.last() == text[i as int]);
            lemma_hex_value_prefix(digits, i - first + 1);
        }
        match hex_digit_of(text[i]) {
            None => {
                assert(hex_digit(digits[i - first]) is None);
                return None;
            },
            Some(d) => {
                if value > (usize::MAX - d) / 16 {
                    return None;
                }
                value = value * 16 + d;
                assert forall|j: int| 0 <= j < more.len() implies hex_digit(
                    #[trigger] more[j],
                ) is Some by {
                    if j < seen.len() {
                        assert(more[j] == seen[j]);
                    }
                }
            },
        }
        i = i + 1;
    }
    assert(digits.subrange(0, i - first) =~= digits);
    Some(value)
}

/// Reads an address as the user types it: hexadecimal, with or without a
/// leading `0x`. Returns `None` for a text that is no such address or whose
/// value is too large for a machine address.
pub fn parse_address(address: &str) -> (parsed: Option<usize>)
    ensures
        parsed == parsed_address(address.spec_bytes()),
{
    parse_from(address.as_bytes(), 0)
}

/// Reads the target of a breakpoint command: a `*` followed by an address.
/// Returns `None` for any other text.
pub fn parse_breakpoint(target: &str) -> (parsed: Option<usize>)
    ensures
        parsed == parsed_breakpoint(target.spec_bytes()),
{
    let text = target.as_bytes();
    if text.len() > 0 && text[0] == 0x2a {
        parse_from(text, 1)
    } else {
        None
    }
}

/// Sets a breakpoint at `address`, unless one is set there already, and
/// returns how many breakpoints are set afterwards.
pub fn set_breakpoint(breakpoints: &mut Vec<usize>, address: usize) -> (count: usize)
    ensures
        final(breakpoints)@ == with_breakpoint(old(breakpoints)@, address),
        count == final(breakpoints).len(),
{
    let mut i: usize = 0;
    let mut known = false;
    while i < breakpoints.len()
        invariant
            i <= breakpoints.len(),
            breakpoints@ == old(breakpoints)@,
            known <==> breakpoints@.subrange(0, i as int).contains(address),
        decreases breakpoints.len() - i,
    {
        let ghost seen = breakpoints@.subrange(0, i as int);
        let ghost more = breakpoints@.subrange(0, i + 1);
        if breakpoints[i] == address {
            known = true;
            assert(more[i as int] == address);
        } else {
            proof {
                if more.contains(address) {
                    let j = choose|j: int| 0 <= j < more.len() && more[j] == address;
                    assert(seen[j] == address);
                }
                if seen.contains(address) {
                    let j = choose|j: int| 0 <= j < seen.len() && seen[j] == address;
                    assert(more[j] == address);
                }
            }
        }
        i = i + 1;
    }
    assert(breakpoints@.subrange(0, i as int) =~= breakpoints@);
    if !known {
        breakpoints.push(address);
    }
    breakpoints.len()
}

/// What the debugger is to do for a command.
#[derive(Debug, PartialEq, Eq)]
pub enum Todo {
    /// Start the program with these arguments and report whether it
    /// started. If `kill_first` is set, a program is under way: kill it
    /// before.
    Start { kill_first: bool, args: Vec<String> },
    /// Let the program go on and report how it was left.
    Continue,
    /// Print the call stack of the program.
    Backtrace,
    /// Tell the user that no program is being run.
    NotRunning,
    /// Tell the user that the breakpoint stands, as one of `count`.
    BreakpointSet { count: usize },
    /// The target of the breakpoint names no address.
    BadBreakpoint,
    /// Leave the debugger. If `kill_first` is set, a program is under way:
    /// kill it before.
    Quit { kill_first: bool },
}

/// A task as a mathematical value.
pub enum TodoView {
    Start { kill_first: bool, args: Seq<Seq<char>> },
    Continue,
    Backtrace,
    NotRunning,
    BreakpointSet { count: usize },
    BadBreakpoint,
    Quit { kill_first: bool },
}

impl View for Todo {
    type V = TodoView;

    open spec fn view(&self) -> TodoView {
        match *self {
            Todo::Start { kill_first, args } => TodoView::Start { kill_first, args: texts(args@) },
            Todo::Continue => TodoView::Continue,
            Todo::Backtrace => TodoView::Backtrace,
            Todo::NotRunning => TodoView::NotRunning,
            Todo::BreakpointSet { count } => TodoView::BreakpointSet { count },
            Todo::BadBreakpoint => TodoView::BadBreakpoint,
            Todo::Quit { kill_first } => TodoView::Quit { kill_first },
        }
    }
}

/// What a debugging session is, mathematically: whether a program is held,
/// and the breakpoints set.
pub struct SessionView {
    pub has_inferior: bool,
    pub breakpoints: Seq<usize>,
}

impl SessionView {
    /// The session after `command`. Only a breakpoint command changes it.
    pub open spec fn after_command(self, command: CommandView) -> SessionView {
        match command {
            CommandView::Break(target) => match parsed_breakpoint(encode_utf8(target)) {
                Some(address) => SessionView {
                    has_inferior: self.has_inferior,
                    breakpoints: with_breakpoint(self.breakpoints, address),
                },
                None => self,
            },
            _ => self,
        }
    }

    /// What `command` asks for. Going on and the call stack need a program;
    /// starting and leaving kill the one that is held.
    pub open spec fn todo(self, command: CommandView) -> TodoView {
        match command {
            CommandView::Quit => TodoView::Quit { kill_first: self.has_inferior },
            CommandView::Run(args) => TodoView::Start { kill_first: self.has_inferior, args },
            CommandView::Cont => if self.has_inferior {
                TodoView::Continue
            } else {
                TodoView::NotRunning
            },
            CommandView::Back => if self.has_inferior {
                TodoView::Backtrace
            } else {
                TodoView::NotRunning
            },
            CommandView::Break(target) => match parsed_breakpoint(encode_utf8(target)) {
                Some(address) => TodoView::BreakpointSet {
                    count: with_breakpoint(self.breakpoints, address).len() as usize,
                },
                None => TodoView::BadBreakpoint,
            },
        }
    }
}

/// A debugging session: whether a program is held, and the breakpoints set.
pub struct Session {
    has_inferior: bool,
    breakpoints: Vec<usize>,
}

impl View for Session {
    type V = SessionView;

    closed spec fn view(&self) -> SessionView {
        SessionView { has_inferior: self.has_inferior, breakpoints: self.breakpoints@ }
    }
}

impl Session {
    /// A session that holds no program and has no breakpoint set.
    pub fn new() -> (session: Self)
        ensures
            session@ == (SessionView { has_inferior: false, breakpoints: Seq::<usize>::empty() }),
    {
        Session { has_inferior: false, breakpoints: Vec::new() }
    }

    /// Whether a program is held.
    pub fn has_inferior(&self) -> (held: bool)
        ensures
            held == self@.has_inferior,
    {
        self.has_inferior
    }

    /// The breakpoints set, in the order in which they were set.
    pub fn breakpoints(&self) -> (breakpoints: &Vec<usize>)
        ensures
            breakpoints@ == self@.breakpoints,
    {
        &self.breakpoints
    }

    /// Takes a command and says what the debugger is to do for it.
    pub fn command(&mut self, command: DebuggerCommand) -> (todo: Todo)
        ensures
            final(self)@ == old(self)@.after_command(command@),
            todo@ == old(self)@.todo(command@),
    {
        match command {
            DebuggerCommand::Quit => Todo::Quit { kill_first: self.has_inferior },
            DebuggerCommand::Run(args) => Todo::Start { kill_first: self.has_inferior, args },
            DebuggerCommand::Cont => if self.has_inferior {
                Todo::Continue
            } else {
                Todo::NotRunning
            },
            DebuggerCommand::Back => if self.has_inferior {
                Todo::Backtrace
            } else {
                Todo::NotRunning
            },
            DebuggerCommand::Break(target) => match parse_breakpoint(target.as_str()) {
                Some(address) => {
                    let count = set_breakpoint(&mut self.breakpoints, address);
                    Todo::BreakpointSet { count }
                },
                None => Todo::BadBreakpoint,
            },
        }
    }

    /// Takes note of whether the program asked for has started. One that has
    /// is held from now on and is to go on at once; after a failed start the
    /// session is as before.
    pub fn started(&mut self, started: bool) -> (todo: Option<Todo>)
        ensures
            final(self)@ == (SessionView {
                has_inferior: old(self)@.has_inferior || started,
                breakpoints: old(self)@.breakpoints,
            }),
            todo == if started {
                Some(Todo::Continue)
            } else {
                None
            },
    {
        if started {
            self.has_inferior = true;
            Some(Todo::Continue)
        } else {
            None
        }
    }

    /// Takes note of how the program was left when it last went on: one that
    /// exited or was killed by a signal is no longer held, one that stopped
    /// is.
    pub fn left(&mut self, gone: bool)
        ensures
            final(self)@ == (SessionView {
                has_inferior: old(self)@.has_inferior && !gone,
                breakpoints: old(self)@.breakpoints,
            }),
    {
        if gone {
            self.has_inferior = false;
        }
    }
}

} // verus!
