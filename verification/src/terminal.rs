//! How messages are written to the terminal.
use vstd::prelude::*;
use crate::text::concat;

verus! {

/// The kinds of message, each with its coloured mark.
#[derive(PartialEq, Eq, Structural, Clone, Copy, Debug)]
pub enum LogKind {
    Status,
    Help,
    Success,
    Warning,
    Error,
}

/// The coloured mark of a kind of message.
pub open spec fn mark_spec(kind: LogKind) -> Seq<char> {
    match kind {
        LogKind::Status => "\x1b[94m\x1b[1m• \x1b[0m"@,
        LogKind::Help => "\x1b[92m\x1b[1m? \x1b[0m"@,
        LogKind::Success => "\x1b[92m\x1b[1m✓ \x1b[0m"@,
        LogKind::Warning => "\x1b[93m\x1b[1m! \x1b[0m"@,
        LogKind::Error => "\x1b[91m\x1b[1mX \x1b[0m"@,
    }
}

/// How deep the messages of a thread are indented: each message indents those written while
/// it is in scope by one more tab.
pub struct LogContext {
    indentation: usize,
}

impl LogContext {
    /// The indentation level.
    pub closed spec fn level(&self) -> nat {
        self.indentation as nat
    }

    /// No indentation.
    pub fn new() -> (res: Self)
        ensures
            res.level() == 0,
    {
        LogContext { indentation: 0 }
    }

    pub fn set_indentation(&mut self, indentation: usize)
        ensures
            final(self).level() == indentation,
    {
        self.indentation = indentation;
    }

    pub fn get_indentation(&self) -> (res: usize)
        ensures
            res == self.level(),
    {
        self.indentation
    }

    /// A message was written: those that follow while it is in scope go one level deeper.
    pub fn enter(&mut self)
        requires
            old(self).level() < usize::MAX,
        ensures
            final(self).level() == old(self).level() + 1,
    {
        self.indentation = self.indentation + 1;
    }

    /// A message went out of scope: the level it added is taken back.
    pub fn leave(&mut self)
        requires
            old(self).level() > 0,
        ensures
            final(self).level() == old(self).level() - 1,
    {
        self.indentation = self.indentation - 1;
    }
}

/// `n` tabs.
pub open spec fn tabs(n: nat) -> Seq<char> {
    Seq::new(n, |i: int| '\t')
}

/// The line written for a message: one tab per level of indentation, the kind's mark, the
/// message and a line break.
pub fn log_line(indentation: usize, kind: LogKind, message: &str) -> (res: String)
    ensures
        res@ == tabs(indentation as nat) + mark_spec(kind) + message@ + "\n"@,
{
    proof {
        reveal_strlit("\t");
        assert("\t"@ =~= seq!['\t']);
    }
    let mut prefix = String::new();
    let mut i: usize = 0;
    while i < indentation
        invariant
            i <= indentation,
            prefix@ == tabs(i as nat),
            "\t"@ == seq!['\t'],
        decreases indentation - i,
    {
        prefix.append("\t");
        i = i + 1;
        assert(prefix@ =~= tabs(i as nat));
    }
    let mark = match kind {
        LogKind::Status => "\x1b[94m\x1b[1m• \x1b[0m",
        LogKind::Help => "\x1b[92m\x1b[1m? \x1b[0m",
        LogKind::Success => "\x1b[92m\x1b[1m✓ \x1b[0m",
        LogKind::Warning => "\x1b[93m\x1b[1m! \x1b[0m",
        LogKind::Error => "\x1b[91m\x1b[1mX \x1b[0m",
    };
    let a = concat(prefix.as_str(), mark);
    let b = concat(a.as_str(), message);
    concat(b.as_str(), "\n")
}

} // verus!
