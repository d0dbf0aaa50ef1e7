//! Error taxonomy. Malformed (decode-time), invalid (validation-time),
//! link errors and runtime traps are kept strictly apart.
use vstd::prelude::*;
use crate::text::{join, join3, text, hex_lit, with_hex};

verus! {

/// A malformed binary: where decoding stopped and why.
#[derive(Clone, Debug)]
pub struct DecodeError {
    pub offset: usize,
    pub msg: String,
}

impl DecodeError {
    /// The human-readable description: the message and the offset in hex.
    pub fn message(&self) -> (r: String)
        ensures
            r@ == self.msg@ + seq![' ', '(', 'a', 't', ' ', 'o', 'f', 'f', 's', 'e', 't', ' ']
                + hex_lit(self.offset as nat) + seq![')'],
    {
        let a = join(self.msg.as_str(), " (at offset ");
        let b = with_hex(a.as_str(), self.offset as u64);
        let r = join(b.as_str(), ")");
        proof {
            reveal_strlit(" (at offset ");
            reveal_strlit(")");
            assert(" (at offset "@ =~= seq![' ', '(', 'a', 't', ' ', 'o', 'f', 'f', 's', 'e', 't', ' ']);
            assert(")"@ =~= seq![')']);
        }
        r
    }
}

/// An invalid module: why validation rejected it.
#[derive(Clone, Debug)]
pub struct ValidateError {
    pub msg: String,
}

impl ValidateError {
    pub fn message(&self) -> (r: String)
        ensures
            r@ == self.msg@,
    {
        text(self.msg.as_str())
    }
}

/// Runtime trap with a spec-canonical message.
#[derive(Clone, Debug, PartialEq, Eq)]
pub struct Trap {
    pub msg: String,
}

impl Trap {
    pub fn new(msg: &str) -> (t: Trap)
        ensures
            t.msg@ == msg@,
    {
        Trap { msg: text(msg) }
    }

    pub fn message(&self) -> (r: String)
        ensures
            r@ == self.msg@,
    {
        text(self.msg.as_str())
    }
}

/// Instantiation failure.
#[derive(Clone, Debug)]
pub enum InstError {
    /// Import resolution or matching failed.
    Link(String),
    /// A trap occurred while applying segments or running start.
    Trap(Trap),
}

impl InstError {
    pub fn message(&self) -> (r: String)
        ensures
            r@ == match self {
                InstError::Link(m) => "link error: "@ + m@,
                InstError::Trap(t) => "trap: "@ + t.msg@,
            },
    {
        match self {
            InstError::Link(m) => join("link error: ", m.as_str()),
            InstError::Trap(t) => join("trap: ", t.msg.as_str()),
        }
    }
}

/// Failure of an invocation or export lookup.
#[derive(Clone, Debug)]
pub enum InvokeError {
    NoSuchExport(String),
    KindMismatch(String),
    ArgMismatch(String),
    Trap(Trap),
}

impl InvokeError {
    pub fn message(&self) -> (r: String)
        ensures
            r@ == match self {
                InvokeError::NoSuchExport(n) => "no such export: "@ + n@,
                InvokeError::KindMismatch(m) => "export kind mismatch: "@ + m@,
                InvokeError::ArgMismatch(m) => "argument mismatch: "@ + m@,
                InvokeError::Trap(t) => "trap: "@ + t.msg@,
            },
    {
        match self {
            InvokeError::NoSuchExport(n) => join("no such export: ", n.as_str()),
            InvokeError::KindMismatch(m) => join("export kind mismatch: ", m.as_str()),
            InvokeError::ArgMismatch(m) => join("argument mismatch: ", m.as_str()),
            InvokeError::Trap(t) => join("trap: ", t.msg.as_str()),
        }
    }
}

} // verus!
