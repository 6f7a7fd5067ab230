//! Transient tip messages: plain timed notices and yes/no confirmations.

use vstd::prelude::*;

verus! {

/// What kind of tip: a timed notice holding its remaining milliseconds, or
/// a confirmation holding whether it was answered.
#[allow(non_camel_case_types)]
#[derive(Debug, Clone)]
pub enum Type {
    normal(u64),
    confirm(bool),
}

#[derive(Debug, Clone)]
pub struct Tip {
    pub msg: String,
    pub typ: Type,
    pub simple: bool,
}

/// A yes/no confirmation tip; the question gets a " y/n" suffix.
#[allow(non_snake_case)]
pub fn Confirm(msg: &str) -> (r: Tip)
    ensures
        r.msg@ == msg@ + " y/n"@,
        r.typ == Type::confirm(false),
{
    let mut m = String::from_str(msg);
    m.append(" y/n");
    Tip { msg: m, typ: Type::confirm(false), simple: false }
}

/// A timed notice shown for the given number of milliseconds.
#[allow(non_snake_case)]
pub fn Msg(msg: &str, millis: u64) -> (r: Tip)
    ensures
        r.msg@ == msg@,
        r.typ == Type::normal(millis),
{
    Tip { msg: String::from_str(msg), typ: Type::normal(millis), simple: false }
}

/// A timed notice rendered in the small single-line form.
#[allow(non_snake_case)]
pub fn SimpleMsg(msg: &str, millis: u64) -> (r: Tip)
    ensures
        r.msg@ == msg@,
        r.typ == Type::normal(millis),
{
    Tip { msg: String::from_str(msg), typ: Type::normal(millis), simple: true }
}

impl Tip {
    /// One second passed: a timed notice runs down, saturating at zero; a
    /// confirmation is unaffected.
    pub fn tick(&mut self)
        ensures
            match old(self).typ {
                Type::normal(d) => final(self).typ == Type::normal(
                    if d >= 1000 { (d - 1000) as u64 } else { 0u64 },
                ),
                Type::confirm(_) => final(self).typ == old(self).typ,
            },
            final(self).msg == old(self).msg,
    {
        match self.typ {
            Type::normal(d) => {
                self.typ = Type::normal(if d >= 1000 { d - 1000 } else { 0 });
            },
            Type::confirm(_) => {},
        }
    }

    /// A confirmation was answered; a timed notice ignores answers.
    pub fn answer(&mut self)
        ensures
            match old(self).typ {
                Type::confirm(_) => final(self).typ == Type::confirm(true),
                Type::normal(_) => final(self).typ == old(self).typ,
            },
            final(self).msg == old(self).msg,
    {
        match self.typ {
            Type::confirm(_) => {
                self.typ = Type::confirm(true);
            },
            Type::normal(_) => {},
        }
    }

    /// A tip leaves the screen when its time ran out or it was answered.
    pub fn closed(&self) -> (r: bool)
        ensures
            r == match self.typ {
                Type::confirm(done) => done,
                Type::normal(d) => d == 0,
            },
    {
        match self.typ {
            Type::confirm(done) => done,
            Type::normal(d) => d == 0,
        }
    }
}

} // verus!
