//! Answers for the number operations the library cannot compute itself.
//!
//! Double-precision arithmetic, the conversion of a number literal's text to
//! a bit pattern, and the rendering of a number as text are floating-point
//! work. The pipeline instead looks each result up in a [`NumOracle`] that
//! the caller fills. When an answer is missing, the pipeline returns the
//! [`NumQuery`] naming it; the caller computes the answer with its own
//! floating-point unit, records it, and runs the pipeline again. Entries are
//! looked up by first match, so a recorded answer never changes.

use vstd::prelude::*;

verus! {

/// One of the four arithmetic operations on numbers.
#[derive(Debug, PartialEq, Eq, Structural, Clone, Copy)]
pub enum ArithOp {
    Add,
    Sub,
    Mul,
    Div,
}

/// A number operation whose answer the library asks its caller for: parse a
/// number literal's text to a bit pattern, apply an arithmetic operation to
/// two patterns, or render a pattern as text.
pub enum NumQuery {
    ParseNum { text: String },
    Arith { op: ArithOp, left: u64, right: u64 },
    FormatNum { bits: u64 },
}

/// The mathematical image of a query.
pub ghost enum NumQueryV {
    ParseNum { text: Seq<char> },
    Arith { op: ArithOp, left: u64, right: u64 },
    FormatNum { bits: u64 },
}

impl View for NumQuery {
    type V = NumQueryV;

    open spec fn view(&self) -> NumQueryV {
        match self {
            NumQuery::ParseNum { text } => NumQueryV::ParseNum { text: text@ },
            NumQuery::Arith { op, left, right } => NumQueryV::Arith {
                op: *op,
                left: *left,
                right: *right,
            },
            NumQuery::FormatNum { bits } => NumQueryV::FormatNum { bits: *bits },
        }
    }
}

/// Recorded answers: literal text to bit pattern, arithmetic results, and
/// bit pattern to rendered text.
pub struct NumOracle {
    parses: Vec<(String, u64)>,
    ariths: Vec<(ArithOp, u64, u64, u64)>,
    formats: Vec<(u64, String)>,
}

/// The mathematical image of an oracle: its three answer tables.
pub ghost struct NumOracleV {
    pub parses: Seq<(Seq<char>, u64)>,
    pub ariths: Seq<(ArithOp, u64, u64, u64)>,
    pub formats: Seq<(u64, Seq<char>)>,
}

impl View for NumOracle {
    type V = NumOracleV;

    closed spec fn view(&self) -> NumOracleV {
        NumOracleV {
            parses: self.parses@.map_values(|p: (String, u64)| (p.0@, p.1)),
            ariths: self.ariths@,
            formats: self.formats@.map_values(|p: (u64, String)| (p.0, p.1@)),
        }
    }
}

/// The first recorded bit pattern for a literal text, if any.
pub open spec fn lookup_parse(entries: Seq<(Seq<char>, u64)>, text: Seq<char>) -> Option<u64>
    decreases entries.len(),
{
    if entries.len() == 0 {
        None
    } else if entries[0].0 == text {
        Some(entries[0].1)
    } else {
        lookup_parse(entries.drop_first(), text)
    }
}

/// The first recorded result of an arithmetic operation, if any.
pub open spec fn lookup_arith(
    entries: Seq<(ArithOp, u64, u64, u64)>,
    op: ArithOp,
    left: u64,
    right: u64,
) -> Option<u64>
    decreases entries.len(),
{
    if entries.len() == 0 {
        None
    } else if entries[0].0 == op && entries[0].1 == left && entries[0].2 == right {
        Some(entries[0].3)
    } else {
        lookup_arith(entries.drop_first(), op, left, right)
    }
}

/// The first recorded rendering of a bit pattern, if any.
pub open spec fn lookup_format(entries: Seq<(u64, Seq<char>)>, bits: u64) -> Option<Seq<char>>
    decreases entries.len(),
{
    if entries.len() == 0 {
        None
    } else if entries[0].0 == bits {
        Some(entries[0].1)
    } else {
        lookup_format(entries.drop_first(), bits)
    }
}

impl NumOracle {
    /// An oracle with no recorded answers.
    pub fn new() -> (r: Self)
        ensures
            r@.parses == Seq::<(Seq<char>, u64)>::empty(),
            r@.ariths == Seq::<(ArithOp, u64, u64, u64)>::empty(),
            r@.formats == Seq::<(u64, Seq<char>)>::empty(),
    {
        let r = NumOracle { parses: Vec::new(), ariths: Vec::new(), formats: Vec::new() };
        proof {
            assert(r@.parses =~= Seq::<(Seq<char>, u64)>::empty());
            assert(r@.formats =~= Seq::<(u64, Seq<char>)>::empty());
        }
        r
    }

    /// The recorded bit pattern for a number literal's text.
    pub fn parse_answer(&self, text: &String) -> (r: Option<u64>)
        ensures
            r == lookup_parse(self@.parses, text@),
    {
        let ghost all = self@.parses;
        proof {
            assert(all.skip(0) =~= all);
        }
        let mut i: usize = 0;
        while i < self.parses.len()
            invariant
                0 <= i <= self.parses.len(),
                all == self@.parses,
                all.len() == self.parses.len(),
                forall|j: int| 0 <= j < all.len() ==> all[j] == (self.parses@[j].0@, self.parses@[j].1),
                lookup_parse(all, text@) == lookup_parse(all.skip(i as int), text@),
            decreases self.parses.len() - i,
        {
            proof {
                assert(all.skip(i as int)[0] == all[i as int]);
            }
            if self.parses[i].0 == *text {
                return Some(self.parses[i].1);
            }
            proof {
                assert(all.skip(i as int).drop_first() =~= all.skip(i as int + 1));
            }
            i = i + 1;
        }
        proof {
            assert(all.skip(i as int).len() == 0);
        }
        None
    }

    /// The recorded result of an arithmetic operation on two patterns.
    pub fn arith_answer(&self, op: ArithOp, left: u64, right: u64) -> (r: Option<u64>)
        ensures
            r == lookup_arith(self@.ariths, op, left, right),
    {
        let ghost all = self@.ariths;
        proof {
            assert(all.skip(0) =~= all);
        }
        let mut i: usize = 0;
        while i < self.ariths.len()
            invariant
                0 <= i <= self.ariths.len(),
                all == self.ariths@,
                lookup_arith(all, op, left, right) == lookup_arith(
                    all.skip(i as int),
                    op,
                    left,
                    right,
                ),
            decreases self.ariths.len() - i,
        {
            proof {
                assert(all.skip(i as int)[0] == all[i as int]);
            }
            let e = self.ariths[i];
            if e.0 == op && e.1 == left && e.2 == right {
                return Some(e.3);
            }
            proof {
                assert(all.skip(i as int).drop_first() =~= all.skip(i as int + 1));
            }
            i = i + 1;
        }
        None
    }

    /// The recorded rendering of a bit pattern.
    pub fn format_answer(&self, bits: u64) -> (r: Option<String>)
        ensures
            match r {
                Some(s) => lookup_format(self@.formats, bits) == Some(s@),
                None => lookup_format(self@.formats, bits) is None,
            },
    {
        let ghost all = self@.formats;
        proof {
            assert(all.skip(0) =~= all);
        }
        let mut i: usize = 0;
        while i < self.formats.len()
            invariant
                0 <= i <= self.formats.len(),
                all == self@.formats,
                all.len() == self.formats.len(),
                forall|j: int| 0 <= j < all.len() ==> all[j] == (
                    self.formats@[j].0,
                    self.formats@[j].1@,
                ),
                lookup_format(all, bits) == lookup_format(all.skip(i as int), bits),
            decreases self.formats.len() - i,
        {
            proof {
                assert(all.skip(i as int)[0] == all[i as int]);
            }
            if self.formats[i].0 == bits {
                return Some(self.formats[i].1.clone());
            }
            proof {
                assert(all.skip(i as int).drop_first() =~= all.skip(i as int + 1));
            }
            i = i + 1;
        }
        None
    }

    /// Records the bit pattern that a number literal's text denotes.
    pub fn add_parse(&mut self, text: String, bits: u64)
        ensures
            final(self)@.parses == old(self)@.parses.push((text@, bits)),
            final(self)@.ariths == old(self)@.ariths,
            final(self)@.formats == old(self)@.formats,
    {
        let ghost t = text@;
        self.parses.push((text, bits));
        proof {
            assert(self@.parses =~= old(self)@.parses.push((t, bits)));
            assert(self@.formats =~= old(self)@.formats);
        }
    }

    /// Records the result of an arithmetic operation on two patterns.
    pub fn add_arith(&mut self, op: ArithOp, left: u64, right: u64, result: u64)
        ensures
            final(self)@.ariths == old(self)@.ariths.push((op, left, right, result)),
            final(self)@.parses == old(self)@.parses,
            final(self)@.formats == old(self)@.formats,
    {
        self.ariths.push((op, left, right, result));
        proof {
            assert(self@.parses =~= old(self)@.parses);
            assert(self@.formats =~= old(self)@.formats);
        }
    }

    /// Records the rendering of a bit pattern.
    pub fn add_format(&mut self, bits: u64, text: String)
        ensures
            final(self)@.formats == old(self)@.formats.push((bits, text@)),
            final(self)@.parses == old(self)@.parses,
            final(self)@.ariths == old(self)@.ariths,
    {
        let ghost t = text@;
        self.formats.push((bits, text));
        proof {
            assert(self@.formats =~= old(self)@.formats.push((bits, t)));
            assert(self@.parses =~= old(self)@.parses);
        }
    }
}

} // verus!
