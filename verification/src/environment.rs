//! The variable environment: a mapping from variable names to runtime
//! values. Keys are unique; defining a name that is already bound replaces
//! the binding.

use vstd::prelude::*;
use vstd::string::StringExecFns;
use crate::expr::{LiteralRepresentations, LiteralV};
use crate::token::Token;

verus! {

/// The fault a lookup of an unbound name returns.
pub struct EnvironmentErr {
    pub reason: String,
}

/// A variable environment, stored as an association list with unique keys
/// and read as a mathematical map.
pub struct Environment {
    values: Vec<(String, LiteralRepresentations)>,
}

/// An association list's entries with both components read mathematically.
pub open spec fn entries_view(s: Seq<(String, LiteralRepresentations)>) -> Seq<
    (Seq<char>, LiteralV),
> {
    s.map_values(|p: (String, LiteralRepresentations)| (p.0@, p.1@))
}

/// The bindings of an association list, read back to front, as a map.
pub open spec fn as_map(s: Seq<(Seq<char>, LiteralV)>) -> Map<Seq<char>, LiteralV>
    decreases s.len(),
{
    if s.len() == 0 {
        Map::empty()
    } else {
        as_map(s.drop_last()).insert(s.last().0, s.last().1)
    }
}

impl View for Environment {
    type V = Map<Seq<char>, LiteralV>;

    closed spec fn view(&self) -> Map<Seq<char>, LiteralV> {
        as_map(entries_view(self.values@))
    }
}

/// Whether an association list binds each name at most once.
pub open spec fn unique_keys(s: Seq<(Seq<char>, LiteralV)>) -> bool {
    forall|i: int, j: int| 0 <= i < j < s.len() ==> s[i].0 != s[j].0
}

/// Each entry of an association list with unique keys is the binding that
/// the map carries for its key, and the map has no other keys.
proof fn lemma_as_map_entries(s: Seq<(Seq<char>, LiteralV)>)
    requires
        unique_keys(s),
    ensures
        forall|k: Seq<char>|
            as_map(s).contains_key(k) <==> (exists|i: int| 0 <= i < s.len() && s[i].0 == k),
        forall|i: int|
            0 <= i < s.len() ==> as_map(s).contains_key(s[i].0) && as_map(s)[s[i].0] == s[i].1,
    decreases s.len(),
{
    if s.len() > 0 {
        let s0 = s.drop_last();
        assert(unique_keys(s0));
        lemma_as_map_entries(s0);
        assert forall|i: int| 0 <= i < s.len() implies as_map(s).contains_key(s[i].0) && as_map(
            s,
        )[s[i].0] == s[i].1 by {
            if i < s.len() - 1 {
                assert(s0[i] == s[i]);
                assert(s[i].0 != s.last().0);
            }
        }
        assert forall|k: Seq<char>| as_map(s).contains_key(k) implies (exists|i: int|
            0 <= i < s.len() && s[i].0 == k) by {
            if k == s.last().0 {
                assert(s[s.len() - 1].0 == k);
            } else {
                assert(as_map(s0).contains_key(k));
                let i = choose|i: int| 0 <= i < s0.len() && s0[i].0 == k;
                assert(s[i].0 == k);
            }
        }
    }
}

impl Clone for Environment {
    fn clone(&self) -> (r: Self)
        ensures
            r@ == self@,
            r.wf() == self.wf(),
    {
        let mut values: Vec<(String, LiteralRepresentations)> = Vec::new();
        let mut i: usize = 0;
        while i < self.values.len()
            invariant
                0 <= i <= self.values.len(),
                values@.len() == i,
                forall|j: int|
                    0 <= j < i ==> (values@[j].0@, values@[j].1@) == (
                        self.values@[j].0@,
                        self.values@[j].1@,
                    ),
            decreases self.values.len() - i,
        {
            let name = self.values[i].0.clone();
            let value = self.values[i].1.clone();
            values.push((name, value));
            i = i + 1;
        }
        let r = Environment { values };
        proof {
            assert(entries_view(r.values@) =~= entries_view(self.values@));
        }
        r
    }
}

impl Environment {
    /// Whether the stored association list binds each name at most once.
    /// Constructors establish this and every method preserves it.
    pub closed spec fn wf(&self) -> bool {
        unique_keys(entries_view(self.values@))
    }

    /// An environment with no bindings.
    pub fn new() -> (r: Self)
        ensures
            r@ == Map::<Seq<char>, LiteralV>::empty(),
            r.wf(),
    {
        let r = Environment { values: Vec::new() };
        proof {
            assert(entries_view(r.values@) =~= Seq::<(Seq<char>, LiteralV)>::empty());
        }
        r
    }

    /// Binds a name to a value, replacing any earlier binding of that name.
    pub fn define(&mut self, name: String, value: LiteralRepresentations)
        requires
            old(self).wf(),
        ensures
            final(self)@ == old(self)@.insert(name@, value@),
            final(self).wf(),
    {
        let ghost s = entries_view(self.values@);
        let mut i: usize = 0;
        while i < self.values.len()
            invariant
                0 <= i <= self.values.len(),
                s == entries_view(self.values@),
                s == entries_view(old(self).values@),
                s.len() == self.values@.len(),
                unique_keys(s),
                forall|j: int| 0 <= j < i ==> s[j].0 != name@,
            decreases self.values.len() - i,
        {
            proof {
                assert(s[i as int] == (self.values@[i as int].0@, self.values@[i as int].1@));
            }
            if self.values[i].0 == name {
                let ghost gi = i as int;
                self.values.set(i, (name, value));
                proof {
                    let s2 = entries_view(self.values@);
                    assert forall|j: int| 0 <= j < s2.len() implies s2[j] == s.update(
                        gi,
                        (s[gi].0, value@),
                    )[j] by {
                        assert(s2[j] == (self.values@[j].0@, self.values@[j].1@));
                    }
                    assert(s2 =~= s.update(gi, (s[gi].0, value@)));
                    assert forall|a: int, b: int| 0 <= a < b < s2.len() implies s2[a].0
                        != s2[b].0 by {
                        assert(s2[a].0 == s[a].0 && s2[b].0 == s[b].0);
                    }
                    lemma_as_map_entries(s);
                    lemma_as_map_entries(s2);
                    let m1 = as_map(s2);
                    let m2 = as_map(s).insert(name@, value@);
                    assert forall|k: Seq<char>| m1.contains_key(k) implies m2.contains_key(k)
                        && m1[k] == m2[k] by {
                        let j = choose|j: int| 0 <= j < s2.len() && s2[j].0 == k;
                        if j == gi {
                            assert(k == name@);
                            assert(m1[k] == s2[gi].1);
                        } else {
                            assert(s[j].0 == k);
                            assert(m1[k] == s2[j].1 && s2[j].1 == s[j].1);
                            assert(k != name@);
                            assert(m2[k] == as_map(s)[k] && as_map(s)[k] == s[j].1);
                        }
                    }
                    assert forall|k: Seq<char>| m2.contains_key(k) implies m1.contains_key(k) by {
                        if k == name@ {
                            assert(s2[gi].0 == k);
                        } else {
                            assert(as_map(s).contains_key(k));
                            let j = choose|j: int| 0 <= j < s.len() && s[j].0 == k;
                            assert(s2[j].0 == k);
                        }
                    }
                    assert(m1 =~= m2);
                }
                return ;
            }
            i = i + 1;
        }
        self.values.push((name, value));
        proof {
            let s2 = entries_view(self.values@);
            assert forall|j: int| 0 <= j < s2.len() implies s2[j] == s.push((name@, value@))[j] by {
                assert(s2[j] == (self.values@[j].0@, self.values@[j].1@));
            }
            assert(s2 =~= s.push((name@, value@)));
            assert(s2.drop_last() =~= s);
            assert(unique_keys(s2));
        }
    }

    /// The value bound to the token's lexeme, or a fault naming the
    /// undefined variable.
    pub fn get(&self, name: Token) -> (r: Result<LiteralRepresentations, EnvironmentErr>)
        requires
            self.wf(),
        ensures
            match r {
                Ok(v) => self@.contains_key(name.lexeme@) && v@ == self@[name.lexeme@],
                Err(e) => !self@.contains_key(name.lexeme@) && e.reason@ == "Undefined variable '"@
                    + name.lexeme@ + "'."@,
            },
    {
        let ghost s = entries_view(self.values@);
        let mut i: usize = 0;
        while i < self.values.len()
            invariant
                0 <= i <= self.values.len(),
                s == entries_view(self.values@),
                s.len() == self.values@.len(),
                unique_keys(s),
                forall|j: int| 0 <= j < i ==> s[j].0 != name.lexeme@,
            decreases self.values.len() - i,
        {
            proof {
                assert(s[i as int] == (self.values@[i as int].0@, self.values@[i as int].1@));
            }
            if self.values[i].0 == name.lexeme {
                proof {
                    lemma_as_map_entries(s);
                    assert(s[i as int].0 == name.lexeme@);
                }
                return Ok(self.values[i].1.clone());
            }
            i = i + 1;
        }
        proof {
            lemma_as_map_entries(s);
        }
        let mut reason = String::from_str("Undefined variable '");
        reason.append(name.lexeme.as_str());
        reason.append("'.");
        Err(EnvironmentErr { reason })
    }
}

} // verus!
