//! The variable environment: one flat, mutable namespace.

use vstd::prelude::*;
use vstd::pervasive::VecAdditionalExecFns;
use crate::token::{Token, TokenV};
use crate::value::{Value, ValueV};

verus! {

/// A failed environment access: the token that named the variable, and a
/// message.
#[derive(Debug)]
pub struct RunTimeError {
    pub name: Token,
    pub message: String,
}

/// Spec-level image of `RunTimeError`.
pub struct RunTimeErrorV {
    pub name: TokenV,
    pub message: Seq<char>,
}

impl View for RunTimeError {
    type V = RunTimeErrorV;

    open spec fn view(&self) -> RunTimeErrorV {
        RunTimeErrorV { name: self.name@, message: self.message@ }
    }
}

/// The message an undefined variable is reported with.
pub open spec fn spec_undefined_message(name: Seq<char>) -> Seq<char> {
    "Undefined variable '"@ + name + "'."@
}

fn undefined_message(name: &Token) -> (r: String)
    ensures
        r@ == spec_undefined_message(name@.lexeme),
{
    proof {
        reveal_strlit("Undefined variable '");
        reveal_strlit("'.");
    }
    let s = String::from_str("Undefined variable '").concat(name.lexeme.as_str()).concat("'.");
    proof {
        assert(s@ =~= spec_undefined_message(name@.lexeme));
    }
    s
}

/// The bindings in force, as a mapping from variable names to values.
/// Stored as entries in definition order; a later entry for the same name
/// shadows every earlier one.
pub struct Environment {
    values: Vec<(String, Value)>,
}

/// The mapping a sequence of entries denotes: each entry inserted in
/// order, so the latest entry for a name wins.
pub open spec fn spec_map_of(s: Seq<(String, Value)>) -> Map<Seq<char>, ValueV>
    decreases s.len(),
{
    if s.len() == 0 {
        Map::<Seq<char>, ValueV>::empty()
    } else {
        spec_map_of(s.drop_last()).insert(s.last().0@, s.last().1@)
    }
}

impl View for Environment {
    type V = Map<Seq<char>, ValueV>;

    closed spec fn view(&self) -> Map<Seq<char>, ValueV> {
        spec_map_of(self.values@)
    }
}

/// An entry nothing later shadows gives the mapping's value for its name.
proof fn lemma_map_of_last_match(s: Seq<(String, Value)>, k: Seq<char>, i: int)
    requires
        0 <= i < s.len(),
        s[i].0@ == k,
        forall|j: int| i < j < s.len() ==> s[j].0@ != k,
    ensures
        spec_map_of(s).contains_key(k),
        spec_map_of(s)[k] == s[i].1@,
    decreases s.len(),
{
    if i == s.len() - 1 {
    } else {
        lemma_map_of_last_match(s.drop_last(), k, i);
    }
}

/// A name no entry carries is not in the mapping.
proof fn lemma_map_of_absent(s: Seq<(String, Value)>, k: Seq<char>)
    requires
        forall|j: int| 0 <= j < s.len() ==> s[j].0@ != k,
    ensures
        !spec_map_of(s).contains_key(k),
    decreases s.len(),
{
    if s.len() > 0 {
        lemma_map_of_absent(s.drop_last(), k);
    }
}

/// Overwriting the latest entry for a name updates the mapping at that
/// name and nothing else.
proof fn lemma_map_of_update_last(s: Seq<(String, Value)>, i: int, p: (String, Value))
    requires
        0 <= i < s.len(),
        p.0@ == s[i].0@,
        forall|j: int| i < j < s.len() ==> s[j].0@ != s[i].0@,
    ensures
        spec_map_of(s.update(i, p)) == spec_map_of(s).insert(p.0@, p.1@),
    decreases s.len(),
{
    let u = s.update(i, p);
    if i == s.len() - 1 {
        assert(u.drop_last() =~= s.drop_last());
        assert(spec_map_of(u) =~= spec_map_of(s).insert(p.0@, p.1@));
    } else {
        lemma_map_of_update_last(s.drop_last(), i, p);
        assert(u.drop_last() =~= s.drop_last().update(i, p));
        assert(u.last() == s.last());
        assert(spec_map_of(u) == spec_map_of(s.drop_last()).insert(p.0@, p.1@).insert(
            s.last().0@,
            s.last().1@,
        ));
        assert(spec_map_of(s.drop_last()).insert(p.0@, p.1@).insert(s.last().0@, s.last().1@)
            =~= spec_map_of(s).insert(p.0@, p.1@));
    }
}

impl Default for Environment {
    /// An environment with no bindings.
    fn default() -> (r: Self)
        ensures
            r@ == Map::<Seq<char>, ValueV>::empty(),
    {
        Environment { values: Vec::new() }
    }
}

impl Environment {
    /// An environment with no bindings.
    pub fn new() -> (r: Self)
        ensures
            r@ == Map::<Seq<char>, ValueV>::empty(),
    {
        Environment { values: Vec::new() }
    }

    /// The index of the binding in force for the name, if any: the latest
    /// entry carrying it.
    fn find(&self, name: &String) -> (r: Option<usize>)
        ensures
            match r {
                Some(i) => {
                    &&& i < self.values@.len()
                    &&& self.values@[i as int].0@ == name@
                    &&& forall|x: int|
                        i < x < self.values@.len() ==> self.values@[x].0@ != name@
                    &&& self@.contains_key(name@)
                    &&& self@[name@] == self.values@[i as int].1@
                },
                None => !self@.contains_key(name@),
            },
    {
        let mut j = self.values.len();
        while j > 0
            invariant
                j <= self.values@.len(),
                forall|x: int| j <= x < self.values@.len() ==> self.values@[x].0@ != name@,
            decreases j,
        {
            j -= 1;
            if self.values[j].0 == *name {
                proof {
                    lemma_map_of_last_match(self.values@, name@, j as int);
                }
                return Some(j);
            }
        }
        proof {
            lemma_map_of_absent(self.values@, name@);
        }
        None
    }

    /// Binds `name` to `value`, declaring it anew or overwriting whatever
    /// binding existed: redeclaration is allowed and silently replaces.
    pub fn define_var(&mut self, name: String, value: Value)
        ensures
            final(self)@ == old(self)@.insert(name@, value@),
    {
        match self.find(&name) {
            Some(i) => {
                proof {
                    lemma_map_of_update_last(self.values@, i as int, (name, value));
                }
                self.values.set(i, (name, value));
            },
            None => {
                self.values.push((name, value));
                proof {
                    assert(self.values@.drop_last() =~= old(self).values@);
                }
            },
        }
    }

    /// The value bound to the token's name; fails when the name was never
    /// declared.
    pub fn get_var(&mut self, name: &Token) -> (r: Result<Value, RunTimeError>)
        ensures
            final(self)@ == old(self)@,
            match r {
                Ok(v) => old(self)@.contains_key(name@.lexeme) && v@ == old(self)@[name@.lexeme],
                Err(e) => !old(self)@.contains_key(name@.lexeme) && e@.name == name@ && e@.message
                    == spec_undefined_message(name@.lexeme),
            },
    {
        match self.find(&name.lexeme) {
            Some(i) => Ok(self.values[i].1.clone()),
            None => Err(
                RunTimeError { name: name.clone(), message: undefined_message(name) },
            ),
        }
    }

    /// Replaces the value of an existing binding; fails when the name was
    /// never declared (assignment cannot implicitly declare).
    pub fn assign(&mut self, name: Token, value: Value) -> (r: Result<(), RunTimeError>)
        ensures
            match r {
                Ok(()) => old(self)@.contains_key(name@.lexeme) && final(self)@ == old(
                    self,
                )@.insert(name@.lexeme, value@),
                Err(e) => {
                    &&& !old(self)@.contains_key(name@.lexeme)
                    &&& final(self)@ == old(self)@
                    &&& e@.name == name@
                    &&& e@.message == spec_undefined_message(name@.lexeme)
                },
            },
    {
        match self.find(&name.lexeme) {
            Some(i) => {
                let key = self.values[i].0.clone();
                proof {
                    lemma_map_of_update_last(self.values@, i as int, (key, value));
                }
                self.values.set(i, (key, value));
                Ok(())
            },
            None => {
                let message = undefined_message(&name);
                Err(RunTimeError { name, message })
            },
        }
    }
}

} // verus!
