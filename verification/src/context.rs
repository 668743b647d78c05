//! Variable resolution for expression evaluation.
//!
//! A [`Context`] is a capability, not a concrete store: anything that can
//! answer "what is the current value of the variable named `x`?" with a value
//! bit pattern or "not found". [`SimpleContext`] is the reference
//! implementation: an ordered list of pairs with linear lookup, fine for the
//! small variable counts a control loop supplies.

use vstd::prelude::*;

verus! {

/// The environment an ordered pair list represents.
///
/// The first pair carrying a given name wins, matching a front-to-back linear
/// search.
pub open spec fn map_of(pairs: Seq<(String, u32)>) -> Map<Seq<char>, u32>
    decreases pairs.len(),
{
    if pairs.len() == 0 {
        Map::empty()
    } else {
        map_of(pairs.drop_first()).insert(pairs[0].0@, pairs[0].1)
    }
}

/// A variable-resolution capability consumed by the evaluator.
///
/// Within a single evaluation call every lookup observes `vars()`, one
/// consistent snapshot: resolution is deterministic given a fixed context.
pub trait Context {
    /// The environment this context answers from: a finite map from variable
    /// name to the IEEE 754 bit pattern of its current value.
    spec fn vars(&self) -> Map<Seq<char>, u32>;

    /// Resolve `name` to exactly the value `vars()` binds it to, or `None`
    /// when the environment does not know the name.
    fn get_var(&self, name: &str) -> (r: Option<u32>)
        ensures
            r == (if self.vars().contains_key(name@) {
                Some(self.vars()[name@])
            } else {
                None::<u32>
            }),
    ;
}

/// A vector-backed [`Context`]: (name, value bit pattern) pairs searched
/// linearly from the front.
pub struct SimpleContext {
    vars: Vec<(String, u32)>,
}

impl SimpleContext {
    /// An empty context: no variable resolves.
    pub fn new() -> (c: SimpleContext)
        ensures
            c.vars() == Map::<Seq<char>, u32>::empty(),
    {
        SimpleContext { vars: Vec::new() }
    }

    /// The index of the first pair named `name`, if any.
    fn position_of(&self, name: &str) -> (r: Option<usize>)
        ensures
            match r {
                Some(i) => i < self.vars@.len() && self.vars@[i as int].0@ == name@ && (forall|j: int| 0 <= j < i ==> self.vars@[j].0@ != name@),
                None => forall|j: int| 0 <= j < self.vars@.len() ==> self.vars@[j].0@ != name@,
            },
    {
        let n = self.vars.len();
        let mut i: usize = 0;
        while i < n
            invariant
                i <= n,
                n == self.vars@.len(),
                forall|j: int| 0 <= j < i ==> self.vars@[j].0@ != name@,
            decreases n - i,
        {
            if str_eq(self.vars[i].0.as_str(), name) {
                return Some(i);
            }
            i = i + 1;
        }
        None
    }

    /// Bind `name` to the value bit pattern `value`, replacing any earlier
    /// binding of the same name.
    pub fn set(&mut self, name: &str, value: u32)
        ensures
            final(self).vars() == old(self).vars().insert(name@, value),
    {
        match self.position_of(name) {
            Some(i) => {
                let pair = (String::from_str(name), value);
                proof {
                    lemma_map_of_update_first(self.vars@, i as int, pair);
                }
                self.vars[i] = pair;
            },
            None => {
                let pair = (String::from_str(name), value);
                proof {
                    lemma_map_of_push_new(self.vars@, pair);
                }
                self.vars.push(pair);
            },
        }
    }
}

impl Context for SimpleContext {
    closed spec fn vars(&self) -> Map<Seq<char>, u32> {
        map_of(self.vars@)
    }

    fn get_var(&self, name: &str) -> (r: Option<u32>) {
        match self.position_of(name) {
            Some(i) => {
                proof {
                    lemma_map_of_first_match(self.vars@, i as int);
                }
                Some(self.vars[i].1)
            },
            None => {
                proof {
                    lemma_map_of_no_match(self.vars@, name@);
                }
                None
            },
        }
    }
}

/// Character-by-character string equality, decided without trusting any
/// outside comparison.
fn str_eq(a: &str, b: &str) -> (r: bool)
    ensures
        r == (a@ == b@),
{
    let na = a.unicode_len();
    let nb = b.unicode_len();
    if na != nb {
        proof {
            assert(a@.len() != b@.len());
        }
        return false;
    }
    let mut i: usize = 0;
    while i < na
        invariant
            i <= na,
            na == a@.len(),
            na == b@.len(),
            forall|j: int| 0 <= j < i ==> a@[j] == b@[j],
        decreases na - i,
    {
        if a.get_char(i) != b.get_char(i) {
            return false;
        }
        i = i + 1;
    }
    proof {
        assert(a@ =~= b@);
    }
    true
}

/// The first matching pair decides a lookup: if no pair before `i` carries
/// the name of pair `i`, the represented environment binds that name to the
/// value of pair `i`.
proof fn lemma_map_of_first_match(pairs: Seq<(String, u32)>, i: int)
    requires
        0 <= i < pairs.len(),
        forall|j: int| 0 <= j < i ==> pairs[j].0@ != pairs[i].0@,
    ensures
        map_of(pairs).contains_key(pairs[i].0@),
        map_of(pairs)[pairs[i].0@] == pairs[i].1,
    decreases i,
{
    if i > 0 {
        lemma_map_of_first_match(pairs.drop_first(), i - 1);
    }
}

/// A name carried by no pair is absent from the represented environment.
proof fn lemma_map_of_no_match(pairs: Seq<(String, u32)>, key: Seq<char>)
    requires
        forall|j: int| 0 <= j < pairs.len() ==> pairs[j].0@ != key,
    ensures
        !map_of(pairs).contains_key(key),
    decreases pairs.len(),
{
    if pairs.len() > 0 {
        lemma_map_of_no_match(pairs.drop_first(), key);
    }
}

/// Overwriting the first pair carrying a name updates exactly that name's
/// binding in the represented environment.
proof fn lemma_map_of_update_first(pairs: Seq<(String, u32)>, i: int, p: (String, u32))
    requires
        0 <= i < pairs.len(),
        pairs[i].0@ == p.0@,
        forall|j: int| 0 <= j < i ==> pairs[j].0@ != p.0@,
    ensures
        map_of(pairs.update(i, p)) == map_of(pairs).insert(p.0@, p.1),
    decreases i,
{
    if i == 0 {
        assert(pairs.update(0, p).drop_first() =~= pairs.drop_first());
        assert(map_of(pairs.update(0, p).drop_first()) == map_of(pairs.drop_first()));
        assert(map_of(pairs.update(0, p)) =~= map_of(pairs).insert(p.0@, p.1));
    } else {
        lemma_map_of_update_first(pairs.drop_first(), i - 1, p);
        assert(pairs.update(i, p).drop_first() =~= pairs.drop_first().update(i - 1, p));
        assert(map_of(pairs.update(i, p).drop_first()) == map_of(
            pairs.drop_first().update(i - 1, p),
        ));
        assert(map_of(pairs.update(i, p)) =~= map_of(pairs).insert(p.0@, p.1));
    }
}

/// Appending a pair whose name no existing pair carries adds exactly that
/// binding to the represented environment.
proof fn lemma_map_of_push_new(pairs: Seq<(String, u32)>, p: (String, u32))
    requires
        forall|j: int| 0 <= j < pairs.len() ==> pairs[j].0@ != p.0@,
    ensures
        map_of(pairs.push(p)) == map_of(pairs).insert(p.0@, p.1),
    decreases pairs.len(),
{
    if pairs.len() == 0 {
        assert(pairs.push(p).drop_first() =~= Seq::<(String, u32)>::empty());
        assert(map_of(pairs.push(p).drop_first()) == map_of(Seq::<(String, u32)>::empty()));
        assert(map_of(pairs.push(p)) =~= map_of(pairs).insert(p.0@, p.1));
    } else {
        lemma_map_of_push_new(pairs.drop_first(), p);
        assert(pairs.push(p).drop_first() =~= pairs.drop_first().push(p));
        assert(map_of(pairs.push(p).drop_first()) == map_of(pairs.drop_first().push(p)));
        assert(map_of(pairs.push(p)) =~= map_of(pairs).insert(p.0@, p.1));
    }
}

} // verus!
