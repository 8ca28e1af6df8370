//! Identifiers: the names of the variables of a formula.

use vstd::prelude::*;
use vstd::std_specs::iter::IteratorSpec;
use vstd::std_specs::cmp::PartialEqSpecImpl;

verus! {

/// Whether the name `a` comes strictly before the name `b` in the dictionary
/// order of their characters' code points.
pub open spec fn name_lt(a: Seq<char>, b: Seq<char>) -> bool
    decreases a.len(),
{
    if b.len() == 0 {
        false
    } else if a.len() == 0 {
        true
    } else if a[0] != b[0] {
        a[0] < b[0]
    } else {
        name_lt(a.drop_first(), b.drop_first())
    }
}

/// No name comes before itself.
pub proof fn lemma_name_lt_irreflexive(a: Seq<char>)
    ensures
        !name_lt(a, a),
    decreases a.len(),
{
    if a.len() > 0 {
        lemma_name_lt_irreflexive(a.drop_first());
    }
}

/// Of two different names, one comes before the other.
pub proof fn lemma_name_lt_total(a: Seq<char>, b: Seq<char>)
    ensures
        a == b || name_lt(a, b) || name_lt(b, a),
    decreases a.len(),
{
    if a.len() == 0 || b.len() == 0 {
        if a.len() == 0 && b.len() == 0 {
            assert(a =~= b);
        }
    } else if a[0] == b[0] {
        lemma_name_lt_total(a.drop_first(), b.drop_first());
        if a.drop_first() == b.drop_first() {
            assert(a =~= seq![a[0]] + a.drop_first());
            assert(b =~= seq![b[0]] + b.drop_first());
        }
    }
}

/// The order of names is transitive.
pub proof fn lemma_name_lt_transitive(a: Seq<char>, b: Seq<char>, c: Seq<char>)
    requires
        name_lt(a, b),
        name_lt(b, c),
    ensures
        name_lt(a, c),
    decreases a.len(),
{
    if a.len() > 0 && a[0] == b[0] && b[0] == c[0] {
        lemma_name_lt_transitive(a.drop_first(), b.drop_first(), c.drop_first());
    }
}

/// The name of a variable of a formula.
#[derive(Debug, Eq, PartialOrd, Ord)]
pub struct Ident(String);

impl View for Ident {
    type V = Seq<char>;

    closed spec fn view(&self) -> Seq<char> {
        self.0@
    }
}

impl Clone for Ident {
    fn clone(&self) -> (r: Self)
        ensures
            r@ == self@,
    {
        Ident(self.0.clone())
    }
}

impl PartialEq for Ident {
    fn eq(&self, other: &Self) -> (r: bool) {
        self.0 == other.0
    }
}

impl PartialEqSpecImpl for Ident {
    open spec fn obeys_eq_spec() -> bool {
        true
    }

    open spec fn eq_spec(&self, other: &Self) -> bool {
        self@ == other@
    }
}

impl Ident {
    /// An identifier with the given name.
    pub fn new(name: &str) -> (r: Ident)
        ensures
            r@ == name@,
    {
        Ident(String::from_str(name))
    }

    /// An identifier that takes over the given name.
    pub fn from_string(name: String) -> (r: Ident)
        ensures
            r@ == name@,
    {
        Ident(name)
    }

    /// The name as a string slice.
    pub fn as_str(&self) -> (s: &str)
        ensures
            s@ == self@,
    {
        self.0.as_str()
    }

    /// Whether this identifier comes strictly before `other` in dictionary order.
    pub fn precedes(&self, other: &Ident) -> (r: bool)
        ensures
            r == name_lt(self@, other@),
    {
        broadcast use vstd::string::group_string_axioms;
        let mut left = self.0.as_str().chars();
        let mut right = other.0.as_str().chars();
        let mut before = false;
        let ghost mut i: int = 0;
        proof {
            assert(self@.skip(0) =~= self@);
            assert(other@.skip(0) =~= other@);
        }
        loop
            invariant_except_break
                left.decrease() is Some,
                0 <= i <= self@.len(),
                i <= other@.len(),
                left.remaining() == self@.skip(i),
                right.remaining() == other@.skip(i),
                name_lt(self@, other@) == name_lt(self@.skip(i), other@.skip(i)),
            ensures
                before == name_lt(self@, other@),
            decreases left.decrease()->0,
        {
            let y = right.next();
            let x = left.next();
            proof {
                if i < self@.len() && i < other@.len() {
                    assert(self@.skip(i).drop_first() =~= self@.skip(i + 1));
                    assert(other@.skip(i).drop_first() =~= other@.skip(i + 1));
                }
            }
            match y {
                None => {
                    before = false;
                    break;
                },
                Some(b) => {
                    match x {
                        None => {
                            before = true;
                            break;
                        },
                        Some(a) => {
                            if a != b {
                                before = a < b;
                                break;
                            }
                        },
                    }
                },
            }
            proof {
                i = i + 1;
            }
        }
        before
    }
}

} // verus!
