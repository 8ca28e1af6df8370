//! The identifiers that a formula refers to, each once.

use vstd::prelude::*;
use crate::ident::{
    lemma_name_lt_irreflexive, lemma_name_lt_total, lemma_name_lt_transitive, name_lt, Ident,
};
use crate::token::{lexemes, Lexeme, Token};

verus! {

/// The names of a sequence of identifiers.
pub open spec fn names(idents: Seq<Ident>) -> Seq<Seq<char>> {
    idents.map_values(|ident: Ident| ident@)
}

/// Whether each name comes strictly before every later one.
pub open spec fn ascending(list: Seq<Seq<char>>) -> bool {
    forall|i: int, j: int| 0 <= i < j < list.len() ==> name_lt(#[trigger] list[i], #[trigger] list[j])
}

/// Whether `name` occurs in `list`.
pub open spec fn lists(list: Seq<Seq<char>>, name: Seq<char>) -> bool {
    exists|k: int| 0 <= k < list.len() && #[trigger] list[k] == name
}

/// Whether a token of the sequence is the identifier `name`.
pub open spec fn mentions(tokens: Seq<Lexeme>, name: Seq<char>) -> bool {
    exists|k: int| 0 <= k < tokens.len() && #[trigger] tokens[k] == Lexeme::Name(name)
}

/// An ascending list holds no name twice.
pub proof fn lemma_ascending_distinct(list: Seq<Seq<char>>)
    requires
        ascending(list),
    ensures
        forall|i: int, j: int| 0 <= i < j < list.len() ==> #[trigger] list[i] != #[trigger] list[j],
{
    assert forall|i: int, j: int| 0 <= i < j < list.len() implies #[trigger] list[i]
        != #[trigger] list[j] by {
        lemma_name_lt_irreflexive(list[i]);
    }
}

/// Two ascending lists that hold the same names are the same list: what
/// [`unique_idents`] returns depends only on which identifiers the tokens
/// mention, neither on their order nor on how often each occurs.
pub proof fn lemma_ascending_unique(a: Seq<Seq<char>>, b: Seq<Seq<char>>)
    requires
        ascending(a),
        ascending(b),
        forall|name: Seq<char>| lists(a, name) <==> lists(b, name),
    ensures
        a == b,
    decreases a.len(),
{
    if a.len() == 0 {
        if b.len() > 0 {
            assert(lists(b, b[0]));
            assert(lists(a, b[0]));
        }
        assert(a =~= b);
    } else {
        assert(lists(a, a[0]));
        assert(lists(b, a[0]));
        let kb = choose|k: int| 0 <= k < b.len() && #[trigger] b[k] == a[0];
        assert(lists(b, b[0]));
        assert(lists(a, b[0]));
        let ka = choose|k: int| 0 <= k < a.len() && #[trigger] a[k] == b[0];
        if kb > 0 {
            // b[0] < b[kb] == a[0] <= a[ka] == b[0]
            assert(name_lt(b[0], b[kb]));
            if ka > 0 {
                assert(name_lt(a[0], a[ka]));
                lemma_name_lt_transitive(b[0], a[0], b[0]);
            }
            lemma_name_lt_irreflexive(b[0]);
        }
        assert(a[0] == b[0]);
        let ra = a.drop_first();
        let rb = b.drop_first();
        assert forall|name: Seq<char>| lists(ra, name) <==> lists(rb, name) by {
            if lists(ra, name) {
                let k = choose|k: int| 0 <= k < ra.len() && #[trigger] ra[k] == name;
                assert(a[k + 1] == name);
                assert(lists(a, name));
                let m = choose|m: int| 0 <= m < b.len() && #[trigger] b[m] == name;
                assert(name_lt(a[0], a[k + 1]));
                lemma_name_lt_irreflexive(name);
                assert(m != 0);
                assert(rb[m - 1] == name);
            }
            if lists(rb, name) {
                let k = choose|k: int| 0 <= k < rb.len() && #[trigger] rb[k] == name;
                assert(b[k + 1] == name);
                assert(lists(b, name));
                let m = choose|m: int| 0 <= m < a.len() && #[trigger] a[m] == name;
                assert(name_lt(b[0], b[k + 1]));
                lemma_name_lt_irreflexive(name);
                assert(m != 0);
                assert(ra[m - 1] == name);
            }
        }
        assert(ascending(ra)) by {
            assert forall|i: int, j: int| 0 <= i < j < ra.len() implies name_lt(
                #[trigger] ra[i],
                #[trigger] ra[j],
            ) by {
                assert(name_lt(a[i + 1], a[j + 1]));
            }
        }
        assert(ascending(rb)) by {
            assert forall|i: int, j: int| 0 <= i < j < rb.len() implies name_lt(
                #[trigger] rb[i],
                #[trigger] rb[j],
            ) by {
                assert(name_lt(b[i + 1], b[j + 1]));
            }
        }
        lemma_ascending_unique(ra, rb);
        assert(a =~= seq![a[0]] + ra);
        assert(b =~= seq![b[0]] + rb);
    }
}

/// Puts `ident` at its place in an ascending list, unless the list holds it.
fn insert_ascending(list: &mut Vec<Ident>, ident: Ident)
    requires
        ascending(names(old(list)@)),
    ensures
        ascending(names(final(list)@)),
        forall|name: Seq<char>|
            lists(names(final(list)@), name) <==> (lists(names(old(list)@), name) || name
                == ident@),
{
    let ghost before = names(list@);
    let mut i: usize = 0;
    while i < list.len() && list[i].precedes(&ident)
        invariant
            0 <= i <= list.len(),
            before == names(list@),
            forall|k: int| 0 <= k < i ==> name_lt(#[trigger] before[k], ident@),
        decreases list.len() - i,
    {
        assert(before[i as int] == list[i as int]@);
        i += 1;
    }
    if i < list.len() && list[i] == ident {
        assert(before[i as int] == ident@);
        assert forall|name: Seq<char>| lists(before, name) <==> (lists(before, name) || name
            == ident@) by {}
        return ;
    }
    let ghost name0 = ident@;
    list.insert(i, ident);
    proof {
        let after = names(list@);
        assert(after =~= before.insert(i as int, name0));
        assert forall|k: int| i <= k < before.len() implies name_lt(name0, #[trigger] before[k]) by {
            assert(before[i as int] == old(list)@[i as int]@);
            lemma_name_lt_total(name0, before[i as int]);
            if k > i {
                assert(name_lt(before[i as int], before[k]));
                lemma_name_lt_transitive(name0, before[i as int], before[k]);
            }
        }
        assert forall|a: int, b: int| 0 <= a < b < after.len() implies name_lt(
            #[trigger] after[a],
            #[trigger] after[b],
        ) by {
            if b < i {
                assert(name_lt(before[a], before[b]));
            } else if b == i {
                assert(name_lt(before[a], name0));
            } else if a < i {
                assert(after[b] == before[b - 1]);
                if b - 1 == a {
                } else {
                    assert(name_lt(before[a], before[b - 1]));
                }
            } else if a == i {
                assert(after[b] == before[b - 1]);
            } else {
                assert(after[a] == before[a - 1]);
                assert(after[b] == before[b - 1]);
                assert(name_lt(before[a - 1], before[b - 1]));
            }
        }
        assert forall|name: Seq<char>| lists(after, name) <==> (lists(before, name) || name
            == name0) by {
            if lists(after, name) {
                let k = choose|k: int| 0 <= k < after.len() && #[trigger] after[k] == name;
                if k < i {
                    assert(before[k] == name);
                } else if k > i {
                    assert(before[k - 1] == name);
                }
            }
            if lists(before, name) {
                let k = choose|k: int| 0 <= k < before.len() && #[trigger] before[k] == name;
                if k < i {
                    assert(after[k] == name);
                } else {
                    assert(after[k + 1] == name);
                }
            }
            if name == name0 {
                assert(after[i as int] == name);
            }
        }
    }
}

/// The identifiers that the tokens mention, each once, in ascending
/// dictionary order of their names.
pub fn unique_idents(tokens: Vec<Token>) -> (unique: Vec<Ident>)
    ensures
        ascending(names(unique@)),
        forall|i: int, j: int|
            0 <= i < j < unique.len() ==> (#[trigger] unique[i])@ != (#[trigger] unique[j])@,
        forall|name: Seq<char>|
            lists(names(unique@), name) <==> mentions(lexemes(tokens@), name),
{
    let ghost given = lexemes(tokens@);
    let mut tokens = tokens;
    let mut unique: Vec<Ident> = Vec::new();
    proof {
        assert(given.skip(given.len() as int) =~= Seq::<Lexeme>::empty());
    }
    while tokens.len() > 0
        invariant
            tokens.len() <= given.len(),
            lexemes(tokens@) == given.take(tokens.len() as int),
            ascending(names(unique@)),
            forall|name: Seq<char>|
                lists(names(unique@), name) <==> mentions(given.skip(tokens.len() as int), name),
        decreases tokens.len(),
    {
        let ghost n = tokens.len() as int;
        let ghost listed = names(unique@);
        let ghost longer = tokens@;
        let token = tokens.pop().unwrap();
        proof {
            assert(lexemes(tokens@) =~= given.take(n - 1));
            assert(token@ == lexemes(longer)[n - 1]);
            assert(token@ == given[n - 1]);
        }
        if let Token::Ident(ident) = token {
            let ghost name0 = ident@;
            insert_ascending(&mut unique, ident);
            proof {
                assert forall|name: Seq<char>|
                    lists(names(unique@), name) <==> mentions(given.skip(n - 1), name) by {
                    lemma_mentions_step(given, n - 1, name);
                }
            }
        } else {
            proof {
                assert forall|name: Seq<char>|
                    lists(names(unique@), name) <==> mentions(given.skip(n - 1), name) by {
                    lemma_mentions_step(given, n - 1, name);
                }
            }
        }
    }
    proof {
        assert(given.skip(0) =~= given);
        lemma_ascending_distinct(names(unique@));
        assert forall|i: int, j: int| 0 <= i < j < unique.len() implies (#[trigger] unique[i])@ != (
        #[trigger] unique[j])@ by {
            assert(names(unique@)[i] != names(unique@)[j]);
        }
    }
    unique
}

/// The tokens from position `at` on mention a name where the token at `at`
/// is that name or the tokens after it mention it.
proof fn lemma_mentions_step(tokens: Seq<Lexeme>, at: int, name: Seq<char>)
    requires
        0 <= at < tokens.len(),
    ensures
        mentions(tokens.skip(at), name) <==> (tokens[at] == Lexeme::Name(name) || mentions(
            tokens.skip(at + 1),
            name,
        )),
{
    let from = tokens.skip(at);
    let after = tokens.skip(at + 1);
    if mentions(from, name) {
        let k = choose|k: int| 0 <= k < from.len() && #[trigger] from[k] == Lexeme::Name(name);
        if k > 0 {
            assert(after[k - 1] == Lexeme::Name(name));
        }
    }
    if mentions(after, name) {
        let k = choose|k: int| 0 <= k < after.len() && #[trigger] after[k] == Lexeme::Name(name);
        assert(from[k + 1] == Lexeme::Name(name));
    }
    if tokens[at] == Lexeme::Name(name) {
        assert(from[0] == Lexeme::Name(name));
    }
}

} // verus!
