//! Putting a list of strings in order, each string once.

use vstd::prelude::*;
use vstd::string::*;
use crate::text::{chars_of, lemma_insert_to_set, lemma_prefix_to_set, texts};

verus! {

/// Whether `a` comes before `b` in dictionary order of their characters.
pub open spec fn lex_less(a: Seq<char>, b: Seq<char>) -> bool
    decreases a.len(),
{
    if b.len() == 0 {
        false
    } else if a.len() == 0 {
        true
    } else if a[0] != b[0] {
        a[0] < b[0]
    } else {
        lex_less(a.drop_first(), b.drop_first())
    }
}

/// Whether every element comes before all that follow it.
pub open spec fn strictly_sorted(s: Seq<Seq<char>>) -> bool {
    forall|i: int, j: int| 0 <= i < j < s.len() ==> lex_less(#[trigger] s[i], #[trigger] s[j])
}

/// Nothing comes before itself.
pub proof fn lemma_lex_irreflexive(a: Seq<char>)
    ensures
        !lex_less(a, a),
    decreases a.len(),
{
    if a.len() > 0 {
        lemma_lex_irreflexive(a.drop_first());
    }
}

/// What comes before something that comes before a third comes before the third.
pub proof fn lemma_lex_transitive(a: Seq<char>, b: Seq<char>, c: Seq<char>)
    requires
        lex_less(a, b),
        lex_less(b, c),
    ensures
        lex_less(a, c),
    decreases a.len(),
{
    if a.len() > 0 && b.len() > 0 && c.len() > 0 {
        if a[0] == b[0] && b[0] == c[0] {
            lemma_lex_transitive(a.drop_first(), b.drop_first(), c.drop_first());
        }
    }
}

/// Two strings that agree on their first `n` characters are in the order of what
/// follows.
pub proof fn lemma_lex_skip(a: Seq<char>, b: Seq<char>, n: int)
    requires
        0 <= n <= a.len(),
        n <= b.len(),
        forall|k: int| 0 <= k < n ==> a[k] == b[k],
    ensures
        lex_less(a, b) == lex_less(a.skip(n), b.skip(n)),
    decreases n,
{
    if n == 0 {
        assert(a.skip(0) =~= a);
        assert(b.skip(0) =~= b);
    } else {
        assert forall|k: int| 0 <= k < n - 1 implies a.drop_first()[k] == b.drop_first()[k] by {
            assert(a[k + 1] == b[k + 1]);
        }
        lemma_lex_skip(a.drop_first(), b.drop_first(), n - 1);
        assert(a.drop_first().skip(n - 1) =~= a.skip(n));
        assert(b.drop_first().skip(n - 1) =~= b.skip(n));
    }
}

/// How one string stands to another.
#[derive(Debug, Clone, Copy, PartialEq, Eq, Structural)]
pub enum Rank {
    Before,
    Same,
    After,
}

/// Tells how `a` stands to `b` in dictionary order.
fn rank(a: &Vec<char>, b: &Vec<char>) -> (r: Rank)
    ensures
        r == Rank::Before <==> lex_less(a@, b@),
        r == Rank::Same <==> a@ == b@,
        r == Rank::After <==> lex_less(b@, a@),
{
    let mut i: usize = 0;
    while i < a.len() && i < b.len()
        invariant
            i <= a@.len(),
            i <= b@.len(),
            forall|k: int| 0 <= k < i ==> a@[k] == b@[k],
        decreases a@.len() - i,
    {
        if a[i] != b[i] {
            proof {
                lemma_lex_skip(a@, b@, i as int);
                lemma_lex_skip(b@, a@, i as int);
                assert(a@.skip(i as int)[0] == a@[i as int]);
                assert(b@.skip(i as int)[0] == b@[i as int]);
            }
            if a[i] < b[i] {
                return Rank::Before;
            } else {
                return Rank::After;
            }
        }
        i = i + 1;
    }
    proof {
        lemma_lex_skip(a@, b@, i as int);
        lemma_lex_skip(b@, a@, i as int);
        if a@.len() == b@.len() {
            assert(a@ =~= b@);
            lemma_lex_irreflexive(a@);
        }
    }
    if a.len() < b.len() {
        Rank::Before
    } else if a.len() > b.len() {
        Rank::After
    } else {
        Rank::Same
    }
}

/// A strictly sorted list repeats nothing.
pub proof fn lemma_sorted_has_no_duplicates(s: Seq<Seq<char>>)
    requires
        strictly_sorted(s),
    ensures
        s.no_duplicates(),
{
    assert forall|i: int, j: int| 0 <= i < s.len() && 0 <= j < s.len() && i != j implies s[i]
        != s[j] by {
        lemma_lex_irreflexive(s[i]);
        if i < j {
            assert(lex_less(s[i], s[j]));
        } else {
            assert(lex_less(s[j], s[i]));
        }
    }
}

/// The character sequences of a list of character vectors.
spec fn rows(keys: Seq<Vec<char>>) -> Seq<Seq<char>> {
    keys.map_values(|k: Vec<char>| k@)
}

/// The strings of `list` in dictionary order, each once.
pub fn sorted_distinct(list: &Vec<String>) -> (sorted: Vec<String>)
    ensures
        strictly_sorted(texts(sorted@)),
        texts(sorted@).no_duplicates(),
        texts(sorted@).to_set() == texts(list@).to_set(),
{
    let mut sorted: Vec<String> = Vec::new();
    let mut keys: Vec<Vec<char>> = Vec::new();
    let mut i: usize = 0;
    assert(texts(sorted@).to_set() =~= texts(list@).subrange(0, 0).to_set());
    assert(rows(keys@) =~= texts(sorted@));
    while i < list.len()
        invariant
            i <= list@.len(),
            rows(keys@) == texts(sorted@),
            strictly_sorted(texts(sorted@)),
            texts(sorted@).to_set() == texts(list@).subrange(0, i as int).to_set(),
        decreases list@.len() - i,
    {
        let item = list[i].clone();
        let chars = chars_of(item.as_str());
        let ghost x = item@;
        let ghost before = texts(sorted@);
        let ghost seen = texts(list@).subrange(0, i as int);
        let ghost next = texts(list@).subrange(0, i + 1);
        assert(next =~= seen.push(x));
        let mut at: usize = 0;
        let mut found: bool = false;
        let mut scanning: bool = true;
        while scanning && at < keys.len()
            invariant
                at <= keys@.len(),
                rows(keys@) == before,
                before == texts(sorted@),
                chars@ == x,
                forall|k: int| 0 <= k < at ==> lex_less(before[k], x),
                !scanning ==> at < keys@.len(),
                !scanning && found ==> before[at as int] == x,
                !scanning && !found ==> lex_less(x, before[at as int]),
                scanning ==> !found,
            decreases keys@.len() - at + if scanning { 1nat } else { 0nat },
        {
            assert(rows(keys@)[at as int] == keys@[at as int]@);
            match rank(&keys[at], &chars) {
                Rank::Before => {
                    at = at + 1;
                },
                Rank::Same => {
                    found = true;
                    scanning = false;
                },
                Rank::After => {
                    scanning = false;
                },
            }
        }
        proof {
            lemma_prefix_to_set(texts(list@), i as int);
        }
        if found {
            proof {
                assert(before.to_set().contains(before[at as int]));
                assert(before.to_set().insert(x) =~= before.to_set());
            }
        } else {
            assert(texts(sorted@).len() == sorted@.len() && rows(keys@).len() == keys@.len());
            sorted.insert(at, item);
            keys.insert(at, chars);
            proof {
                let after = texts(sorted@);
                assert(after =~= before.insert(at as int, x));
                assert(rows(keys@) =~= after);
                assert forall|p: int, q: int| 0 <= p < q < after.len() implies lex_less(
                    #[trigger] after[p],
                    #[trigger] after[q],
                ) by {
                    if q < at {
                        assert(after[p] == before[p] && after[q] == before[q]);
                    } else if q == at {
                        assert(after[p] == before[p]);
                    } else if p < at {
                        assert(after[p] == before[p] && after[q] == before[q - 1]);
                    } else if p == at {
                        assert(after[q] == before[q - 1]);
                        if q - 1 > at {
                            assert(lex_less(before[at as int], before[q - 1]));
                            lemma_lex_transitive(x, before[at as int], before[q - 1]);
                        }
                    } else {
                        assert(after[p] == before[p - 1] && after[q] == before[q - 1]);
                    }
                }
                lemma_insert_to_set(before, at as int, x);
            }
        }
        i = i + 1;
    }
    assert(texts(list@).subrange(0, list@.len() as int) =~= texts(list@));
    proof {
        lemma_sorted_has_no_duplicates(texts(sorted@));
    }
    sorted
}

} // verus!
