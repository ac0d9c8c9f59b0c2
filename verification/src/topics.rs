//! Topic identifiers: which ones are numbers, and a list of them without repeats.

use vstd::prelude::*;
use vstd::string::*;
use crate::text::texts;

verus! {

/// Whether `c` is one of `0` to `9`.
pub open spec fn is_digit(c: char) -> bool {
    '0' <= c <= '9'
}

/// The number a digit stands for.
pub open spec fn digit_value(c: char) -> nat {
    (c as nat - '0' as nat) as nat
}

/// Whether every character of `s` is a digit.
pub open spec fn all_digits(s: Seq<char>) -> bool {
    forall|i: int| 0 <= i < s.len() ==> is_digit(#[trigger] s[i])
}

/// The decimal value of a sequence of digits.
pub open spec fn digits_value(s: Seq<char>) -> nat
    decreases s.len(),
{
    if s.len() == 0 {
        0
    } else {
        digits_value(s.drop_last()) * 10 + digit_value(s.last())
    }
}

/// What follows an optional leading `+`.
pub open spec fn unsigned_part(s: Seq<char>) -> Seq<char> {
    if s.len() > 0 && s[0] == '+' {
        s.subrange(1, s.len() as int)
    } else {
        s
    }
}

/// The number a topic id stands for: one or more decimal digits, after an optional `+`,
/// whose value fits in 64 bits. Anything else is no number.
pub open spec fn topic_number(s: Seq<char>) -> Option<u64> {
    let digits = unsigned_part(s);
    if digits.len() > 0 && all_digits(digits) && digits_value(digits) <= u64::MAX {
        Some(digits_value(digits) as u64)
    } else {
        None
    }
}

/// A longer digit sequence is worth at least as much as any of its prefixes.
pub proof fn lemma_digits_value_prefix(s: Seq<char>, n: int)
    requires
        0 <= n <= s.len(),
    ensures
        digits_value(s.subrange(0, n)) <= digits_value(s),
    decreases s.len(),
{
    if n == s.len() {
        assert(s.subrange(0, n) =~= s);
    } else {
        assert(s.drop_last().subrange(0, n) =~= s.subrange(0, n));
        lemma_digits_value_prefix(s.drop_last(), n);
    }
}

/// Reads a topic id as a number.
pub fn parse_topic_id(id: &str) -> (number: Option<u64>)
    ensures
        number == topic_number(id@),
{
    if !id.is_ascii() {
        proof {
            let s = id@;
            let i = choose|i: int| 0 <= i < s.len() && !('\0' <= #[trigger] s[i] <= '\u{7f}');
            let digits = unsigned_part(s);
            if s[0] == '+' {
                assert(i >= 1);
                assert(digits[i - 1] == s[i]);
            } else {
                assert(digits[i] == s[i]);
            }
        }
        return None;
    }
    let n: usize = id.unicode_len();
    let start: usize = if n > 0 && id.get_ascii(0) == 43u8 {
        1
    } else {
        0
    };
    let ghost digits = unsigned_part(id@);
    assert(digits =~= id@.subrange(start as int, n as int));
    if start == n {
        return None;
    }
    let mut value: u64 = 0;
    let mut i: usize = start;
    assert(digits.subrange(0, 0) =~= Seq::<char>::empty());
    while i < n
        invariant
            id.is_ascii(),
            n == id@.len(),
            start <= i <= n,
            digits == id@.subrange(start as int, n as int),
            digits == unsigned_part(id@),
            all_digits(digits.subrange(0, i - start)),
            value == digits_value(digits.subrange(0, i - start)),
        decreases n - i,
    {
        let b: u8 = id.get_ascii(i);
        let ghost c = id@[i as int];
        let ghost seen = digits.subrange(0, i - start);
        let ghost next = digits.subrange(0, i + 1 - start);
        assert(digits[i - start] == c);
        assert(next.drop_last() =~= seen);
        assert(next.last() == c);
        if b < 48u8 || b > 57u8 {
            assert(!is_digit(c));
            return None;
        }
        assert(is_digit(c));
        let d: u64 = (b - 48u8) as u64;
        assert(d == digit_value(c));
        assert(digits_value(next) == value * 10 + d);
        if value > (u64::MAX - d) / 10 {
            proof {
                lemma_digits_value_prefix(digits, i + 1 - start);
                assert(digits_value(next) > u64::MAX);
            }
            return None;
        }
        value = value * 10 + d;
        i = i + 1;
    }
    assert(digits.subrange(0, n - start) =~= digits);
    Some(value)
}

/// `s` with every repeat of an earlier element left out.
pub open spec fn distinct(s: Seq<Seq<char>>) -> Seq<Seq<char>>
    decreases s.len(),
{
    if s.len() == 0 {
        Seq::empty()
    } else {
        let rest = distinct(s.drop_last());
        if rest.contains(s.last()) {
            rest
        } else {
            rest.push(s.last())
        }
    }
}

/// `distinct` repeats nothing, and holds exactly the elements of its argument.
pub proof fn distinct_repeats_nothing(s: Seq<Seq<char>>)
    ensures
        distinct(s).no_duplicates(),
        distinct(s).to_set() == s.to_set(),
        distinct(s).len() <= s.len(),
    decreases s.len(),
{
    if s.len() == 0 {
        assert(distinct(s).to_set() =~= s.to_set());
    } else {
        let rest = distinct(s.drop_last());
        distinct_repeats_nothing(s.drop_last());
        assert forall|x: Seq<char>| distinct(s).to_set().contains(x) <==> s.to_set().contains(
            x,
        ) by {
            if s.contains(x) {
                let j = choose|j: int| 0 <= j < s.len() && s[j] == x;
                if j < s.len() - 1 {
                    assert(s.drop_last()[j] == x);
                    assert(s.drop_last().to_set().contains(x));
                    assert(rest.to_set().contains(x));
                    let k = choose|k: int| 0 <= k < rest.len() && rest[k] == x;
                    assert(distinct(s)[k] == x);
                } else {
                    if rest.contains(x) {
                    } else {
                        assert(distinct(s)[rest.len() as int] == x);
                    }
                }
            }
            if distinct(s).contains(x) {
                let k = choose|k: int| 0 <= k < distinct(s).len() && distinct(s)[k] == x;
                if k < rest.len() {
                    assert(rest[k] == x);
                    assert(rest.to_set().contains(x));
                    assert(s.drop_last().to_set().contains(x));
                    let j = choose|j: int| 0 <= j < s.drop_last().len() && s.drop_last()[j] == x;
                    assert(s[j] == x);
                } else {
                    assert(s[s.len() - 1] == x);
                }
            }
        }
        assert(distinct(s).to_set() =~= s.to_set());
    }
}

/// Whether `needle` is among the strings of `list`.
pub(crate) fn holds(list: &Vec<String>, needle: &String) -> (found: bool)
    ensures
        found == texts(list@).contains(needle@),
{
    let mut i: usize = 0;
    while i < list.len()
        invariant
            i <= list.len(),
            forall|k: int| 0 <= k < i ==> texts(list@)[k] != needle@,
        decreases list.len() - i,
    {
        if list[i] == *needle {
            assert(texts(list@)[i as int] == needle@);
            return true;
        }
        i = i + 1;
    }
    false
}

/// The topic ids of `ids` without repeats, each where it first occurs.
pub fn distinct_topics(ids: &Vec<String>) -> (topics: Vec<String>)
    ensures
        texts(topics@) == distinct(texts(ids@)),
{
    let mut topics: Vec<String> = Vec::new();
    let mut i: usize = 0;
    assert(texts(ids@).subrange(0, 0) =~= Seq::<Seq<char>>::empty());
    assert(texts(topics@) =~= Seq::<Seq<char>>::empty());
    while i < ids.len()
        invariant
            i <= ids.len(),
            texts(topics@) == distinct(texts(ids@).subrange(0, i as int)),
        decreases ids.len() - i,
    {
        let ghost seen = texts(ids@).subrange(0, i as int);
        let ghost next = texts(ids@).subrange(0, i + 1);
        let ghost before = texts(topics@);
        assert(next.drop_last() =~= seen);
        assert(next.last() == ids@[i as int]@);
        if !holds(&topics, &ids[i]) {
            topics.push(ids[i].clone());
            assert(texts(topics@) =~= before.push(ids@[i as int]@));
        }
        i = i + 1;
    }
    assert(texts(ids@).subrange(0, ids@.len() as int) =~= texts(ids@));
    topics
}

/// The numbers among `ids`, in order; an id that is no number is left out.
pub open spec fn topic_numbers(ids: Seq<Seq<char>>) -> Seq<u64>
    decreases ids.len(),
{
    if ids.len() == 0 {
        Seq::empty()
    } else {
        let rest = topic_numbers(ids.drop_last());
        match topic_number(ids.last()) {
            Some(n) => rest.push(n),
            None => rest,
        }
    }
}

/// The ids among `ids` that are numbers, in order.
pub open spec fn valid_topics(ids: Seq<Seq<char>>) -> Seq<Seq<char>>
    decreases ids.len(),
{
    if ids.len() == 0 {
        Seq::empty()
    } else {
        let rest = valid_topics(ids.drop_last());
        if topic_number(ids.last()) is Some {
            rest.push(ids.last())
        } else {
            rest
        }
    }
}

/// The ids among `ids` that are no numbers, in order.
pub open spec fn invalid_topics(ids: Seq<Seq<char>>) -> Seq<Seq<char>>
    decreases ids.len(),
{
    if ids.len() == 0 {
        Seq::empty()
    } else {
        let rest = invalid_topics(ids.drop_last());
        if topic_number(ids.last()) is None {
            rest.push(ids.last())
        } else {
            rest
        }
    }
}

/// The valid ids are the ones whose numbers `topic_numbers` lists, one for one; every
/// id is valid or invalid and never both.
pub proof fn lemma_valid_topics(ids: Seq<Seq<char>>)
    ensures
        valid_topics(ids).len() == topic_numbers(ids).len(),
        valid_topics(ids).len() + invalid_topics(ids).len() == ids.len(),
        forall|i: int|
            0 <= i < valid_topics(ids).len() ==> topic_number(#[trigger] valid_topics(ids)[i])
                == Some(topic_numbers(ids)[i]),
        forall|i: int|
            0 <= i < invalid_topics(ids).len() ==> topic_number(
                #[trigger] invalid_topics(ids)[i],
            ) is None,
    decreases ids.len(),
{
    if ids.len() > 0 {
        lemma_valid_topics(ids.drop_last());
    }
}

/// A list of topic ids parted into those that are numbers and those that are not.
#[derive(Debug, PartialEq)]
pub struct TopicSplit {
    /// The ids that are numbers, in order.
    pub valid: Vec<String>,
    /// The numbers of the valid ids, one for one.
    pub numbers: Vec<u64>,
    /// The ids that are no numbers, in order.
    pub skipped: Vec<String>,
}

/// Parts a list of topic ids into those that are numbers and those that are not.
pub fn partition_topics(ids: &Vec<String>) -> (split: TopicSplit)
    ensures
        texts(split.valid@) == valid_topics(texts(ids@)),
        split.numbers@ == topic_numbers(texts(ids@)),
        texts(split.skipped@) == invalid_topics(texts(ids@)),
{
    let mut valid: Vec<String> = Vec::new();
    let mut numbers: Vec<u64> = Vec::new();
    let mut skipped: Vec<String> = Vec::new();
    let mut i: usize = 0;
    assert(texts(ids@).subrange(0, 0) =~= Seq::<Seq<char>>::empty());
    assert(texts(valid@) =~= Seq::<Seq<char>>::empty());
    assert(texts(skipped@) =~= Seq::<Seq<char>>::empty());
    while i < ids.len()
        invariant
            i <= ids.len(),
            texts(valid@) == valid_topics(texts(ids@).subrange(0, i as int)),
            numbers@ == topic_numbers(texts(ids@).subrange(0, i as int)),
            texts(skipped@) == invalid_topics(texts(ids@).subrange(0, i as int)),
        decreases ids.len() - i,
    {
        let ghost seen = texts(ids@).subrange(0, i as int);
        let ghost next = texts(ids@).subrange(0, i + 1);
        let ghost valid_before = texts(valid@);
        let ghost skipped_before = texts(skipped@);
        assert(next.drop_last() =~= seen);
        assert(next.last() == ids@[i as int]@);
        match parse_topic_id(ids[i].as_str()) {
            Some(n) => {
                valid.push(ids[i].clone());
                numbers.push(n);
                assert(texts(valid@) =~= valid_before.push(ids@[i as int]@));
            },
            None => {
                skipped.push(ids[i].clone());
                assert(texts(skipped@) =~= skipped_before.push(ids@[i as int]@));
            },
        }
        i = i + 1;
    }
    assert(texts(ids@).subrange(0, ids@.len() as int) =~= texts(ids@));
    TopicSplit { valid, numbers, skipped }
}

} // verus!
