//! Lexicographic ordering of sequences.

use vstd::prelude::*;

verus! {

/// The outcome of a three-way comparison.
#[derive(Debug, Clone, Copy, PartialEq, Eq, Structural)]
pub enum Order {
    Less,
    Equal,
    Greater,
}

/// Lexicographic comparison: the first position where the sequences differ
/// decides; a proper prefix is less than what it is a prefix of.
pub open spec fn spec_lex(a: Seq<int>, b: Seq<int>) -> Order
    decreases a.len(),
{
    if a.len() == 0 && b.len() == 0 {
        Order::Equal
    } else if a.len() == 0 {
        Order::Less
    } else if b.len() == 0 {
        Order::Greater
    } else if a[0] < b[0] {
        Order::Less
    } else if a[0] > b[0] {
        Order::Greater
    } else {
        spec_lex(a.drop_first(), b.drop_first())
    }
}

/// `first`, unless it is `Equal`: then `second` decides.
pub open spec fn spec_then(first: Order, second: Order) -> Order {
    match first {
        Order::Equal => second,
        _ => first,
    }
}

/// The code points of a text.
pub open spec fn codes(s: Seq<char>) -> Seq<int> {
    Seq::new(s.len(), |i: int| s[i] as int)
}

/// The numbers of a list of components.
pub open spec fn numbers(s: Seq<u32>) -> Seq<int> {
    Seq::new(s.len(), |i: int| s[i] as int)
}

/// Texts are compared by code point.
pub open spec fn spec_text_order(a: Seq<char>, b: Seq<char>) -> Order {
    spec_lex(codes(a), codes(b))
}

/// Comparing a sequence with itself gives `Equal`, and only equal
/// sequences compare `Equal`.
pub proof fn lemma_lex_equal(a: Seq<int>, b: Seq<int>)
    ensures
        (spec_lex(a, b) == Order::Equal) <==> (a == b),
    decreases a.len(),
{
    if a.len() == 0 || b.len() == 0 {
        if a.len() == 0 && b.len() == 0 {
            assert(a =~= b);
        }
    } else {
        lemma_lex_equal(a.drop_first(), b.drop_first());
        if a[0] == b[0] {
            if a.drop_first() == b.drop_first() {
                assert(a =~= seq![a[0]] + a.drop_first());
                assert(b =~= seq![b[0]] + b.drop_first());
            }
        }
    }
}

/// Swapping the arguments mirrors the outcome.
pub proof fn lemma_lex_flip(a: Seq<int>, b: Seq<int>)
    ensures
        spec_lex(a, b) == Order::Less <==> spec_lex(b, a) == Order::Greater,
        spec_lex(a, b) == Order::Equal <==> spec_lex(b, a) == Order::Equal,
    decreases a.len(),
{
    if a.len() > 0 && b.len() > 0 {
        lemma_lex_flip(a.drop_first(), b.drop_first());
    }
}

/// Lexicographic comparison is transitive, and strict as soon as one of the
/// two steps is strict.
pub proof fn lemma_lex_transitive(a: Seq<int>, b: Seq<int>, c: Seq<int>)
    requires
        spec_lex(a, b) != Order::Greater,
        spec_lex(b, c) != Order::Greater,
    ensures
        spec_lex(a, c) != Order::Greater,
        (spec_lex(a, b) == Order::Less || spec_lex(b, c) == Order::Less) ==> spec_lex(a, c)
            == Order::Less,
    decreases a.len(),
{
    if a.len() > 0 && b.len() > 0 && c.len() > 0 {
        if a[0] == b[0] && b[0] == c[0] {
            lemma_lex_transitive(a.drop_first(), b.drop_first(), c.drop_first());
        }
    }
}

/// Code points determine the text.
pub proof fn lemma_codes_injective(a: Seq<char>, b: Seq<char>)
    requires
        codes(a) == codes(b),
    ensures
        a == b,
{
    assert(a.len() == codes(a).len());
    assert(b.len() == codes(b).len());
    assert forall|i: int| 0 <= i < a.len() implies a[i] == b[i] by {
        assert(codes(a)[i] == a[i] as int);
        assert(codes(b)[i] == b[i] as int);
    }
    assert(a =~= b);
}

/// Numbers determine the components.
pub proof fn lemma_numbers_injective(a: Seq<u32>, b: Seq<u32>)
    requires
        numbers(a) == numbers(b),
    ensures
        a == b,
{
    assert(a.len() == numbers(a).len());
    assert(b.len() == numbers(b).len());
    assert forall|i: int| 0 <= i < a.len() implies a[i] == b[i] by {
        assert(numbers(a)[i] == a[i] as int);
        assert(numbers(b)[i] == b[i] as int);
    }
    assert(a =~= b);
}

/// Compares two component lists.
pub fn compare_numbers(a: &Vec<u32>, b: &Vec<u32>) -> (r: Order)
    ensures
        r == spec_lex(numbers(a@), numbers(b@)),
{
    let mut i: usize = 0;
    let ghost x = numbers(a@);
    let ghost y = numbers(b@);
    assert(x.subrange(0, x.len() as int) =~= x);
    assert(y.subrange(0, y.len() as int) =~= y);
    while i < a.len() && i < b.len()
        invariant
            i <= a.len(),
            i <= b.len(),
            x == numbers(a@),
            y == numbers(b@),
            spec_lex(x, y) == spec_lex(
                x.subrange(i as int, x.len() as int),
                y.subrange(i as int, y.len() as int),
            ),
        decreases a.len() - i,
    {
        let ghost xs = x.subrange(i as int, x.len() as int);
        let ghost ys = y.subrange(i as int, y.len() as int);
        assert(xs[0] == a@[i as int] as int);
        assert(ys[0] == b@[i as int] as int);
        if a[i] < b[i] {
            return Order::Less;
        }
        if a[i] > b[i] {
            return Order::Greater;
        }
        assert(xs.drop_first() =~= x.subrange(i + 1, x.len() as int));
        assert(ys.drop_first() =~= y.subrange(i + 1, y.len() as int));
        i += 1;
    }
    if i < b.len() {
        Order::Less
    } else if i < a.len() {
        Order::Greater
    } else {
        Order::Equal
    }
}

/// Compares two texts by code point.
pub fn compare_chars(a: &Vec<char>, b: &Vec<char>) -> (r: Order)
    ensures
        r == spec_text_order(a@, b@),
{
    let mut i: usize = 0;
    let ghost x = codes(a@);
    let ghost y = codes(b@);
    assert(x.subrange(0, x.len() as int) =~= x);
    assert(y.subrange(0, y.len() as int) =~= y);
    while i < a.len() && i < b.len()
        invariant
            i <= a.len(),
            i <= b.len(),
            x == codes(a@),
            y == codes(b@),
            spec_lex(x, y) == spec_lex(
                x.subrange(i as int, x.len() as int),
                y.subrange(i as int, y.len() as int),
            ),
        decreases a.len() - i,
    {
        let ghost xs = x.subrange(i as int, x.len() as int);
        let ghost ys = y.subrange(i as int, y.len() as int);
        assert(xs[0] == a@[i as int] as int);
        assert(ys[0] == b@[i as int] as int);
        if a[i] < b[i] {
            return Order::Less;
        }
        if a[i] > b[i] {
            return Order::Greater;
        }
        assert(xs.drop_first() =~= x.subrange(i + 1, x.len() as int));
        assert(ys.drop_first() =~= y.subrange(i + 1, y.len() as int));
        i += 1;
    }
    if i < b.len() {
        Order::Less
    } else if i < a.len() {
        Order::Greater
    } else {
        Order::Equal
    }
}

/// Compares two strings by code point.
pub fn compare_text(a: &str, b: &str) -> (r: Order)
    ensures
        r == spec_text_order(a@, b@),
{
    let x = crate::text::to_chars(a);
    let y = crate::text::to_chars(b);
    compare_chars(&x, &y)
}

} // verus!
