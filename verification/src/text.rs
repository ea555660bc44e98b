//! Texts as sequences of characters, and their `+`-separated segments.

use vstd::prelude::*;
use vstd::std_specs::iter::IteratorSpec;
use vstd::string::*;

verus! {

/// The length of the first segment of `s`: the number of characters before
/// the first `+`, or all of them where `s` holds none.
pub open spec fn segment_len(s: Seq<char>) -> nat
    decreases s.len(),
{
    if s.len() == 0 || s[0] == '+' {
        0
    } else {
        1 + segment_len(s.drop_first())
    }
}

/// The first segment of `s`: what stands before the first `+`, or all of
/// `s` where it holds none.
pub open spec fn first_segment(s: Seq<char>) -> Seq<char> {
    s.take(segment_len(s) as int)
}

/// What follows the `+` that ends the first segment of `s`; nothing where
/// `s` holds no `+`.
pub open spec fn after_first_segment(s: Seq<char>) -> Seq<char> {
    if segment_len(s) < s.len() {
        s.skip(segment_len(s) as int + 1)
    } else {
        Seq::empty()
    }
}

/// The number of segments of `s`: one more than it holds `+` signs.
pub open spec fn segment_count(s: Seq<char>) -> nat {
    plus_count(s) + 1
}

/// The number of `+` signs in `s`.
pub open spec fn plus_count(s: Seq<char>) -> nat
    decreases s.len(),
{
    if s.len() == 0 {
        0
    } else if s[0] == '+' {
        1 + plus_count(s.drop_first())
    } else {
        plus_count(s.drop_first())
    }
}

/// The first segment ends within the text, holds no `+`, and is followed by
/// one unless it is the whole text.
pub proof fn lemma_segment_len(s: Seq<char>)
    ensures
        segment_len(s) <= s.len(),
        forall|i: int| 0 <= i < segment_len(s) ==> #[trigger] s[i] != '+',
        segment_len(s) < s.len() ==> s[segment_len(s) as int] == '+',
    decreases s.len(),
{
    if s.len() == 0 || s[0] == '+' {
    } else {
        let t = s.drop_first();
        lemma_segment_len(t);
        assert forall|i: int| 0 <= i < segment_len(s) implies #[trigger] s[i] != '+' by {
            if i > 0 {
                assert(s[i] == t[i - 1]);
            }
        }
        if segment_len(s) < s.len() {
            assert(s[segment_len(s) as int] == t[segment_len(t) as int]);
        }
    }
}

/// Only one length is that of the first segment: `k` characters without a
/// `+`, and then a `+` or the end.
pub proof fn lemma_segment_len_unique(s: Seq<char>, k: int)
    requires
        0 <= k <= s.len(),
        forall|i: int| 0 <= i < k ==> #[trigger] s[i] != '+',
        k < s.len() ==> s[k] == '+',
    ensures
        segment_len(s) == k,
    decreases s.len(),
{
    if s.len() == 0 {
    } else if s[0] == '+' {
        if k > 0 {
            assert(s[0] != '+');
        }
    } else {
        let t = s.drop_first();
        assert forall|i: int| 0 <= i < k - 1 implies #[trigger] t[i] != '+' by {
            assert(t[i] == s[i + 1]);
        }
        lemma_segment_len_unique(t, k - 1);
    }
}

/// A text that holds no `+` is its own first segment.
pub proof fn lemma_single_segment(s: Seq<char>)
    requires
        forall|i: int| 0 <= i < s.len() ==> #[trigger] s[i] != '+',
    ensures
        segment_len(s) == s.len(),
        first_segment(s) == s,
{
    lemma_segment_len_unique(s, s.len() as int);
    assert(s.take(s.len() as int) =~= s);
}

/// Where a text without a `+` is followed by a `+` and a tail, the text is
/// the first segment of the whole, and the tail is what follows it.
pub proof fn lemma_joined_segments(head: Seq<char>, tail: Seq<char>)
    requires
        forall|i: int| 0 <= i < head.len() ==> #[trigger] head[i] != '+',
    ensures
        segment_len(head + seq!['+'] + tail) == head.len(),
        first_segment(head + seq!['+'] + tail) == head,
        after_first_segment(head + seq!['+'] + tail) == tail,
{
    let s = head + seq!['+'] + tail;
    assert forall|i: int| 0 <= i < head.len() implies #[trigger] s[i] != '+' by {
        assert(s[i] == head[i]);
    }
    lemma_segment_len_unique(s, head.len() as int);
    assert(s.take(head.len() as int) =~= head);
    assert(s.skip(head.len() as int + 1) =~= tail);
}

/// A text has no `+` exactly when its first segment is all of it.
pub proof fn lemma_plus_count_zero(s: Seq<char>)
    ensures
        plus_count(s) == 0 <==> segment_len(s) == s.len(),
    decreases s.len(),
{
    if s.len() == 0 {
    } else {
        lemma_plus_count_zero(s.drop_first());
        lemma_segment_len(s.drop_first());
    }
}

/// The `+` signs of a text are the one that ends its first segment and
/// those of what follows it.
pub proof fn lemma_plus_count_rest(s: Seq<char>)
    requires
        segment_len(s) < s.len(),
    ensures
        plus_count(s) == 1 + plus_count(after_first_segment(s)),
    decreases s.len(),
{
    if s[0] == '+' {
        assert(s.skip(1) =~= s.drop_first());
    } else {
        let t = s.drop_first();
        lemma_plus_count_rest(t);
        assert(t.skip(segment_len(t) as int + 1) =~= s.skip(segment_len(s) as int + 1));
    }
}

/// The characters of `s`.
pub fn chars_of(s: &str) -> (r: Vec<char>)
    ensures
        r@ == s@,
{
    broadcast use vstd::string::group_string_axioms;

    let mut rest = s.chars();
    let mut r: Vec<char> = Vec::new();
    loop
        invariant
            r@ + rest.remaining() =~= s@,
            rest.decrease() is Some,
        ensures
            r@ == s@,
        decreases rest.decrease()->0,
    {
        let ghost before = rest.remaining();
        match rest.next() {
            Some(c) => {
                r.push(c);
                assert(rest.remaining() == before.drop_first());
                assert(r@ + rest.remaining() =~= s@);
            },
            None => {
                assert(r@ =~= s@);
                break;
            },
        }
    }
    r
}

/// Where the segment that starts at `from` ends: the index of the first `+`
/// at or after `from`, or the length of `s` where there is none.
pub fn segment_end(s: &Vec<char>, from: usize) -> (r: usize)
    requires
        from <= s.len(),
    ensures
        r == from + segment_len(s@.skip(from as int)),
        from <= r <= s.len(),
{
    let mut i: usize = from;
    while i < s.len() && s[i] != '+'
        invariant
            from <= i <= s.len(),
            forall|j: int| from <= j < i ==> #[trigger] s@[j] != '+',
        decreases s.len() - i,
    {
        i = i + 1;
    }
    proof {
        lemma_segment_len_unique(s@.skip(from as int), i - from);
    }
    i
}

/// Whether the characters of `s` from `from` up to `to` spell `word`.
pub fn spells(s: &Vec<char>, from: usize, to: usize, word: &str) -> (r: bool)
    requires
        from <= to <= s.len(),
    ensures
        r == (s@.subrange(from as int, to as int) == word@),
{
    let ghost t = s@.subrange(from as int, to as int);
    let w = chars_of(word);
    let n = w.len();
    if to - from != n {
        return false;
    }
    let mut i: usize = 0;
    while i < n
        invariant
            from <= to <= s.len(),
            to - from == n,
            n == w.len(),
            w@ == word@,
            i <= n,
            t == s@.subrange(from as int, to as int),
            forall|j: int| 0 <= j < i ==> #[trigger] t[j] == w@[j],
        decreases n - i,
    {
        if s[from + i] != w[i] {
            assert(t[i as int] != w@[i as int]);
            return false;
        }
        i = i + 1;
    }
    assert(t =~= word@);
    true
}

} // verus!
