//! The scoring engine: compares a guess with the secret and counts exact
//! matches and color matches, each secret symbol matched at most once.
use vstd::multiset::*;
use vstd::prelude::*;
use vstd::seq_lib::group_to_multiset_ensures;

verus! {

broadcast use {group_multiset_axioms, group_multiset_properties, group_to_multiset_ensures};

/// The feedback for one guess.
#[derive(Debug, Clone, Copy, PartialEq, Eq, Structural)]
pub struct Feedback {
    /// Right color in the right position.
    pub exact_matches: usize,
    /// Right color in a wrong position.
    pub color_matches: usize,
}

/// Number of positions below `n` at which `a` and `b` hold the same symbol.
pub open spec fn exact_upto(a: Seq<char>, b: Seq<char>, n: int) -> nat
    decreases n,
{
    if n <= 0 {
        0
    } else {
        exact_upto(a, b, n - 1) + if a[n - 1] == b[n - 1] {
            1nat
        } else {
            0nat
        }
    }
}

/// The symbols of `a`, in order, at the positions below `n` where `b` holds
/// another symbol.
pub open spec fn unmatched_upto(a: Seq<char>, b: Seq<char>, n: int) -> Seq<char>
    decreases n,
{
    if n <= 0 {
        Seq::empty()
    } else if a[n - 1] == b[n - 1] {
        unmatched_upto(a, b, n - 1)
    } else {
        unmatched_upto(a, b, n - 1).push(a[n - 1])
    }
}

/// Number of positions at which guess and secret agree.
pub open spec fn exact_count(secret: Seq<char>, guess: Seq<char>) -> nat {
    exact_upto(secret, guess, secret.len() as int)
}

/// Number of further symbol matches between the positions that are not exact:
/// the size of the common part of the two multisets of leftover symbols.
pub open spec fn color_count(secret: Seq<char>, guess: Seq<char>) -> nat {
    let n = secret.len() as int;
    unmatched_upto(secret, guess, n).to_multiset().intersection_with(
        unmatched_upto(guess, secret, n).to_multiset(),
    ).len()
}

/// Matching one more guessed symbol `x` against `ms`, after the symbols of `p`
/// were matched: it finds a partner exactly when `ms` holds more `x` than `p`.
proof fn lemma_match_step(ms: Multiset<char>, p: Multiset<char>, x: char)
    ensures
        ms.difference_with(p).count(x) > 0 <==> ms.count(x) > p.count(x),
        ms.count(x) > p.count(x) ==> ms.intersection_with(p.insert(x)) =~= ms.intersection_with(
            p,
        ).insert(x),
        ms.count(x) > p.count(x) ==> ms.difference_with(p.insert(x)) =~= ms.difference_with(
            p,
        ).remove(x),
        ms.count(x) <= p.count(x) ==> ms.intersection_with(p.insert(x)) =~= ms.intersection_with(
            p,
        ),
        ms.count(x) <= p.count(x) ==> ms.difference_with(p.insert(x)) =~= ms.difference_with(p),
{
    assert forall|y: char|
        #[trigger] ms.intersection_with(p.insert(x)).count(y) == if y == x
            && ms.count(x) > p.count(x) {
            ms.intersection_with(p).count(y) + 1int
        } else {
            ms.intersection_with(p).count(y) as int
        } by {}
    assert forall|y: char|
        #[trigger] ms.difference_with(p.insert(x)).count(y) == if y == x
            && ms.count(x) > p.count(x) {
            ms.difference_with(p).count(y) - 1int
        } else {
            ms.difference_with(p).count(y) as int
        } by {}
}

/// The common part of `m` and the symbols of `s` has at most `s.len()` elements.
proof fn lemma_common_bounded(m: Multiset<char>, s: Seq<char>)
    ensures
        m.intersection_with(s.to_multiset()).len() <= s.len(),
    decreases s.len(),
{
    if s.len() == 0 {
        assert(m.intersection_with(s.to_multiset()) =~= Multiset::empty());
    } else {
        let t = s.drop_last();
        lemma_common_bounded(m, t);
        assert(s =~= t.push(s.last()));
        lemma_match_step(m, t.to_multiset(), s.last());
    }
}

/// Each position below `n` is either an exact match or left over.
proof fn lemma_unmatched_len(a: Seq<char>, b: Seq<char>, n: int)
    requires
        0 <= n,
    ensures
        unmatched_upto(a, b, n).len() + exact_upto(a, b, n) == n,
    decreases n,
{
    if n > 0 {
        lemma_unmatched_len(a, b, n - 1);
    }
}

proof fn lemma_exact_upto_symmetric(a: Seq<char>, b: Seq<char>, n: int)
    ensures
        exact_upto(a, b, n) == exact_upto(b, a, n),
    decreases n,
{
    if n > 0 {
        lemma_exact_upto_symmetric(a, b, n - 1);
    }
}

proof fn lemma_self_upto(c: Seq<char>, n: int)
    requires
        0 <= n,
    ensures
        exact_upto(c, c, n) == n,
        unmatched_upto(c, c, n) == Seq::<char>::empty(),
    decreases n,
{
    if n > 0 {
        lemma_self_upto(c, n - 1);
    }
}

/// Scoring is symmetric: swapping secret and guess gives the same feedback.
pub proof fn lemma_score_symmetric(a: Seq<char>, b: Seq<char>)
    requires
        a.len() == b.len(),
    ensures
        exact_count(a, b) == exact_count(b, a),
        color_count(a, b) == color_count(b, a),
{
    let n = a.len() as int;
    lemma_exact_upto_symmetric(a, b, n);
    let ma = unmatched_upto(a, b, n).to_multiset();
    let mb = unmatched_upto(b, a, n).to_multiset();
    assert(ma.intersection_with(mb) =~= mb.intersection_with(ma));
}

/// Exact and color matches together never exceed the code length.
pub proof fn lemma_score_bounded(secret: Seq<char>, guess: Seq<char>)
    requires
        secret.len() == guess.len(),
    ensures
        exact_count(secret, guess) + color_count(secret, guess) <= secret.len(),
{
    let n = secret.len() as int;
    lemma_unmatched_len(guess, secret, n);
    lemma_exact_upto_symmetric(secret, guess, n);
    lemma_common_bounded(
        unmatched_upto(secret, guess, n).to_multiset(),
        unmatched_upto(guess, secret, n),
    );
}

/// A code scored against itself matches exactly everywhere, with no color matches.
pub proof fn lemma_score_self(code: Seq<char>)
    ensures
        exact_count(code, code) == code.len(),
        color_count(code, code) == 0,
{
    let n = code.len() as int;
    lemma_self_upto(code, n);
    let m = unmatched_upto(code, code, n).to_multiset();
    assert(m =~= Multiset::empty());
    assert(m.intersection_with(m) =~= Multiset::empty());
}

/// Scores `guess` against `secret`: exact matches first, then color matches
/// among the leftover symbols, each leftover secret symbol used at most once.
pub fn score(secret: &[char], guess: &[char]) -> (r: Feedback)
    requires
        secret.len() == guess.len(),
    ensures
        r.exact_matches == exact_count(secret@, guess@),
        r.color_matches == color_count(secret@, guess@),
        r.exact_matches + r.color_matches <= secret.len(),
{
    proof {
        lemma_score_bounded(secret@, guess@);
    }
    let n = secret.len();
    let mut exact_matches: usize = 0;
    let mut secret_remaining: Vec<char> = Vec::new();
    let mut guess_remaining: Vec<char> = Vec::new();
    let mut i: usize = 0;
    while i < n
        invariant
            n == secret.len(),
            n == guess.len(),
            i <= n,
            exact_matches <= i,
            exact_matches == exact_upto(secret@, guess@, i as int),
            secret_remaining@ == unmatched_upto(secret@, guess@, i as int),
            guess_remaining@ == unmatched_upto(guess@, secret@, i as int),
        decreases n - i,
    {
        if guess[i] == secret[i] {
            exact_matches += 1;
        } else {
            secret_remaining.push(secret[i]);
            guess_remaining.push(guess[i]);
        }
        i += 1;
    }
    let ghost ms = secret_remaining@.to_multiset();
    let ghost gs = guess_remaining@;
    proof {
        assert(gs.subrange(0, 0).to_multiset() =~= Multiset::empty());
        assert(ms.intersection_with(Multiset::empty()) =~= Multiset::empty());
    }
    let mut color_matches: usize = 0;
    let mut j: usize = 0;
    while j < guess_remaining.len()
        invariant
            gs == guess_remaining@,
            j <= gs.len(),
            color_matches <= j,
            color_matches == ms.intersection_with(gs.subrange(0, j as int).to_multiset()).len(),
            secret_remaining@.to_multiset() =~= ms.difference_with(
                gs.subrange(0, j as int).to_multiset(),
            ),
        decreases gs.len() - j,
    {
        let color = guess_remaining[j];
        let mut k: usize = 0;
        while k < secret_remaining.len() && secret_remaining[k] != color
            invariant
                k <= secret_remaining.len(),
                forall|t: int| 0 <= t < k ==> secret_remaining@[t] != color,
            decreases secret_remaining.len() - k,
        {
            k += 1;
        }
        proof {
            lemma_match_step(ms, gs.subrange(0, j as int).to_multiset(), color);
            assert(gs.subrange(0, j + 1) =~= gs.subrange(0, j as int).push(color));
        }
        if k < secret_remaining.len() {
            color_matches += 1;
            secret_remaining.remove(k);
        } else {
            assert(!secret_remaining@.contains(color));
        }
        j += 1;
    }
    assert(gs.subrange(0, gs.len() as int) =~= gs);
    Feedback { exact_matches, color_matches }
}

} // verus!
