//! Comparing argument words.
//!
//! Subcommand arguments are matched after lower-casing them. Every word the
//! grammar knows is lower-case ASCII without the letter `k`, and the only
//! characters whose lower-case form is such ASCII text are the ASCII letters
//! themselves, so lower-casing the argument and comparing is the same as
//! comparing with ASCII letters folded.

use vstd::prelude::*;

verus! {

/// `c` and `d` are the same character once an ASCII capital in `c` is
/// lower-cased.
pub open spec fn folds_to_char(c: char, d: char) -> bool {
    c == d || (0x41 <= c as u32 <= 0x5A && c as u32 + 32 == d as u32)
}

/// `a` lower-cases (in ASCII) to exactly `w`.
pub open spec fn folds_to(a: Seq<char>, w: Seq<char>) -> bool {
    a.len() == w.len() && forall|i: int| 0 <= i < a.len() ==> folds_to_char(a[i], w[i])
}

/// Is `a` the word `w` with ASCII capitals allowed.
pub fn word_is(a: &str, w: &str) -> (b: bool)
    ensures
        b == folds_to(a@, w@),
{
    let n = a.unicode_len();
    if n != w.unicode_len() {
        return false;
    }
    let mut i: usize = 0;
    while i < n
        invariant
            i <= n,
            n == a@.len(),
            n == w@.len(),
            forall|j: int| 0 <= j < i ==> folds_to_char(a@[j], w@[j]),
        decreases n - i,
    {
        let c = a.get_char(i);
        let d = w.get_char(i);
        let cu = c as u32;
        let du = d as u32;
        if !(cu == du || (0x41 <= cu && cu <= 0x5A && cu + 32 == du)) {
            assert(!folds_to_char(a@[i as int], w@[i as int]));
            return false;
        }
        i = i + 1;
    }
    true
}

/// Are `a` and `w` the same text.
pub fn same_text(a: &str, w: &str) -> (b: bool)
    ensures
        b == (a@ == w@),
{
    let n = a.unicode_len();
    if n != w.unicode_len() {
        return false;
    }
    let mut i: usize = 0;
    while i < n
        invariant
            i <= n,
            n == a@.len(),
            n == w@.len(),
            forall|j: int| 0 <= j < i ==> a@[j] == w@[j],
        decreases n - i,
    {
        if a.get_char(i) != w.get_char(i) {
            return false;
        }
        i = i + 1;
    }
    assert(a@ =~= w@);
    true
}

/// Does `a` begin with the character `c`.
pub fn starts_with_char(a: &str, c: char) -> (b: bool)
    ensures
        b == (a@.len() > 0 && a@[0] == c),
{
    a.unicode_len() > 0 && a.get_char(0) == c
}

/// Does `a` begin with `--`.
pub fn is_long_flag(a: &str) -> (b: bool)
    ensures
        b == (a@.len() >= 2 && a@[0] == '-' && a@[1] == '-'),
{
    a.unicode_len() >= 2 && a.get_char(0) == '-' && a.get_char(1) == '-'
}

/// `w` has no ASCII capital.
pub open spec fn no_capitals(w: Seq<char>) -> bool {
    forall|i: int| 0 <= i < w.len() ==> !(0x41 <= #[trigger] w[i] as u32 <= 0x5A)
}

/// A text folds to at most one word without capitals.
pub proof fn lemma_folds_unique(a: Seq<char>, w1: Seq<char>, w2: Seq<char>)
    requires
        folds_to(a, w1),
        folds_to(a, w2),
        no_capitals(w1),
        no_capitals(w2),
    ensures
        w1 == w2,
{
    assert forall|i: int| 0 <= i < w1.len() implies w1[i] == w2[i] by {
        assert(folds_to_char(a[i], w1[i]));
        assert(folds_to_char(a[i], w2[i]));
        assert(!(0x41 <= w1[i] as u32 <= 0x5A));
        assert(!(0x41 <= w2[i] as u32 <= 0x5A));
        assert(w1[i] as u32 == w2[i] as u32);
        vstd::utf8::char_u32_cast(w1[i], w1[i] as u32);
        vstd::utf8::char_u32_cast(w2[i], w2[i] as u32);
    }
    assert(w1 =~= w2);
}

/// A word folds to itself.
pub proof fn lemma_folds_self(w: Seq<char>)
    ensures
        folds_to(w, w),
{
}

/// Law: a text folds to a word exactly when it has the word's length and
/// each character is the word's character or, for a lower-case ASCII
/// letter, its capital.
pub proof fn lemma_folding(a: Seq<char>, w: Seq<char>)
    requires
        no_capitals(w),
    ensures
        folds_to(a, w) <==> (a.len() == w.len() && forall|i: int|
            0 <= i < a.len() ==> #[trigger] a[i] == w[i] || (0x61 <= w[i] as u32 <= 0x7A
                && a[i] as u32 + 32 == w[i] as u32)),
{
    if a.len() == w.len() {
        assert forall|i: int| 0 <= i < a.len() implies (folds_to_char(a[i], w[i]) <==> (#[trigger] a[i]
            == w[i] || (0x61 <= w[i] as u32 <= 0x7A && a[i] as u32 + 32 == w[i] as u32))) by {
            assert(!(0x41 <= w[i] as u32 <= 0x5A));
        }
    }
}

} // verus!
