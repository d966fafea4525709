//! Generated names for unnamed groups: `A`, `B`, …, `Z`, `AA`, `AB`, …
use vstd::prelude::*;
use crate::text::push_char;

verus! {

/// The letter sequence after `s`: the last letter steps forward, a `Z`
/// turns into `A` and carries into the letter before it.
pub open spec fn successor(s: Seq<u8>) -> Seq<u8>
    decreases s.len(),
{
    if s.len() == 0 {
        seq![65u8]
    } else if s.last() == 90u8 {
        successor(s.drop_last()).push(65u8)
    } else {
        s.drop_last().push((s.last() + 1) as u8)
    }
}

/// The `n`-th generated name (counting from zero), as bytes.
pub open spec fn letters(n: nat) -> Seq<u8>
    decreases n,
{
    if n == 0 {
        seq![65u8]
    } else {
        successor(letters((n - 1) as nat))
    }
}

/// The number that a letter sequence stands for in bijective base 26
/// (`A` is 1, `Z` is 26, `AA` is 27).
pub open spec fn letters_value(s: Seq<u8>) -> int
    decreases s.len(),
{
    if s.len() == 0 {
        0
    } else {
        letters_value(s.drop_last()) * 26 + (s.last() - 64)
    }
}

pub open spec fn is_letters(s: Seq<u8>) -> bool {
    forall|i: int| 0 <= i < s.len() ==> 65 <= #[trigger] s[i] <= 90
}

pub open spec fn as_chars(s: Seq<u8>) -> Seq<char> {
    s.map_values(|b: u8| b as char)
}

proof fn lemma_successor(s: Seq<u8>)
    requires
        is_letters(s),
    ensures
        is_letters(successor(s)),
        letters_value(successor(s)) == letters_value(s) + 1,
        successor(s).len() >= s.len(),
    decreases s.len(),
{
    if s.len() == 0 {
        assert(seq![65u8].drop_last() =~= Seq::<u8>::empty());
        assert(letters_value(seq![65u8]) == letters_value(Seq::<u8>::empty()) * 26 + 1);
    } else {
        let d = s.drop_last();
        assert(is_letters(d)) by {
            assert forall|i: int| 0 <= i < d.len() implies 65 <= #[trigger] d[i] <= 90 by {
                assert(d[i] == s[i]);
            }
        }
        assert(letters_value(s) == letters_value(d) * 26 + (s.last() - 64));
        if s.last() == 90u8 {
            lemma_successor(d);
            let t = successor(d).push(65u8);
            assert(t.drop_last() =~= successor(d));
            assert(successor(s) == t);
            assert(t.last() == 65u8);
            assert(letters_value(t) == letters_value(successor(d)) * 26 + 1);
            assert forall|i: int| 0 <= i < t.len() implies 65 <= #[trigger] t[i] <= 90 by {
                if i < t.len() - 1 {
                    assert(t[i] == successor(d)[i]);
                }
            }
        } else {
            let t = d.push((s.last() + 1) as u8);
            assert(t.drop_last() =~= d);
            assert(successor(s) == t);
            assert(letters_value(t) == letters_value(d) * 26 + (t.last() - 64));
            assert forall|i: int| 0 <= i < t.len() implies 65 <= #[trigger] t[i] <= 90 by {
                if i < t.len() - 1 {
                    assert(t[i] == d[i]);
                }
            }
        }
    }
}

proof fn lemma_letters(n: nat)
    ensures
        is_letters(letters(n)),
        letters_value(letters(n)) == n + 1,
        letters(n).len() >= 1,
    decreases n,
{
    if n == 0 {
        assert(seq![65u8].drop_last() =~= Seq::<u8>::empty());
        assert(letters_value(seq![65u8]) == letters_value(Seq::<u8>::empty()) * 26 + 1);
    } else {
        lemma_letters((n - 1) as nat);
        lemma_successor(letters((n - 1) as nat));
    }
}

/// The `n`-th name is the bijective base-26 numeral of `n + 1`: nonempty,
/// all letters, standing for `n + 1`.
pub proof fn law_letters_value(n: nat)
    ensures
        is_letters(letters(n)),
        letters(n).len() >= 1,
        letters_value(letters(n)) == n + 1,
{
    lemma_letters(n);
}

proof fn lemma_value_bounds(s: Seq<u8>)
    requires
        is_letters(s),
    ensures
        letters_value(s) >= 0,
        s.len() > 0 ==> letters_value(s) >= 1,
    decreases s.len(),
{
    if s.len() > 0 {
        let d = s.drop_last();
        assert forall|i: int| 0 <= i < d.len() implies 65 <= #[trigger] d[i] <= 90 by {
            assert(d[i] == s[i]);
        }
        lemma_value_bounds(d);
        assert(65 <= s[s.len() - 1] <= 90);
    }
}

proof fn lemma_value_injective(s: Seq<u8>, t: Seq<u8>)
    requires
        is_letters(s),
        is_letters(t),
        letters_value(s) == letters_value(t),
    ensures
        s == t,
    decreases s.len(),
{
    lemma_value_bounds(s);
    lemma_value_bounds(t);
    if s.len() > 0 && t.len() > 0 {
        let ds = s.drop_last();
        let dt = t.drop_last();
        assert forall|i: int| 0 <= i < ds.len() implies 65 <= #[trigger] ds[i] <= 90 by {
            assert(ds[i] == s[i]);
        }
        assert forall|i: int| 0 <= i < dt.len() implies 65 <= #[trigger] dt[i] <= 90 by {
            assert(dt[i] == t[i]);
        }
        assert(65 <= s[s.len() - 1] <= 90);
        assert(65 <= t[t.len() - 1] <= 90);
        let x = letters_value(ds);
        let y = letters_value(dt);
        let c = s.last() - 64;
        let e = t.last() - 64;
        assert(x * 26 + c == y * 26 + e);
        assert(x == y && c == e) by (nonlinear_arith)
            requires
                x * 26 + c == y * 26 + e,
                1 <= c <= 26,
                1 <= e <= 26,
        ;
        lemma_value_injective(ds, dt);
        assert(s =~= ds.push(s.last()));
        assert(t =~= dt.push(t.last()));
    }
}

/// Every nonempty string of the letters `A` to `Z` is a name of the
/// sequence: the one at its value minus one.
pub proof fn law_letters_onto(s: Seq<u8>)
    requires
        is_letters(s),
        s.len() > 0,
    ensures
        letters((letters_value(s) - 1) as nat) == s,
{
    lemma_value_bounds(s);
    let n = (letters_value(s) - 1) as nat;
    lemma_letters(n);
    lemma_value_injective(letters(n), s);
}

/// Distinct positions in the sequence get distinct names.
pub proof fn law_letters_injective(a: nat, b: nat)
    requires
        a != b,
    ensures
        letters(a) != letters(b),
{
    lemma_letters(a);
    lemma_letters(b);
}

/// Hands out the generated names in order.
pub struct LettersGen {
    letters: Vec<u8>,
    count: Ghost<nat>,
}

impl LettersGen {
    /// How many names were handed out.
    pub closed spec fn count(&self) -> nat {
        self.count@
    }

    pub closed spec fn wf(&self) -> bool {
        self.letters@ == letters(self.count@)
    }

    /// A generator whose first name is `A`.
    pub fn new() -> (r: Self)
        ensures
            r.wf(),
            r.count() == 0,
    {
        let r = LettersGen { letters: vec![65u8], count: Ghost(0) };
        proof {
            assert(r.letters@ =~= letters(0));
        }
        r
    }

    /// The next name: the `count()`-th of the sequence.
    pub fn next(&mut self) -> (r: String)
        requires
            old(self).wf(),
        ensures
            final(self).wf(),
            final(self).count() == old(self).count() + 1,
            r@ == as_chars(letters(old(self).count())),
    {
        let mut result = String::new();
        let mut i: usize = 0;
        while i < self.letters.len()
            invariant
                0 <= i <= self.letters@.len(),
                result@ =~= as_chars(self.letters@.subrange(0, i as int)),
            decreases self.letters@.len() - i,
        {
            push_char(&mut result, self.letters[i] as char);
            i = i + 1;
            proof {
                assert(as_chars(self.letters@.subrange(0, i as int)) =~= as_chars(
                    self.letters@.subrange(0, i - 1),
                ).push(self.letters@[i - 1] as char));
            }
        }
        proof {
            assert(self.letters@.subrange(0, i as int) =~= self.letters@);
        }
        self.increment_letters();
        result
    }

    fn increment_letters(&mut self)
        requires
            old(self).wf(),
        ensures
            final(self).wf(),
            final(self).count() == old(self).count() + 1,
    {
        let ghost s0 = self.letters@;
        let ghost len = s0.len() as int;
        let mut carry = true;
        let mut p: usize = self.letters.len();
        proof {
            lemma_letters(self.count@);
        }
        proof {
            assert(s0.subrange(0, len) =~= s0);
            assert(Seq::new((len - len) as nat, |q: int| 65u8) =~= Seq::<u8>::empty());
            assert(s0 =~= s0.subrange(0, len) + Seq::new((len - len) as nat, |q: int| 65u8));
        }
        while p > 0
            invariant
                0 <= p <= len,
                len == s0.len(),
                is_letters(s0),
                s0 == letters(self.count@),
                self.count@ == old(self).count@,
                self.letters@.len() == len,
                carry ==> self.letters@ == s0.subrange(0, p as int) + Seq::new(
                    (len - p) as nat,
                    |q: int| 65u8,
                ),
                carry ==> successor(s0) == successor(s0.subrange(0, p as int)) + Seq::new(
                    (len - p) as nat,
                    |q: int| 65u8,
                ),
                !carry ==> self.letters@ == successor(s0),
            decreases p,
        {
            p = p - 1;
            if carry {
                let letter = self.letters[p];
                let ghost pre = s0.subrange(0, p as int);
                proof {
                    assert(s0.subrange(0, p + 1).drop_last() =~= pre);
                    assert(s0.subrange(0, p + 1).last() == letter);
                }
                if letter == 90u8 {
                    self.letters.set(p, 65u8);
                    proof {
                        assert(self.letters@ =~= pre + Seq::new((len - p) as nat, |q: int| 65u8));
                        assert(successor(s0.subrange(0, p + 1)) == successor(pre).push(65u8));
                        assert(successor(pre).push(65u8) + Seq::new(
                            (len - p - 1) as nat,
                            |q: int| 65u8,
                        ) =~= successor(pre) + Seq::new((len - p) as nat, |q: int| 65u8));
                    }
                } else {
                    self.letters.set(p, letter + 1);
                    carry = false;
                    proof {
                        assert(successor(s0.subrange(0, p + 1)) == pre.push((letter + 1) as u8));
                        assert(self.letters@ =~= pre.push((letter + 1) as u8) + Seq::new(
                            (len - p - 1) as nat,
                            |q: int| 65u8,
                        ));
                    }
                }
            }
        }
        if carry {
            self.letters.insert(0, 65u8);
            proof {
                assert(s0.subrange(0, 0) =~= Seq::<u8>::empty());
                assert(successor(Seq::<u8>::empty()) == seq![65u8]);
                assert(self.letters@ =~= seq![65u8] + Seq::new(len as nat, |q: int| 65u8));
            }
        }
        proof {
            assert(self.letters@ == successor(s0));
        }
        let ghost next: nat = self.count@ + 1;
        self.count = Ghost(next);
    }
}

} // verus!
