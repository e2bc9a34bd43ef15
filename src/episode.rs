//! Episode marks: watched progress canonicalised to whole or half episodes.
use vstd::prelude::*;
use vstd::string::StringExecFns;

verus! {

/// A canonical episode mark: `Int(n)` is episode `n`, `Half(n)` is episode `n + 0.5`.
#[derive(Clone, Copy, Debug, PartialEq, Eq, Structural, Hash)]
pub enum Float {
    Int(i32),
    Half(i32),
}

/// The mark that the value `num / den` (with `den > 0`) canonicalises to:
/// the fractional part below a quarter rounds down, above three quarters rounds
/// up, and anything else is the half mark over the floor.
pub open spec fn canonical(num: int, den: int) -> Float {
    let fl = num / den;
    let frac = num - fl * den;
    if 4 * frac < den {
        Float::Int(fl as i32)
    } else if 4 * frac > 3 * den {
        Float::Int((fl + 1) as i32)
    } else {
        Float::Half(fl as i32)
    }
}

/// The values `num / den` that canonicalise to a mark representable in `i32`.
pub open spec fn canonical_fits(num: int, den: int) -> bool {
    &&& den > 0
    &&& i32::MIN <= num / den
    &&& num / den < i32::MAX
}

/// The mark's value counted in half episodes.
pub open spec fn halves_of(m: Float) -> int {
    match m {
        Float::Int(n) => 2 * n,
        Float::Half(n) => 2 * n + 1,
    }
}

/// The key that hashing a mark is based on: ten times the whole part, plus
/// five for a half mark.
pub open spec fn hash_key_of(m: Float) -> int {
    match m {
        Float::Int(n) => 10 * n,
        Float::Half(n) => 10 * n + 5,
    }
}

/// The decimal text of a natural number.
pub open spec fn nat_text(n: nat) -> Seq<char>
    decreases n,
{
    if n < 10 {
        seq![digit_char(n)]
    } else {
        nat_text(n / 10) + seq![digit_char(n % 10)]
    }
}

pub open spec fn digit_char(d: nat) -> char {
    if d == 0 { '0' }
    else if d == 1 { '1' }
    else if d == 2 { '2' }
    else if d == 3 { '3' }
    else if d == 4 { '4' }
    else if d == 5 { '5' }
    else if d == 6 { '6' }
    else if d == 7 { '7' }
    else if d == 8 { '8' }
    else { '9' }
}

/// The decimal text of an integer, with a leading '-' when it is negative.
pub open spec fn int_text(n: int) -> Seq<char> {
    if n < 0 {
        seq!['-'] + nat_text((-n) as nat)
    } else {
        nat_text(n as nat)
    }
}

/// The decimal text of the value a mark denotes: "3" for `Int(3)`, "3.5" for
/// `Half(3)`, "-0.5" for `Half(-1)`.
pub open spec fn display_of(m: Float) -> Seq<char> {
    match m {
        Float::Int(n) => int_text(n as int),
        Float::Half(n) => if n >= 0 {
            nat_text(n as nat) + seq!['.', '5']
        } else {
            seq!['-'] + nat_text((-(n + 1)) as nat) + seq!['.', '5']
        },
    }
}

/// Relies on the `Display` impl of `i64`: its decimal digits, preceded by '-'
/// for a negative value.
#[verifier::external_body]
fn i64_text(n: i64) -> (r: String)
    ensures
        r@ == int_text(n as int),
{
    n.to_string()
}

impl Float {
    /// Canonicalises the progress value `num / den`.
    pub fn new(num: i64, den: u32) -> (r: Float)
        requires
            canonical_fits(num as int, den as int),
        ensures
            r == canonical(num as int, den as int),
    {
        let d = den as i64;
        let ud = den as u64;
        let (fl, frac): (i64, i64) = if num >= 0 {
            let q = (num as u64) / ud;
            let rm = (num as u64) % ud;
            proof {
                vstd::arithmetic::div_mod::lemma_fundamental_div_mod(num as int, d as int);
            }
            (q as i64, rm as i64)
        } else {
            let m = (-(num + 1)) as u64;
            let q = m / ud;
            let rm = m % ud;
            proof {
                vstd::arithmetic::div_mod::lemma_fundamental_div_mod(m as int, d as int);
                assert(q as int == m as int / d as int);
                assert(rm as int == m as int % d as int);
                vstd::arithmetic::mul::lemma_mul_is_commutative(d as int, q as int);
                assert(m == q * d + rm);
                assert(num == (-(q as int) - 1) * d + (d - 1 - rm)) by (nonlinear_arith)
                    requires
                        m == q * d + rm,
                        num == -(m as int) - 1,
                ;
                vstd::arithmetic::div_mod::lemma_fundamental_div_mod_converse(
                    num as int,
                    d as int,
                    -(q as int) - 1,
                    d - 1 - rm,
                );
                assert(q <= m) by (nonlinear_arith)
                    requires
                        m == q * d + rm,
                        d >= 1,
                        rm >= 0,
                ;
            }
            (-(q as i64) - 1, d - 1 - (rm as i64))
        };
        proof {
            assert(fl == num as int / d as int);
            assert(frac == num as int - fl * d);
        }
        if 4 * frac < d {
            Float::Int(fl as i32)
        } else if 4 * frac > 3 * d {
            Float::Int((fl + 1) as i32)
        } else {
            Float::Half(fl as i32)
        }
    }

    /// The mark's value counted in half episodes (its wire value times two).
    pub fn halves(&self) -> (r: i64)
        ensures
            r == halves_of(*self),
    {
        match *self {
            Float::Int(n) => 2 * (n as i64),
            Float::Half(n) => 2 * (n as i64) + 1,
        }
    }

    /// The integer a mark hashes as; distinct marks never share it.
    pub fn hash_key(&self) -> (r: i64)
        ensures
            r == hash_key_of(*self),
    {
        match *self {
            Float::Int(n) => 10 * (n as i64),
            Float::Half(n) => 10 * (n as i64) + 5,
        }
    }

    /// The decimal text of the value the mark denotes.
    pub fn to_display(&self) -> (r: String)
        ensures
            r@ == display_of(*self),
    {
        match *self {
            Float::Int(n) => i64_text(n as i64),
            Float::Half(n) => {
                if n >= 0 {
                    let mut s = i64_text(n as i64);
                    s.append(".5");
                    proof {
                        reveal_strlit(".5");
                        assert(s@ == display_of(*self));
                    }
                    s
                } else {
                    let mut s = String::from_str("-");
                    let digits = i64_text(-((n as i64) + 1));
                    s.append(digits.as_str());
                    s.append(".5");
                    proof {
                        reveal_strlit("-");
                        reveal_strlit(".5");
                        assert(s@ == display_of(*self));
                    }
                    s
                }
            },
        }
    }
}

/// Re-canonicalising the value a mark denotes (its half-episode count over 2)
/// gives back the same mark: canonicalisation is stable under a round trip.
pub proof fn lemma_round_trip(num: int, den: int)
    requires
        canonical_fits(num, den),
    ensures
        canonical(halves_of(canonical(num, den)), 2) == canonical(num, den),
{
    let m = canonical(num, den);
    match m {
        Float::Int(k) => {
            vstd::arithmetic::div_mod::lemma_fundamental_div_mod_converse(2 * k, 2, k as int, 0);
        },
        Float::Half(k) => {
            vstd::arithmetic::div_mod::lemma_fundamental_div_mod_converse(2 * k + 1, 2, k as int, 1);
        },
    }
}

/// Two marks hash alike only when they are equal; in particular `Int(n)` and
/// `Half(m)` never share a key.
pub proof fn lemma_hash_key_injective(a: Float, b: Float)
    ensures
        hash_key_of(a) == hash_key_of(b) <==> a == b,
{
    match (a, b) {
        (Float::Int(x), Float::Half(y)) => {
            assert(10 * x != 10 * y + 5) by (nonlinear_arith);
        },
        (Float::Half(x), Float::Int(y)) => {
            assert(10 * x + 5 != 10 * y) by (nonlinear_arith);
        },
        _ => {},
    }
}

/// No mark occurs twice in the sequence.
pub open spec fn distinct_marks(s: Seq<Float>) -> bool {
    forall|i: int, j: int| 0 <= i < s.len() && 0 <= j < s.len() && i != j ==> s[i] != s[j]
}

/// The watched set after marking `m` watched (`watched`) or not watched.
pub open spec fn toggled(s: Set<Float>, m: Float, watched: bool) -> Set<Float> {
    if watched {
        s.insert(m)
    } else {
        s.remove(m)
    }
}

/// Marks `mark` watched or unwatched in a set of distinct marks, kept as a
/// sequence: a new mark goes to the end, a removed one leaves its place.
pub fn set_episode_watched(episodes: &mut Vec<Float>, mark: Float, watched: bool)
    requires
        distinct_marks(old(episodes)@),
    ensures
        distinct_marks(final(episodes)@),
        final(episodes)@.to_set() == toggled(old(episodes)@.to_set(), mark, watched),
        watched && old(episodes)@.contains(mark) ==> final(episodes)@ == old(episodes)@,
        watched && !old(episodes)@.contains(mark) ==> final(episodes)@ == old(episodes)@.push(mark),
        !watched && !old(episodes)@.contains(mark) ==> final(episodes)@ == old(episodes)@,
{
    let mut i: usize = 0;
    let mut found = false;
    while i < episodes.len() && !found
        invariant
            episodes@ == old(episodes)@,
            i <= episodes@.len(),
            found ==> i < episodes@.len() && episodes@[i as int] == mark,
            !found ==> forall|k: int| 0 <= k < i ==> episodes@[k] != mark,
        decreases episodes@.len() - i + (if found { 0int } else { 1int }),
    {
        if episodes[i] == mark {
            found = true;
        } else {
            i = i + 1;
        }
    }
    proof {
        if !found {
            assert(!episodes@.contains(mark));
        } else {
            assert(episodes@[i as int] == mark);
        }
    }
    let ghost pre = episodes@;
    if watched {
        if !found {
            episodes.push(mark);
            proof {
                assert(episodes@.to_set() =~= pre.to_set().insert(mark)) by {
                    assert forall|x: Float| episodes@.contains(x) <==> pre.to_set().insert(mark).contains(x) by {
                        if x != mark && episodes@.contains(x) {
                            let k = choose|k: int| 0 <= k < episodes@.len() && episodes@[k] == x;
                            assert(pre[k] == x);
                        }
                        if pre.contains(x) {
                            let k = choose|k: int| 0 <= k < pre.len() && pre[k] == x;
                            assert(episodes@[k] == x);
                        }
                        if x == mark {
                            assert(episodes@[pre.len() as int] == x);
                        }
                    }
                }
            }
        } else {
            proof {
                assert(pre.to_set().insert(mark) =~= pre.to_set());
            }
        }
    } else if found {
        episodes.remove(i);
        proof {
            assert(episodes@ == pre.remove(i as int));
            assert(episodes@.to_set() =~= pre.to_set().remove(mark)) by {
                assert forall|x: Float| episodes@.contains(x) <==> pre.to_set().remove(mark).contains(x) by {
                    if episodes@.contains(x) {
                        let k = choose|k: int| 0 <= k < episodes@.len() && episodes@[k] == x;
                        if k < i {
                            assert(pre[k] == x);
                        } else {
                            assert(pre[k + 1] == x);
                        }
                    }
                    if pre.contains(x) && x != mark {
                        let k = choose|k: int| 0 <= k < pre.len() && pre[k] == x;
                        if k < i {
                            assert(episodes@[k] == x);
                        } else {
                            assert(k != i);
                            assert(episodes@[k - 1] == x);
                        }
                    }
                }
            }
        }
    } else {
        proof {
            assert(pre.to_set().remove(mark) =~= pre.to_set());
        }
    }
}

/// Marking an episode watched and then unwatched restores the set it was
/// marked in, when the episode was not in that set before.
pub proof fn lemma_mark_unmark_restores(s: Set<Float>, m: Float)
    requires
        !s.contains(m),
    ensures
        toggled(toggled(s, m, true), m, false) == s,
{
    assert(s.insert(m).remove(m) =~= s);
}

} // verus!
