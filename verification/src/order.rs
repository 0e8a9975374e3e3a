//! Ordering of strings as `String`'s `Ord` orders them (by code points,
//! lexicographically), and a stable sort of records by a pair of string keys.
use vstd::prelude::*;

verus! {

broadcast use vstd::seq_lib::group_to_multiset_ensures;

/// `a <= b` in the order `String` compares by: lexicographic on code points.
pub open spec fn lex_le(a: Seq<char>, b: Seq<char>) -> bool
    decreases a.len(),
{
    if a.len() == 0 {
        true
    } else if b.len() == 0 {
        false
    } else if (a[0] as u32) < (b[0] as u32) {
        true
    } else if (a[0] as u32) > (b[0] as u32) {
        false
    } else {
        lex_le(a.drop_first(), b.drop_first())
    }
}

proof fn lemma_char_code_injective(a: char, b: char)
    requires
        (a as u32) == (b as u32),
    ensures
        a == b,
{
}

pub proof fn lemma_lex_total(a: Seq<char>, b: Seq<char>)
    ensures
        lex_le(a, b) || lex_le(b, a),
    decreases a.len(),
{
    if a.len() > 0 && b.len() > 0 && a[0] as u32 == b[0] as u32 {
        lemma_lex_total(a.drop_first(), b.drop_first());
    }
}

pub proof fn lemma_lex_antisym(a: Seq<char>, b: Seq<char>)
    requires
        lex_le(a, b),
        lex_le(b, a),
    ensures
        a == b,
    decreases a.len(),
{
    if a.len() == 0 {
        assert(b.len() == 0);
        assert(a =~= b);
    } else {
        assert(a[0] as u32 == b[0] as u32);
        lemma_lex_antisym(a.drop_first(), b.drop_first());
        lemma_char_code_injective(a[0], b[0]);
        assert(a.drop_first().len() == b.drop_first().len());
        assert(a.len() == b.len());
        assert(a =~= b) by {
            assert forall|i: int| 0 <= i < a.len() implies a[i] == b[i] by {
                if i > 0 {
                    assert(a[i] == a.drop_first()[i - 1]);
                    assert(b[i] == b.drop_first()[i - 1]);
                }
            }
        }
    }
}

pub proof fn lemma_lex_trans(a: Seq<char>, b: Seq<char>, c: Seq<char>)
    requires
        lex_le(a, b),
        lex_le(b, c),
    ensures
        lex_le(a, c),
    decreases a.len(),
{
    if a.len() > 0 && b.len() > 0 && c.len() > 0 && a[0] as u32 == b[0] as u32 && b[0] as u32
        == c[0] as u32 {
        lemma_lex_trans(a.drop_first(), b.drop_first(), c.drop_first());
    }
}

pub proof fn lemma_lex_refl(a: Seq<char>)
    ensures
        lex_le(a, a),
    decreases a.len(),
{
    if a.len() > 0 {
        lemma_lex_refl(a.drop_first());
    }
}

/// `a <= b` on pairs of strings, first component first (tuple order).
pub open spec fn pair_le(a: (Seq<char>, Seq<char>), b: (Seq<char>, Seq<char>)) -> bool {
    (lex_le(a.0, b.0) && a.0 != b.0) || (a.0 == b.0 && lex_le(a.1, b.1))
}

pub proof fn lemma_pair_total(a: (Seq<char>, Seq<char>), b: (Seq<char>, Seq<char>))
    ensures
        pair_le(a, b) || pair_le(b, a),
{
    lemma_lex_total(a.0, b.0);
    lemma_lex_total(a.1, b.1);
}

pub proof fn lemma_pair_trans(
    a: (Seq<char>, Seq<char>),
    b: (Seq<char>, Seq<char>),
    c: (Seq<char>, Seq<char>),
)
    requires
        pair_le(a, b),
        pair_le(b, c),
    ensures
        pair_le(a, c),
{
    if lex_le(a.0, b.0) && lex_le(b.0, c.0) {
        lemma_lex_trans(a.0, b.0, c.0);
    }
    if lex_le(a.1, b.1) && lex_le(b.1, c.1) {
        lemma_lex_trans(a.1, b.1, c.1);
    }
    if a.0 == c.0 && a.0 != b.0 {
        lemma_lex_antisym(a.0, b.0);
    }
}

/// Records sorted by a pair of string keys.
pub trait TextKeyed: Sized {
    spec fn sort_key(&self) -> (Seq<char>, Seq<char>);

    fn sort_key_exec(&self) -> (r: (Vec<char>, Vec<char>))
        ensures
            r.0@ == self.sort_key().0,
            r.1@ == self.sort_key().1,
    ;
}

/// The records are in non-decreasing key order.
pub open spec fn keys_sorted<T: TextKeyed>(s: Seq<T>) -> bool {
    forall|i: int, j: int|
        0 <= i < j < s.len() ==> pair_le(#[trigger] s[i].sort_key(), #[trigger] s[j].sort_key())
}

/// Where insertion puts `x` into `acc`, searching from `p`: before the first
/// record whose key is above the key of `x`, or at the end.
pub open spec fn insert_pos<T: TextKeyed>(acc: Seq<T>, x: T, p: int) -> int
    decreases acc.len() - p,
{
    if p < 0 || p >= acc.len() {
        acc.len() as int
    } else if !pair_le(acc[p].sort_key(), x.sort_key()) {
        p
    } else {
        insert_pos(acc, x, p + 1)
    }
}

/// The first `k` records of `s` sorted by a stable insertion sort: each record
/// goes after every record already placed whose key is not above its own.
pub open spec fn sorted_prefix<T: TextKeyed>(s: Seq<T>, k: int) -> Seq<T>
    decreases k,
{
    if k <= 0 {
        Seq::empty()
    } else {
        let acc = sorted_prefix(s, k - 1);
        acc.insert(insert_pos(acc, s[k - 1], 0), s[k - 1])
    }
}

/// Code-point comparison of two strings: `a <= b`.
pub fn lex_le_exec(a: &Vec<char>, b: &Vec<char>) -> (r: bool)
    ensures
        r == lex_le(a@, b@),
{
    let mut i: usize = 0;
    assert(a@.subrange(0, a@.len() as int) =~= a@);
    assert(b@.subrange(0, b@.len() as int) =~= b@);
    while i < a.len() && i < b.len() && a[i] as u32 == b[i] as u32
        invariant
            i <= a@.len(),
            i <= b@.len(),
            lex_le(a@, b@) == lex_le(a@.subrange(i as int, a@.len() as int), b@.subrange(
                i as int,
                b@.len() as int,
            )),
        decreases a@.len() - i,
    {
        let ghost sa = a@.subrange(i as int, a@.len() as int);
        let ghost sb = b@.subrange(i as int, b@.len() as int);
        assert(sa.drop_first() =~= a@.subrange(i + 1, a@.len() as int));
        assert(sb.drop_first() =~= b@.subrange(i + 1, b@.len() as int));
        i = i + 1;
    }
    let ghost sa = a@.subrange(i as int, a@.len() as int);
    let ghost sb = b@.subrange(i as int, b@.len() as int);
    if i == a.len() {
        true
    } else if i == b.len() {
        false
    } else {
        assert(sa[0] == a@[i as int]);
        assert(sb[0] == b@[i as int]);
        (a[i] as u32) < (b[i] as u32)
    }
}

/// Tuple comparison of two key pairs: `a <= b`.
pub fn pair_le_exec(a: &(Vec<char>, Vec<char>), b: &(Vec<char>, Vec<char>)) -> (r: bool)
    ensures
        r == pair_le((a.0@, a.1@), (b.0@, b.1@)),
{
    let le0 = lex_le_exec(&a.0, &b.0);
    let ge0 = lex_le_exec(&b.0, &a.0);
    proof {
        if le0 && ge0 {
            lemma_lex_antisym(a.0@, b.0@);
        }
        if a.0@ == b.0@ {
            lemma_lex_refl(a.0@);
        }
    }
    if le0 && !ge0 {
        true
    } else if le0 && ge0 {
        lex_le_exec(&a.1, &b.1)
    } else {
        false
    }
}

/// Sort records by their keys, keeping records with equal keys in the order
/// they came in. The result holds the same records.
pub fn sort_by_text_key<T: TextKeyed>(v: Vec<T>) -> (r: Vec<T>)
    ensures
        r@ == sorted_prefix(v@, v@.len() as int),
        keys_sorted(r@),
        r@.to_multiset() == v@.to_multiset(),
        r@.len() == v@.len(),
{
    let mut input = v;
    let mut out: Vec<T> = Vec::new();
    let ghost orig = input@;
    while input.len() > 0
        invariant
            input@ == orig.subrange(orig.len() - input@.len(), orig.len() as int),
            out@ == sorted_prefix(orig, orig.len() - input@.len()),
            keys_sorted(out@),
            out@.to_multiset().add(input@.to_multiset()) == orig.to_multiset(),
            out@.len() + input@.len() == orig.len(),
        decreases input@.len(),
    {
        let ghost before_in = input@;
        let ghost k = orig.len() - input@.len();
        let x = input.remove(0);
        assert(x == orig[k]);
        assert(input@ =~= orig.subrange(k + 1, orig.len() as int));
        proof {
            vstd::seq_lib::to_multiset_remove(before_in, 0);
            assert(before_in.remove(0) == input@);
        }
        let kx = x.sort_key_exec();
        let n = out.len();
        let mut p: usize = 0;
        assert((kx.0@, kx.1@) == x.sort_key());
        while p < n
            invariant
                p <= n,
                n == out@.len(),
                keys_sorted(out@),
                (kx.0@, kx.1@) == x.sort_key(),
                forall|k: int| 0 <= k < p ==> pair_le(#[trigger] out@[k].sort_key(), x.sort_key()),
                insert_pos(out@, x, 0) == insert_pos(out@, x, p as int),
            ensures
                p <= n,
                insert_pos(out@, x, 0) == insert_pos(out@, x, p as int),
                forall|k: int| 0 <= k < p ==> pair_le(#[trigger] out@[k].sort_key(), x.sort_key()),
                p < n ==> !pair_le(out@[p as int].sort_key(), x.sort_key()),
            decreases n - p,
        {
            let kp = out[p].sort_key_exec();
            assert((kp.0@, kp.1@) == out@[p as int].sort_key());
            if !pair_le_exec(&kp, &kx) {
                break;
            }
            p = p + 1;
        }
        let ghost before_out = out@;
        proof {
            if p < n {
                lemma_pair_total(before_out[p as int].sort_key(), x.sort_key());
            }
            assert(insert_pos(before_out, x, p as int) == p);
            assert(sorted_prefix(orig, k + 1) == before_out.insert(p as int, x));
        }
        out.insert(p, x);
        proof {
            vstd::seq_lib::to_multiset_insert(before_out, p as int, x);
            assert(out@ == before_out.insert(p as int, x));
            assert forall|i: int, j: int|
                0 <= i < j < out@.len() implies pair_le(
                #[trigger] out@[i].sort_key(),
                #[trigger] out@[j].sort_key(),
            ) by {
                if j < p {
                    assert(out@[i] == before_out[i]);
                    assert(out@[j] == before_out[j]);
                } else if j == p {
                    assert(out@[i] == before_out[i]);
                } else if i == p {
                    assert(out@[j] == before_out[j - 1]);
                    if j - 1 > p {
                        lemma_pair_trans(x.sort_key(), before_out[p as int].sort_key(), before_out[j - 1].sort_key());
                    }
                } else if i < p {
                    assert(out@[i] == before_out[i]);
                    assert(out@[j] == before_out[j - 1]);
                } else {
                    assert(out@[i] == before_out[i - 1]);
                    assert(out@[j] == before_out[j - 1]);
                }
            }
            assert(before_in.to_multiset() == input@.to_multiset().insert(x));
            assert(out@.to_multiset() == before_out.to_multiset().insert(x));
        }
    }
    assert(orig.len() - input@.len() == orig.len());
    out
}

} // verus!
