//! Orders used to sort what the views show: the lexicographic order of
//! strings, and sorting by a total preorder.
use vstd::prelude::*;
use vstd::relations::sorted_by;

verus! {

broadcast use vstd::seq_lib::group_to_multiset_ensures;

/// Whether `a` comes before `b` or equals it, comparing characters by
/// their code points from the first on (the order of `str`).
pub open spec fn seq_le(a: Seq<char>, b: Seq<char>) -> bool
    decreases a.len(),
{
    if a.len() == 0 {
        true
    } else if b.len() == 0 {
        false
    } else if a[0] != b[0] {
        (a[0] as u32) < (b[0] as u32)
    } else {
        seq_le(a.drop_first(), b.drop_first())
    }
}

/// Any two strings are ordered one way or the other.
pub proof fn lemma_seq_le_total(a: Seq<char>, b: Seq<char>)
    ensures
        seq_le(a, b) || seq_le(b, a),
    decreases a.len(),
{
    if a.len() > 0 && b.len() > 0 {
        if a[0] == b[0] {
            lemma_seq_le_total(a.drop_first(), b.drop_first());
        } else {
            vstd::utf8::char_u32_cast(a[0], a[0] as u32);
            vstd::utf8::char_u32_cast(b[0], b[0] as u32);
        }
    }
}

/// The order of strings is transitive.
pub proof fn lemma_seq_le_trans(a: Seq<char>, b: Seq<char>, c: Seq<char>)
    requires
        seq_le(a, b),
        seq_le(b, c),
    ensures
        seq_le(a, c),
    decreases a.len(),
{
    if a.len() > 0 && b.len() > 0 && c.len() > 0 && a[0] == b[0] && b[0] == c[0] {
        lemma_seq_le_trans(a.drop_first(), b.drop_first(), c.drop_first());
    }
}

/// Two strings that each come before the other are equal.
pub proof fn lemma_seq_le_antisymmetric(a: Seq<char>, b: Seq<char>)
    requires
        seq_le(a, b),
        seq_le(b, a),
    ensures
        a == b,
    decreases a.len(),
{
    if a.len() > 0 && b.len() > 0 {
        lemma_seq_le_antisymmetric(a.drop_first(), b.drop_first());
        assert(a =~= seq![a[0]] + a.drop_first());
        assert(b =~= seq![b[0]] + b.drop_first());
    }
}

/// Every string comes before itself.
pub proof fn lemma_seq_le_reflexive(a: Seq<char>)
    ensures
        seq_le(a, a),
    decreases a.len(),
{
    if a.len() > 0 {
        lemma_seq_le_reflexive(a.drop_first());
    }
}

/// Whether `a` comes before `b` or equals it (`a <= b` on `str`).
pub fn str_le(a: &str, b: &str) -> (r: bool)
    ensures
        r == seq_le(a@, b@),
{
    let va = crate::text::chars_of(a);
    let vb = crate::text::chars_of(b);
    chars_le(va.as_slice(), vb.as_slice())
}

/// Whether `a` comes before `b` or equals it.
pub fn chars_le(a: &[char], b: &[char]) -> (r: bool)
    ensures
        r == seq_le(a@, b@),
{
    let mut i: usize = 0;
    let n = a.len();
    let m = b.len();
    assert(a@.skip(0) =~= a@);
    assert(b@.skip(0) =~= b@);
    while i < n && i < m && a[i] == b[i]
        invariant
            i <= n,
            i <= m,
            n == a@.len(),
            m == b@.len(),
            seq_le(a@, b@) == seq_le(a@.skip(i as int), b@.skip(i as int)),
        decreases n - i,
    {
        proof {
            let sa = a@.skip(i as int);
            let sb = b@.skip(i as int);
            assert(sa.drop_first() =~= a@.skip(i + 1));
            assert(sb.drop_first() =~= b@.skip(i + 1));
        }
        i = i + 1;
    }
    if i == n {
        true
    } else if i == m {
        false
    } else {
        (a[i] as u32) < (b[i] as u32)
    }
}

/// A type with a total preorder: any two values are ordered one way or the
/// other (perhaps both), and the order is transitive.
pub trait TotalPreorder: Sized {
    /// Whether `a` comes before `b` or ties with it.
    spec fn le(a: Self, b: Self) -> bool;

    /// Any two values are ordered one way or the other.
    proof fn lemma_le_total(a: Self, b: Self)
        ensures
            Self::le(a, b) || Self::le(b, a),
    ;

    /// The order is transitive.
    proof fn lemma_le_trans(a: Self, b: Self, c: Self)
        requires
            Self::le(a, b),
            Self::le(b, c),
        ensures
            Self::le(a, c),
    ;

    /// Whether `self` comes before `other` or ties with it.
    fn le_exec(&self, other: &Self) -> (r: bool)
        ensures
            r == Self::le(*self, *other),
    ;
}

/// The order of the type, as a relation.
pub open spec fn le_of<T: TotalPreorder>() -> spec_fn(T, T) -> bool {
    |a: T, b: T| T::le(a, b)
}

/// The index of a least element of `v`, which is not empty.
fn least_index<T: TotalPreorder>(v: &Vec<T>) -> (r: usize)
    requires
        v@.len() > 0,
    ensures
        r < v@.len(),
        forall|j: int| 0 <= j < v@.len() ==> T::le(v@[r as int], #[trigger] v@[j]),
{
    let mut m: usize = 0;
    let n = v.len();
    proof {
        T::lemma_le_total(v@[0], v@[0]);
    }
    for k in 1..n
        invariant
            n == v@.len(),
            m < n,
            forall|j: int| 0 <= j < k ==> T::le(v@[m as int], #[trigger] v@[j]),
    {
        if !v[m].le_exec(&v[k]) {
            proof {
                T::lemma_le_total(v@[m as int], v@[k as int]);
                assert forall|j: int| 0 <= j < k + 1 implies T::le(v@[k as int], #[trigger] v@[j]) by {
                    if j < k {
                        T::lemma_le_trans(v@[k as int], v@[m as int], v@[j]);
                    } else {
                        T::lemma_le_total(v@[j], v@[j]);
                    }
                }
            }
            m = k;
        }
    }
    m
}

/// `v` sorted by the order of its type: the same values, each before those
/// it comes before.
pub fn sort_by_order<T: TotalPreorder>(v: Vec<T>) -> (r: Vec<T>)
    ensures
        r@.to_multiset() == v@.to_multiset(),
        sorted_by(r@, le_of::<T>()),
{
    let ghost orig = v@;
    let mut rest = v;
    let mut out: Vec<T> = Vec::new();
    while rest.len() > 0
        invariant
            out@.to_multiset().add(rest@.to_multiset()) == orig.to_multiset(),
            sorted_by(out@, le_of::<T>()),
            forall|i: int, j: int|
                0 <= i < out@.len() && 0 <= j < rest@.len() ==> T::le(#[trigger] out@[i], #[trigger] rest@[j]),
        decreases rest@.len(),
    {
        let m = least_index(&rest);
        let ghost before_rest = rest@;
        let ghost before_out = out@;
        let x = rest.remove(m);
        out.push(x);
        proof {
            vstd::seq_lib::to_multiset_remove(before_rest, m as int);
            vstd::seq_lib::to_multiset_build(before_out, x);
            assert(out@.to_multiset().add(rest@.to_multiset()) =~= orig.to_multiset()) by {
                broadcast use vstd::multiset::group_multiset_axioms;
            }
            assert forall|i: int, j: int| 0 <= i < j < out@.len() implies #[trigger] (le_of::<T>())(
                out@[i],
                out@[j],
            ) by {
                if j == out@.len() - 1 {
                    assert(out@[j] == before_rest[m as int]);
                    assert(T::le(before_out[i], before_rest[m as int]));
                } else {
                    assert(sorted_by(before_out, le_of::<T>()));
                    assert((le_of::<T>())(before_out[i], before_out[j]));
                }
            }
            assert forall|i: int, j: int|
                0 <= i < out@.len() && 0 <= j < rest@.len() implies T::le(
                #[trigger] out@[i],
                #[trigger] rest@[j],
            ) by {
                let jj = if j < m { j } else { j + 1 };
                assert(rest@[j] == before_rest[jj]);
                if i == out@.len() - 1 {
                    assert(T::le(before_rest[m as int], before_rest[jj]));
                } else {
                    assert(T::le(before_out[i], before_rest[jj]));
                }
            }
        }
    }
    proof {
        assert(rest@.to_multiset() =~= vstd::multiset::Multiset::empty()) by {
            broadcast use vstd::multiset::group_multiset_axioms;
            assert(rest@ =~= Seq::<T>::empty());
        }
        assert(out@.to_multiset() =~= orig.to_multiset()) by {
            broadcast use vstd::multiset::group_multiset_axioms;
        }
    }
    out
}


/// The key by which a row of a table is sorted, and the ID of the row's
/// item: rows compare by rank, then by number, then by text.
pub struct RowKey {
    pub rank: u8,
    pub num: u128,
    pub text: String,
    pub id: u64,
}

/// Whether the key `a` comes before `b` or ties with it.
pub open spec fn key_le(a: (u8, nat, Seq<char>), b: (u8, nat, Seq<char>)) -> bool {
    a.0 < b.0 || (a.0 == b.0 && (a.1 < b.1 || (a.1 == b.1 && seq_le(a.2, b.2))))
}

/// The key of a row.
pub open spec fn key_of(k: RowKey) -> (u8, nat, Seq<char>) {
    (k.rank, k.num as nat, k.text@)
}

impl TotalPreorder for RowKey {
    open spec fn le(a: Self, b: Self) -> bool {
        key_le(key_of(a), key_of(b))
    }

    proof fn lemma_le_total(a: Self, b: Self) {
        lemma_seq_le_total(a.text@, b.text@);
    }

    proof fn lemma_le_trans(a: Self, b: Self, c: Self) {
        if seq_le(a.text@, b.text@) && seq_le(b.text@, c.text@) {
            lemma_seq_le_trans(a.text@, b.text@, c.text@);
        }
    }

    fn le_exec(&self, other: &Self) -> (r: bool) {
        self.rank < other.rank || (self.rank == other.rank && (self.num < other.num || (self.num
            == other.num && str_le(self.text.as_str(), other.text.as_str()))))
    }
}

/// The IDs of the rows, sorted by their keys, where `key(id)` is the key of
/// the row of `id`.
pub fn sort_rows(rows: Vec<RowKey>, key: Ghost<spec_fn(u64) -> (u8, nat, Seq<char>)>) -> (r: Vec<u64>)
    requires
        forall|i: int| 0 <= i < rows@.len() ==> key_of(#[trigger] rows@[i]) == key@(rows@[i].id),
    ensures
        r@.to_multiset() == rows@.map_values(|k: RowKey| k.id).to_multiset(),
        forall|i: int, j: int|
            0 <= i < j < r@.len() ==> key_le(key@(#[trigger] r@[i]), key@(#[trigger] r@[j])),
{
    let ghost orig = rows@;
    let sorted = sort_by_order(rows);
    let mut ids: Vec<u64> = Vec::new();
    let n = sorted.len();
    proof {
        assert forall|i: int| 0 <= i < sorted@.len() implies key_of(#[trigger] sorted@[i]) == key@(
            sorted@[i].id,
        ) by {
            assert(sorted@.to_multiset().count(sorted@[i]) > 0);
            assert(orig.to_multiset().count(sorted@[i]) > 0);
            assert(orig.contains(sorted@[i]));
            let k = choose|k: int| 0 <= k < orig.len() && orig[k] == sorted@[i];
        }
    }
    for i in 0..n
        invariant
            n == sorted@.len(),
            ids@ == sorted@.take(i as int).map_values(|k: RowKey| k.id),
    {
        ids.push(sorted[i].id);
        assert(sorted@.take(i + 1) =~= sorted@.take(i as int).push(sorted@[i as int]));
        assert(ids@ =~= sorted@.take(i + 1).map_values(|k: RowKey| k.id));
    }
    proof {
        assert(sorted@.take(n as int) =~= sorted@);
        lemma_map_multiset(sorted@, orig);
        assert forall|i: int, j: int| 0 <= i < j < ids@.len() implies key_le(
            key@(#[trigger] ids@[i]),
            key@(#[trigger] ids@[j]),
        ) by {
            assert((le_of::<RowKey>())(sorted@[i], sorted@[j]));
        }
    }
    ids
}

/// Sequences with the same rows have the same row IDs.
proof fn lemma_map_multiset(a: Seq<RowKey>, b: Seq<RowKey>)
    requires
        a.to_multiset() == b.to_multiset(),
    ensures
        a.map_values(|k: RowKey| k.id).to_multiset() == b.map_values(|k: RowKey| k.id).to_multiset(),
    decreases a.len(),
{
    broadcast use vstd::multiset::group_multiset_axioms;
    if a.len() == 0 {
        assert(b.len() == 0) by {
            vstd::seq_lib::to_multiset_len(a);
            vstd::seq_lib::to_multiset_len(b);
        }
        assert(a.map_values(|k: RowKey| k.id) =~= Seq::<u64>::empty());
        assert(b.map_values(|k: RowKey| k.id) =~= Seq::<u64>::empty());
    } else {
        let x = a.last();
        assert(a.to_multiset().count(x) > 0) by {
            vstd::seq_lib::to_multiset_build(a.drop_last(), x);
            assert(a.drop_last().push(x) =~= a);
        }
        assert(b.contains(x));
        let j = choose|j: int| 0 <= j < b.len() && b[j] == x;
        let b2 = b.remove(j);
        vstd::seq_lib::to_multiset_remove(b, j);
        vstd::seq_lib::to_multiset_build(a.drop_last(), x);
        assert(a.drop_last().push(x) =~= a);
        assert(a.drop_last().to_multiset() =~= b2.to_multiset());
        lemma_map_multiset(a.drop_last(), b2);
        let f = |k: RowKey| k.id;
        assert(a.map_values(f) =~= a.drop_last().map_values(f).push(x.id));
        vstd::seq_lib::to_multiset_build(a.drop_last().map_values(f), x.id);
        assert(b.map_values(f) =~= b2.map_values(f).insert(j, x.id)) by {
            assert forall|k: int| 0 <= k < b.len() implies #[trigger] b.map_values(f)[k] == b2.map_values(f).insert(j, x.id)[k] by {
                if k < j {
                } else if k == j {
                } else {
                    assert(b2[k - 1] == b[k]);
                }
            }
        }
        vstd::seq_lib::to_multiset_insert(b2.map_values(f), j, x.id);
    }
}

} // verus!
