//! A simple string interner: equal strings are kept once.
use vstd::prelude::*;
use std::rc::Rc;

verus! {

/// A string kept by the interner.
#[derive(Debug)]
pub struct InternedStr(Rc<String>);

impl Clone for InternedStr {
    fn clone(&self) -> (r: Self)
        ensures
            r@ == self@,
    {
        InternedStr(Rc::clone(&self.0))
    }
}

impl View for InternedStr {
    type V = Seq<char>;

    closed spec fn view(&self) -> Seq<char> {
        (*self.0)@
    }
}

impl InternedStr {
    /// The characters of the string (`Deref<Target = str>`).
    pub fn as_str(&self) -> (r: &str)
        ensures
            r@ == self@,
    {
        (*self.0).as_str()
    }

    /// A copy of the string.
    pub fn to_string(&self) -> (r: String)
        ensures
            r@ == self@,
    {
        (*self.0).clone()
    }

    /// Whether the string equals `other`.
    pub fn eq_str(&self, other: &str) -> (r: bool)
        ensures
            r == (self@ == other@),
    {
        let o = other.to_string();
        *self.0 == o
    }
}

impl Clone for Strings {
    fn clone(&self) -> (r: Self)
        ensures
            r@ == self@,
    {
        let mut strings: Vec<InternedStr> = Vec::new();
        let n = self.strings.len();
        for i in 0..n
            invariant
                n == self.strings@.len(),
                strings@.len() == i,
                forall|j: int| 0 <= j < i ==> #[trigger] strings@[j]@ == self.strings@[j]@,
        {
            strings.push(self.strings[i].clone());
        }
        let r = Strings { strings };
        assert(r.strings@.map_values(|s: InternedStr| s@) =~= self.strings@.map_values(
            |s: InternedStr| s@,
        ));
        r
    }
}

/// Whether one of the strings `v` is `s`.
pub open spec fn holds_text(v: Seq<InternedStr>, s: Seq<char>) -> bool {
    exists|i: int| 0 <= i < v.len() && #[trigger] v[i]@ == s
}

/// The strings of `v` after pushing `x` are those before and `x`.
pub proof fn lemma_holds_push(v: Seq<InternedStr>, x: InternedStr)
    ensures
        forall|s: Seq<char>| holds_text(v.push(x), s) <==> holds_text(v, s) || x@ == s,
{
    assert forall|s: Seq<char>| holds_text(v.push(x), s) <==> holds_text(v, s) || x@ == s by {
        if holds_text(v, s) {
            let i = choose|i: int| 0 <= i < v.len() && #[trigger] v[i]@ == s;
            assert(v.push(x)[i]@ == s);
        }
        if x@ == s {
            assert(v.push(x)[v.len() as int]@ == s);
        }
    }
}

/// The strings of the first `i + 1` of `v` are those of the first `i` and
/// the `i`-th.
pub proof fn lemma_holds_take(v: Seq<InternedStr>, i: int)
    requires
        0 <= i < v.len(),
    ensures
        forall|s: Seq<char>| holds_text(v.take(i + 1), s) <==> holds_text(v.take(i), s) || v[i]@ == s,
{
    assert forall|s: Seq<char>| holds_text(v.take(i + 1), s) <==> holds_text(v.take(i), s) || v[i]@ == s by {
        if holds_text(v.take(i + 1), s) {
            let j = choose|j: int| 0 <= j < i + 1 && #[trigger] v.take(i + 1)[j]@ == s;
            if j < i {
                assert(v.take(i)[j]@ == s);
            }
        }
        if holds_text(v.take(i), s) {
            let j = choose|j: int| 0 <= j < i && #[trigger] v.take(i)[j]@ == s;
            assert(v.take(i + 1)[j]@ == s);
        }
        if v[i]@ == s {
            assert(v.take(i + 1)[i]@ == s);
        }
    }
}

/// Pushes a copy of `x` onto `out`.
pub fn push_text(out: &mut Vec<InternedStr>, x: &InternedStr)
    ensures
        forall|s: Seq<char>| #![trigger holds_text(final(out)@, s)] holds_text(final(out)@, s) <==> holds_text(old(out)@, s) || x@ == s,
{
    let c = x.clone();
    proof {
        lemma_holds_push(out@, c);
    }
    out.push(c);
}

/// Pushes copies of the strings of `xs` onto `out`.
pub fn push_texts(out: &mut Vec<InternedStr>, xs: &Vec<InternedStr>)
    ensures
        forall|s: Seq<char>| #![trigger holds_text(final(out)@, s)] holds_text(final(out)@, s) <==> holds_text(old(out)@, s) || holds_text(xs@, s),
{
    let ghost start = out@;
    let n = xs.len();
    let mut i: usize = 0;
    while i < n
        invariant
            n == xs@.len(),
            i <= n,
            start == old(out)@,
            forall|s: Seq<char>| holds_text(out@, s) <==> holds_text(start, s) || holds_text(xs@.take(i as int), s),
        decreases n - i,
    {
        let ghost before = out@;
        let ghost j = i as int;
        proof {
            lemma_holds_take(xs@, j);
        }
        let c = xs[i].clone();
        proof {
            lemma_holds_push(out@, c);
        }
        out.push(c);
        i = i + 1;
        assert(j + 1 == i as int);
        assert forall|s: Seq<char>| holds_text(out@, s) <==> holds_text(start, s) || holds_text(
            xs@.take(i as int),
            s,
        ) by {
            assert(holds_text(before, s) <==> holds_text(start, s) || holds_text(xs@.take(j), s));
            assert(holds_text(out@, s) <==> holds_text(before, s) || xs@[j]@ == s);
            assert(holds_text(xs@.take(j + 1), s) <==> holds_text(xs@.take(j), s) || xs@[j]@ == s);
        }
    }
    assert(xs@.take(i as int) =~= xs@);
    assert forall|s: Seq<char>| holds_text(out@, s) <==> holds_text(start, s) || holds_text(xs@, s) by {
        assert(holds_text(out@, s) <==> holds_text(start, s) || holds_text(xs@.take(i as int), s));
    }
    assert(forall|s: Seq<char>| holds_text(out@, s) <==> holds_text(old(out)@, s) || holds_text(xs@, s));
}

/// Whether one of `v` is `x`.
pub fn holds(v: &Vec<InternedStr>, x: &InternedStr) -> (r: bool)
    ensures
        r == holds_text(v@, x@),
{
    let n = v.len();
    for i in 0..n
        invariant
            n == v@.len(),
            forall|j: int| 0 <= j < i ==> #[trigger] v@[j]@ != x@,
    {
        if *v[i].0 == *x.0 {
            assert(v@[i as int]@ == x@);
            return true;
        }
    }
    false
}

/// A (painfully simple) string interner.
pub struct Strings {
    strings: Vec<InternedStr>,
}

impl View for Strings {
    type V = Set<Seq<char>>;

    closed spec fn view(&self) -> Set<Seq<char>> {
        self.strings@.map_values(|s: InternedStr| s@).to_set()
    }
}

impl Strings {
    /// An interner that holds no string.
    pub fn new() -> (r: Self)
        ensures
            r@ == Set::<Seq<char>>::empty(),
    {
        let r = Strings { strings: Vec::new() };
        assert(r@ =~= Set::<Seq<char>>::empty());
        r
    }

    /// The interned string equal to `string`, interning it if it is new.
    pub fn string(&mut self, string: String) -> (r: InternedStr)
        ensures
            r@ == string@,
            final(self)@ == old(self)@.insert(string@),
    {
        let n = self.strings.len();
        for i in 0..n
            invariant
                n == self.strings@.len(),
                forall|j: int| 0 <= j < i ==> #[trigger] self.strings@[j]@ != string@,
        {
            if *self.strings[i].0 == string {
                let r = self.strings[i].clone();
                proof {
                    let v = self.strings@.map_values(|s: InternedStr| s@);
                    assert(v[i as int] == string@);
                    assert(self@.contains(string@));
                    assert(self@.insert(string@) =~= self@);
                }
                return r;
            }
        }
        self.insert(string)
    }

    /// Interns `string` as a new string.
    fn insert(&mut self, string: String) -> (r: InternedStr)
        ensures
            r@ == string@,
            final(self)@ == old(self)@.insert(string@),
    {
        let s = InternedStr(Rc::new(string));
        let r = s.clone();
        let ghost before = self.strings@;
        self.strings.push(s);
        proof {
            let v0 = before.map_values(|s: InternedStr| s@);
            let v1 = self.strings@.map_values(|s: InternedStr| s@);
            assert(v1 =~= v0.push(r@));
            v0.lemma_push_to_set_commute(r@);
        }
        r
    }
}

impl Strings {
    proof fn lemma_view(self)
        ensures
            forall|s: Seq<char>| self@.contains(s) <==> holds_text(self.strings@, s),
    {
        let v = self.strings@.map_values(|x: InternedStr| x@);
        assert forall|s: Seq<char>| self@.contains(s) <==> holds_text(self.strings@, s) by {
            if holds_text(self.strings@, s) {
                let i = choose|i: int| 0 <= i < self.strings@.len() && #[trigger] self.strings@[i]@ == s;
                assert(v[i] == s);
            }
            if self@.contains(s) {
                let i = choose|i: int| 0 <= i < v.len() && v[i] == s;
                assert(self.strings@[i]@ == s);
            }
        }
    }

    /// Whether the interner holds `s`.
    pub fn contains(&self, s: &str) -> (r: bool)
        ensures
            r == self@.contains(s@),
    {
        proof {
            self.lemma_view();
        }
        let n = self.strings.len();
        for i in 0..n
            invariant
                n == self.strings@.len(),
                forall|j: int| 0 <= j < i ==> #[trigger] self.strings@[j]@ != s@,
        {
            if self.strings[i].eq_str(s) {
                assert(self.strings@[i as int]@ == s@);
                assert(holds_text(self.strings@, s@));
                proof {
                    self.lemma_view();
                }
                return true;
            }
        }
        assert(!holds_text(self.strings@, s@));
        false
    }

    /// Keeps the strings that one of `held` equals, and forgets the others.
    pub fn retain_held(&mut self, held: &Vec<InternedStr>)
        ensures
            final(self)@ == old(self)@.filter(|s: Seq<char>| holds_text(held@, s)),
    {
        proof {
            self.lemma_view();
        }
        let mut kept: Vec<InternedStr> = Vec::new();
        let n = self.strings.len();
        for i in 0..n
            invariant
                n == self.strings@.len(),
                forall|s: Seq<char>|
                    holds_text(kept@, s) <==> (holds_text(self.strings@.take(i as int), s) && holds_text(held@, s)),
        {
            proof {
                lemma_holds_take(self.strings@, i as int);
            }
            if holds(held, &self.strings[i]) {
                push_text(&mut kept, &self.strings[i]);
            }
        }
        let ghost before = *self;
        assert(before.strings@.take(n as int) =~= before.strings@);
        self.strings = kept;
        proof {
            self.lemma_view();
            assert(self@ =~= before@.filter(|s: Seq<char>| holds_text(held@, s)));
        }
    }
}

impl Default for Strings {
    fn default() -> (r: Self)
        ensures
            r@ == Set::<Seq<char>>::empty(),
    {
        Self::new()
    }
}

} // verus!
