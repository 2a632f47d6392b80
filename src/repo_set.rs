use vstd::prelude::*;
use crate::link::texts_view;

verus! {

/// Strict lexicographic order of texts by code point, the order of `str`'s `Ord`.
pub open spec fn text_lt(a: Seq<char>, b: Seq<char>) -> bool
    decreases a.len(),
{
    if a.len() == 0 {
        b.len() > 0
    } else if b.len() == 0 {
        false
    } else if a[0] != b[0] {
        a[0] < b[0]
    } else {
        text_lt(a.drop_first(), b.drop_first())
    }
}

pub proof fn lemma_text_lt_irreflexive(a: Seq<char>)
    ensures
        !text_lt(a, a),
    decreases a.len(),
{
    if a.len() > 0 {
        lemma_text_lt_irreflexive(a.drop_first());
    }
}

pub proof fn lemma_text_lt_total(a: Seq<char>, b: Seq<char>)
    ensures
        a == b || text_lt(a, b) || text_lt(b, a),
    decreases a.len(),
{
    if a.len() > 0 && b.len() > 0 && a[0] == b[0] {
        lemma_text_lt_total(a.drop_first(), b.drop_first());
        if a.drop_first() == b.drop_first() {
            assert(a =~= seq![a[0]] + a.drop_first());
            assert(b =~= seq![b[0]] + b.drop_first());
        }
    } else if a.len() > 0 && b.len() > 0 {
    } else if a.len() == 0 && b.len() == 0 {
        assert(a =~= b);
    }
}

pub proof fn lemma_text_lt_transitive(a: Seq<char>, b: Seq<char>, c: Seq<char>)
    requires
        text_lt(a, b),
        text_lt(b, c),
    ensures
        text_lt(a, c),
    decreases a.len(),
{
    if a.len() > 0 && b.len() > 0 && c.len() > 0 && a[0] == b[0] && b[0] == c[0] {
        lemma_text_lt_transitive(a.drop_first(), b.drop_first(), c.drop_first());
    }
}

pub open spec fn strictly_sorted(v: Seq<Seq<char>>) -> bool {
    forall|i: int, j: int| 0 <= i < j < v.len() ==> text_lt(#[trigger] v[i], #[trigger] v[j])
}

/// Whether `a` comes strictly before `b`.
pub fn text_less(a: &str, b: &str) -> (r: bool)
    ensures
        r == text_lt(a@, b@),
{
    let la = a.unicode_len();
    let lb = b.unicode_len();
    let mut i: usize = 0;
    assert(a@.skip(0) =~= a@ && b@.skip(0) =~= b@);
    while i < la && i < lb
        invariant
            i <= la == a@.len(),
            i <= lb == b@.len(),
            text_lt(a@, b@) == text_lt(a@.skip(i as int), b@.skip(i as int)),
        decreases la - i,
    {
        let ca = a.get_char(i);
        let cb = b.get_char(i);
        assert(a@.skip(i as int)[0] == ca && b@.skip(i as int)[0] == cb);
        if ca != cb {
            return ca < cb;
        }
        assert(a@.skip(i as int).drop_first() =~= a@.skip(i + 1));
        assert(b@.skip(i as int).drop_first() =~= b@.skip(i + 1));
        i += 1;
    }
    i < lb
}

/// A set of repository names, kept in ascending order.
pub struct RepoSet {
    names: Vec<String>,
}

impl RepoSet {
    /// The names, in ascending order.
    pub closed spec fn sorted_names(&self) -> Seq<Seq<char>> {
        texts_view(self.names@)
    }

    pub closed spec fn wf(&self) -> bool {
        strictly_sorted(texts_view(self.names@))
    }

    pub fn new() -> (r: RepoSet)
        ensures
            r.wf(),
            r.sorted_names() == Seq::<Seq<char>>::empty(),
    {
        let r = RepoSet { names: Vec::new() };
        assert(texts_view(r.names@) =~= Seq::<Seq<char>>::empty());
        r
    }

    /// Adds a name; a name already present is kept once.
    pub fn insert(&mut self, name: &str)
        requires
            old(self).wf(),
        ensures
            final(self).wf(),
            final(self).sorted_names().to_set() == old(self).sorted_names().to_set().insert(name@),
            strictly_sorted(final(self).sorted_names()),
    {
        let ghost before = texts_view(self.names@);
        let mut i: usize = 0;
        while i < self.names.len() && text_less(self.names[i].as_str(), name)
            invariant
                i <= self.names@.len(),
                texts_view(self.names@) == before,
                strictly_sorted(before),
                forall|j: int| 0 <= j < i ==> text_lt(#[trigger] before[j], name@),
            decreases self.names@.len() - i,
        {
            i += 1;
        }
        if i < self.names.len() && !text_less(name, self.names[i].as_str()) {
            proof {
                lemma_text_lt_total(before[i as int], name@);
                assert(before[i as int] == name@);
                assert(before.to_set().insert(name@) =~= before.to_set());
            }
            return;
        }
        proof {
            if i < before.len() {
                lemma_text_lt_total(before[i as int], name@);
                if before[i as int] == name@ {
                    lemma_text_lt_irreflexive(name@);
                }
            }
        }
        self.names.insert(i, String::from_str(name));
        let ghost after = texts_view(self.names@);
        assert(after =~= before.insert(i as int, name@));
        assert forall|j: int, k: int| 0 <= j < k < after.len() implies text_lt(
            #[trigger] after[j],
            #[trigger] after[k],
        ) by {
            if k < i {
            } else if k == i {
            } else if j < i {
                assert(after[k] == before[k - 1]);
                if k - 1 > i {
                    assert(text_lt(before[i as int], before[k - 1]));
                    lemma_text_lt_transitive(name@, before[i as int], before[k - 1]);
                }
                lemma_text_lt_transitive(before[j], name@, before[k - 1]);
            } else if j == i {
                if k - 1 > i {
                    assert(text_lt(before[i as int], before[k - 1]));
                    lemma_text_lt_transitive(name@, before[i as int], before[k - 1]);
                }
            } else {
                assert(after[j] == before[j - 1] && after[k] == before[k - 1]);
            }
        }
        assert(after.to_set() =~= before.to_set().insert(name@)) by {
            assert forall|x: Seq<char>| after.to_set().contains(x) <==> before.to_set().insert(
                name@,
            ).contains(x) by {
                if after.contains(x) {
                    let j = choose|j: int| 0 <= j < after.len() && after[j] == x;
                    if j > i {
                        assert(before[j - 1] == x);
                    }
                }
                if before.contains(x) {
                    let j = choose|j: int| 0 <= j < before.len() && before[j] == x;
                    if j >= i {
                        assert(after[j + 1] == x);
                    } else {
                        assert(after[j] == x);
                    }
                }
                if x == name@ {
                    assert(after[i as int] == x);
                }
            }
        }
    }

    /// The names, in ascending order.
    pub fn names(&self) -> (r: &Vec<String>)
        ensures
            texts_view(r@) == self.sorted_names(),
    {
        &self.names
    }
}

} // verus!
