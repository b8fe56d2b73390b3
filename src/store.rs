use vstd::prelude::*;
use crate::alias::{AliasEntry, AliasSpec, display_of};
use crate::order::{lex_lt, str_lt, lemma_lex_irreflexive, lemma_lex_total, lemma_lex_transitive};

verus! {

/// A position of the name `k` in a sequence of (name, alias) pairs.
pub open spec fn index_of(s: Seq<(Seq<char>, AliasSpec)>, k: Seq<char>) -> int {
    choose|i: int| 0 <= i < s.len() && s[i].0 == k
}

/// The map that a sequence of (name, alias) pairs with distinct names stands for.
pub open spec fn map_of(s: Seq<(Seq<char>, AliasSpec)>) -> Map<Seq<char>, AliasSpec> {
    Map::new(
        |k: Seq<char>| exists|i: int| 0 <= i < s.len() && s[i].0 == k,
        |k: Seq<char>| s[index_of(s, k)].1,
    )
}

/// Names that strictly increase along the sequence.
pub open spec fn names_sorted(s: Seq<(Seq<char>, AliasSpec)>) -> bool {
    forall|i: int, j: int| 0 <= i < j < s.len() ==> lex_lt(#[trigger] s[i].0, #[trigger] s[j].0)
}

/// The (name, display text) pairs of a listing.
pub open spec fn rows_view(v: Seq<(String, String)>) -> Seq<(Seq<char>, Seq<char>)> {
    v.map_values(|p: (String, String)| (p.0@, p.1@))
}

/// `rows` lists the aliases of `m`: each once, in lexicographic order of their
/// names, each with its display text.
pub open spec fn is_listing(m: Map<Seq<char>, AliasSpec>, rows: Seq<(Seq<char>, Seq<char>)>) -> bool {
    &&& forall|i: int, j: int|
        0 <= i < j < rows.len() ==> lex_lt(#[trigger] rows[i].0, #[trigger] rows[j].0)
    &&& forall|i: int|
        0 <= i < rows.len() ==> m.contains_key(#[trigger] rows[i].0) && rows[i].1 == display_of(
            m[rows[i].0],
        )
    &&& forall|k: Seq<char>|
        m.contains_key(k) ==> exists|i: int| 0 <= i < rows.len() && #[trigger] rows[i].0 == k
}

/// In a sequence with sorted names, the entry at `i` is the one that its name maps to.
proof fn lemma_map_of_at(s: Seq<(Seq<char>, AliasSpec)>, i: int)
    requires
        names_sorted(s),
        0 <= i < s.len(),
    ensures
        map_of(s).contains_key(s[i].0),
        map_of(s)[s[i].0] == s[i].1,
{
    let k = s[i].0;
    assert(exists|j: int| 0 <= j < s.len() && s[j].0 == k);
    let j = index_of(s, k);
    if j < i {
        assert(lex_lt(s[j].0, s[i].0));
        lemma_lex_irreflexive(k);
    } else if i < j {
        assert(lex_lt(s[i].0, s[j].0));
        lemma_lex_irreflexive(k);
    }
    assert(map_of(s).contains_key(k));
    assert(map_of(s)[k] == s[j].1);
}

/// A sequence with sorted names that holds exactly the entries of `m` stands for `m`.
proof fn lemma_map_of_eq(t: Seq<(Seq<char>, AliasSpec)>, m: Map<Seq<char>, AliasSpec>)
    requires
        names_sorted(t),
        forall|a: int| 0 <= a < t.len() ==> m.contains_key(#[trigger] t[a].0) && m[t[a].0] == t[a].1,
        forall|q: Seq<char>| m.contains_key(q) ==> exists|a: int| 0 <= a < t.len() && #[trigger] t[a].0 == q,
    ensures
        map_of(t) == m,
{
    assert forall|q: Seq<char>| map_of(t).contains_key(q) <==> m.contains_key(q) by {
        if map_of(t).contains_key(q) {
            let a = index_of(t, q);
            assert(t[a].0 == q);
        }
    }
    assert forall|q: Seq<char>| #[trigger] map_of(t).contains_key(q) implies map_of(t)[q] == m[q] by {
        let a = index_of(t, q);
        lemma_map_of_at(t, a);
    }
    assert(map_of(t) =~= m);
}

/// The alias names of this directory, each with what it stands for.
pub struct AliasMap {
    entries: Vec<(String, AliasEntry)>,
}

impl AliasMap {
    /// The entries as plain values, in stored order.
    pub closed spec fn pairs(self) -> Seq<(Seq<char>, AliasSpec)> {
        self.entries@.map_values(|p: (String, AliasEntry)| (p.0@, p.1@))
    }

    #[verifier::type_invariant]
    closed spec fn sorted(self) -> bool {
        names_sorted(self.pairs())
    }

    /// An empty map.
    pub fn new() -> (r: AliasMap)
        ensures
            r@ == Map::<Seq<char>, AliasSpec>::empty(),
    {
        let r = AliasMap { entries: Vec::new() };
        assert(r@ =~= Map::<Seq<char>, AliasSpec>::empty());
        r
    }

    /// The number of aliases.
    pub fn len(&self) -> (r: usize)
        ensures
            r == self@.len(),
    {
        proof {
            use_type_invariant(self);
            self.lemma_len();
        }
        self.entries.len()
    }

    /// Whether there is no alias.
    pub fn is_empty(&self) -> (r: bool)
        ensures
            r == (self@.len() == 0),
    {
        self.len() == 0
    }

    proof fn lemma_len(self)
        requires
            self.sorted(),
        ensures
            self@.len() == self.entries@.len(),
            self@.dom().finite(),
    {
        let s = self.pairs();
        let d = vstd::set_lib::set_int_range(0, s.len() as int);
        vstd::set_lib::lemma_int_range(0, s.len() as int);
        let f = |i: int| s[i].0;
        assert forall|i: int, j: int| d.contains(i) && d.contains(j) && #[trigger] f(i) == #[trigger] f(j) implies i
            == j by {
            if i < j {
                lemma_lex_irreflexive(s[i].0);
            } else if j < i {
                lemma_lex_irreflexive(s[i].0);
            }
        }
        assert(vstd::relations::injective_on(f, d));
        assert forall|q: Seq<char>| self@.dom().contains(q) <==> d.map(f).contains(q) by {
            if self@.dom().contains(q) {
                let i = choose|i: int| 0 <= i < s.len() && s[i].0 == q;
                assert(d.contains(i) && f(i) == q);
            }
            if d.map(f).contains(q) {
                let i = choose|i: int| d.contains(i) && f(i) == q;
                assert(0 <= i < s.len() && s[i].0 == q);
            }
        }
        assert(self@.dom() =~= d.map(f));
        vstd::set_lib::lemma_map_size(d, d.map(f), f);
    }

    /// Where `name` stands or would stand: `Ok(i)` where entry `i` has that
    /// name, else `Err(i)` where every earlier name is smaller and every later
    /// one larger.
    fn find(&self, name: &str) -> (r: Result<usize, usize>)
        ensures
            match r {
                Ok(i) => i < self.pairs().len() && self.pairs()[i as int].0 == name@,
                Err(i) => i <= self.pairs().len() && (forall|j: int|
                    0 <= j < i ==> lex_lt(#[trigger] self.pairs()[j].0, name@)) && (forall|j: int|
                    i <= j < self.pairs().len() ==> lex_lt(name@, #[trigger] self.pairs()[j].0)),
            },
    {
        proof {
            use_type_invariant(self);
        }
        let ghost s = self.pairs();
        let n = self.entries.len();
        let mut i: usize = 0;
        while i < n
            invariant
                n == s.len(),
                s == self.pairs(),
                names_sorted(s),
                i <= n,
                forall|j: int| 0 <= j < i ==> lex_lt(#[trigger] s[j].0, name@),
            decreases n - i,
        {
            if !str_lt(self.entries[i].0.as_str(), name) {
                if str_lt(name, self.entries[i].0.as_str()) {
                    proof {
                        assert forall|j: int| i <= j < n implies lex_lt(name@, #[trigger] s[j].0) by {
                            if j > i {
                                lemma_lex_transitive(name@, s[i as int].0, s[j].0);
                            }
                        }
                    }
                    return Err(i);
                } else {
                    proof {
                        lemma_lex_total(s[i as int].0, name@);
                    }
                    return Ok(i);
                }
            }
            i = i + 1;
        }
        Err(i)
    }

    /// What `name` stands for, if it is an alias.
    pub fn get(&self, name: &str) -> (r: Option<&AliasEntry>)
        ensures
            r is Some == self@.contains_key(name@),
            r is Some ==> r->0@ == self@[name@],
    {
        proof {
            use_type_invariant(self);
        }
        match self.find(name) {
            Ok(i) => {
                proof {
                    lemma_map_of_at(self.pairs(), i as int);
                }
                Some(&self.entries[i].1)
            },
            Err(i) => {
                proof {
                    let s = self.pairs();
                    if self@.contains_key(name@) {
                        let j = choose|j: int| 0 <= j < s.len() && s[j].0 == name@;
                        lemma_lex_irreflexive(name@);
                        assert(lex_lt(s[j].0, name@) || lex_lt(name@, s[j].0));
                    }
                }
                None
            },
        }
    }

    /// Makes `name` stand for `entry`, in place of what it stood for before.
    pub fn insert(&mut self, name: String, entry: AliasEntry)
        ensures
            final(self)@ == old(self)@.insert(name@, entry@),
    {
        proof {
            use_type_invariant(&*self);
        }
        let ghost s = self.pairs();
        let ghost k = name@;
        let ghost v = entry@;
        let pos = self.find(name.as_str());
        let mut es: Vec<(String, AliasEntry)> = Vec::new();
        std::mem::swap(&mut es, &mut self.entries);
        let ghost t;
        match pos {
            Ok(i) => {
                es.remove(i);
                es.insert(i, (name, entry));
                proof {
                    t = s.update(i as int, (k, v));
                }
            },
            Err(i) => {
                es.insert(i, (name, entry));
                proof {
                    t = s.insert(i as int, (k, v));
                }
            },
        }
        proof {
            let pe = es@.map_values(|p: (String, AliasEntry)| (p.0@, p.1@));
            assert(pe =~= t);
            assert(names_sorted(t)) by {
                assert forall|a: int, b: int| 0 <= a < b < t.len() implies lex_lt(
                    #[trigger] t[a].0,
                    #[trigger] t[b].0,
                ) by {
                    match pos {
                        Ok(_) => {},
                        Err(i) => {
                            if a < i && b > i {
                                assert(t[a] == s[a]);
                                assert(t[b] == s[b - 1]);
                            } else if a > i {
                                assert(t[a] == s[a - 1]);
                            }
                        },
                    }
                }
            }
            let m = old(self)@.insert(k, v);
            assert forall|a: int| 0 <= a < t.len() implies m.contains_key(#[trigger] t[a].0)
                && m[t[a].0] == t[a].1 by {
                lemma_lex_irreflexive(k);
                match pos {
                    Ok(i) => {
                        if a != i {
                            assert(t[a] == s[a]);
                            if a < i {
                                assert(lex_lt(s[a].0, s[i as int].0));
                            } else {
                                assert(lex_lt(s[i as int].0, s[a].0));
                            }
                            lemma_map_of_at(s, a);
                        }
                    },
                    Err(i) => {
                        if a < i {
                            assert(t[a] == s[a]);
                            lemma_map_of_at(s, a);
                        } else if a > i {
                            assert(t[a] == s[a - 1]);
                            lemma_map_of_at(s, a - 1);
                        }
                    },
                }
            }
            assert forall|q: Seq<char>| m.contains_key(q) implies exists|a: int|
                0 <= a < t.len() && #[trigger] t[a].0 == q by {
                if q == k {
                    match pos {
                        Ok(i) => {
                            assert(t[i as int].0 == q);
                        },
                        Err(i) => {
                            assert(t[i as int].0 == q);
                        },
                    }
                } else {
                    let a = choose|a: int| 0 <= a < s.len() && s[a].0 == q;
                    match pos {
                        Ok(i) => {
                            assert(t[a].0 == q);
                        },
                        Err(i) => {
                            if a < i {
                                assert(t[a].0 == q);
                            } else {
                                assert(t[a + 1].0 == q);
                            }
                        },
                    }
                }
            }
            lemma_map_of_eq(t, m);
        }
        self.entries = es;
    }

    /// Removes `name`; whether it was an alias.
    pub fn remove(&mut self, name: &str) -> (r: bool)
        ensures
            r == old(self)@.contains_key(name@),
            final(self)@ == old(self)@.remove(name@),
    {
        proof {
            use_type_invariant(&*self);
        }
        let ghost s = self.pairs();
        let ghost k = name@;
        match self.find(name) {
            Ok(i) => {
                let mut es: Vec<(String, AliasEntry)> = Vec::new();
                std::mem::swap(&mut es, &mut self.entries);
                es.remove(i);
                proof {
                    let t = s.remove(i as int);
                    let pe = es@.map_values(|p: (String, AliasEntry)| (p.0@, p.1@));
                    assert(pe =~= t);
                    assert forall|a: int, b: int| 0 <= a < b < t.len() implies lex_lt(
                        #[trigger] t[a].0,
                        #[trigger] t[b].0,
                    ) by {
                        if a >= i {
                            assert(t[a] == s[a + 1] && t[b] == s[b + 1]);
                        } else if b >= i {
                            assert(t[a] == s[a] && t[b] == s[b + 1]);
                        }
                    }
                    let m = old(self)@.remove(k);
                    lemma_map_of_at(s, i as int);
                    assert forall|a: int| 0 <= a < t.len() implies m.contains_key(#[trigger] t[a].0)
                        && m[t[a].0] == t[a].1 by {
                        lemma_lex_irreflexive(k);
                        if a < i {
                            assert(t[a] == s[a]);
                            assert(lex_lt(s[a].0, s[i as int].0));
                            lemma_map_of_at(s, a);
                        } else {
                            assert(t[a] == s[a + 1]);
                            assert(lex_lt(s[i as int].0, s[a + 1].0));
                            lemma_map_of_at(s, a + 1);
                        }
                    }
                    assert forall|q: Seq<char>| m.contains_key(q) implies exists|a: int|
                        0 <= a < t.len() && #[trigger] t[a].0 == q by {
                        let a = choose|a: int| 0 <= a < s.len() && s[a].0 == q;
                        if a < i {
                            assert(t[a].0 == q);
                        } else {
                            assert(a != i);
                            assert(t[a - 1].0 == q);
                        }
                    }
                    lemma_map_of_eq(t, m);
                }
                self.entries = es;
                true
            },
            Err(i) => {
                proof {
                    if old(self)@.contains_key(k) {
                        let j = choose|j: int| 0 <= j < s.len() && s[j].0 == k;
                        lemma_lex_irreflexive(k);
                        assert(lex_lt(s[j].0, k) || lex_lt(k, s[j].0));
                    }
                    assert(old(self)@.remove(k) =~= old(self)@);
                }
                false
            },
        }
    }

    /// Every alias with its display text, in lexicographic order of names.
    pub fn listing(&self) -> (r: Vec<(String, String)>)
        ensures
            is_listing(self@, rows_view(r@)),
    {
        proof {
            use_type_invariant(self);
        }
        let ghost s = self.pairs();
        let mut r: Vec<(String, String)> = Vec::new();
        let mut i: usize = 0;
        while i < self.entries.len()
            invariant
                s == self.pairs(),
                i <= s.len(),
                r@.len() == i,
                forall|j: int| 0 <= j < i ==> #[trigger] rows_view(r@)[j] == (s[j].0, display_of(s[j].1)),
            decreases s.len() - i,
        {
            let name = self.entries[i].0.clone();
            let shown = self.entries[i].1.display();
            let ghost before = r@;
            r.push((name, shown));
            proof {
                assert forall|j: int| 0 <= j < i + 1 implies #[trigger] rows_view(r@)[j] == (
                s[j].0, display_of(s[j].1)) by {
                    if j < i {
                        assert(r@[j] == before[j]);
                        assert(rows_view(before)[j] == (s[j].0, display_of(s[j].1)));
                    }
                }
            }
            i = i + 1;
        }
        proof {
            let rv = rows_view(r@);
            assert forall|a: int| 0 <= a < rv.len() implies self@.contains_key(#[trigger] rv[a].0)
                && rv[a].1 == display_of(self@[rv[a].0]) by {
                lemma_map_of_at(s, a);
            }
            assert forall|q: Seq<char>| self@.contains_key(q) implies exists|a: int|
                0 <= a < rv.len() && #[trigger] rv[a].0 == q by {
                let a = index_of(s, q);
                assert(rv[a].0 == q);
            }
            assert forall|a: int, b: int| 0 <= a < b < rv.len() implies lex_lt(
                #[trigger] rv[a].0,
                #[trigger] rv[b].0,
            ) by {
                assert(rv[a].0 == s[a].0 && rv[b].0 == s[b].0);
            }
        }
        r
    }
}

impl View for AliasMap {
    type V = Map<Seq<char>, AliasSpec>;

    closed spec fn view(&self) -> Map<Seq<char>, AliasSpec> {
        map_of(self.pairs())
    }
}

} // verus!
