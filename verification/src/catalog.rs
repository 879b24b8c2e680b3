//! Function references and the catalog: the complete, sorted collection of
//! retrieved entries that the interactive list operates on.

use vstd::prelude::*;

use crate::order::{
    insert_name, lemma_insert_name_len, lemma_sort_spec_len, lemma_sort_spec_multiset,
    lemma_sort_spec_sorted, lex_le, sort_spec, sorted_names, str_lex_le,
};

verus! {

/// A reference to one serverless function, identified by its name.
#[derive(Clone, Debug, PartialEq, Eq)]
pub struct Function {
    pub name: String,
}

impl View for Function {
    type V = Seq<char>;

    open spec fn view(&self) -> Seq<char> {
        self.name@
    }
}

impl Function {
    /// Wrap a name as a function reference.
    pub fn new(name: &str) -> (f: Function)
        ensures
            f@ == name@,
    {
        Function { name: name.to_owned() }
    }
}

/// The names of a sequence of function references, in order.
pub open spec fn names_of(s: Seq<Function>) -> Seq<Seq<char>> {
    s.map_values(|f: Function| f@)
}

/// Insert one function into a run of already placed functions, at the
/// position [`insert_name`] gives: after every name `lex_le` its own.
fn insert_function(v: &mut Vec<Function>, f: Function)
    ensures
        names_of(final(v)@) == insert_name(f@, names_of(old(v)@)),
{
    let ghost orig = names_of(old(v)@);
    let mut j: usize = 0;
    proof {
        assert(orig.skip(0) =~= orig);
        assert(orig.take(0) =~= Seq::<Seq<char>>::empty());
        assert(insert_name(f@, orig) =~= orig.take(0) + insert_name(f@, orig.skip(0)));
    }
    while j < v.len() && str_lex_le(v[j].name.as_str(), f.name.as_str())
        invariant
            j <= v.len(),
            orig == names_of(v@),
            insert_name(f@, orig) == orig.take(j as int) + insert_name(
                f@,
                orig.skip(j as int),
            ),
        decreases v.len() - j,
    {
        proof {
            let rest = orig.skip(j as int);
            assert(rest[0] == orig[j as int]);
            assert(orig[j as int] == v@[j as int]@);
            assert(lex_le(rest[0], f@));
            assert(rest.skip(1) =~= orig.skip(j + 1));
            assert(orig.take(j as int) + insert_name(f@, rest) =~= orig.take(j + 1)
                + insert_name(f@, orig.skip(j + 1)));
        }
        j = j + 1;
    }
    proof {
        let rest = orig.skip(j as int);
        if j < v.len() {
            assert(rest[0] == v@[j as int]@);
            assert(!lex_le(rest[0], f@));
            assert(insert_name(f@, rest) =~= seq![f@] + rest);
        } else {
            assert(rest =~= Seq::<Seq<char>>::empty());
            assert(insert_name(f@, rest) =~= seq![f@]);
        }
    }
    v.insert(j, f);
    proof {
        assert(names_of(v@) =~= orig.take(j as int) + seq![f@] + orig.skip(j as int));
        assert(insert_name(f@, orig) =~= orig.take(j as int) + (seq![f@] + orig.skip(
            j as int,
        )));
        assert(names_of(v@) =~= insert_name(f@, orig));
    }
}

/// Sort function references ascending by name, with the ordinal order of
/// [`lex_le`]. The result is pinned to [`sort_spec`], so the output order
/// is a function of the input alone.
pub fn sort_functions(v: Vec<Function>) -> (r: Vec<Function>)
    ensures
        names_of(r@) == sort_spec(names_of(v@)),
{
    let ghost all = names_of(v@);
    let mut v = v;
    let mut out: Vec<Function> = Vec::new();
    proof {
        assert(names_of(out@) =~= Seq::<Seq<char>>::empty());
        assert(all.take(0) =~= Seq::<Seq<char>>::empty());
        assert(sort_spec(all.take(0)) =~= Seq::<Seq<char>>::empty());
    }
    let ghost done: int = 0;
    while v.len() > 0
        invariant
            0 <= done <= all.len(),
            names_of(v@) == all.skip(done),
            names_of(out@) == sort_spec(all.take(done)),
        decreases v.len(),
    {
        let ghost prev = v@;
        let f = v.remove(0);
        proof {
            assert(names_of(prev).len() == prev.len());
            assert(done < all.len());
            assert(f@ == all.skip(done)[0]);
            assert(all.skip(done)[0] == all[done]);
            assert(prev.remove(0) =~= prev.skip(1));
            assert(names_of(v@) =~= names_of(prev).skip(1));
            assert(names_of(prev).skip(1) =~= all.skip(done + 1));
            let next = all.take(done + 1);
            assert(next.len() == done + 1);
            assert(next.last() == next[done]);
            assert(next[done] == all[done]);
            assert(next.drop_last() =~= all.take(done));
            assert(sort_spec(next) == insert_name(all[done], sort_spec(all.take(done))));
        }
        insert_function(&mut out, f);
        proof {
            done = done + 1;
        }
    }
    proof {
        assert(all.take(done) =~= all);
    }
    out
}

/// The complete, sorted collection of retrieved function references for
/// one run. Built once; never mutated afterwards.
#[derive(Clone, Debug, PartialEq, Eq)]
pub struct Catalog {
    functions: Vec<Function>,
}

impl View for Catalog {
    type V = Seq<Seq<char>>;

    closed spec fn view(&self) -> Seq<Seq<char>> {
        names_of(self.functions@)
    }
}

impl Catalog {
    /// Build the catalog from retrieved entries: sort them ascending by
    /// name. Duplicate names are kept (nothing deduplicates).
    pub fn from_entries(entries: Vec<Function>) -> (c: Catalog)
        ensures
            c@ == sort_spec(names_of(entries@)),
            c@.len() == entries@.len(),
            c@.to_multiset() == names_of(entries@).to_multiset(),
            sorted_names(c@),
    {
        proof {
            let ns = names_of(entries@);
            lemma_sort_spec_len(ns);
            lemma_sort_spec_multiset(ns);
            lemma_sort_spec_sorted(ns);
        }
        Catalog { functions: sort_functions(entries) }
    }

    /// How many functions were retrieved.
    pub fn len(&self) -> (n: usize)
        ensures
            n == self@.len(),
    {
        self.functions.len()
    }

    /// Whether nothing was retrieved.
    pub fn is_empty(&self) -> (r: bool)
        ensures
            r == (self@.len() == 0),
    {
        self.functions.len() == 0
    }

    /// The name at one position.
    pub fn name_at(&self, i: usize) -> (name: &String)
        requires
            i < self@.len(),
        ensures
            name@ == self@[i as int],
    {
        &self.functions[i].name
    }
}

} // verus!
