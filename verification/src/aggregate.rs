//! Exhaustive pagination: turning a page-limited listing into one
//! complete, deterministically ordered catalog.
//!
//! The listing call itself is a network operation and stays outside this
//! crate. The binary around it runs the retrieval loop: it requests one
//! page at a time, hands each page to [`Aggregator::absorb_page`], keeps
//! requesting while a continuation token comes back, and finishes with
//! [`Aggregator::into_catalog`]. Every decision of that loop — which
//! entries count, when to stop, what the result is — is made and verified
//! here.

use vstd::prelude::*;

use crate::catalog::{names_of, Catalog, Function};
use crate::order::{lemma_sort_spec_len, sort_spec};

verus! {

/// The page size every listing request asks for. The provider caps one
/// page at 50 entries regardless of a larger configured size.
pub const PAGINATION_SIZE: i32 = 50;

/// One listed entry as the provider reports it: the name may be absent.
#[derive(Clone, Debug, PartialEq, Eq)]
pub struct PageEntry {
    pub name: Option<String>,
}

impl View for PageEntry {
    type V = Option<Seq<char>>;

    open spec fn view(&self) -> Option<Seq<char>> {
        match self.name {
            Some(ref n) => Some(n@),
            None => None,
        }
    }
}

/// One bounded-size response chunk from the listing call: its entries, in
/// page order, and the continuation token if more pages exist.
#[derive(Clone, Debug, PartialEq, Eq)]
pub struct Page {
    pub entries: Vec<PageEntry>,
    pub next_token: Option<String>,
}

impl Page {
    /// The entries of the page, as optional names.
    pub open spec fn entry_views(self) -> Seq<Option<Seq<char>>> {
        self.entries@.map_values(|e: PageEntry| e@)
    }
}

/// The names of the named entries, in order; entries without a name are
/// passed over.
pub open spec fn named_names(entries: Seq<Option<Seq<char>>>) -> Seq<Seq<char>>
    decreases entries.len(),
{
    if entries.len() == 0 {
        Seq::empty()
    } else {
        (match entries[0] {
            Some(n) => seq![n],
            None => Seq::empty(),
        }) + named_names(entries.skip(1))
    }
}

/// Taking one more entry extends the gathered names by its name, if any.
pub proof fn lemma_named_names_snoc(entries: Seq<Option<Seq<char>>>, e: Option<Seq<char>>)
    ensures
        named_names(entries.push(e)) == named_names(entries) + (match e {
            Some(n) => seq![n],
            None => Seq::<Seq<char>>::empty(),
        }),
    decreases entries.len(),
{
    let tail = match e {
        Some(n) => seq![n],
        None => Seq::<Seq<char>>::empty(),
    };
    if entries.len() == 0 {
        assert(entries.push(e)[0] == e);
        assert(entries.push(e).skip(1) =~= Seq::<Option<Seq<char>>>::empty());
        assert(entries =~= Seq::<Option<Seq<char>>>::empty());
        assert(named_names(Seq::<Option<Seq<char>>>::empty()) =~= Seq::<Seq<char>>::empty());
        assert(named_names(entries.push(e)) =~= tail + named_names(
            entries.push(e).skip(1),
        ));
        assert(named_names(entries.push(e)) =~= named_names(entries) + tail);
    } else {
        lemma_named_names_snoc(entries.skip(1), e);
        assert(entries.push(e).skip(1) =~= entries.skip(1).push(e));
        assert(entries.push(e)[0] == entries[0]);
        assert(named_names(entries.push(e)) =~= named_names(entries) + tail);
    }
}

/// Accumulates named entries across pages, in page order, and turns them
/// into the sorted catalog once the listing reports no further page.
pub struct Aggregator {
    results: Vec<Function>,
}

impl View for Aggregator {
    type V = Seq<Seq<char>>;

    closed spec fn view(&self) -> Seq<Seq<char>> {
        names_of(self.results@)
    }
}

impl Aggregator {
    /// An aggregator that has seen no page yet.
    pub fn new() -> (a: Aggregator)
        ensures
            a@ == Seq::<Seq<char>>::empty(),
    {
        let a = Aggregator { results: Vec::new() };
        proof {
            assert(a@ =~= Seq::<Seq<char>>::empty());
        }
        a
    }

    /// Take in one page: append every named entry, in page order, and
    /// hand back the page's continuation token. The retrieval loop must
    /// keep requesting exactly while a token comes back — a page with no
    /// named entry does not end the listing, only an absent token does.
    pub fn absorb_page(&mut self, page: Page) -> (next: Option<String>)
        ensures
            final(self)@ == old(self)@ + named_names(page.entry_views()),
            next == page.next_token,
    {
        let ghost start = self@;
        let ghost views = page.entry_views();
        let Page { mut entries, next_token } = page;
        let ghost taken: int = 0;
        proof {
            assert(entries@.map_values(|e: PageEntry| e@).take(0) =~= Seq::<
                Option<Seq<char>>,
            >::empty());
            assert(named_names(views.take(0)) =~= Seq::<Seq<char>>::empty());
            assert(self@ =~= start + named_names(views.take(0)));
        }
        while entries.len() > 0
            invariant
                0 <= taken <= views.len(),
                entries@.map_values(|e: PageEntry| e@) == views.skip(taken),
                self@ == start + named_names(views.take(taken)),
            decreases entries.len(),
        {
            let ghost prev = entries@;
            let ghost before = self@;
            let entry = entries.remove(0);
            proof {
                assert(prev.map_values(|e: PageEntry| e@).len() == prev.len());
                assert(taken < views.len());
                assert(entry@ == views.skip(taken)[0]);
                assert(views.skip(taken)[0] == views[taken]);
                assert(prev.remove(0) =~= prev.skip(1));
                assert(entries@.map_values(|e: PageEntry| e@) =~= prev.map_values(
                    |e: PageEntry| e@,
                ).skip(1));
                assert(prev.map_values(|e: PageEntry| e@).skip(1) =~= views.skip(taken + 1));
                assert(views.take(taken + 1) =~= views.take(taken).push(views[taken]));
                lemma_named_names_snoc(views.take(taken), views[taken]);
            }
            match entry.name {
                Some(name) => {
                    self.results.push(Function { name });
                    proof {
                        assert(self@ =~= before + seq![views[taken]->Some_0]);
                        assert(self@ =~= start + named_names(views.take(taken + 1)));
                    }
                },
                None => {
                    proof {
                        assert(self@ =~= start + named_names(views.take(taken + 1)));
                    }
                },
            }
            proof {
                taken = taken + 1;
            }
        }
        proof {
            assert(views.take(taken) =~= views);
        }
        next_token
    }

    /// End of the listing: sort everything gathered, ascending by name,
    /// into the catalog. Nothing is deduplicated and nothing is dropped.
    pub fn into_catalog(self) -> (c: Catalog)
        ensures
            c@ == sort_spec(self@),
            c@.len() == self@.len(),
    {
        proof {
            lemma_sort_spec_len(self@);
        }
        Catalog::from_entries(self.results)
    }
}

/// The names gathered from a whole listing: those of the named entries of
/// every page, in page order.
pub open spec fn gathered_names(pages: Seq<Seq<Option<Seq<char>>>>) -> Seq<Seq<char>>
    decreases pages.len(),
{
    if pages.len() == 0 {
        Seq::empty()
    } else {
        named_names(pages[0]) + gathered_names(pages.skip(1))
    }
}

/// Page boundaries do not matter: a listing cut into pages one way and
/// then another gathers the same names as long as the entries and their
/// order are the same. With the sort pinned to [`sort_spec`], equal
/// entries therefore give the equal catalog, however they were paged.
pub proof fn lemma_gathered_names_concat(
    front: Seq<Seq<Option<Seq<char>>>>,
    back: Seq<Seq<Option<Seq<char>>>>,
)
    ensures
        gathered_names(front + back) == gathered_names(front) + gathered_names(back),
    decreases front.len(),
{
    if front.len() == 0 {
        assert(front + back =~= back);
        assert(gathered_names(front) =~= Seq::<Seq<char>>::empty());
        assert(gathered_names(front + back) =~= gathered_names(front) + gathered_names(back));
    } else {
        lemma_gathered_names_concat(front.skip(1), back);
        assert((front + back)[0] == front[0]);
        assert((front + back).skip(1) =~= front.skip(1) + back);
        assert(gathered_names(front + back) =~= gathered_names(front) + gathered_names(back));
    }
}

/// The total number of entries, named or not, over a whole listing.
pub open spec fn total_entry_count(pages: Seq<Seq<Option<Seq<char>>>>) -> int
    decreases pages.len(),
{
    if pages.len() == 0 {
        0
    } else {
        pages[0].len() + total_entry_count(pages.skip(1))
    }
}

/// Every entry of a page carries a name.
pub open spec fn all_named(entries: Seq<Option<Seq<char>>>) -> bool {
    forall|i: int| 0 <= i < entries.len() ==> entries[i] is Some
}

/// A page with only named entries contributes exactly as many names as it
/// has entries.
pub proof fn lemma_named_names_len(entries: Seq<Option<Seq<char>>>)
    ensures
        named_names(entries).len() <= entries.len(),
        all_named(entries) ==> named_names(entries).len() == entries.len(),
    decreases entries.len(),
{
    if entries.len() > 0 {
        lemma_named_names_len(entries.skip(1));
        if all_named(entries) {
            assert forall|i: int| 0 <= i < entries.skip(1).len() implies entries.skip(1)[i]
                is Some by {
                assert(entries.skip(1)[i] == entries[i + 1]);
            };
        }
    }
}

/// Aggregation is complete: over any listing whose entries all carry a
/// name, the catalog holds exactly as many names as the pages held
/// entries — the sum of all page entry counts. No page, empty or not, and
/// no entry is lost.
pub proof fn lemma_aggregation_complete(pages: Seq<Seq<Option<Seq<char>>>>)
    requires
        forall|p: int| 0 <= p < pages.len() ==> #[trigger] all_named(pages[p]),
    ensures
        sort_spec(gathered_names(pages)).len() == total_entry_count(pages),
    decreases pages.len(),
{
    lemma_sort_spec_len(gathered_names(pages));
    lemma_gathered_names_len(pages);
}

/// The gathered names number at most the entries; exactly, where every
/// entry is named.
pub proof fn lemma_gathered_names_len(pages: Seq<Seq<Option<Seq<char>>>>)
    ensures
        gathered_names(pages).len() <= total_entry_count(pages),
        (forall|p: int| 0 <= p < pages.len() ==> #[trigger] all_named(pages[p]))
            ==> gathered_names(pages).len() == total_entry_count(pages),
    decreases pages.len(),
{
    if pages.len() > 0 {
        lemma_named_names_len(pages[0]);
        lemma_gathered_names_len(pages.skip(1));
        assert forall|p: int| 0 <= p < pages.skip(1).len() && (forall|q: int|
            0 <= q < pages.len() ==> #[trigger] all_named(pages[q])) implies #[trigger] all_named(
            pages.skip(1)[p],
        ) by {
            assert(pages.skip(1)[p] == pages[p + 1]);
        };
    }
}

} // verus!
