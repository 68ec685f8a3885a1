//! The set of image addresses that a crawl has found.

use vstd::prelude::*;
use crate::text::{texts, holds};

verus! {

/// The collection after `url` is added: unchanged where it holds `url`
/// already, else with `url` at its end.
pub open spec fn collected(images: Seq<Seq<char>>, url: Seq<char>) -> Seq<Seq<char>> {
    if images.contains(url) {
        images
    } else {
        images.push(url)
    }
}

/// Adding an address to a collection without duplicates gives a collection
/// without duplicates that holds the address, and everything it held before.
pub proof fn collect_keeps_distinct(images: Seq<Seq<char>>, url: Seq<char>)
    requires
        images.no_duplicates(),
    ensures
        collected(images, url).no_duplicates(),
        forall|other: Seq<char>| #[trigger]
            collected(images, url).contains(other) <==> (images.contains(other) || other == url),
{
    let after = collected(images, url);
    if !images.contains(url) {
        assert(after[images.len() as int] == url);
        assert forall|i: int, j: int| 0 <= i < after.len() && 0 <= j < after.len() && i != j implies after[i]
            != after[j] by {
            if i < images.len() && j < images.len() {
            } else if i < images.len() {
                assert(images.contains(after[i]));
            } else {
                assert(images.contains(after[j]));
            }
        }
        assert forall|other: Seq<char>| #[trigger]
            after.contains(other) <==> (images.contains(other) || other == url) by {
            if after.contains(other) {
                let i = choose|i: int| 0 <= i < after.len() && after[i] == other;
                if i < images.len() {
                    assert(images[i] == other);
                }
            }
            if images.contains(other) {
                let i = choose|i: int| 0 <= i < images.len() && images[i] == other;
                assert(after[i] == other);
            }
        }
    }
}

/// Adding the same address twice is the same as adding it once.
pub proof fn collect_is_idempotent(images: Seq<Seq<char>>, url: Seq<char>)
    ensures
        collected(collected(images, url), url) == collected(images, url),
{
    if !images.contains(url) {
        assert(images.push(url)[images.len() as int] == url);
    }
}

/// The image addresses found so far, each once.
pub struct ImageCollector {
    urls: Vec<String>,
}

impl View for ImageCollector {
    type V = Seq<Seq<char>>;

    /// The addresses in the order in which they were first added.
    closed spec fn view(&self) -> Seq<Seq<char>> {
        texts(self.urls@)
    }
}

impl ImageCollector {
    /// Whether no address is held twice. Every collector that this module
    /// hands out is well formed.
    pub open spec fn wf(&self) -> bool {
        self@.no_duplicates()
    }

    /// A collector that holds nothing.
    pub fn new() -> (collector: ImageCollector)
        ensures
            collector.wf(),
            collector@ == Seq::<Seq<char>>::empty(),
    {
        let collector = ImageCollector { urls: Vec::new() };
        assert(collector@ =~= Seq::<Seq<char>>::empty());
        collector
    }

    /// How many addresses are held.
    pub fn len(&self) -> (count: usize)
        ensures
            count == self@.len(),
    {
        self.urls.len()
    }

    /// Whether `url` is held.
    pub fn contains(&self, url: &str) -> (held: bool)
        ensures
            held == self@.contains(url@),
    {
        holds(&self.urls, url)
    }

    /// Adds `url` unless it is held already. Says whether it was added.
    pub fn add(&mut self, url: String) -> (added: bool)
        requires
            old(self).wf(),
        ensures
            final(self).wf(),
            added == !old(self)@.contains(url@),
            final(self)@ == collected(old(self)@, url@),
    {
        proof {
            collect_keeps_distinct(self@, url@);
        }
        if holds(&self.urls, url.as_str()) {
            false
        } else {
            let ghost before = self@;
            self.urls.push(url);
            assert(self@ =~= before.push(url@));
            true
        }
    }

    /// Every address held, each once, in the order in which it was first
    /// added.
    pub fn all(&self) -> (urls: Vec<String>)
        ensures
            texts(urls@) == self@,
    {
        let mut urls: Vec<String> = Vec::new();
        let mut i: usize = 0;
        while i < self.urls.len()
            invariant
                i <= self.urls.len(),
                texts(urls@) =~= self@.take(i as int),
            decreases self.urls.len() - i,
        {
            let ghost before = texts(urls@);
            let copy = self.urls[i].clone();
            urls.push(copy);
            assert(texts(urls@) =~= before.push(copy@));
            assert(self@.take(i + 1) =~= self@.take(i as int).push(self.urls@[i as int]@));
            i += 1;
        }
        assert(self@.take(i as int) =~= self@);
        urls
    }
}

} // verus!
