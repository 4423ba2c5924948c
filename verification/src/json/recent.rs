//! Sources that remember every URL they have seen, without timestamps.

use vstd::prelude::*;
use vstd::hash_set::StringHashSet;
use crate::scrapers::scraper_resources::resources::ScrapeType;
use crate::text::lemma_take_to_set;
use crate::webhook_handler::string_views;

verus! {

/// All polled sources.
pub struct Sources {
    pub sources: Vec<Source>,
}

/// One polled source with the URLs it has seen.
pub struct Source {
    pub name: String,
    pub domain: String,
    pub scrape_type: ScrapeType,
    pub tracked_urls: StringHashSet,
}

impl Source {
    /// Whether `value` has not been seen by this source.
    pub fn is_new(&self, value: &str) -> (r: bool)
        ensures
            r == !self.tracked_urls@.contains(value@),
    {
        !self.tracked_urls.contains(value)
    }

    /// Records the URLs `values` as seen.
    pub fn store_recent(&mut self, values: &Vec<String>)
        ensures
            final(self).tracked_urls@ == old(self).tracked_urls@ + string_views(values@).to_set(),
            final(self).name == old(self).name,
            final(self).domain == old(self).domain,
            final(self).scrape_type == old(self).scrape_type,
    {
        let ghost views = string_views(values@);
        let mut i: usize = 0;
        proof {
            assert(views.take(0).to_set() =~= Set::<Seq<char>>::empty());
            assert(old(self).tracked_urls@ + views.take(0).to_set() =~= old(self).tracked_urls@);
        }
        while i < values.len()
            invariant
                i <= values.len(),
                views == string_views(values@),
                self.tracked_urls@ == old(self).tracked_urls@ + views.take(i as int).to_set(),
                self.name == old(self).name,
                self.domain == old(self).domain,
                self.scrape_type == old(self).scrape_type,
            decreases values.len() - i,
        {
            self.tracked_urls.insert(values[i].clone());
            proof {
                lemma_take_to_set(views, i as int);
                assert(self.tracked_urls@ =~= old(self).tracked_urls@ + views.take(i + 1).to_set());
            }
            i = i + 1;
        }
        assert(views.take(i as int) =~= views);
    }
}

impl Sources {
    /// Removes every URL of `to_remove` from the seen URLs of all sources.
    pub fn debug_remove_tracked_urls(&mut self, to_remove: &Vec<String>)
        ensures
            final(self).sources.len() == old(self).sources.len(),
            forall|j: int| 0 <= j < old(self).sources.len() ==> (#[trigger] final(self).sources@[j]).tracked_urls@
                == old(self).sources@[j].tracked_urls@ - string_views(to_remove@).to_set()
                && final(self).sources@[j].name == old(self).sources@[j].name,
    {
        let ghost urls = string_views(to_remove@);
        let mut k: usize = 0;
        proof {
            assert(urls.take(0).to_set() =~= Set::<Seq<char>>::empty());
            assert forall|j: int| 0 <= j < self.sources.len() implies (#[trigger] self.sources@[j]).tracked_urls@
                == old(self).sources@[j].tracked_urls@ - urls.take(0).to_set() by {
                assert(old(self).sources@[j].tracked_urls@ =~= old(self).sources@[j].tracked_urls@ - urls.take(0).to_set());
            }
        }
        while k < to_remove.len()
            invariant
                k <= to_remove.len(),
                urls == string_views(to_remove@),
                self.sources.len() == old(self).sources.len(),
                forall|j: int| 0 <= j < self.sources.len() ==> (#[trigger] self.sources@[j]).tracked_urls@
                    == old(self).sources@[j].tracked_urls@ - urls.take(k as int).to_set()
                    && self.sources@[j].name == old(self).sources@[j].name,
            decreases to_remove.len() - k,
        {
            let url = to_remove[k].as_str();
            let ghost before = self.sources@;
            let mut j: usize = 0;
            while j < self.sources.len()
                invariant
                    j <= self.sources.len(),
                    self.sources.len() == before.len(),
                    k < to_remove.len(),
                    url@ == urls[k as int],
                    forall|m: int| 0 <= m < j ==> (#[trigger] self.sources@[m]).tracked_urls@ == before[m].tracked_urls@.remove(url@)
                        && self.sources@[m].name == before[m].name,
                    forall|m: int| j <= m < self.sources.len() ==> #[trigger] self.sources@[m] == before[m],
                decreases before.len() - j,
            {
                self.sources[j].tracked_urls.remove(url);
                j = j + 1;
            }
            proof {
                lemma_take_to_set(urls, k as int);
                assert forall|m: int| 0 <= m < self.sources.len() implies (#[trigger] self.sources@[m]).tracked_urls@
                    == old(self).sources@[m].tracked_urls@ - urls.take(k + 1).to_set() by {
                    assert(self.sources@[m].tracked_urls@ =~= old(self).sources@[m].tracked_urls@ - urls.take(k + 1).to_set());
                }
            }
            k = k + 1;
        }
        assert(urls.take(k as int) =~= urls);
    }
}

} // verus!
