//! The news sources that are polled, with the URLs each has already seen.

use vstd::prelude::*;
use vstd::hash_map::StringHashMap;
use crate::scrapers::scraper_resources::resources::ScrapeType;
use crate::text::{lemma_take_to_set, str_eq};
use crate::timeout::utc_now_timestamp;
use crate::webhook_handler::string_views;

verus! {

/// The URLs a source has seen, with the time each was first stored.
pub type NewsArticle = StringHashMap<i64>;

/// All polled sources.
pub struct Sources {
    pub sources: Vec<Source>,
}

/// One polled source.
pub struct Source {
    pub name: String,
    pub domain: String,
    pub id: u8,
    pub scrape_type: ScrapeType,
    pub tracked_urls: NewsArticle,
}

/// `m` with every key of `keys` mapped to `t`, inserted in order.
pub open spec fn insert_all(m: Map<Seq<char>, i64>, keys: Seq<Seq<char>>, t: i64) -> Map<Seq<char>, i64>
    decreases keys.len(),
{
    if keys.len() == 0 {
        m
    } else {
        insert_all(m, keys.drop_last(), t).insert(keys.last(), t)
    }
}

impl Source {
    /// Whether `value` has not been seen by this source.
    pub fn is_new(&self, value: &str) -> (r: bool)
        ensures
            r == !self.tracked_urls@.contains_key(value@),
    {
        !self.tracked_urls.contains_key(value)
    }

    /// Records the URLs `values` as seen at time `now`.
    pub fn store_recent_at(&mut self, values: &Vec<String>, now: i64)
        ensures
            final(self).tracked_urls@ == insert_all(old(self).tracked_urls@, string_views(values@), now),
            final(self).name == old(self).name,
            final(self).domain == old(self).domain,
            final(self).id == old(self).id,
            final(self).scrape_type == old(self).scrape_type,
    {
        let mut i: usize = 0;
        while i < values.len()
            invariant
                i <= values.len(),
                self.tracked_urls@ == insert_all(old(self).tracked_urls@, string_views(values@).take(i as int), now),
                self.name == old(self).name,
                self.domain == old(self).domain,
                self.id == old(self).id,
                self.scrape_type == old(self).scrape_type,
            decreases values.len() - i,
        {
            assert(string_views(values@).take(i + 1).drop_last() =~= string_views(values@).take(i as int));
            self.tracked_urls.insert(values[i].clone(), now);
            i = i + 1;
        }
        assert(string_views(values@).take(i as int) =~= string_views(values@));
    }

    /// Records the URLs `values` as seen now, each with the time it is stored.
    pub fn store_recent(&mut self, values: &Vec<String>)
        ensures
            final(self).tracked_urls@.dom() == old(self).tracked_urls@.dom() + string_views(values@).to_set(),
            forall|k: Seq<char>| #[trigger] old(self).tracked_urls@.contains_key(k) && !string_views(values@).contains(k)
                ==> final(self).tracked_urls@[k] == old(self).tracked_urls@[k],
            final(self).name == old(self).name,
            final(self).domain == old(self).domain,
            final(self).id == old(self).id,
            final(self).scrape_type == old(self).scrape_type,
    {
        let ghost views = string_views(values@);
        let mut i: usize = 0;
        while i < values.len()
            invariant
                i <= values.len(),
                views == string_views(values@),
                self.tracked_urls@.dom() == old(self).tracked_urls@.dom() + views.take(i as int).to_set(),
                forall|k: Seq<char>| #[trigger] old(self).tracked_urls@.contains_key(k) && !views.take(i as int).contains(k)
                    ==> self.tracked_urls@[k] == old(self).tracked_urls@[k],
                self.name == old(self).name,
                self.domain == old(self).domain,
                self.id == old(self).id,
                self.scrape_type == old(self).scrape_type,
            decreases values.len() - i,
        {
            let now = utc_now_timestamp();
            self.tracked_urls.insert(values[i].clone(), now);
            proof {
                assert(views.take(i + 1) =~= views.take(i as int).push(views[i as int]));
                lemma_take_to_set(views, i as int);
                assert forall|k: Seq<char>| #[trigger] old(self).tracked_urls@.contains_key(k) && !views.take(i + 1).contains(k)
                    implies self.tracked_urls@[k] == old(self).tracked_urls@[k] by {
                    assert(views.take(i + 1)[i as int] == views[i as int]);
                    if views.take(i as int).contains(k) {
                        let w = choose|w: int| 0 <= w < i && views.take(i as int)[w] == k;
                        assert(views.take(i + 1)[w] == k);
                    }
                }
            }
            i = i + 1;
        }
        assert(views.take(i as int) =~= views);
    }
}

/// The source names, in the order of [`Sources::new`].
pub open spec fn source_names() -> Seq<Seq<char>> {
    seq![
        "warthunder_news"@,
        "warthunder_changelog"@,
        "forums_updates_information"@,
        "forums_project_news"@,
        "forums_notice_board"@
    ]
}

/// The identifier of the source called `name`; unknown names get 0.
pub open spec fn spec_id_from_name(name: Seq<char>) -> u8 {
    if name == "warthunder_news"@ {
        0
    } else if name == "warthunder_changelog"@ {
        1
    } else if name == "forums_updates_information"@ {
        2
    } else if name == "forums_project_news"@ {
        3
    } else if name == "forums_notice_board"@ {
        4
    } else {
        0
    }
}

/// Every URL of `urls` was removed from `before`, giving `after`.
pub open spec fn removed_urls(before: Map<Seq<char>, i64>, after: Map<Seq<char>, i64>, urls: Seq<Seq<char>>) -> bool {
    after == before.remove_keys(urls.to_set())
}

/// Whether removing `urls[k]`, after the URLs before it, took it from some source.
pub open spec fn removal_found(maps: Seq<Map<Seq<char>, i64>>, urls: Seq<Seq<char>>, k: int) -> bool {
    (exists|j: int| 0 <= j < maps.len() && (#[trigger] maps[j]).contains_key(urls[k])) && !urls.take(k).contains(urls[k])
}

/// The seen URLs of each source.
pub open spec fn tracked_maps(s: Seq<Source>) -> Seq<Map<Seq<char>, i64>> {
    s.map_values(|x: Source| x.tracked_urls@)
}

impl Sources {
    /// The sources that are polled.
    pub fn new() -> (r: Self)
        ensures
            r.sources.len() == 5,
            forall|i: int| 0 <= i < 5 ==> (#[trigger] r.sources@[i]).name@ == source_names()[i]
                && r.sources@[i].id == i && r.sources@[i].tracked_urls@ == Map::<Seq<char>, i64>::empty(),
            r.sources@[0].domain@ == "https://warthunder.com/en/news"@,
            r.sources@[0].scrape_type == ScrapeType::Main,
            r.sources@[1].domain@ == "https://warthunder.com/en/game/changelog/"@,
            r.sources@[1].scrape_type == ScrapeType::Changelog,
            r.sources@[2].domain@ == "https://forum.warthunder.com/index.php?/forum/126-updates-information-read-only/&ct=1626882238"@,
            r.sources@[2].scrape_type == ScrapeType::Forum,
            r.sources@[3].domain@ == "https://forum.warthunder.com/index.php?/forum/26-project-news-read-only/&ct=1630343851"@,
            r.sources@[3].scrape_type == ScrapeType::Forum,
            r.sources@[4].domain@ == "https://forum.warthunder.com/index.php?/forum/1500-notice-board-announcements-information/"@,
            r.sources@[4].scrape_type == ScrapeType::Forum,
    {
        let mut sources: Vec<Source> = Vec::new();
        sources.push(Source {
            name: String::from_str("warthunder_news"),
            domain: String::from_str("https://warthunder.com/en/news"),
            id: 0,
            scrape_type: ScrapeType::Main,
            tracked_urls: StringHashMap::new(),
        });
        sources.push(Source {
            name: String::from_str("warthunder_changelog"),
            domain: String::from_str("https://warthunder.com/en/game/changelog/"),
            id: 1,
            scrape_type: ScrapeType::Changelog,
            tracked_urls: StringHashMap::new(),
        });
        sources.push(Source {
            name: String::from_str("forums_updates_information"),
            domain: String::from_str(
                "https://forum.warthunder.com/index.php?/forum/126-updates-information-read-only/&ct=1626882238",
            ),
            id: 2,
            scrape_type: ScrapeType::Forum,
            tracked_urls: StringHashMap::new(),
        });
        sources.push(Source {
            name: String::from_str("forums_project_news"),
            domain: String::from_str(
                "https://forum.warthunder.com/index.php?/forum/26-project-news-read-only/&ct=1630343851",
            ),
            id: 3,
            scrape_type: ScrapeType::Forum,
            tracked_urls: StringHashMap::new(),
        });
        sources.push(Source {
            name: String::from_str("forums_notice_board"),
            domain: String::from_str(
                "https://forum.warthunder.com/index.php?/forum/1500-notice-board-announcements-information/",
            ),
            id: 4,
            scrape_type: ScrapeType::Forum,
            tracked_urls: StringHashMap::new(),
        });
        Self { sources }
    }

    /// The identifier of the source called `name`; unknown names get 0.
    pub fn id_from_name(name: &str) -> (r: u8)
        ensures
            r == spec_id_from_name(name@),
    {
        if str_eq(name, "warthunder_news") {
            0
        } else if str_eq(name, "warthunder_changelog") {
            1
        } else if str_eq(name, "forums_updates_information") {
            2
        } else if str_eq(name, "forums_project_news") {
            3
        } else if str_eq(name, "forums_notice_board") {
            4
        } else {
            0
        }
    }

    /// Removes every URL of `to_remove` from the seen URLs of all sources.
    /// For each URL, in order, tells whether some source still held it.
    pub fn debug_remove_tracked_urls(&mut self, to_remove: &Vec<String>) -> (found: Vec<bool>)
        ensures
            final(self).sources.len() == old(self).sources.len(),
            forall|j: int| 0 <= j < old(self).sources.len() ==> removed_urls(
                (#[trigger] old(self).sources@[j]).tracked_urls@,
                final(self).sources@[j].tracked_urls@,
                string_views(to_remove@),
            ) && final(self).sources@[j].name == old(self).sources@[j].name
                && final(self).sources@[j].id == old(self).sources@[j].id,
            found.len() == to_remove.len(),
            forall|k: int| 0 <= k < to_remove.len() ==> #[trigger] found@[k] == removal_found(
                tracked_maps(old(self).sources@),
                string_views(to_remove@),
                k,
            ),
    {
        let ghost urls = string_views(to_remove@);
        let ghost maps0 = tracked_maps(old(self).sources@);
        let mut found: Vec<bool> = Vec::new();
        let mut k: usize = 0;
        proof {
            assert(urls.take(0).to_set() =~= Set::<Seq<char>>::empty());
            assert forall|j: int| 0 <= j < self.sources.len() implies removed_urls(
                (#[trigger] old(self).sources@[j]).tracked_urls@,
                self.sources@[j].tracked_urls@,
                urls.take(0),
            ) by {
                assert(old(self).sources@[j].tracked_urls@ =~= old(self).sources@[j].tracked_urls@.remove_keys(urls.take(0).to_set()));
            }
        }
        while k < to_remove.len()
            invariant
                k <= to_remove.len(),
                urls == string_views(to_remove@),
                maps0 == tracked_maps(old(self).sources@),
                self.sources.len() == old(self).sources.len(),
                found.len() == k,
                forall|j: int| 0 <= j < self.sources.len() ==> removed_urls(
                    (#[trigger] old(self).sources@[j]).tracked_urls@,
                    self.sources@[j].tracked_urls@,
                    urls.take(k as int),
                ) && self.sources@[j].name == old(self).sources@[j].name
                    && self.sources@[j].id == old(self).sources@[j].id,
                forall|q: int| 0 <= q < k ==> #[trigger] found@[q] == removal_found(maps0, urls, q),
            decreases to_remove.len() - k,
        {
            let url = to_remove[k].as_str();
            let mut removed = false;
            let ghost before = self.sources@;
            let mut j: usize = 0;
            while j < self.sources.len()
                invariant
                    j <= self.sources.len(),
                    self.sources.len() == before.len(),
                    k < to_remove.len(),
                    url@ == urls[k as int],
                    forall|m: int| 0 <= m < j ==> (#[trigger] self.sources@[m]).tracked_urls@ == before[m].tracked_urls@.remove(url@)
                        && self.sources@[m].name == before[m].name && self.sources@[m].id == before[m].id,
                    forall|m: int| j <= m < self.sources.len() ==> #[trigger] self.sources@[m] == before[m],
                    removed == exists|m: int| 0 <= m < j && (#[trigger] before[m]).tracked_urls@.contains_key(url@),
                decreases before.len() - j,
            {
                if self.sources[j].tracked_urls.contains_key(url) {
                    removed = true;
                }
                self.sources[j].tracked_urls.remove(url);
                j = j + 1;
            }
            found.push(removed);
            proof {
                lemma_take_to_set(urls, k as int);
                assert forall|m: int| 0 <= m < self.sources.len() implies removed_urls(
                    (#[trigger] old(self).sources@[m]).tracked_urls@,
                    self.sources@[m].tracked_urls@,
                    urls.take(k + 1),
                ) by {
                    assert(self.sources@[m].tracked_urls@ =~= old(self).sources@[m].tracked_urls@.remove_keys(urls.take(k + 1).to_set()));
                }
                let rem = exists|m: int| 0 <= m < before.len() && (#[trigger] before[m]).tracked_urls@.contains_key(url@);
                assert(rem == removal_found(maps0, urls, k as int)) by {
                    if rem {
                        let m = choose|m: int| 0 <= m < before.len() && (#[trigger] before[m]).tracked_urls@.contains_key(url@);
                        assert(maps0[m].contains_key(urls[k as int]));
                        assert(!urls.take(k as int).contains(urls[k as int]));
                    }
                    if removal_found(maps0, urls, k as int) {
                        let m = choose|m: int| 0 <= m < maps0.len() && (#[trigger] maps0[m]).contains_key(urls[k as int]);
                        assert(before[m].tracked_urls@.contains_key(url@));
                    }
                }
            }
            k = k + 1;
        }
        assert(urls.take(k as int) =~= urls);
        found
    }
}

/// Looking up the identifier of each polled source by its name gives the
/// identifier that source carries.
pub proof fn law_ids_match_names()
    ensures
        forall|i: int| 0 <= i < 5 ==> #[trigger] spec_id_from_name(source_names()[i]) == i,
{
    reveal_strlit("warthunder_news");
    reveal_strlit("warthunder_changelog");
    reveal_strlit("forums_updates_information");
    reveal_strlit("forums_project_news");
    reveal_strlit("forums_notice_board");
    assert("warthunder_news"@[0] != "forums_updates_information"@[0]);
    assert("warthunder_news"@[11] != "warthunder_changelog"@[11]);
    assert("forums_updates_information"@[7] != "forums_project_news"@[7]);
    assert("forums_updates_information"@[7] != "forums_notice_board"@[7]);
    assert("forums_project_news"@[7] != "forums_notice_board"@[7]);
    assert("warthunder_news"@ != "forums_project_news"@);
    assert("warthunder_news"@ != "forums_notice_board"@);
    assert("warthunder_changelog"@[0] != "forums_updates_information"@[0]);
    assert("warthunder_changelog"@ != "forums_project_news"@);
    assert("warthunder_changelog"@ != "forums_notice_board"@);
    assert("warthunder_news"@ != "warthunder_changelog"@);
    assert("forums_updates_information"@ != "forums_project_news"@);
    assert("forums_updates_information"@ != "forums_notice_board"@);
    assert("forums_project_news"@ != "forums_notice_board"@);
    assert("warthunder_news"@ != "forums_updates_information"@);
    assert("warthunder_changelog"@ != "forums_updates_information"@);
}

/// Every stored URL is known afterwards, and nothing known before is forgotten.
pub proof fn law_stored_urls_are_known(m: Map<Seq<char>, i64>, keys: Seq<Seq<char>>, t: i64)
    ensures
        forall|i: int| 0 <= i < keys.len() ==> insert_all(m, keys, t).contains_key(#[trigger] keys[i]),
        forall|k: Seq<char>| #[trigger] m.contains_key(k) ==> insert_all(m, keys, t).contains_key(k),
    decreases keys.len(),
{
    if keys.len() > 0 {
        law_stored_urls_are_known(m, keys.drop_last(), t);
        assert forall|i: int| 0 <= i < keys.len() implies insert_all(m, keys, t).contains_key(#[trigger] keys[i]) by {
            if i < keys.len() - 1 {
                assert(keys.drop_last()[i] == keys[i]);
            }
        }
    }
}

/// A URL removed from a source is new to it again.
pub proof fn law_removed_urls_are_new(before: Map<Seq<char>, i64>, after: Map<Seq<char>, i64>, urls: Seq<Seq<char>>)
    requires
        removed_urls(before, after, urls),
    ensures
        forall|i: int| 0 <= i < urls.len() ==> !after.contains_key(#[trigger] urls[i]),
{
    assert forall|i: int| 0 <= i < urls.len() implies !after.contains_key(#[trigger] urls[i]) by {
        assert(urls.to_set().contains(urls[i]));
    }
}

} // verus!
