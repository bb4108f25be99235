//! Feeds that are offered to the user for subscription.

use crate::db::rss::{config_views, RssConfig, RssConfigView};
use crate::util::list::{found, lemma_first_index_is, turned};
use crate::util::str::{holds, str_contains, str_eq};
use vstd::prelude::*;
use vstd::std_specs::cmp::PartialEqSpecImpl;

verus! {

/// A feed that is offered: its name and its address.
#[derive(Debug, Hash)]
pub struct FindEntry {
    pub name: String,
    pub url: String,
}

/// What an offer holds, as plain values.
pub struct FindEntryView {
    pub name: Seq<char>,
    pub url: Seq<char>,
}

impl View for FindEntry {
    type V = FindEntryView;

    open spec fn view(&self) -> FindEntryView {
        FindEntryView { name: self.name@, url: self.url@ }
    }
}

impl Clone for FindEntry {
    fn clone(&self) -> (r: Self)
        ensures
            r@ == self@,
    {
        FindEntry { name: self.name.clone(), url: self.url.clone() }
    }
}

impl PartialEq for FindEntry {
    /// Two offers count as the same feed where they agree in the name or in
    /// the address.
    fn eq(&self, other: &Self) -> (r: bool) {
        self.name == other.name || self.url == other.url
    }
}

impl PartialEqSpecImpl for FindEntry {
    open spec fn obeys_eq_spec() -> bool {
        true
    }

    open spec fn eq_spec(&self, other: &Self) -> bool {
        self.name@ == other.name@ || self.url@ == other.url@
    }
}

impl Eq for FindEntry {

}

/// The offers of a list as plain values, in the list's order.
pub open spec fn find_views(items: Seq<FindEntry>) -> Seq<FindEntryView> {
    items.map_values(|e: FindEntry| e@)
}

/// The offers that are shown, and those of them that match the keyword that
/// was asked for last.
pub struct FindList {
    pub find_entrys: Vec<FindEntry>,
    pub find_entrys_keyword: Vec<FindEntry>,
}

/// Whether settings read a given address.
pub open spec fn reads(url: Seq<char>) -> spec_fn(RssConfigView) -> bool {
    |c: RssConfigView| c.url == url
}

/// Whether no subscription reads the address of an offer yet.
pub open spec fn is_unadded(configs: Seq<RssConfigView>) -> spec_fn(FindEntryView) -> bool {
    |e: FindEntryView| !found(configs, reads(e.url))
}

/// Whether the name of an offer holds a keyword.
pub open spec fn is_match(keyword: Seq<char>) -> spec_fn(FindEntryView) -> bool {
    |e: FindEntryView| holds(e.name, keyword)
}

/// Whether one of the subscriptions reads the given address.
fn is_subscribed(rss_configs: &Vec<RssConfig>, url: &str) -> (r: bool)
    ensures
        r == found(config_views(rss_configs@), reads(url@)),
{
    let mut i: usize = 0;
    while i < rss_configs.len()
        invariant
            i <= rss_configs.len(),
            forall|k: int| 0 <= k < i ==> rss_configs@[k]@.url != url@,
        decreases rss_configs.len() - i,
    {
        if str_eq(rss_configs[i].url.as_str(), url) {
            proof {
                lemma_first_index_is(config_views(rss_configs@), reads(url@), i as int);
            }
            return true;
        }
        i = i + 1;
    }
    proof {
        lemma_first_index_is(config_views(rss_configs@), reads(url@), i as int);
    }
    false
}

/// The offers whose address no subscription reads yet, in their order.
pub fn unadd_list(items: Vec<FindEntry>, rss_configs: &Vec<RssConfig>) -> (r: Vec<FindEntry>)
    ensures
        find_views(r@) == find_views(items@).filter(is_unadded(config_views(rss_configs@))),
{
    let ghost all = find_views(items@);
    let ghost keep = is_unadded(config_views(rss_configs@));
    let mut rest = turned(items);
    let mut unadd_list: Vec<FindEntry> = Vec::new();
    proof {
        assert(find_views(unadd_list@) =~= all.take(0).filter(keep));
        assert forall|k: int| 0 <= k < rest@.len() implies (#[trigger] rest@[k])@ == all[all.len()
            - 1 - k] by {
            assert(items@[all.len() - 1 - k]@ == all[all.len() - 1 - k]);
        }
    }
    while rest.len() > 0
        invariant
            rest@.len() <= all.len(),
            keep == is_unadded(config_views(rss_configs@)),
            forall|k: int|
                0 <= k < rest@.len() ==> (#[trigger] rest@[k])@ == all[all.len() - 1 - k],
            find_views(unadd_list@) == all.take(all.len() - rest@.len()).filter(keep),
        decreases rest.len(),
    {
        let ghost done = all.len() - rest@.len();
        match rest.pop() {
            Some(item) => {
                proof {
                    assert(all.take(done + 1) =~= all.take(done).push(all[done]));
                    all.take(done).lemma_filter_push(all[done], keep);
                    unadd_list@.lemma_push_map_commute(|e: FindEntry| e@, item);
                }
                if !is_subscribed(rss_configs, item.url.as_str()) {
                    unadd_list.push(item);
                }
            },
            None => {},
        }
    }
    assert(all.take(all.len() as int) =~= all);
    unadd_list
}

/// Shows the offers that the user has not subscribed to yet, and forgets
/// the matches of the last keyword.
pub fn init(list: &mut FindList, items: Vec<FindEntry>, rss_configs: &Vec<RssConfig>)
    ensures
        find_views(final(list).find_entrys@) == find_views(items@).filter(
            is_unadded(config_views(rss_configs@)),
        ),
        final(list).find_entrys_keyword@.len() == 0,
{
    list.find_entrys = unadd_list(items, rss_configs);
    list.find_entrys_keyword = Vec::new();
}

/// Picks, of the offers that are shown, those whose name holds the keyword.
/// The offers that are shown stay.
pub fn update_find_entrylist(list: &mut FindList, keyword: &str)
    ensures
        find_views(final(list).find_entrys@) == find_views(old(list).find_entrys@),
        find_views(final(list).find_entrys_keyword@) == find_views(old(list).find_entrys@).filter(
            is_match(keyword@),
        ),
{
    let ghost all = find_views(list.find_entrys@);
    let ghost keep = is_match(keyword@);
    let mut keyword_list: Vec<FindEntry> = Vec::new();
    let mut i: usize = 0;
    proof {
        assert(find_views(keyword_list@) =~= all.take(0).filter(keep));
    }
    while i < list.find_entrys.len()
        invariant
            i <= list.find_entrys.len(),
            all == find_views(list.find_entrys@),
            keep == is_match(keyword@),
            find_views(keyword_list@) == all.take(i as int).filter(keep),
        decreases list.find_entrys.len() - i,
    {
        let item = list.find_entrys[i].clone();
        proof {
            assert(all.take(i + 1) =~= all.take(i as int).push(all[i as int]));
            all.take(i as int).lemma_filter_push(all[i as int], keep);
            keyword_list@.lemma_push_map_commute(|e: FindEntry| e@, item);
        }
        if str_contains(item.name.as_str(), keyword) {
            keyword_list.push(item);
        }
        i = i + 1;
    }
    assert(all.take(list.find_entrys.len() as int) =~= all);
    list.find_entrys_keyword = keyword_list;
}

/// How many offers are shown.
pub fn find_entrys_counts(list: &FindList) -> (r: usize)
    ensures
        r == list.find_entrys@.len(),
{
    list.find_entrys.len()
}

} // verus!
