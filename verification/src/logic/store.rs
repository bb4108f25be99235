//! The state held in memory: the subscriptions with their entries and unread
//! counters, and the favorites.

use crate::db::entry::{clone_entries, entry_views, RssEntry, RssEntryView};
use crate::db::rss::{RssConfig, RssConfigView};
use crate::util::list::{first_index, lemma_first_index_is};
use crate::util::str::str_eq;
use vstd::hash_set::StringHashSet;
use vstd::prelude::*;

verus! {

/// Stands for "no subscription" where an identity is asked for.
pub const EMPTY_UUID: &'static str = "empty-uuid";

/// The identity under which the favorites are stored.
pub const FAVORITE_UUID: &'static str = "favorite-uuid";

/// A subscription as it is held in memory.
#[derive(Debug, PartialEq, Eq)]
pub struct Subscription {
    pub config: RssConfig,
    /// How many of the entries are unread.
    pub unread_counts: usize,
    /// Set when a sync starts.
    pub is_update_failed: bool,
    /// The entries, the newest first.
    pub entry: Vec<RssEntry>,
}

/// A subscription as plain values. The counter is a natural number.
pub struct SubscriptionView {
    pub config: RssConfigView,
    pub unread_counts: nat,
    pub is_update_failed: bool,
    pub entry: Seq<RssEntryView>,
}

impl View for Subscription {
    type V = SubscriptionView;

    open spec fn view(&self) -> SubscriptionView {
        SubscriptionView {
            config: self.config@,
            unread_counts: self.unread_counts as nat,
            is_update_failed: self.is_update_failed,
            entry: entry_views(self.entry@),
        }
    }
}

impl Clone for Subscription {
    fn clone(&self) -> (r: Self)
        ensures
            r@ == self@,
    {
        Subscription {
            config: self.config.clone(),
            unread_counts: self.unread_counts,
            is_update_failed: self.is_update_failed,
            entry: clone_entries(&self.entry),
        }
    }
}

/// The subscriptions of a list as plain values, in the list's order.
pub open spec fn subscription_views(subs: Seq<Subscription>) -> Seq<SubscriptionView> {
    subs.map_values(|s: Subscription| s@)
}

/// Everything that is held in memory.
pub struct Registry {
    /// The subscriptions, in the order in which they are shown.
    pub rss_lists: Vec<Subscription>,
    /// The favorites, the latest first.
    pub rss_favorite_entrys: Vec<RssEntry>,
    /// The identity of the subscription that is shown.
    pub current_rss_uuid: String,
    /// Flips whenever an unread counter may have changed.
    pub rss_unread_counts_flag: bool,
    /// Flips whenever the time of a sync changes.
    pub rss_update_time_flag: bool,
    /// The identities of the subscriptions whose sync has started and whose
    /// result has not been taken in yet.
    pub rss_syncing: StringHashSet,
}

/// Everything that is held in memory, as plain values.
pub struct RegistryView {
    pub rss_lists: Seq<SubscriptionView>,
    pub rss_favorite_entrys: Seq<RssEntryView>,
    pub current_rss_uuid: Seq<char>,
    pub rss_unread_counts_flag: bool,
    pub rss_update_time_flag: bool,
    pub rss_syncing: Set<Seq<char>>,
}

impl View for Registry {
    type V = RegistryView;

    open spec fn view(&self) -> RegistryView {
        RegistryView {
            rss_lists: subscription_views(self.rss_lists@),
            rss_favorite_entrys: entry_views(self.rss_favorite_entrys@),
            current_rss_uuid: self.current_rss_uuid@,
            rss_unread_counts_flag: self.rss_unread_counts_flag,
            rss_update_time_flag: self.rss_update_time_flag,
            rss_syncing: self.rss_syncing@,
        }
    }
}

impl Registry {
    /// A registry without subscriptions or favorites, which shows nothing.
    pub fn new() -> (ui: Registry)
        ensures
            ui@ == empty_registry(),
            registry_wf(ui@),
    {
        let rss_lists: Vec<Subscription> = Vec::new();
        let rss_favorite_entrys: Vec<RssEntry> = Vec::new();
        assert(subscription_views(rss_lists@) =~= Seq::<SubscriptionView>::empty());
        assert(entry_views(rss_favorite_entrys@) =~= Seq::<RssEntryView>::empty());
        Registry {
            rss_lists,
            rss_favorite_entrys,
            current_rss_uuid: EMPTY_UUID.to_string(),
            rss_unread_counts_flag: false,
            rss_update_time_flag: false,
            rss_syncing: StringHashSet::new(),
        }
    }

    /// Whether the sync of a subscription has started and its result has
    /// not been taken in yet.
    pub fn is_syncing(&self, suuid: &str) -> (r: bool)
        ensures
            r == self@.rss_syncing.contains(suuid@),
    {
        self.rss_syncing.contains(suuid)
    }
}

/// The registry without subscriptions or favorites.
pub open spec fn empty_registry() -> RegistryView {
    RegistryView {
        rss_lists: Seq::empty(),
        rss_favorite_entrys: Seq::empty(),
        current_rss_uuid: EMPTY_UUID@,
        rss_unread_counts_flag: false,
        rss_update_time_flag: false,
        rss_syncing: Set::empty(),
    }
}

/// Whether an entry is unread.
pub open spec fn is_unread() -> spec_fn(RssEntryView) -> bool {
    |e: RssEntryView| !e.is_read
}

/// The number of unread entries in a list.
pub open spec fn count_unread(entries: Seq<RssEntryView>) -> nat {
    entries.filter(is_unread()).len()
}

/// A subscription's counter says how many of its entries are unread.
pub open spec fn subscription_wf(s: SubscriptionView) -> bool {
    s.unread_counts == count_unread(s.entry)
}

/// Every subscription's counter says how many of its entries are unread.
pub open spec fn registry_wf(ui: RegistryView) -> bool {
    forall|i: int| 0 <= i < ui.rss_lists.len() ==> subscription_wf(#[trigger] ui.rss_lists[i])
}

/// Whether a subscription has a given identity.
pub open spec fn is_subscription(uuid: Seq<char>) -> spec_fn(SubscriptionView) -> bool {
    |s: SubscriptionView| s.config.uuid == uuid
}

/// Position of the subscription with a given identity, or the number of
/// subscriptions where none has it.
pub open spec fn subscription_index(subs: Seq<SubscriptionView>, uuid: Seq<char>) -> int {
    first_index(subs, is_subscription(uuid))
}

/// The registry with the subscription at position `i` replaced.
pub open spec fn with_subscription(ui: RegistryView, i: int, s: SubscriptionView) -> RegistryView {
    RegistryView { rss_lists: ui.rss_lists.update(i, s), ..ui }
}

/// The unread entries of two lists joined are those of the one and those of
/// the other.
pub proof fn lemma_count_unread_add(a: Seq<RssEntryView>, b: Seq<RssEntryView>)
    ensures
        count_unread(a + b) == count_unread(a) + count_unread(b),
{
    Seq::filter_distributes_over_add(a, b, is_unread());
}

/// A list of one entry has one unread entry or none.
pub proof fn lemma_count_unread_one(e: RssEntryView)
    ensures
        count_unread(seq![e]) == if e.is_read {
            0nat
        } else {
            1nat
        },
{
    let empty = Seq::<RssEntryView>::empty();
    assert(seq![e] =~= empty.push(e));
    empty.lemma_filter_push(e, is_unread());
    assert(empty.filter(is_unread()) =~= empty);
}

/// Taking an entry out of a list takes it out of the unread ones where it is
/// unread.
pub proof fn lemma_count_unread_remove(s: Seq<RssEntryView>, j: int)
    requires
        0 <= j < s.len(),
    ensures
        count_unread(s) == count_unread(s.remove(j)) + if s[j].is_read {
            0nat
        } else {
            1nat
        },
{
    let head = s.take(j);
    let tail = s.skip(j + 1);
    assert(s =~= head + seq![s[j]] + tail);
    assert(s.remove(j) =~= head + tail);
    lemma_count_unread_add(head + seq![s[j]], tail);
    lemma_count_unread_add(head, seq![s[j]]);
    lemma_count_unread_add(head, tail);
    lemma_count_unread_one(s[j]);
}

/// Replacing an entry of a list changes the unread ones by what the two
/// entries differ in.
pub proof fn lemma_count_unread_update(s: Seq<RssEntryView>, j: int, e: RssEntryView)
    requires
        0 <= j < s.len(),
    ensures
        count_unread(s.update(j, e)) + (if s[j].is_read {
            0nat
        } else {
            1nat
        }) == count_unread(s) + if e.is_read {
            0nat
        } else {
            1nat
        },
{
    let head = s.take(j);
    let tail = s.skip(j + 1);
    assert(s =~= head + seq![s[j]] + tail);
    assert(s.update(j, e) =~= head + seq![e] + tail);
    lemma_count_unread_add(head + seq![s[j]], tail);
    lemma_count_unread_add(head, seq![s[j]]);
    lemma_count_unread_add(head + seq![e], tail);
    lemma_count_unread_add(head, seq![e]);
    lemma_count_unread_one(s[j]);
    lemma_count_unread_one(e);
}

/// A list has at most as many unread entries as entries, and exactly as
/// many where every entry is unread.
pub proof fn lemma_count_unread_bound(s: Seq<RssEntryView>)
    ensures
        count_unread(s) <= s.len(),
        (forall|k: int| 0 <= k < s.len() ==> !(#[trigger] s[k]).is_read) ==> count_unread(s)
            == s.len(),
    decreases s.len(),
{
    if s.len() > 0 {
        let init = s.drop_last();
        lemma_count_unread_bound(init);
        assert(s =~= init + seq![s.last()]);
        lemma_count_unread_add(init, seq![s.last()]);
        lemma_count_unread_one(s.last());
        if forall|k: int| 0 <= k < s.len() ==> !(#[trigger] s[k]).is_read {
            assert forall|k: int| 0 <= k < init.len() implies !(#[trigger] init[k]).is_read by {
                assert(init[k] == s[k]);
            }
            assert(!s[s.len() - 1].is_read);
        }
    } else {
        assert(s.filter(is_unread()) =~= s);
    }
}

/// Position of the first subscription with a given identity, or the number
/// of subscriptions.
pub fn find_subscription(ui: &Registry, uuid: &str) -> (i: usize)
    ensures
        i == subscription_index(ui@.rss_lists, uuid@),
        i <= ui.rss_lists.len(),
{
    let mut i: usize = 0;
    while i < ui.rss_lists.len()
        invariant
            i <= ui.rss_lists.len(),
            forall|k: int| 0 <= k < i ==> ui.rss_lists@[k]@.config.uuid != uuid@,
        decreases ui.rss_lists.len() - i,
    {
        if str_eq(ui.rss_lists[i].config.uuid.as_str(), uuid) {
            proof {
                lemma_first_index_is(ui@.rss_lists, is_subscription(uuid@), i as int);
            }
            return i;
        }
        i = i + 1;
    }
    proof {
        lemma_first_index_is(ui@.rss_lists, is_subscription(uuid@), i as int);
    }
    i
}

} // verus!
