//! The subscriptions: their settings, their unread counters, their order,
//! and how they come and go.

use crate::db::entry::{after_drop, after_new, entry_views, RssEntry, RssEntryView};
use crate::db::rss::{config_views, RssConfig, RssConfigView};
use crate::db::{Database, DatabaseView, DbError};
use crate::logic::entry::{
    get_from_db, lemma_wf_after, shown_rows, trash_entries, with_hashes,
};
use crate::logic::store::{
    count_unread, find_subscription, is_subscription, is_unread, lemma_count_unread_add,
    lemma_count_unread_one, registry_wf, subscription_index, subscription_views, subscription_wf,
    with_subscription, Registry, RegistryView, Subscription, SubscriptionView, EMPTY_UUID,
};
use crate::logic::ActionError;
use crate::util::id::new_uuid;
use crate::util::list::{
    first_index, found, lemma_first_index, lemma_first_index_is, lemma_found_iff, turned,
};
use crate::util::str::{
    lemma_lex_lt_transitive, lex_lt, lowercase, str_eq, str_lt, to_lowercase,
};
use std::cmp::Ordering;
use vstd::prelude::*;

verus! {

/// What a sync needs to know of a subscription.
#[derive(Debug, PartialEq, Eq)]
pub struct SyncItem {
    pub suuid: String,
    pub url: String,
    /// `Http`, `Socks5`, or anything else for a direct connection.
    pub proxy_type: String,
    pub feed_format: String,
}

/// What a sync needs to know, as plain values.
pub struct SyncItemView {
    pub suuid: Seq<char>,
    pub url: Seq<char>,
    pub proxy_type: Seq<char>,
    pub feed_format: Seq<char>,
}

impl View for SyncItem {
    type V = SyncItemView;

    open spec fn view(&self) -> SyncItemView {
        SyncItemView {
            suuid: self.suuid@,
            url: self.url@,
            proxy_type: self.proxy_type@,
            feed_format: self.feed_format@,
        }
    }
}

impl Clone for SyncItem {
    fn clone(&self) -> (r: Self)
        ensures
            r@ == self@,
    {
        SyncItem {
            suuid: self.suuid.clone(),
            url: self.url.clone(),
            proxy_type: self.proxy_type.clone(),
            feed_format: self.feed_format.clone(),
        }
    }
}

impl Default for SyncItem {
    fn default() -> (r: Self)
        ensures
            r@.suuid == Seq::<char>::empty(),
            r@.url == Seq::<char>::empty(),
            r@.proxy_type == Seq::<char>::empty(),
            r@.feed_format == Seq::<char>::empty(),
    {
        SyncItem {
            suuid: String::new(),
            url: String::new(),
            proxy_type: String::new(),
            feed_format: String::new(),
        }
    }
}

/// What a sync needs to know of given settings. The HTTP proxy goes before
/// the SOCKS5 proxy where both are asked for.
pub open spec fn sync_item_of(c: RssConfigView) -> SyncItemView {
    SyncItemView {
        suuid: c.uuid,
        url: c.url,
        proxy_type: if c.use_http_proxy {
            "Http"@
        } else if c.use_socks5_proxy {
            "Socks5"@
        } else {
            "Unknown"@
        },
        feed_format: c.feed_format,
    }
}

impl SyncItem {
    /// What a sync needs to know of a subscription.
    pub fn from(rss: &Subscription) -> (r: SyncItem)
        ensures
            r@ == sync_item_of(rss@.config),
    {
        SyncItem {
            suuid: rss.config.uuid.clone(),
            url: rss.config.url.clone(),
            feed_format: rss.config.feed_format.clone(),
            proxy_type: if rss.config.use_http_proxy {
                "Http".to_string()
            } else if rss.config.use_socks5_proxy {
                "Socks5".to_string()
            } else {
                "Unknown".to_string()
            },
        }
    }
}

/// A sync that failed: the address that was read, and why it failed.
#[derive(Debug, PartialEq, Eq)]
pub struct ErrorMsg {
    pub url: String,
    pub msg: String,
}

/// The report of a failed sync, as plain values.
pub struct ErrorMsgView {
    pub url: Seq<char>,
    pub msg: Seq<char>,
}

impl View for ErrorMsg {
    type V = ErrorMsgView;

    open spec fn view(&self) -> ErrorMsgView {
        ErrorMsgView { url: self.url@, msg: self.msg@ }
    }
}

/// The subscription with a given identity.
pub fn get_rss_config<'a>(ui: &'a Registry, uuid: &str) -> (r: Option<&'a Subscription>)
    ensures
        match r {
            Some(rss) => found(ui@.rss_lists, is_subscription(uuid@)) && rss@
                == ui@.rss_lists[subscription_index(ui@.rss_lists, uuid@)],
            None => !found(ui@.rss_lists, is_subscription(uuid@)),
        },
{
    let i = find_subscription(ui, uuid);
    if i < ui.rss_lists.len() {
        Some(&ui.rss_lists[i])
    } else {
        None
    }
}

/// The settings of a list of subscriptions, in the list's order.
pub open spec fn configs_of(subs: Seq<SubscriptionView>) -> Seq<RssConfigView> {
    subs.map_values(|s: SubscriptionView| s.config)
}

/// The settings of every subscription, in the order in which they are shown.
pub fn get_rss_configs(ui: &Registry) -> (r: Vec<RssConfig>)
    ensures
        config_views(r@) == configs_of(ui@.rss_lists),
{
    let mut r: Vec<RssConfig> = Vec::new();
    let mut i: usize = 0;
    while i < ui.rss_lists.len()
        invariant
            i <= ui.rss_lists.len(),
            r@.len() == i,
            forall|k: int| 0 <= k < i ==> r@[k]@ == ui.rss_lists@[k]@.config,
        decreases ui.rss_lists.len() - i,
    {
        r.push(ui.rss_lists[i].config.clone());
        i = i + 1;
    }
    assert(config_views(r@) =~= configs_of(ui@.rss_lists));
    r
}

/// Whether a subscription reads a given address.
pub open spec fn reads_url(url: Seq<char>) -> spec_fn(SubscriptionView) -> bool {
    |s: SubscriptionView| s.config.url == url
}

/// Whether some subscription reads the given address. The empty address
/// counts as read by none.
pub fn is_exist_url(ui: &Registry, url: &str) -> (r: bool)
    ensures
        r == (url@.len() > 0 && found(ui@.rss_lists, reads_url(url@))),
{
    if url.is_empty() {
        return false;
    }
    let mut i: usize = 0;
    while i < ui.rss_lists.len()
        invariant
            i <= ui.rss_lists.len(),
            url@.len() > 0,
            forall|k: int| 0 <= k < i ==> ui.rss_lists@[k]@.config.url != url@,
        decreases ui.rss_lists.len() - i,
    {
        if str_eq(ui.rss_lists[i].config.url.as_str(), url) {
            proof {
                lemma_first_index_is(ui@.rss_lists, reads_url(url@), i as int);
            }
            return true;
        }
        i = i + 1;
    }
    proof {
        lemma_first_index_is(ui@.rss_lists, reads_url(url@), i as int);
    }
    false
}

/// One less, and nothing where there is nothing.
pub open spec fn one_less(n: nat) -> nat {
    if n > 0 {
        (n - 1) as nat
    } else {
        0
    }
}

/// The registry after an unread counter may have changed.
pub open spec fn notified(ui: RegistryView) -> RegistryView {
    RegistryView { rss_unread_counts_flag: !ui.rss_unread_counts_flag, ..ui }
}

/// The registry with the counter of a subscription set, and the change
/// announced. A registry without the subscription stays as it is.
pub open spec fn with_unread_counts(ui: RegistryView, uuid: Seq<char>, n: nat) -> RegistryView {
    let i = subscription_index(ui.rss_lists, uuid);
    if i < ui.rss_lists.len() {
        notified(
            with_subscription(
                ui,
                i,
                SubscriptionView { unread_counts: n, ..ui.rss_lists[i] },
            ),
        )
    } else {
        ui
    }
}

/// The registry with the counter of a subscription one lower, though never
/// below zero.
pub open spec fn after_decease(ui: RegistryView, uuid: Seq<char>) -> RegistryView {
    let i = subscription_index(ui.rss_lists, uuid);
    if i < ui.rss_lists.len() {
        with_unread_counts(ui, uuid, one_less(ui.rss_lists[i].unread_counts))
    } else {
        ui
    }
}

/// Lowers the unread counter of a subscription by one, though never below
/// zero, and announces the change. The entries are left alone.
pub fn decease_unread_counts(ui: &mut Registry, uuid: &str)
    ensures
        final(ui)@ == after_decease(old(ui)@, uuid@),
{
    let i = find_subscription(ui, uuid);
    if i < ui.rss_lists.len() {
        let n = ui.rss_lists[i].unread_counts;
        ui.rss_lists[i].unread_counts = if n > 0 {
            n - 1
        } else {
            0
        };
        notify_ui_update_unread_counts(ui);
        assert(ui@.rss_lists =~= after_decease(old(ui)@, uuid@).rss_lists);
    }
}

/// Sets the unread counter of a subscription to zero and announces the
/// change. The entries are left alone.
pub fn reset_unread_counts(ui: &mut Registry, uuid: &str)
    ensures
        final(ui)@ == with_unread_counts(old(ui)@, uuid@, 0),
{
    let i = find_subscription(ui, uuid);
    if i < ui.rss_lists.len() {
        ui.rss_lists[i].unread_counts = 0;
        notify_ui_update_unread_counts(ui);
        assert(ui@.rss_lists =~= with_unread_counts(old(ui)@, uuid@, 0).rss_lists);
    }
}

/// Announces that an unread counter may have changed.
pub fn notify_ui_update_unread_counts(ui: &mut Registry)
    ensures
        final(ui)@ == notified(old(ui)@),
{
    ui.rss_unread_counts_flag = !ui.rss_unread_counts_flag;
}

/// The number of unread entries in a list.
pub fn rss_entrys_unread_counts(items: &Vec<RssEntry>) -> (r: usize)
    ensures
        r == count_unread(entry_views(items@)),
{
    let ghost all = entry_views(items@);
    let mut unread_counts: usize = 0;
    let mut i: usize = 0;
    while i < items.len()
        invariant
            i <= items.len(),
            all == entry_views(items@),
            unread_counts == count_unread(all.take(i as int)),
            unread_counts <= i,
        decreases items.len() - i,
    {
        proof {
            assert(all.take(i + 1) =~= all.take(i as int) + seq![all[i as int]]);
            lemma_count_unread_add(all.take(i as int), seq![all[i as int]]);
            lemma_count_unread_one(all[i as int]);
        }
        if !items[i].is_read {
            unread_counts = unread_counts + 1;
        }
        i = i + 1;
    }
    assert(all.take(items.len() as int) =~= all);
    unread_counts
}

/// Settings with the parts that the user edits taken from other settings:
/// the name, the address, the proxies, the icon, the format and the favorite
/// mark. The identity and the time of the last sync stay.
pub open spec fn edited(src: RssConfigView, by: RssConfigView) -> RssConfigView {
    RssConfigView {
        name: by.name,
        url: by.url,
        use_http_proxy: by.use_http_proxy,
        use_socks5_proxy: by.use_socks5_proxy,
        icon_index: by.icon_index,
        feed_format: by.feed_format,
        is_favorite: by.is_favorite,
        ..src
    }
}

/// Takes over what the user edited. The identity of the subscription, the
/// time of its last sync, its entries and its counter stay.
pub fn update_rss_config_from_ui(src_config: &mut Subscription, ui_config: RssConfig)
    ensures
        final(src_config)@ == (SubscriptionView {
            config: edited(old(src_config)@.config, ui_config@),
            ..old(src_config)@
        }),
{
    src_config.config.name = ui_config.name;
    src_config.config.url = ui_config.url;
    src_config.config.use_http_proxy = ui_config.use_http_proxy;
    src_config.config.use_socks5_proxy = ui_config.use_socks5_proxy;
    src_config.config.icon_index = ui_config.icon_index;
    src_config.config.feed_format = ui_config.feed_format;
    src_config.config.is_favorite = ui_config.is_favorite;
}

/// Whether a subscription is shown before another: a favorite before one
/// that is none, and of two that are alike in this the one whose name, in
/// lower case, comes first in the order of strings.
pub open spec fn comes_before(a: RssConfigView, b: RssConfigView) -> bool {
    if a.is_favorite != b.is_favorite {
        a.is_favorite
    } else {
        lex_lt(lowercase(a.name), lowercase(b.name))
    }
}

/// Whether a subscription is shown behind a given one.
pub open spec fn is_after(x: SubscriptionView) -> spec_fn(SubscriptionView) -> bool {
    |y: SubscriptionView| comes_before(x.config, y.config)
}

/// A list with one more subscription, in front of the first that is shown
/// behind it, and at the end where none is.
pub open spec fn placed_in(s: Seq<SubscriptionView>, x: SubscriptionView) -> Seq<SubscriptionView> {
    s.insert(first_index(s, is_after(x)), x)
}

/// The subscriptions in the order in which they are shown. Subscriptions of
/// which none is shown before the other keep the order that they had.
pub open spec fn sorted(s: Seq<SubscriptionView>) -> Seq<SubscriptionView>
    decreases s.len(),
{
    if s.len() == 0 {
        s
    } else {
        placed_in(sorted(s.drop_last()), s.last())
    }
}

/// No subscription of the list is shown before one that stands in front of
/// it.
pub open spec fn is_ordered(s: Seq<SubscriptionView>) -> bool {
    forall|i: int, j: int|
        0 <= i < j < s.len() ==> !comes_before((#[trigger] s[j]).config, (#[trigger] s[i]).config)
}

/// Whether the settings of one subscription are shown before those of
/// another.
pub fn sorts_before(a: &RssConfig, b: &RssConfig) -> (r: bool)
    ensures
        r == comes_before(a@, b@),
{
    if a.is_favorite != b.is_favorite {
        a.is_favorite
    } else {
        let x = to_lowercase(a.name.as_str());
        let y = to_lowercase(b.name.as_str());
        str_lt(x.as_str(), y.as_str())
    }
}

/// How two subscriptions compare in the order in which they are shown.
pub fn rss_config_sort_fn(a: &Subscription, b: &Subscription) -> (r: Ordering)
    ensures
        r == Ordering::Less <==> comes_before(a@.config, b@.config),
        r == Ordering::Greater <==> !comes_before(a@.config, b@.config) && comes_before(
            b@.config,
            a@.config,
        ),
{
    if sorts_before(&a.config, &b.config) {
        Ordering::Less
    } else if sorts_before(&b.config, &a.config) {
        Ordering::Greater
    } else {
        Ordering::Equal
    }
}

/// Puts a subscription into a list, in front of the first that is shown
/// behind it.
pub fn place(list: &mut Vec<Subscription>, rss: Subscription)
    ensures
        subscription_views(final(list)@) == placed_in(subscription_views(old(list)@), rss@),
{
    let mut j: usize = 0;
    while j < list.len() && !sorts_before(&rss.config, &list[j].config)
        invariant
            j <= list.len(),
            forall|k: int| 0 <= k < j ==> !comes_before(rss@.config, list@[k]@.config),
        decreases list.len() - j,
    {
        j = j + 1;
    }
    proof {
        lemma_first_index_is(subscription_views(list@), is_after(rss@), j as int);
    }
    list.insert(j, rss);
    assert(subscription_views(list@) =~= subscription_views(old(list)@).insert(j as int, rss@));
}

/// Every subscription of the sorted list is one of the list, and there are
/// as many.
pub proof fn lemma_sorted_elements(s: Seq<SubscriptionView>)
    ensures
        sorted(s).len() == s.len(),
        forall|k: int| 0 <= k < s.len() ==> s.contains(#[trigger] sorted(s)[k]),
    decreases s.len(),
{
    if s.len() > 0 {
        let init = s.drop_last();
        lemma_sorted_elements(init);
        let t = sorted(init);
        lemma_first_index(t, is_after(s.last()));
        let j = first_index(t, is_after(s.last()));
        assert forall|k: int| 0 <= k < s.len() implies s.contains(#[trigger] sorted(s)[k]) by {
            if k < j {
                assert(sorted(s)[k] == t[k]);
                assert(init.contains(t[k]));
                let w = choose|w: int| 0 <= w < init.len() && init[w] == t[k];
                assert(s[w] == t[k]);
            } else if k == j {
                assert(sorted(s)[k] == s[s.len() - 1]);
            } else {
                assert(sorted(s)[k] == t[k - 1]);
                assert(init.contains(t[k - 1]));
                let w = choose|w: int| 0 <= w < init.len() && init[w] == t[k - 1];
                assert(s[w] == t[k - 1]);
            }
        }
    }
}

/// Sorting keeps every unread counter in step with its entries.
pub proof fn lemma_sorted_wf(ui: RegistryView)
    requires
        registry_wf(ui),
    ensures
        registry_wf(RegistryView { rss_lists: sorted(ui.rss_lists), ..ui }),
{
    lemma_sorted_elements(ui.rss_lists);
    let s = ui.rss_lists;
    assert forall|k: int| 0 <= k < sorted(s).len() implies subscription_wf(
        #[trigger] sorted(s)[k],
    ) by {
        assert(s.contains(sorted(s)[k]));
        let w = choose|w: int| 0 <= w < s.len() && s[w] == sorted(s)[k];
        assert(subscription_wf(s[w]));
    }
}

/// A list in which no two subscriptions read one address stays so when a
/// subscription goes in that reads an address of its own, or none.
pub proof fn lemma_insert_urls_unique(t: Seq<SubscriptionView>, j: int, x: SubscriptionView)
    requires
        urls_unique(t),
        0 <= j <= t.len(),
        x.config.url.len() > 0 ==> !reads_elsewhere(t, -1, x.config.url),
    ensures
        urls_unique(t.insert(j, x)),
{
    let r = t.insert(j, x);
    assert forall|a: int, b: int|
        0 <= a < b < r.len() && (#[trigger] r[a]).config.url.len() > 0 implies r[a].config.url != (
        #[trigger] r[b]).config.url by {
        let a0 = if a < j {
            a
        } else {
            a - 1
        };
        let b0 = if b < j {
            b
        } else {
            b - 1
        };
        if a == j {
            assert(r[b] == t[b0]);
            assert(t[b0].config.url != x.config.url);
        } else if b == j {
            assert(r[a] == t[a0]);
            assert(t[a0].config.url != x.config.url);
        } else {
            assert(r[a] == t[a0]);
            assert(r[b] == t[b0]);
        }
    }
}

/// Sorting keeps the addresses apart: where no two subscriptions read one
/// address before, none do after.
pub proof fn lemma_sorted_urls_unique(s: Seq<SubscriptionView>)
    requires
        urls_unique(s),
    ensures
        urls_unique(sorted(s)),
    decreases s.len(),
{
    if s.len() > 0 {
        let init = s.drop_last();
        let x = s.last();
        assert(urls_unique(init)) by {
            assert forall|a: int, b: int|
                0 <= a < b < init.len() && (#[trigger] init[a]).config.url.len() > 0 implies init[a].config.url
                != (#[trigger] init[b]).config.url by {
                assert(init[a] == s[a]);
                assert(init[b] == s[b]);
            }
        }
        lemma_sorted_urls_unique(init);
        lemma_sorted_elements(init);
        let t = sorted(init);
        lemma_first_index(t, is_after(x));
        if x.config.url.len() > 0 {
            if reads_elsewhere(t, -1, x.config.url) {
                let k = choose|k: int|
                    0 <= k < t.len() && k != -1 && (#[trigger] t[k]).config.url == x.config.url;
                assert(init.contains(t[k]));
                let w = choose|w: int| 0 <= w < init.len() && init[w] == t[k];
                assert(s[w] == t[k]);
                assert(s[w].config.url != s[s.len() - 1].config.url);
            }
        }
        lemma_insert_urls_unique(t, first_index(t, is_after(x)), x);
    }
}

/// Puts the subscriptions into the order in which they are shown: the
/// favorites first, and by name within the favorites and within the others.
/// Subscriptions that the order does not tell apart keep their places
/// relative to each other.
pub fn rss_config_sort(ui: &mut Registry)
    ensures
        final(ui)@ == (RegistryView { rss_lists: sorted(old(ui)@.rss_lists), ..old(ui)@ }),
        registry_wf(old(ui)@) ==> registry_wf(final(ui)@),
        urls_unique(old(ui)@.rss_lists) ==> urls_unique(final(ui)@.rss_lists),
{
    let ghost all = ui@.rss_lists;
    let mut taken: Vec<Subscription> = Vec::new();
    taken.append(&mut ui.rss_lists);
    let mut rest = turned(taken);
    let mut list: Vec<Subscription> = Vec::new();
    proof {
        assert(subscription_views(list@) =~= sorted(all.take(0)));
        assert(subscription_views(taken@) =~= all);
    }
    while rest.len() > 0
        invariant
            rest@.len() <= all.len(),
            forall|k: int|
                0 <= k < rest@.len() ==> (#[trigger] rest@[k])@ == all[all.len() - 1 - k],
            subscription_views(list@) == sorted(all.take(all.len() - rest@.len())),
        decreases rest.len(),
    {
        let ghost done = all.len() - rest@.len();
        match rest.pop() {
            Some(rss) => {
                proof {
                    assert(all.take(done + 1).drop_last() =~= all.take(done));
                    assert(all.take(done + 1).last() == rss@);
                }
                place(&mut list, rss);
            },
            None => {},
        }
    }
    proof {
        assert(all.take(all.len() as int) =~= all);
        if registry_wf(old(ui)@) {
            lemma_sorted_wf(old(ui)@);
        }
        if urls_unique(old(ui)@.rss_lists) {
            lemma_sorted_urls_unique(old(ui)@.rss_lists);
        }
    }
    ui.rss_lists = list;
}

/// The order in which subscriptions are shown passes on: what is shown
/// before a subscription is shown before everything that the subscription is
/// shown before.
pub proof fn lemma_comes_before_transitive(a: RssConfigView, b: RssConfigView, c: RssConfigView)
    requires
        comes_before(a, b),
        comes_before(b, c),
    ensures
        comes_before(a, c),
{
    if a.is_favorite == b.is_favorite && b.is_favorite == c.is_favorite {
        lemma_lex_lt_transitive(lowercase(a.name), lowercase(b.name), lowercase(c.name));
    }
}

/// The sorted list is in order: no subscription in it is shown before one
/// that stands in front of it. And it holds the subscriptions of the list,
/// each as often as the list does.
pub proof fn law_sorted_is_ordered(s: Seq<SubscriptionView>)
    ensures
        is_ordered(sorted(s)),
        sorted(s).to_multiset() == s.to_multiset(),
    decreases s.len(),
{
    if s.len() > 0 {
        let init = s.drop_last();
        let x = s.last();
        law_sorted_is_ordered(init);
        let t = sorted(init);
        lemma_first_index(t, is_after(x));
        let j = first_index(t, is_after(x));
        let r = sorted(s);
        assert(r == t.insert(j, x));
        assert forall|a: int, b: int| 0 <= a < b < r.len() implies !comes_before(
            (#[trigger] r[b]).config,
            (#[trigger] r[a]).config,
        ) by {
            if b == j {
                assert(r[a] == t[a]);
                assert(!is_after(x)(t[a]));
            } else if a == j {
                assert(r[b] == t[b - 1]);
                if comes_before(t[b - 1].config, x.config) {
                    assert(is_after(x)(t[j]));
                    lemma_comes_before_transitive(t[b - 1].config, x.config, t[j].config);
                    if b - 1 > j {
                        assert(!comes_before(t[b - 1].config, t[j].config));
                    } else {
                        crate::util::str::lemma_lex_lt_irreflexive(lowercase(t[j].config.name));
                    }
                }
            } else {
                let a0 = if a < j {
                    a
                } else {
                    a - 1
                };
                let b0 = if b < j {
                    b
                } else {
                    b - 1
                };
                assert(r[a] == t[a0]);
                assert(r[b] == t[b0]);
                assert(!comes_before(t[b0].config, t[a0].config));
            }
        }
        vstd::seq_lib::to_multiset_insert(t, j, x);
        assert(s =~= init.push(x));
        vstd::seq_lib::to_multiset_build(init, x);
    } else {
        assert(sorted(s) =~= s);
    }
}

/// A subscription with given settings that has no entries yet.
pub open spec fn blank(config: RssConfigView) -> SubscriptionView {
    SubscriptionView { config, unread_counts: 0, is_update_failed: false, entry: Seq::empty() }
}

/// How taking up a subscription ends: one whose address another
/// subscription reads already is refused, and so is one that the store does
/// not take.
pub open spec fn new_rss_result(ui: RegistryView, db: DatabaseView, rss: RssConfigView) -> Result<
    (),
    ActionError,
> {
    if rss.url.len() > 0 && found(ui.rss_lists, reads_url(rss.url)) {
        Err(ActionError::DuplicateUrl)
    } else {
        match crate::db::rss::insert_result(db.rss, rss) {
            Ok(()) => Ok(()),
            Err(e) => Err(ActionError::Store(e)),
        }
    }
}

/// The registry with one more subscription, which is shown where it is the
/// only one.
pub open spec fn ui_after_new_rss(ui: RegistryView, rss: RssConfigView) -> RegistryView {
    RegistryView {
        rss_lists: sorted(ui.rss_lists.push(blank(rss))),
        current_rss_uuid: if ui.rss_lists.len() == 0 {
            rss.uuid
        } else {
            ui.current_rss_uuid
        },
        ..ui
    }
}

/// The store with one more subscription: a row for its settings, and a
/// table for its entries.
pub open spec fn db_after_new_rss(db: DatabaseView, rss: RssConfigView) -> DatabaseView {
    DatabaseView {
        rss: crate::db::rss::after_insert(db.rss, rss),
        entry: after_new(db.entry, rss.uuid),
        ..db
    }
}

/// The store's part in taking up a subscription: a row for its settings,
/// and a table for its entries. Where the row is refused, nothing is done.
pub(crate) fn _new_rss(db: &mut Database, rss: RssConfig) -> (r: Result<(), DbError>)
    ensures
        r == crate::db::rss::insert_result(old(db)@.rss, rss@),
        final(db)@ == if r is Ok {
            db_after_new_rss(old(db)@, rss@)
        } else {
            old(db)@
        },
{
    let uuid = rss.uuid.clone();
    match crate::db::rss::insert(db, rss) {
        Err(e) => {
            return Err(e);
        },
        Ok(()) => {},
    }
    let _ = crate::db::entry::new(db, uuid.as_str());
    Ok(())
}

/// Takes up a subscription whose identity is settled. It starts without
/// entries, takes its place in the order of the subscriptions, and is shown
/// where it is the only one. Where the address is read already or the store
/// refuses, nothing changes.
pub fn add_rss(ui: &mut Registry, db: &mut Database, rss: RssConfig) -> (r: Result<(), ActionError>)
    ensures
        r == new_rss_result(old(ui)@, old(db)@, rss@),
        r is Ok ==> final(ui)@ == ui_after_new_rss(old(ui)@, rss@),
        r is Ok ==> final(db)@ == db_after_new_rss(old(db)@, rss@),
        r is Err ==> final(ui)@ == old(ui)@ && final(db)@ == old(db)@,
        registry_wf(old(ui)@) ==> registry_wf(final(ui)@),
        urls_unique(old(ui)@.rss_lists) ==> urls_unique(final(ui)@.rss_lists),
{
    if is_exist_url(ui, rss.url.as_str()) {
        return Err(ActionError::DuplicateUrl);
    }
    match _new_rss(db, rss.clone()) {
        Err(e) => {
            return Err(ActionError::Store(e));
        },
        Ok(()) => {},
    }
    if ui.rss_lists.len() == 0 {
        ui.current_rss_uuid = rss.uuid.clone();
    }
    let item = Subscription {
        config: rss,
        unread_counts: 0,
        is_update_failed: false,
        entry: Vec::new(),
    };
    proof {
        assert(item@.entry =~= Seq::<RssEntryView>::empty());
        assert(item@ == blank(rss@));
        ui.rss_lists@.lemma_push_map_commute(|s: Subscription| s@, item);
        assert(Seq::<RssEntryView>::empty().filter(is_unread()) =~= Seq::<RssEntryView>::empty());
    }
    ui.rss_lists.push(item);
    proof {
        if urls_unique(old(ui)@.rss_lists) {
            let before = old(ui)@.rss_lists;
            lemma_found_iff(before, reads_url(rss@.url));
            assert(ui@.rss_lists =~= before.insert(before.len() as int, item@));
            if rss@.url.len() > 0 && reads_elsewhere(before, -1, rss@.url) {
                let k = choose|k: int|
                    0 <= k < before.len() && k != -1 && (#[trigger] before[k]).config.url
                        == rss@.url;
                assert(reads_url(rss@.url)(before[k]));
            }
            lemma_insert_urls_unique(before, before.len() as int, item@);
        }
        if registry_wf(old(ui)@) {
            assert forall|k: int| 0 <= k < ui@.rss_lists.len() implies subscription_wf(
                #[trigger] ui@.rss_lists[k],
            ) by {
                if k < old(ui)@.rss_lists.len() {
                    assert(ui@.rss_lists[k] == old(ui)@.rss_lists[k]);
                    assert(subscription_wf(old(ui)@.rss_lists[k]));
                }
            }
        }
    }
    rss_config_sort(ui);
    Ok(())
}

/// Settings under another identity.
pub open spec fn identified(c: RssConfigView, uuid: Seq<char>) -> RssConfigView {
    RssConfigView { uuid, ..c }
}

/// Whether a registry and a store are what taking up a subscription under
/// the identity `uuid` leaves, and `r` what it answers: the identity where
/// the subscription is taken up, and else why it is refused.
pub open spec fn is_new_rss_outcome(
    before: (RegistryView, DatabaseView),
    config: RssConfigView,
    uuid: Seq<char>,
    r: Result<Seq<char>, ActionError>,
    after: (RegistryView, DatabaseView),
) -> bool {
    let rss = identified(config, uuid);
    match r {
        Ok(id) => id == uuid && new_rss_result(before.0, before.1, rss) is Ok && after.0
            == ui_after_new_rss(before.0, rss) && after.1 == db_after_new_rss(before.1, rss),
        Err(e) => new_rss_result(before.0, before.1, rss) == Err::<(), ActionError>(e) && after
            == before,
    }
}

/// The identity that was given, as a text.
pub open spec fn identity_view(r: Result<String, ActionError>) -> Result<Seq<char>, ActionError> {
    match r {
        Ok(id) => Ok(id@),
        Err(e) => Err(e),
    }
}

/// Takes up a new subscription under a fresh identity, and gives that
/// identity. A subscription whose address is read already is refused. The
/// identity is left to chance, so the contract speaks of some identity of 36
/// characters.
pub fn new_rss(ui: &mut Registry, db: &mut Database, config: RssConfig) -> (r: Result<
    String,
    ActionError,
>)
    ensures
        exists|uuid: Seq<char>|
            uuid.len() == 36 && #[trigger] is_new_rss_outcome(
                (old(ui)@, old(db)@),
                config@,
                uuid,
                identity_view(r),
                (final(ui)@, final(db)@),
            ),
        registry_wf(old(ui)@) ==> registry_wf(final(ui)@),
        urls_unique(old(ui)@.rss_lists) ==> urls_unique(final(ui)@.rss_lists),
{
    let mut rss = config;
    rss.uuid = new_uuid();
    let id = rss.uuid.clone();
    let ghost uuid = id@;
    assert(rss@ == identified(config@, uuid));
    let r = match add_rss(ui, db, rss) {
        Ok(()) => Ok(id),
        Err(e) => Err(e),
    };
    assert(is_new_rss_outcome(
        (old(ui)@, old(db)@),
        config@,
        uuid,
        identity_view(r),
        (ui@, db@),
    ));
    r
}

/// Whether a subscription at another position than `i` reads a given
/// address.
pub open spec fn reads_elsewhere(subs: Seq<SubscriptionView>, i: int, url: Seq<char>) -> bool {
    exists|k: int| 0 <= k < subs.len() && k != i && (#[trigger] subs[k]).config.url == url
}

/// No two subscriptions read one address. Subscriptions without an address
/// do not count.
pub open spec fn urls_unique(subs: Seq<SubscriptionView>) -> bool {
    forall|i: int, j: int|
        0 <= i < j < subs.len() && (#[trigger] subs[i]).config.url.len() > 0 ==> subs[i].config.url
            != (#[trigger] subs[j]).config.url
}

/// How a change of settings ends: it needs the subscription, an address
/// that no other subscription reads, and the table of subscriptions in the
/// store.
pub open spec fn edit_result(
    ui: RegistryView,
    db: DatabaseView,
    uuid: Seq<char>,
    config: RssConfigView,
) -> Result<(), ActionError> {
    if !found(ui.rss_lists, is_subscription(uuid)) {
        Err(ActionError::NoSuchSubscription)
    } else if config.url.len() > 0 && reads_elsewhere(
        ui.rss_lists,
        subscription_index(ui.rss_lists, uuid),
        config.url,
    ) {
        Err(ActionError::DuplicateUrl)
    } else if db.rss is None {
        Err(ActionError::Store(DbError::NoSuchTable))
    } else {
        Ok(())
    }
}

/// The registry with the settings of a subscription replaced, and the
/// subscriptions in order again.
pub open spec fn ui_with_config(
    ui: RegistryView,
    uuid: Seq<char>,
    config: RssConfigView,
) -> RegistryView {
    let i = subscription_index(ui.rss_lists, uuid);
    RegistryView {
        rss_lists: sorted(
            ui.rss_lists.update(i, SubscriptionView { config, ..ui.rss_lists[i] }),
        ),
        ..ui
    }
}

/// The store's part in a change of settings: the row of the subscription is
/// replaced. Without the table of subscriptions nothing is done; a row that
/// the table never held is no obstacle.
pub(crate) fn _edit_rss(db: &mut Database, rss: RssConfig) -> (r: Result<(), DbError>)
    ensures
        r == if old(db)@.rss is Some {
            Ok::<(), DbError>(())
        } else {
            Err::<(), DbError>(DbError::NoSuchTable)
        },
        final(db)@ == (DatabaseView {
            rss: crate::db::rss::after_update(old(db)@.rss, rss@.uuid, rss@),
            ..old(db)@
        }),
{
    let uuid = rss.uuid.clone();
    match crate::db::rss::update(db, uuid.as_str(), rss) {
        Err(DbError::NoSuchTable) => Err(DbError::NoSuchTable),
        _ => Ok(()),
    }
}

/// Whether a subscription at another position than `i` reads the given
/// address.
pub fn is_url_of_other(ui: &Registry, i: usize, url: &str) -> (r: bool)
    ensures
        r == reads_elsewhere(ui@.rss_lists, i as int, url@),
{
    let mut k: usize = 0;
    while k < ui.rss_lists.len()
        invariant
            k <= ui.rss_lists.len(),
            forall|j: int| 0 <= j < k && j != i ==> ui.rss_lists@[j]@.config.url != url@,
        decreases ui.rss_lists.len() - k,
    {
        if k != i && str_eq(ui.rss_lists[k].config.url.as_str(), url) {
            assert(ui@.rss_lists[k as int].config.url == url@);
            return true;
        }
        k = k + 1;
    }
    assert forall|j: int| 0 <= j < ui@.rss_lists.len() && j != i implies (
    #[trigger] ui@.rss_lists[j]).config.url != url@ by {
        assert(ui.rss_lists@[j]@.config.url != url@);
    }
    false
}

/// Replaces the settings of the subscription at a position, in memory and
/// in the store, and puts the subscriptions in order again.
fn set_config(ui: &mut Registry, db: &mut Database, i: usize, config: RssConfig) -> (r: Result<
    (),
    ActionError,
>)
    requires
        i < old(ui).rss_lists.len(),
        i == subscription_index(old(ui)@.rss_lists, config@.uuid),
    ensures
        r == if old(db)@.rss is Some {
            Ok::<(), ActionError>(())
        } else {
            Err::<(), ActionError>(ActionError::Store(DbError::NoSuchTable))
        },
        r is Ok ==> final(ui)@ == ui_with_config(old(ui)@, config@.uuid, config@),
        r is Ok ==> final(db)@ == (DatabaseView {
            rss: crate::db::rss::after_update(old(db)@.rss, config@.uuid, config@),
            ..old(db)@
        }),
        r is Err ==> final(ui)@ == old(ui)@ && final(db)@ == old(db)@,
        registry_wf(old(ui)@) ==> registry_wf(final(ui)@),
        urls_unique(old(ui)@.rss_lists) && (config@.url.len() > 0 ==> !reads_elsewhere(
            old(ui)@.rss_lists,
            i as int,
            config@.url,
        )) ==> urls_unique(final(ui)@.rss_lists),
{
    match _edit_rss(db, config.clone()) {
        Err(e) => {
            return Err(ActionError::Store(e));
        },
        Ok(()) => {},
    }
    ui.rss_lists[i].config = config;
    proof {
        let s = old(ui)@.rss_lists[i as int];
        assert(ui@.rss_lists =~= old(ui)@.rss_lists.update(
            i as int,
            SubscriptionView { config: config@, ..s },
        ));
        if registry_wf(old(ui)@) {
            assert(subscription_wf(s));
            lemma_wf_after(old(ui)@, ui@, i as int);
        }
        if urls_unique(old(ui)@.rss_lists) && (config@.url.len() > 0 ==> !reads_elsewhere(
            old(ui)@.rss_lists,
            i as int,
            config@.url,
        )) {
            let before = old(ui)@.rss_lists;
            let now = ui@.rss_lists;
            assert forall|a: int, b: int|
                0 <= a < b < now.len() && (#[trigger] now[a]).config.url.len() > 0 implies now[a].config.url
                != (#[trigger] now[b]).config.url by {
                if a == i {
                    assert(now[b] == before[b]);
                } else if b == i {
                    assert(now[a] == before[a]);
                } else {
                    assert(now[a] == before[a]);
                    assert(now[b] == before[b]);
                }
            }
        }
    }
    rss_config_sort(ui);
    Ok(())
}

/// Changes what the user edits of a subscription: the name, the address,
/// the proxies, the icon, the format and the favorite mark. The change goes
/// to the store, and the subscriptions are put in order again. An address
/// that another subscription reads is refused.
pub fn update_rss(ui: &mut Registry, db: &mut Database, uuid: &str, config: RssConfig) -> (r:
    Result<(), ActionError>)
    ensures
        r == edit_result(old(ui)@, old(db)@, uuid@, config@),
        r is Ok ==> {
            let c = edited(
                old(ui)@.rss_lists[subscription_index(old(ui)@.rss_lists, uuid@)].config,
                config@,
            );
            &&& final(ui)@ == ui_with_config(old(ui)@, uuid@, c)
            &&& final(db)@ == (DatabaseView {
                rss: crate::db::rss::after_update(old(db)@.rss, uuid@, c),
                ..old(db)@
            })
        },
        r is Err ==> final(ui)@ == old(ui)@ && final(db)@ == old(db)@,
        registry_wf(old(ui)@) ==> registry_wf(final(ui)@),
        urls_unique(old(ui)@.rss_lists) ==> urls_unique(final(ui)@.rss_lists),
{
    let i = find_subscription(ui, uuid);
    if i == ui.rss_lists.len() {
        return Err(ActionError::NoSuchSubscription);
    }
    if !config.url.as_str().is_empty() && is_url_of_other(ui, i, config.url.as_str()) {
        return Err(ActionError::DuplicateUrl);
    }
    let mut rss = ui.rss_lists[i].clone();
    update_rss_config_from_ui(&mut rss, config);
    proof {
        lemma_first_index(ui@.rss_lists, is_subscription(uuid@));
    }
    set_config(ui, db, i, rss.config)
}

/// Settings with the favorite mark turned round.
pub open spec fn toggled(c: RssConfigView) -> RssConfigView {
    RssConfigView { is_favorite: !c.is_favorite, ..c }
}

/// Makes a subscription a favorite, or takes the mark from one that is a
/// favorite. The change goes to the store, and the subscriptions are put in
/// order again.
pub fn toggle_rss_favorite(ui: &mut Registry, db: &mut Database, uuid: &str) -> (r: Result<
    (),
    ActionError,
>)
    ensures
        r == if !found(old(ui)@.rss_lists, is_subscription(uuid@)) {
            Err::<(), ActionError>(ActionError::NoSuchSubscription)
        } else if old(db)@.rss is None {
            Err::<(), ActionError>(ActionError::Store(DbError::NoSuchTable))
        } else {
            Ok::<(), ActionError>(())
        },
        r is Ok ==> {
            let c = toggled(
                old(ui)@.rss_lists[subscription_index(old(ui)@.rss_lists, uuid@)].config,
            );
            &&& final(ui)@ == ui_with_config(old(ui)@, uuid@, c)
            &&& final(db)@ == (DatabaseView {
                rss: crate::db::rss::after_update(old(db)@.rss, uuid@, c),
                ..old(db)@
            })
        },
        r is Err ==> final(ui)@ == old(ui)@ && final(db)@ == old(db)@,
        registry_wf(old(ui)@) ==> registry_wf(final(ui)@),
        urls_unique(old(ui)@.rss_lists) ==> urls_unique(final(ui)@.rss_lists),
{
    let i = find_subscription(ui, uuid);
    if i == ui.rss_lists.len() {
        return Err(ActionError::NoSuchSubscription);
    }
    let mut config = ui.rss_lists[i].config.clone();
    config.is_favorite = !config.is_favorite;
    proof {
        lemma_first_index(ui@.rss_lists, is_subscription(uuid@));
        let before = ui@.rss_lists;
        if urls_unique(before) && config@.url.len() > 0 && reads_elsewhere(
            before,
            i as int,
            config@.url,
        ) {
            let k = choose|k: int|
                0 <= k < before.len() && k != i && (#[trigger] before[k]).config.url
                    == config@.url;
            assert(before[i as int].config.url == config@.url);
        }
    }
    set_config(ui, db, i, config)
}

/// The identity of the subscription that is shown once the one at position
/// `i` is gone: that of the first that stays, and none where none stays.
pub open spec fn shown_after_removal(subs: Seq<SubscriptionView>, i: int) -> Seq<char> {
    let left = subs.remove(i);
    if left.len() > 0 {
        left[0].config.uuid
    } else {
        EMPTY_UUID@
    }
}

/// The registry without a subscription. Where the subscription was the one
/// that is shown, the first of those that stay is shown from now on, and the
/// change is announced.
pub open spec fn ui_after_remove_rss(ui: RegistryView, uuid: Seq<char>) -> RegistryView {
    let i = subscription_index(ui.rss_lists, uuid);
    let left = RegistryView { rss_lists: ui.rss_lists.remove(i), ..ui };
    if uuid == ui.current_rss_uuid {
        notified(
            RegistryView { current_rss_uuid: shown_after_removal(ui.rss_lists, i), ..left },
        )
    } else {
        left
    }
}

/// The store without a subscription: the row of its settings and the table
/// of its entries are gone, and the address of each entry that it had in
/// memory is registered as removed.
pub open spec fn db_after_remove_rss(
    ui: RegistryView,
    db: DatabaseView,
    uuid: Seq<char>,
) -> DatabaseView {
    DatabaseView {
        rss: crate::db::rss::after_delete(db.rss, uuid),
        trash: with_hashes(
            db.trash,
            ui.rss_lists[subscription_index(ui.rss_lists, uuid)].entry,
        ),
        entry: after_drop(db.entry, uuid),
    }
}

/// The store's part in removing a subscription: the row of its settings and
/// the table of its entries go. Without the table of subscriptions nothing
/// is done; a row or a table that was never there is no obstacle.
pub(crate) fn _remove_rss(db: &mut Database, uuid: &str) -> (r: Result<(), DbError>)
    ensures
        r == if old(db)@.rss is Some {
            Ok::<(), DbError>(())
        } else {
            Err::<(), DbError>(DbError::NoSuchTable)
        },
        final(db)@ == (DatabaseView {
            rss: crate::db::rss::after_delete(old(db)@.rss, uuid@),
            entry: if old(db)@.rss is Some {
                after_drop(old(db)@.entry, uuid@)
            } else {
                old(db)@.entry
            },
            ..old(db)@
        }),
{
    match crate::db::rss::delete(db, uuid) {
        Err(DbError::NoSuchTable) => {
            return Err(DbError::NoSuchTable);
        },
        _ => {},
    }
    let _ = crate::db::entry::drop_table(db, uuid);
    Ok(())
}

/// Removes a subscription with all its entries. Its settings and its table
/// of entries leave the store, and the address of each of its entries is
/// registered as removed. Where it was the subscription that is shown, the
/// first of the others is shown in its place. Where no subscription has the
/// identity, or the store has no table of subscriptions, nothing changes.
pub fn remove_rss(ui: &mut Registry, db: &mut Database, uuid: &str) -> (r: Result<(), ActionError>)
    ensures
        r == if !found(old(ui)@.rss_lists, is_subscription(uuid@)) {
            Err::<(), ActionError>(ActionError::NoSuchSubscription)
        } else if old(db)@.rss is None {
            Err::<(), ActionError>(ActionError::Store(DbError::NoSuchTable))
        } else {
            Ok::<(), ActionError>(())
        },
        r is Ok ==> final(ui)@ == ui_after_remove_rss(old(ui)@, uuid@),
        r is Ok ==> final(db)@ == db_after_remove_rss(old(ui)@, old(db)@, uuid@),
        r is Err ==> final(ui)@ == old(ui)@ && final(db)@ == old(db)@,
        registry_wf(old(ui)@) ==> registry_wf(final(ui)@),
        urls_unique(old(ui)@.rss_lists) ==> urls_unique(final(ui)@.rss_lists),
{
    let i = find_subscription(ui, uuid);
    if i == ui.rss_lists.len() {
        return Err(ActionError::NoSuchSubscription);
    }
    match _remove_rss(db, uuid) {
        Err(e) => {
            return Err(ActionError::Store(e));
        },
        Ok(()) => {},
    }
    let rss = ui.rss_lists.remove(i);
    trash_entries(db, &rss.entry);
    proof {
        assert(ui@.rss_lists =~= old(ui)@.rss_lists.remove(i as int));
        if urls_unique(old(ui)@.rss_lists) {
            let before = old(ui)@.rss_lists;
            let now = ui@.rss_lists;
            assert forall|a: int, b: int|
                0 <= a < b < now.len() && (#[trigger] now[a]).config.url.len() > 0 implies now[a].config.url
                != (#[trigger] now[b]).config.url by {
                let a0 = if a < i {
                    a
                } else {
                    a + 1
                };
                let b0 = if b < i {
                    b
                } else {
                    b + 1
                };
                assert(now[a] == before[a0]);
                assert(now[b] == before[b0]);
            }
        }
        if registry_wf(old(ui)@) {
            assert forall|k: int| 0 <= k < ui@.rss_lists.len() implies subscription_wf(
                #[trigger] ui@.rss_lists[k],
            ) by {
                let k0 = if k < i {
                    k
                } else {
                    k + 1
                };
                assert(ui@.rss_lists[k] == old(ui)@.rss_lists[k0]);
                assert(subscription_wf(old(ui)@.rss_lists[k0]));
            }
        }
    }
    if str_eq(uuid, ui.current_rss_uuid.as_str()) {
        ui.current_rss_uuid = if ui.rss_lists.len() > 0 {
            ui.rss_lists[0].config.uuid.clone()
        } else {
            EMPTY_UUID.to_string()
        };
        notify_ui_update_unread_counts(ui);
    }
    Ok(())
}

/// The registry after another subscription was asked to be shown. Without
/// subscriptions none is shown; asked for none, the first is shown; asked
/// for one that is there, that one is shown; and asked for one that is not
/// there, nothing changes.
pub open spec fn ui_after_switch(ui: RegistryView, to_uuid: Seq<char>) -> RegistryView {
    if ui.rss_lists.len() == 0 {
        RegistryView { current_rss_uuid: EMPTY_UUID@, ..ui }
    } else if to_uuid == EMPTY_UUID@ {
        RegistryView { current_rss_uuid: ui.rss_lists[0].config.uuid, ..ui }
    } else if found(ui.rss_lists, is_subscription(to_uuid)) {
        RegistryView { current_rss_uuid: to_uuid, ..ui }
    } else {
        ui
    }
}

/// Shows another subscription.
pub fn switch_rss(ui: &mut Registry, to_uuid: &str)
    ensures
        final(ui)@ == ui_after_switch(old(ui)@, to_uuid@),
{
    if ui.rss_lists.len() == 0 {
        ui.current_rss_uuid = EMPTY_UUID.to_string();
    } else if str_eq(to_uuid, EMPTY_UUID) {
        ui.current_rss_uuid = ui.rss_lists[0].config.uuid.clone();
    } else if find_subscription(ui, to_uuid) < ui.rss_lists.len() {
        ui.current_rss_uuid = to_uuid.to_string();
    }
}

/// The entries of the subscription that is shown, and none where no
/// subscription has the identity that is shown.
pub fn rss_entrys<'a>(ui: &'a Registry) -> (r: Option<&'a Vec<RssEntry>>)
    ensures
        match r {
            Some(entries) => found(ui@.rss_lists, is_subscription(ui@.current_rss_uuid))
                && entry_views(entries@) == ui@.rss_lists[subscription_index(
                ui@.rss_lists,
                ui@.current_rss_uuid,
            )].entry,
            None => !found(ui@.rss_lists, is_subscription(ui@.current_rss_uuid)),
        },
{
    let i = find_subscription(ui, ui.current_rss_uuid.as_str());
    if i < ui.rss_lists.len() {
        Some(&ui.rss_lists[i].entry)
    } else {
        None
    }
}

/// The settings of a subscription as the user edits them: the name, the
/// address, the proxies, the icon, the format and the favorite mark, without
/// the identity and the time of the last sync. Every part is empty, zero or
/// unset where no subscription has the identity.
pub open spec fn editable(ui: RegistryView, uuid: Seq<char>) -> RssConfigView {
    let i = subscription_index(ui.rss_lists, uuid);
    let none = RssConfigView {
        uuid: Seq::empty(),
        name: Seq::empty(),
        url: Seq::empty(),
        icon_index: 0,
        use_http_proxy: false,
        use_socks5_proxy: false,
        is_favorite: false,
        update_time: Seq::empty(),
        feed_format: Seq::empty(),
    };
    if i < ui.rss_lists.len() {
        edited(none, ui.rss_lists[i].config)
    } else {
        none
    }
}

/// The settings of a subscription as the user edits them.
pub fn get_rss_config_to_ui(ui: &Registry, uuid: &str) -> (r: RssConfig)
    ensures
        r@ == editable(ui@, uuid@),
{
    let mut des_rss = RssConfig {
        uuid: String::new(),
        name: String::new(),
        url: String::new(),
        icon_index: 0,
        use_http_proxy: false,
        use_socks5_proxy: false,
        is_favorite: false,
        update_time: String::new(),
        feed_format: String::new(),
    };
    match get_rss_config(ui, uuid) {
        Some(rss) => {
            des_rss.name = rss.config.name.clone();
            des_rss.url = rss.config.url.clone();
            des_rss.use_http_proxy = rss.config.use_http_proxy;
            des_rss.use_socks5_proxy = rss.config.use_socks5_proxy;
            des_rss.icon_index = rss.config.icon_index;
            des_rss.feed_format = rss.config.feed_format.clone();
            des_rss.is_favorite = rss.config.is_favorite;
        },
        None => {},
    }
    des_rss
}

/// The name of a subscription, and the empty name where no subscription has
/// the identity.
pub fn name_rss(ui: &Registry, uuid: &str) -> (r: String)
    ensures
        r@ == if found(ui@.rss_lists, is_subscription(uuid@)) {
            ui@.rss_lists[subscription_index(ui@.rss_lists, uuid@)].config.name
        } else {
            Seq::<char>::empty()
        },
{
    match get_rss_config(ui, uuid) {
        Some(rss) => rss.config.name.clone(),
        None => String::new(),
    }
}

/// The unread counter of a subscription, and zero where no subscription has
/// the identity.
pub fn unread_counts_rss(ui: &Registry, uuid: &str) -> (r: usize)
    ensures
        r == if found(ui@.rss_lists, is_subscription(uuid@)) {
            ui@.rss_lists[subscription_index(ui@.rss_lists, uuid@)].unread_counts
        } else {
            0
        },
{
    match get_rss_config(ui, uuid) {
        Some(rss) => rss.unread_counts,
        None => 0,
    }
}

/// The time of the last sync of a subscription, and the empty text where no
/// subscription has the identity.
pub fn update_time_rss(ui: &Registry, uuid: &str) -> (r: String)
    ensures
        r@ == if found(ui@.rss_lists, is_subscription(uuid@)) {
            ui@.rss_lists[subscription_index(ui@.rss_lists, uuid@)].config.update_time
        } else {
            Seq::<char>::empty()
        },
{
    match get_rss_config(ui, uuid) {
        Some(rss) => rss.config.update_time.clone(),
        None => String::new(),
    }
}

/// Whether a subscription has the identity.
pub fn exist_rss(ui: &Registry, uuid: &str) -> (r: bool)
    ensures
        r == found(ui@.rss_lists, is_subscription(uuid@)),
{
    get_rss_config(ui, uuid).is_some()
}

/// The settings that could be read, in the order of the rows. `items` holds
/// for each row of the table of subscriptions what reading its payload as
/// settings gave; a row that could not be read is passed over.
pub fn init_rss_configs(items: Vec<Option<RssConfig>>) -> (list: Vec<RssConfig>)
    ensures
        config_views(list@) == items@.filter(|o: Option<RssConfig>| o is Some).map_values(
            |o: Option<RssConfig>| o->0@,
        ),
{
    let ghost all = items@;
    let ghost keep = |o: Option<RssConfig>| o is Some;
    let ghost open = |o: Option<RssConfig>| o->0@;
    let mut rest = turned(items);
    let mut list: Vec<RssConfig> = Vec::new();
    proof {
        assert(config_views(list@) =~= all.take(0).filter(keep).map_values(open));
    }
    while rest.len() > 0
        invariant
            rest@.len() <= all.len(),
            keep == |o: Option<RssConfig>| o is Some,
            open == |o: Option<RssConfig>| o->0@,
            forall|k: int| 0 <= k < rest@.len() ==> rest@[k] == all[all.len() - 1 - k],
            config_views(list@) == all.take(all.len() - rest@.len()).filter(keep).map_values(
                open,
            ),
        decreases rest.len(),
    {
        let ghost done = all.len() - rest@.len();
        match rest.pop() {
            Some(item) => {
                proof {
                    assert(all.take(done + 1) =~= all.take(done).push(all[done]));
                    all.take(done).lemma_filter_push(all[done], keep);
                }
                match item {
                    Some(rss_config) => {
                        proof {
                            all.take(done).filter(keep).lemma_push_map_commute(open, item);
                            list@.lemma_push_map_commute(|c: RssConfig| c@, rss_config);
                        }
                        list.push(rss_config);
                    },
                    None => {},
                }
            },
            None => {},
        }
    }
    assert(all.take(all.len() as int) =~= all);
    list
}

/// A subscription as it comes out of the store: with the entries of its
/// table, the latest first, and with as many unread as there are.
pub open spec fn loaded_subscription(db: DatabaseView, c: RssConfigView) -> SubscriptionView {
    let entry = shown_rows(db.entry, c.uuid);
    SubscriptionView {
        config: c,
        unread_counts: count_unread(entry),
        is_update_failed: false,
        entry,
    }
}

/// The subscriptions as they come out of the store, in the order of their
/// settings.
pub open spec fn loaded_subscriptions(db: DatabaseView, configs: Seq<RssConfigView>) -> Seq<
    SubscriptionView,
> {
    configs.map_values(|c: RssConfigView| loaded_subscription(db, c))
}

/// The entries of each of the subscriptions as the store holds them, the
/// latest first, in the order of the settings.
pub fn init_rss_entrys(db: &Database, items: &Vec<RssConfig>) -> (list: Vec<Vec<RssEntry>>)
    ensures
        list@.len() == items@.len(),
        forall|k: int|
            0 <= k < items@.len() ==> entry_views((#[trigger] list@[k])@) == shown_rows(
                db@.entry,
                items@[k]@.uuid,
            ),
{
    let mut list: Vec<Vec<RssEntry>> = Vec::new();
    let mut i: usize = 0;
    while i < items.len()
        invariant
            i <= items.len(),
            list@.len() == i,
            forall|k: int|
                0 <= k < i ==> entry_views((#[trigger] list@[k])@) == shown_rows(
                    db@.entry,
                    items@[k]@.uuid,
                ),
        decreases items.len() - i,
    {
        list.push(get_from_db(db, items[i].uuid.as_str()));
        i = i + 1;
    }
    list
}

/// The registry after the subscriptions were taken from the store: in the
/// order in which they are shown, the first of them shown. Without a table
/// of subscriptions there are none.
pub open spec fn ui_after_init_rss(ui: RegistryView, db: DatabaseView) -> RegistryView {
    match db.rss {
        None => RegistryView { rss_lists: Seq::empty(), ..ui },
        Some(rows) => {
            let list = sorted(loaded_subscriptions(db, rows));
            RegistryView {
                rss_lists: list,
                current_rss_uuid: if list.len() > 0 {
                    list[0].config.uuid
                } else {
                    ui.current_rss_uuid
                },
                ..ui
            }
        },
    }
}

/// Takes the subscriptions from the store into memory, each with its entries
/// and with its unread counter counted from them. The result says whether
/// every subscription is to be synced right away: this is so where the
/// settings ask for a sync at the start and the store could be read.
pub fn init_rss(ui: &mut Registry, db: &Database, is_start_sync: bool) -> (sync: bool)
    ensures
        final(ui)@ == ui_after_init_rss(old(ui)@, db@),
        sync == (is_start_sync && db@.rss is Some),
        registry_wf(final(ui)@),
{
    ui.rss_lists = Vec::new();
    assert(ui@.rss_lists =~= Seq::<SubscriptionView>::empty());
    let config_list = match crate::db::rss::select_all(db) {
        Ok(items) => items,
        Err(_) => {
            return false;
        },
    };
    let ghost configs = config_views(config_list@);
    let mut entry_list = init_rss_entrys(db, &config_list);
    let mut configs_left = turned(config_list);
    let mut entrys_left = turned(entry_list);
    let mut list: Vec<Subscription> = Vec::new();
    proof {
        assert(subscription_views(list@) =~= loaded_subscriptions(db@, configs.take(0)));
        assert forall|k: int| 0 <= k < configs.len() implies (#[trigger] configs_left@[k])@
            == configs[configs.len() - 1 - k] by {
            assert(config_list@[configs.len() - 1 - k]@ == configs[configs.len() - 1 - k]);
        }
    }
    while configs_left.len() > 0 && entrys_left.len() > 0
        invariant
            configs_left@.len() == entrys_left@.len(),
            configs_left@.len() <= configs.len(),
            forall|k: int|
                0 <= k < configs_left@.len() ==> (#[trigger] configs_left@[k])@
                    == configs[configs.len() - 1 - k],
            forall|k: int|
                0 <= k < entrys_left@.len() ==> entry_views((#[trigger] entrys_left@[k])@)
                    == shown_rows(db@.entry, configs[configs.len() - 1 - k].uuid),
            subscription_views(list@) == loaded_subscriptions(
                db@,
                configs.take(configs.len() - configs_left@.len()),
            ),
            forall|k: int| 0 <= k < list@.len() ==> subscription_wf((#[trigger] list@[k])@),
        decreases configs_left.len(),
    {
        let ghost done = configs.len() - configs_left@.len();
        let config = configs_left.pop();
        let entry = entrys_left.pop();
        match (config, entry) {
            (Some(config), Some(entry)) => {
                let item = Subscription {
                    unread_counts: rss_entrys_unread_counts(&entry),
                    config,
                    is_update_failed: false,
                    entry,
                };
                proof {
                    assert(item@ == loaded_subscription(db@, configs[done]));
                    assert(configs.take(done + 1) =~= configs.take(done).push(configs[done]));
                    configs.take(done).lemma_push_map_commute(
                        |c: RssConfigView| loaded_subscription(db@, c),
                        configs[done],
                    );
                    list@.lemma_push_map_commute(|s: Subscription| s@, item);
                }
                list.push(item);
            },
            _ => {},
        }
    }
    proof {
        assert(configs.take(configs.len() as int) =~= configs);
        assert forall|k: int| 0 <= k < subscription_views(list@).len() implies subscription_wf(
            #[trigger] subscription_views(list@)[k],
        ) by {
            assert(subscription_wf(list@[k]@));
        }
    }
    ui.rss_lists = list;
    assert(registry_wf(ui@));
    rss_config_sort(ui);
    let ghost in_order = ui@.rss_lists;
    if ui.rss_lists.len() > 0 {
        ui.current_rss_uuid = ui.rss_lists[0].config.uuid.clone();
    }
    assert(ui@.rss_lists == in_order);
    is_start_sync
}

/// Makes the subscriptions ready for use: they are taken from the store.
/// See [`init_rss`].
pub fn init(ui: &mut Registry, db: &Database, is_start_sync: bool) -> (sync: bool)
    ensures
        final(ui)@ == ui_after_init_rss(old(ui)@, db@),
        sync == (is_start_sync && db@.rss is Some),
        registry_wf(final(ui)@),
{
    init_rss(ui, db, is_start_sync)
}

/// The identities of the subscriptions of a list, in the list's order.
pub open spec fn identities(subs: Seq<SubscriptionView>) -> Seq<Seq<char>> {
    subs.map_values(|s: SubscriptionView| s.config.uuid)
}

/// The identity of every subscription, in the order in which they are
/// shown.
pub fn rss_uuids(ui: &Registry) -> (r: Vec<String>)
    ensures
        r@.map_values(|s: String| s@) == identities(ui@.rss_lists),
{
    let mut r: Vec<String> = Vec::new();
    let mut i: usize = 0;
    while i < ui.rss_lists.len()
        invariant
            i <= ui.rss_lists.len(),
            r@.len() == i,
            forall|k: int| 0 <= k < i ==> r@[k]@ == ui.rss_lists@[k]@.config.uuid,
        decreases ui.rss_lists.len() - i,
    {
        r.push(ui.rss_lists[i].config.uuid.clone());
        i = i + 1;
    }
    assert(r@.map_values(|s: String| s@) =~= identities(ui@.rss_lists));
    r
}

/// The registry and the store after the subscription of an identity was
/// asked to be removed: without it where that could be done, and as they
/// were where it could not.
pub open spec fn after_remove_rss(ui: RegistryView, db: DatabaseView, uuid: Seq<char>) -> (
    RegistryView,
    DatabaseView,
) {
    if found(ui.rss_lists, is_subscription(uuid)) && db.rss is Some {
        (ui_after_remove_rss(ui, uuid), db_after_remove_rss(ui, db, uuid))
    } else {
        (ui, db)
    }
}

/// The registry and the store after the subscriptions of the identities
/// were asked to be removed, one after the other.
pub open spec fn after_remove_each(ui: RegistryView, db: DatabaseView, uuids: Seq<Seq<char>>) -> (
    RegistryView,
    DatabaseView,
)
    decreases uuids.len(),
{
    if uuids.len() == 0 {
        (ui, db)
    } else {
        let (ui1, db1) = after_remove_rss(ui, db, uuids[0]);
        after_remove_each(ui1, db1, uuids.drop_first())
    }
}

/// Removes every subscription, each as [`remove_rss`] removes it, in the
/// order in which they are shown.
pub fn remove_all_rss(ui: &mut Registry, db: &mut Database)
    ensures
        (final(ui)@, final(db)@) == after_remove_each(
            old(ui)@,
            old(db)@,
            identities(old(ui)@.rss_lists),
        ),
        registry_wf(old(ui)@) ==> registry_wf(final(ui)@),
{
    let uuids = rss_uuids(ui);
    let ghost all = identities(ui@.rss_lists);
    let mut k: usize = 0;
    proof {
        assert(all.skip(0) =~= all);
    }
    while k < uuids.len()
        invariant
            k <= uuids.len(),
            uuids@.map_values(|s: String| s@) == all,
            after_remove_each(ui@, db@, all.skip(k as int)) == after_remove_each(
                old(ui)@,
                old(db)@,
                all,
            ),
            registry_wf(old(ui)@) ==> registry_wf(ui@),
        decreases uuids.len() - k,
    {
        proof {
            assert(all.skip(k as int).drop_first() =~= all.skip(k + 1));
            assert(all.skip(k as int)[0] == uuids@[k as int]@);
        }
        let _ = remove_rss(ui, db, uuids[k].as_str());
        k = k + 1;
    }
}

} // verus!
