//! Syncing: starting the syncs of the subscriptions, reading what they
//! bring, and taking it in.

use crate::db::entry::{entry_views, RssEntry, RssEntryView};
use crate::db::rss::RssConfigView;
use crate::db::trash::in_trash;
use crate::db::{Database, DatabaseView};
use crate::logic::entry::{
    adopted, db_after_update_new_entrys, has_url, is_new, lemma_wf_after, net_new,
    ui_after_update_new_entrys, update_new_entrys,
};
use crate::logic::feed::{parse, parsed, reversed, spec_feed_format, ParseError, ParseErrorView};
use crate::logic::rss::{
    identities, notified, notify_ui_update_unread_counts, rss_uuids, sync_item_of, ErrorMsg,
    ErrorMsgView, SyncItem, SyncItemView,
};
use crate::logic::store::{
    find_subscription, is_subscription, registry_wf, subscription_index, subscription_wf,
    Registry, RegistryView, SubscriptionView,
};
use crate::util::crypto::{md5_hex, spec_md5_hex};
use crate::util::list::{found, lemma_first_index, lemma_found_iff, turned};
use crate::util::str::str_eq;
use crate::util::time::local_now;
use vstd::prelude::*;

verus! {

/// A subscription at the start of a sync: marked, and with the time of the
/// start.
pub open spec fn syncing(s: SubscriptionView, update_time: Seq<char>) -> SubscriptionView {
    SubscriptionView {
        is_update_failed: true,
        config: RssConfigView { update_time, ..s.config },
        ..s
    }
}

/// Whether the sync of a subscription can start: the subscription is there,
/// and no sync of it is under way.
pub open spec fn can_sync(ui: RegistryView, suuid: Seq<char>) -> bool {
    found(ui.rss_lists, is_subscription(suuid)) && !ui.rss_syncing.contains(suuid)
}

/// The registry at the start of the sync of a subscription, and as it is
/// where the sync cannot start.
pub open spec fn ui_at_sync_start(
    ui: RegistryView,
    suuid: Seq<char>,
    update_time: Seq<char>,
) -> RegistryView {
    let i = subscription_index(ui.rss_lists, suuid);
    if can_sync(ui, suuid) {
        RegistryView {
            rss_lists: ui.rss_lists.update(i, syncing(ui.rss_lists[i], update_time)),
            rss_update_time_flag: !ui.rss_update_time_flag,
            rss_syncing: ui.rss_syncing.insert(suuid),
            ..ui
        }
    } else {
        ui
    }
}

/// What the sync of a subscription needs to know, where it can start.
pub open spec fn sync_item_at_start(ui: RegistryView, suuid: Seq<char>) -> Option<SyncItemView> {
    if can_sync(ui, suuid) {
        Some(sync_item_of(ui.rss_lists[subscription_index(ui.rss_lists, suuid)].config))
    } else {
        None
    }
}

/// The view of an optional item.
pub open spec fn item_view(item: Option<SyncItem>) -> Option<SyncItemView> {
    match item {
        Some(i) => Some(i@),
        None => None,
    }
}

/// Starts the sync of a subscription at a given time: the subscription is
/// marked and gets the time, the change of time is announced, and what the
/// sync needs to know comes back. From now on the sync is under way, until
/// its result is taken in. Nothing changes and nothing comes back where no
/// subscription has the identity, and where a sync of the subscription is
/// under way already: no subscription is synced twice at a time.
pub fn mark_sync(ui: &mut Registry, suuid: &str, update_time: String) -> (r: Option<SyncItem>)
    ensures
        final(ui)@ == ui_at_sync_start(old(ui)@, suuid@, update_time@),
        item_view(r) == sync_item_at_start(old(ui)@, suuid@),
        registry_wf(old(ui)@) ==> registry_wf(final(ui)@),
{
    let i = find_subscription(ui, suuid);
    if i == ui.rss_lists.len() || ui.rss_syncing.contains(suuid) {
        return None;
    }
    ui.rss_lists[i].is_update_failed = true;
    ui.rss_lists[i].config.update_time = update_time;
    ui.rss_update_time_flag = !ui.rss_update_time_flag;
    ui.rss_syncing.insert(suuid.to_string());
    proof {
        let s = old(ui)@.rss_lists[i as int];
        assert(ui@.rss_lists =~= old(ui)@.rss_lists.update(i as int, syncing(s, update_time@)));
        if registry_wf(old(ui)@) {
            assert(subscription_wf(s));
            lemma_wf_after(old(ui)@, ui@, i as int);
        }
    }
    Some(SyncItem::from(&ui.rss_lists[i]))
}

/// Starts the sync of a subscription now. The time of day is read from the
/// clock, so the contract speaks of some time.
pub fn start_sync(ui: &mut Registry, suuid: &str) -> (r: Option<SyncItem>)
    ensures
        exists|update_time: Seq<char>|
            final(ui)@ == #[trigger] ui_at_sync_start(old(ui)@, suuid@, update_time),
        item_view(r) == sync_item_at_start(old(ui)@, suuid@),
        registry_wf(old(ui)@) ==> registry_wf(final(ui)@),
{
    let update_time = local_now("%H:%M:%S");
    mark_sync(ui, suuid, update_time)
}

/// A sync that is under way cannot start again: a second start, before the
/// result of the first is taken in, changes nothing and gives nothing to
/// ask for.
pub proof fn law_one_sync_at_a_time(
    ui: RegistryView,
    suuid: Seq<char>,
    first: Seq<char>,
    second: Seq<char>,
)
    ensures
        !can_sync(ui_at_sync_start(ui, suuid, first), suuid),
        ui_at_sync_start(ui_at_sync_start(ui, suuid, first), suuid, second) == ui_at_sync_start(
            ui,
            suuid,
            first,
        ),
        sync_item_at_start(ui_at_sync_start(ui, suuid, first), suuid) is None,
{
}

/// The registry at the start of the syncs of the subscriptions of given
/// identities, started one after the other at given times, and what these
/// syncs need to know: of each sync that could start, in the order of the
/// identities.
pub open spec fn after_sync_start_each(
    ui: RegistryView,
    uuids: Seq<Seq<char>>,
    times: Seq<Seq<char>>,
) -> (RegistryView, Seq<SyncItemView>)
    decreases uuids.len(),
{
    if uuids.len() == 0 {
        (ui, Seq::empty())
    } else {
        let rest = after_sync_start_each(
            ui_at_sync_start(ui, uuids[0], times[0]),
            uuids.drop_first(),
            times.drop_first(),
        );
        (
            rest.0,
            match sync_item_at_start(ui, uuids[0]) {
                Some(item) => seq![item] + rest.1,
                None => rest.1,
            },
        )
    }
}

/// The items of a list as plain values, in the list's order.
pub open spec fn sync_item_views(items: Seq<SyncItem>) -> Seq<SyncItemView> {
    items.map_values(|i: SyncItem| i@)
}

/// Starts the sync of every subscription, in the order in which they are
/// shown, and gives what each sync needs to know. The documents can then be
/// asked for all at once. A subscription whose sync is under way already is
/// passed over. The times of day are read from the clock, so the contract
/// speaks of some times.
pub fn sync_rss_all(ui: &mut Registry) -> (items: Vec<SyncItem>)
    ensures
        exists|times: Seq<Seq<char>>|
            (final(ui)@, sync_item_views(items@)) == #[trigger] after_sync_start_each(
                old(ui)@,
                identities(old(ui)@.rss_lists),
                times,
            ),
        registry_wf(old(ui)@) ==> registry_wf(final(ui)@),
{
    let uuids = rss_uuids(ui);
    let ghost all = identities(ui@.rss_lists);
    let ghost mut times: Seq<Seq<char>> = Seq::empty();
    let mut items: Vec<SyncItem> = Vec::new();
    let mut k: usize = 0;
    proof {
        assert(all.skip(0) =~= all);
        assert(sync_item_views(items@) =~= Seq::<SyncItemView>::empty());
        assert forall|later: Seq<Seq<char>>|
            #![trigger after_sync_start_each(ui@, all.skip(0), later)]
            {
                let rest = after_sync_start_each(ui@, all.skip(0), later);
                after_sync_start_each(old(ui)@, all, times + later) == (
                    rest.0,
                    sync_item_views(items@) + rest.1,
                )
            } by {
            assert(times + later =~= later);
            let rest = after_sync_start_each(ui@, all.skip(0), later);
            assert(sync_item_views(items@) + rest.1 =~= rest.1);
        }
    }
    while k < uuids.len()
        invariant
            k <= uuids.len(),
            uuids@.map_values(|s: String| s@) == all,
            times.len() == k,
            forall|later: Seq<Seq<char>>|
                #![trigger after_sync_start_each(ui@, all.skip(k as int), later)]
                {
                    let rest = after_sync_start_each(ui@, all.skip(k as int), later);
                    after_sync_start_each(old(ui)@, all, times + later) == (
                        rest.0,
                        sync_item_views(items@) + rest.1,
                    )
                },
            registry_wf(old(ui)@) ==> registry_wf(ui@),
        decreases uuids.len() - k,
    {
        let ghost before = ui@;
        let ghost got = sync_item_views(items@);
        let ghost uuid = uuids@[k as int]@;
        proof {
            assert(uuid == all[k as int]);
        }
        let item = start_sync(ui, uuids[k].as_str());
        let ghost t = choose|t: Seq<char>| ui@ == #[trigger] ui_at_sync_start(before, uuid, t);
        match item {
            Some(item) => {
                proof {
                    items@.lemma_push_map_commute(|i: SyncItem| i@, item);
                }
                items.push(item);
            },
            None => {},
        }
        proof {
            let next = times.push(t);
            let now = sync_item_views(items@);
            assert forall|later: Seq<Seq<char>>|
                #![trigger after_sync_start_each(ui@, all.skip(k + 1), later)]
                {
                    let rest = after_sync_start_each(ui@, all.skip(k + 1), later);
                    after_sync_start_each(old(ui)@, all, next + later) == (
                        rest.0,
                        now + rest.1,
                    )
                } by {
                let with_t = seq![t] + later;
                assert(all.skip(k as int).drop_first() =~= all.skip(k + 1));
                assert(all.skip(k as int)[0] == uuid);
                assert(with_t.drop_first() =~= later);
                assert(with_t[0] == t);
                assert(times + with_t =~= next + later);
                let rest = after_sync_start_each(ui@, all.skip(k + 1), later);
                let whole = after_sync_start_each(before, all.skip(k as int), with_t);
                assert(whole.0 == rest.0);
                match sync_item_at_start(before, uuid) {
                    Some(i) => {
                        assert(whole.1 == seq![i] + rest.1);
                        assert(now == got.push(i));
                        assert(got + (seq![i] + rest.1) =~= now + rest.1);
                    },
                    None => {
                        assert(now == got);
                    },
                }
            }
            times = next;
        }
        k = k + 1;
    }
    proof {
        let none = Seq::<Seq<char>>::empty();
        assert(all.skip(uuids@.len() as int) =~= Seq::<Seq<char>>::empty());
        let rest = after_sync_start_each(ui@, all.skip(k as int), none);
        assert(rest == (ui@, Seq::<SyncItemView>::empty()));
        assert(times + none =~= times);
        assert(sync_item_views(items@) + rest.1 =~= sync_item_views(items@));
        assert((ui@, sync_item_views(items@)) == after_sync_start_each(old(ui)@, all, times));
    }
    items
}

/// Why a sync of one subscription failed.
#[derive(Debug, PartialEq, Eq)]
pub enum FetchError {
    /// The document could not be had: no connection, a timeout, or a status
    /// other than success. The text says which.
    Network(String),
    /// The document was had and could not be read.
    Parse(ParseError),
}

/// Why a sync failed, as plain values.
pub enum FetchErrorView {
    Network(Seq<char>),
    Parse(ParseErrorView),
}

impl View for FetchError {
    type V = FetchErrorView;

    open spec fn view(&self) -> FetchErrorView {
        match self {
            FetchError::Network(d) => FetchErrorView::Network(d@),
            FetchError::Parse(e) => FetchErrorView::Parse(e@),
        }
    }
}

/// The words in which a failed sync is reported.
pub open spec fn spec_message(e: FetchErrorView) -> Seq<char> {
    match e {
        FetchErrorView::Network(d) => d,
        FetchErrorView::Parse(ParseErrorView::Rss(d)) => "failed to parse rss xml: "@ + d,
        FetchErrorView::Parse(ParseErrorView::Atom(d)) => "failed to parse atom xml: "@ + d,
        FetchErrorView::Parse(ParseErrorView::UnrecognizedFormat) => "unrecognized feed format"@,
    }
}

impl FetchError {
    /// The words in which the failure is reported.
    pub fn message(&self) -> (r: String)
        ensures
            r@ == spec_message(self@),
    {
        match self {
            FetchError::Network(d) => d.clone(),
            FetchError::Parse(ParseError::Rss(d)) => {
                let mut r = "failed to parse rss xml: ".to_string();
                r.append(d.as_str());
                r
            },
            FetchError::Parse(ParseError::Atom(d)) => {
                let mut r = "failed to parse atom xml: ".to_string();
                r.append(d.as_str());
                r
            },
            FetchError::Parse(ParseError::UnrecognizedFormat) => {
                "unrecognized feed format".to_string()
            },
        }
    }
}

/// Whether the address of an entry is not registered as removed.
pub open spec fn is_kept(trash: Option<Set<Seq<char>>>) -> spec_fn(RssEntryView) -> bool {
    |e: RssEntryView| !in_trash(trash, spec_md5_hex(e.url))
}

/// The entries whose address is not registered as removed, in their order.
pub open spec fn kept(trash: Option<Set<Seq<char>>>, entries: Seq<RssEntryView>) -> Seq<
    RssEntryView,
> {
    entries.filter(is_kept(trash))
}

/// Drops the entries whose address was removed before: those for which the
/// registry of removed items holds the hash of the address. The others keep
/// their order. The registry is only read.
pub fn filter(entries: Vec<RssEntry>, db: &Database) -> (r: Vec<RssEntry>)
    ensures
        entry_views(r@) == kept(db@.trash, entry_views(entries@)),
{
    let ghost all = entry_views(entries@);
    let ghost keep = is_kept(db@.trash);
    let mut rest = reversed(entries);
    let mut unique_entrys: Vec<RssEntry> = Vec::new();
    proof {
        assert(entry_views(rest@).len() == rest@.len());
        assert forall|k: int| 0 <= k < rest@.len() implies (#[trigger] rest@[k])@ == all[all.len()
            - 1 - k] by {
            assert(entry_views(rest@)[k] == rest@[k]@);
        }
        assert(entry_views(unique_entrys@) =~= all.take(0).filter(keep));
    }
    while rest.len() > 0
        invariant
            rest@.len() <= all.len(),
            keep == is_kept(db@.trash),
            forall|k: int|
                0 <= k < rest@.len() ==> (#[trigger] rest@[k])@ == all[all.len() - 1 - k],
            entry_views(unique_entrys@) == all.take(all.len() - rest@.len()).filter(keep),
        decreases rest.len(),
    {
        let ghost done = all.len() - rest@.len();
        match rest.pop() {
            Some(entry) => {
                proof {
                    assert(entry@ == all[done]);
                    assert(all.take(done + 1) =~= all.take(done).push(all[done]));
                    all.take(done).lemma_filter_push(all[done], keep);
                    unique_entrys@.lemma_push_map_commute(|e: RssEntry| e@, entry);
                }
                let md5 = md5_hex(entry.url.as_str());
                if crate::db::trash::is_exist(db, md5.as_str()).is_err() {
                    unique_entrys.push(entry);
                }
            },
            None => {},
        }
    }
    assert(all.take(all.len() as int) =~= all);
    unique_entrys
}

/// The bytes of a response, or the words of the failure.
pub open spec fn response_view(response: Result<Vec<u8>, String>) -> Result<Seq<u8>, Seq<char>> {
    match response {
        Ok(content) => Ok(content@),
        Err(detail) => Err(detail@),
    }
}

/// What a sync of one subscription gives, from what the request for its
/// document gave: a network failure as it is; else the entries of the
/// document, the last of it first, without those whose address was removed
/// before; or why the document could not be read.
pub open spec fn fetched(
    trash: Option<Set<Seq<char>>>,
    item: SyncItemView,
    response: Result<Seq<u8>, Seq<char>>,
) -> Result<Seq<RssEntryView>, FetchErrorView> {
    match response {
        Err(detail) => Err(FetchErrorView::Network(detail)),
        Ok(content) => match parsed(item.suuid, spec_feed_format(item.feed_format), content) {
            Ok(entries) => Ok(kept(trash, entries)),
            Err(e) => Err(FetchErrorView::Parse(e)),
        },
    }
}

/// The candidates that a sync of one subscription found. `response` is what
/// the request for the subscription's document gave: its bytes, or the words
/// of a failure of the network. The document is read in the format that the
/// subscription names, and entries whose address the user removed before
/// are left out.
pub fn fetch_entrys(db: &Database, sync_item: &SyncItem, response: Result<Vec<u8>, String>) -> (r:
    Result<Vec<RssEntry>, FetchError>)
    ensures
        match r {
            Ok(v) => fetched(db@.trash, sync_item@, response_view(response)) == Ok::<
                Seq<RssEntryView>,
                FetchErrorView,
            >(entry_views(v@)),
            Err(e) => fetched(db@.trash, sync_item@, response_view(response)) == Err::<
                Seq<RssEntryView>,
                FetchErrorView,
            >(e@),
        },
{
    let content = match response {
        Ok(content) => content,
        Err(detail) => {
            return Err(FetchError::Network(detail));
        },
    };
    let entrys = match parse(
        sync_item.suuid.as_str(),
        sync_item.feed_format.as_str(),
        content.as_slice(),
    ) {
        Ok(entrys) => entrys,
        Err(e) => {
            return Err(FetchError::Parse(e));
        },
    };
    Ok(filter(entrys, db))
}

/// What the request for the document of one subscription gave.
pub struct FetchResult {
    pub item: SyncItem,
    /// The bytes of the document, or the words of a failure of the network.
    pub response: Result<Vec<u8>, String>,
}

/// What a request gave, as plain values.
pub struct FetchResultView {
    pub item: SyncItemView,
    pub response: Result<Seq<u8>, Seq<char>>,
}

impl View for FetchResult {
    type V = FetchResultView;

    open spec fn view(&self) -> FetchResultView {
        FetchResultView { item: self.item@, response: response_view(self.response) }
    }
}

/// The results of a list as plain values, in the list's order.
pub open spec fn result_views(results: Seq<FetchResult>) -> Seq<FetchResultView> {
    results.map_values(|r: FetchResult| r@)
}

/// The report of a sync that failed, and nothing for one that went well.
pub open spec fn sync_error(trash: Option<Set<Seq<char>>>, result: FetchResultView) -> Option<
    ErrorMsgView,
> {
    match fetched(trash, result.item, result.response) {
        Ok(_) => None,
        Err(e) => Some(ErrorMsgView { url: result.item.url, msg: spec_message(e) }),
    }
}

/// The registry after the result of one sync was taken in, the new entries
/// under given fresh identities. The sync of the subscription is no longer
/// under way. A sync that failed changes nothing else; one that went well
/// for the subscription that is shown is announced.
pub open spec fn ui_after_sync_one(
    ui: RegistryView,
    trash: Option<Set<Seq<char>>>,
    result: FetchResultView,
    uuids: Seq<Seq<char>>,
) -> RegistryView {
    let done = RegistryView { rss_syncing: ui.rss_syncing.remove(result.item.suuid), ..ui };
    match fetched(trash, result.item, result.response) {
        Ok(entries) => {
            let merged = ui_after_update_new_entrys(done, result.item.suuid, entries, uuids);
            if result.item.suuid == ui.current_rss_uuid {
                notified(merged)
            } else {
                merged
            }
        },
        Err(_) => done,
    }
}

/// The store after the result of one sync was taken in, the new entries
/// under given fresh identities.
pub open spec fn db_after_sync_one(
    ui: RegistryView,
    db: DatabaseView,
    result: FetchResultView,
    uuids: Seq<Seq<char>>,
) -> DatabaseView {
    match fetched(db.trash, result.item, result.response) {
        Ok(entries) => db_after_update_new_entrys(ui, db, result.item.suuid, entries, uuids),
        Err(_) => db,
    }
}

/// Takes in the result of the sync of one subscription, as soon as it is
/// there and whatever became of the syncs of the others. A document that was
/// had and read gives its candidates to the subscription; a failure is
/// reported with the address that was asked. Either way the sync of the
/// subscription is over, and another one can start. Which fresh
/// identities the new entries get is left to chance, so the contract speaks
/// of some list of them.
pub fn sync_one(ui: &mut Registry, db: &mut Database, result: FetchResult) -> (r: Option<ErrorMsg>)
    ensures
        match r {
            Some(msg) => sync_error(old(db)@.trash, result@) == Some(msg@),
            None => sync_error(old(db)@.trash, result@) is None,
        },
        exists|uuids: Seq<Seq<char>>|
            {
                &&& final(ui)@ == ui_after_sync_one(old(ui)@, old(db)@.trash, result@, uuids)
                &&& final(db)@ == db_after_sync_one(old(ui)@, old(db)@, result@, uuids)
            },
        registry_wf(old(ui)@) ==> registry_wf(final(ui)@),
{
    let FetchResult { item, response } = result;
    ui.rss_syncing.remove(item.suuid.as_str());
    let ghost done = ui@;
    match fetch_entrys(db, &item, response) {
        Ok(entrys) => {
            let ghost found_entries = entry_views(entrys@);
            update_new_entrys(ui, db, item.suuid.as_str(), entrys);
            let ghost uuids = choose|uuids: Seq<Seq<char>>|
                {
                    &&& forall|k: int| 0 <= k < uuids.len() ==> (#[trigger] uuids[k]).len() == 36
                    &&& ui@ == ui_after_update_new_entrys(
                        done,
                        item@.suuid,
                        found_entries,
                        uuids,
                    )
                    &&& db@ == db_after_update_new_entrys(
                        old(ui)@,
                        old(db)@,
                        item@.suuid,
                        found_entries,
                        uuids,
                    )
                };
            if str_eq(item.suuid.as_str(), ui.current_rss_uuid.as_str()) {
                notify_ui_update_unread_counts(ui);
            }
            proof {
                assert(ui@ == ui_after_sync_one(old(ui)@, old(db)@.trash, result@, uuids));
                assert(db@ == db_after_sync_one(old(ui)@, old(db)@, result@, uuids));
            }
            None
        },
        Err(e) => {
            proof {
                let none = Seq::<Seq<char>>::empty();
                assert(ui@ == ui_after_sync_one(old(ui)@, old(db)@.trash, result@, none));
                assert(db@ == db_after_sync_one(old(ui)@, old(db)@, result@, none));
            }
            Some(ErrorMsg { url: item.url, msg: e.message() })
        },
    }
}

/// The reports of the syncs that failed, in the order of the results.
pub open spec fn sync_errors(trash: Option<Set<Seq<char>>>, results: Seq<FetchResultView>) -> Seq<
    ErrorMsgView,
>
    decreases results.len(),
{
    if results.len() == 0 {
        Seq::empty()
    } else {
        let before = sync_errors(trash, results.drop_last());
        match sync_error(trash, results.last()) {
            Some(msg) => before.push(msg),
            None => before,
        }
    }
}

/// The registry and the store after the results of a list were taken in one
/// after the other, the new entries of each under the fresh identities at
/// its position in `uuids`.
pub open spec fn after_sync(
    ui: RegistryView,
    db: DatabaseView,
    results: Seq<FetchResultView>,
    uuids: Seq<Seq<Seq<char>>>,
) -> (RegistryView, DatabaseView)
    decreases results.len(),
{
    if results.len() == 0 {
        (ui, db)
    } else {
        let (ui1, db1) = after_sync(ui, db, results.drop_last(), uuids.drop_last());
        (
            ui_after_sync_one(ui1, db1.trash, results.last(), uuids.last()),
            db_after_sync_one(ui1, db1, results.last(), uuids.last()),
        )
    }
}

/// The messages of a list as plain values, in the list's order.
pub open spec fn message_views(msgs: Seq<ErrorMsg>) -> Seq<ErrorMsgView> {
    msgs.map_values(|m: ErrorMsg| m@)
}

/// Taking results in never touches the registry of removed items.
pub proof fn lemma_after_sync_keeps_trash(
    ui: RegistryView,
    db: DatabaseView,
    results: Seq<FetchResultView>,
    uuids: Seq<Seq<Seq<char>>>,
)
    ensures
        after_sync(ui, db, results, uuids).1.trash == db.trash,
    decreases results.len(),
{
    if results.len() > 0 {
        lemma_after_sync_keeps_trash(ui, db, results.drop_last(), uuids.drop_last());
    }
}

/// Takes in the results of the syncs of several subscriptions, one after the
/// other. A sync that failed is reported with the address that was asked and
/// keeps no other result from being taken in: the list of reports holds one
/// report for each failure, in the order of the results, and every result
/// that is no failure is merged into its subscription.
pub fn sync_rss(ui: &mut Registry, db: &mut Database, results: Vec<FetchResult>) -> (error_msgs:
    Vec<ErrorMsg>)
    ensures
        message_views(error_msgs@) == sync_errors(old(db)@.trash, result_views(results@)),
        exists|uuids: Seq<Seq<Seq<char>>>|
            #![auto]
            uuids.len() == results@.len() && (final(ui)@, final(db)@) == after_sync(
                old(ui)@,
                old(db)@,
                result_views(results@),
                uuids,
            ),
        registry_wf(old(ui)@) ==> registry_wf(final(ui)@),
{
    let ghost all = result_views(results@);
    let ghost mut uuids: Seq<Seq<Seq<char>>> = Seq::empty();
    let mut error_msgs: Vec<ErrorMsg> = Vec::new();
    let mut rest = turned(results);
    proof {
        assert forall|k: int| 0 <= k < rest@.len() implies (#[trigger] rest@[k])@ == all[all.len()
            - 1 - k] by {
            assert(results@[all.len() - 1 - k]@ == all[all.len() - 1 - k]);
        }
    }
    proof {
        assert(all.take(0) =~= Seq::<FetchResultView>::empty());
        assert(message_views(error_msgs@) =~= Seq::<ErrorMsgView>::empty());
    }
    while rest.len() > 0
        invariant
            rest@.len() <= all.len(),
            forall|k: int|
                0 <= k < rest@.len() ==> (#[trigger] rest@[k])@ == all[all.len() - 1 - k],
            uuids.len() == all.len() - rest@.len(),
            message_views(error_msgs@) == sync_errors(
                old(db)@.trash,
                all.take(all.len() - rest@.len()),
            ),
            (ui@, db@) == after_sync(
                old(ui)@,
                old(db)@,
                all.take(all.len() - rest@.len()),
                uuids,
            ),
            registry_wf(old(ui)@) ==> registry_wf(ui@),
        decreases rest.len(),
    {
        let ghost done = all.len() - rest@.len();
        let ghost ui0 = ui@;
        let ghost db0 = db@;
        match rest.pop() {
            Some(result) => {
                proof {
                    assert(result@ == all[done]);
                    assert(all.take(done + 1).drop_last() =~= all.take(done));
                    assert(all.take(done + 1).last() == all[done]);
                    lemma_after_sync_keeps_trash(old(ui)@, old(db)@, all.take(done), uuids);
                }
                let report = sync_one(ui, db, result);
                proof {
                    let ids = choose|ids: Seq<Seq<char>>|
                        {
                            &&& ui@ == ui_after_sync_one(ui0, db0.trash, result@, ids)
                            &&& db@ == db_after_sync_one(ui0, db0, result@, ids)
                        };
                    let next = uuids.push(ids);
                    assert(next.drop_last() =~= uuids);
                    uuids = next;
                }
                match report {
                    Some(msg) => {
                        proof {
                            error_msgs@.lemma_push_map_commute(|m: ErrorMsg| m@, msg);
                        }
                        error_msgs.push(msg);
                    },
                    None => {},
                }
            },
            None => {},
        }
    }
    proof {
        assert(all.take(all.len() as int) =~= all);
    }
    error_msgs
}

/// An address that is registered as removed is the address of none of the
/// entries that are kept.
pub proof fn lemma_kept_lacks_removed(
    trash: Option<Set<Seq<char>>>,
    entries: Seq<RssEntryView>,
    url: Seq<char>,
)
    requires
        in_trash(trash, spec_md5_hex(url)),
    ensures
        !found(kept(trash, entries), has_url(url)),
{
    let left = kept(trash, entries);
    lemma_found_iff(left, has_url(url));
    if found(left, has_url(url)) {
        let k = choose|k: int| 0 <= k < left.len() && has_url(url)(#[trigger] left[k]);
        entries.lemma_filter_pred(is_kept(trash), k);
    }
}

/// Once the hash of an address is in the registry of removed items, no sync
/// brings an entry of that address back: whatever document the sync reads,
/// and whatever identities are at hand, a subscription holds an entry of
/// the address after the sync only where it held one before.
pub proof fn law_removed_items_stay_out(
    ui: RegistryView,
    trash: Option<Set<Seq<char>>>,
    result: FetchResultView,
    uuids: Seq<Seq<char>>,
    url: Seq<char>,
    i: int,
)
    requires
        in_trash(trash, spec_md5_hex(url)),
        0 <= i < ui.rss_lists.len(),
    ensures
        ui_after_sync_one(ui, trash, result, uuids).rss_lists.len() == ui.rss_lists.len(),
        found(ui_after_sync_one(ui, trash, result, uuids).rss_lists[i].entry, has_url(url))
            ==> found(ui.rss_lists[i].entry, has_url(url)),
{
    match fetched(trash, result.item, result.response) {
        Ok(entries) => {
            let suuid = result.item.suuid;
            let at = subscription_index(ui.rss_lists, suuid);
            lemma_first_index(ui.rss_lists, is_subscription(suuid));
            let content = result.response->Ok_0;
            let read = parsed(suuid, spec_feed_format(result.item.feed_format), content)->Ok_0;
            assert(entries == kept(trash, read));
            lemma_kept_lacks_removed(trash, read, url);
            if at == i {
                let s = ui.rss_lists[i];
                let fresh = net_new(s.entry, entries);
                let taken = adopted(suuid, fresh, uuids);
                let after = taken.reverse() + s.entry;
                lemma_found_iff(after, has_url(url));
                lemma_found_iff(s.entry, has_url(url));
                lemma_found_iff(entries, has_url(url));
                if found(after, has_url(url)) {
                    let k = choose|k: int| 0 <= k < after.len() && has_url(url)(#[trigger] after[k]);
                    if k < taken.len() {
                        let w = taken.len() - 1 - k;
                        assert(taken.reverse()[k] == taken[w]);
                        assert(taken[w].url == fresh[w].url);
                        entries.lemma_filter_contains_rev(is_new(s.entry), fresh[w]);
                        assert(entries.contains(fresh[w]));
                        let v = choose|v: int| 0 <= v < entries.len() && entries[v] == fresh[w];
                        assert(has_url(url)(entries[v]));
                    } else {
                        assert(after[k] == s.entry[k - taken.len()]);
                    }
                }
            }
        },
        Err(_) => {},
    }
}

} // verus!
