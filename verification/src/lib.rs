//! Core of a feed reader: parsing RSS and Atom documents into one entry
//! model, keeping deliberately removed items out, merging fetched batches
//! into the subscriptions held in memory and in the entry store, and keeping
//! the unread counters in step with the entries.

use crate::config::data::Sync;
use crate::db::entry::after_new;
use crate::db::{Database, DatabaseView};
use crate::logic::entry::shown_rows;
use crate::logic::rss::ui_after_init_rss;
use crate::logic::store::{registry_wf, Registry, RegistryView, FAVORITE_UUID};
use crate::util::time::utc_now;
use vstd::prelude::*;

pub mod config;
pub mod db;
pub mod logic;
pub mod util;

verus! {

/// Takes what the store holds into memory, once the store is ready. The
/// result says whether every subscription is to be synced right away.
pub fn ui_after(ui: &mut Registry, db: &mut Database, is_start_sync: bool) -> (sync: bool)
    ensures
        final(db)@ == (DatabaseView {
            entry: after_new(old(db)@.entry, FAVORITE_UUID@),
            ..old(db)@
        }),
        final(ui)@ == ui_after_init_rss(
            RegistryView {
                rss_favorite_entrys: shown_rows(final(db)@.entry, FAVORITE_UUID@),
                ..old(ui)@
            },
            final(db)@,
        ),
        sync == (is_start_sync && old(db)@.rss is Some),
        registry_wf(final(ui)@),
{
    logic::init(ui, db, is_start_sync)
}

/// The seconds between two syncs that the timer starts: the minutes that
/// are configured, and one minute where less is configured.
pub open spec fn interval_seconds(sync_interval: i64) -> int {
    if sync_interval > 1 {
        sync_interval * 60
    } else {
        60
    }
}

/// Whether a sync of every subscription is due: the timer is switched on,
/// and the interval has passed since the timer was last set.
pub open spec fn is_sync_due(last: i64, now: i64, config: Sync) -> bool {
    config.is_auto_sync && last + interval_seconds(config.sync_interval) <= now
}

/// One tick of the timer that syncs the subscriptions. `last` is the second
/// for which the timer was last set, `now` the second of the tick. The
/// result says whether a sync of every subscription is to be started now.
/// The timer is set anew where it fires, and where it is switched off, so
/// that an interval starts when it is switched on again.
pub fn sync_rss_timer(last: &mut i64, now: i64, config: &Sync) -> (fire: bool)
    ensures
        fire == is_sync_due(*old(last), now, *config),
        *final(last) == if fire || !config.is_auto_sync {
            now
        } else {
            *old(last)
        },
{
    if config.is_auto_sync {
        let minutes: i128 = if config.sync_interval > 1 {
            config.sync_interval as i128
        } else {
            1
        };
        if *last as i128 + minutes * 60 <= now as i128 {
            *last = now;
            true
        } else {
            false
        }
    } else {
        *last = now;
        false
    }
}

/// One tick of the timer at this moment. The second of the tick is read
/// from the clock, so the contract speaks of some second.
pub fn sync_rss_tick(last: &mut i64, config: &Sync) -> (fire: bool)
    ensures
        exists|now: i64|
            {
                &&& fire == #[trigger] is_sync_due(*old(last), now, *config)
                &&& *final(last) == if fire || !config.is_auto_sync {
                    now
                } else {
                    *old(last)
                }
            },
{
    let now = utc_now();
    let fire = sync_rss_timer(last, now, config);
    assert(fire == is_sync_due(*old(last), now, *config));
    fire
}

} // verus!
