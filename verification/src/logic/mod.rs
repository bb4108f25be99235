use crate::db::entry::after_new;
use crate::db::{Database, DatabaseView, DbError};
use crate::logic::entry::shown_rows;
use crate::logic::rss::ui_after_init_rss;
use crate::logic::store::{registry_wf, Registry, RegistryView, FAVORITE_UUID};
use vstd::prelude::*;

pub mod cache;
pub mod entry;
pub mod feed;
pub mod find;
pub mod ok_cancel_dialog;
pub mod rss;
pub mod setting;
pub mod store;
pub mod sync;

pub use find::FindEntry;

verus! {

/// Why an action left everything as it was.
#[derive(Debug, PartialEq, Eq, Clone, Copy)]
pub enum ActionError {
    /// No subscription has the identity that the action names.
    NoSuchSubscription,
    /// The subscription holds no entry with the identity that the action
    /// names.
    NoSuchEntry,
    /// The entry is among the favorites already.
    AlreadyFavorited,
    /// Another subscription reads the same address.
    DuplicateUrl,
    /// The store refused to take the change.
    Store(DbError),
}

/// What is sent to the server of the application: who sends it, what kind
/// of thing it is, and the thing itself.
#[derive(Debug, PartialEq, Eq)]
pub struct ReqData {
    pub appid: String,
    pub kind: String,
    pub data: String,
}

impl ReqData {
    /// An empty request of a given installation.
    pub fn new(appid: String) -> (r: ReqData)
        ensures
            r.appid@ == appid@,
            r.kind@ == Seq::<char>::empty(),
            r.data@ == Seq::<char>::empty(),
    {
        ReqData { appid, kind: String::new(), data: String::new() }
    }
}

/// Makes everything ready for use, and in this order: the favorites are
/// taken from the store, then the subscriptions with their entries. The
/// result says whether every subscription is to be synced right away.
pub fn init(ui: &mut Registry, db: &mut Database, is_start_sync: bool) -> (sync: bool)
    ensures
        final(db)@ == (DatabaseView {
            entry: after_new(old(db)@.entry, FAVORITE_UUID@),
            ..old(db)@
        }),
        final(ui)@ == ui_after_init_rss(
            RegistryView {
                rss_favorite_entrys: shown_rows(final(db)@.entry, FAVORITE_UUID@),
                ..old(ui)@
            },
            final(db)@,
        ),
        sync == (is_start_sync && old(db)@.rss is Some),
        registry_wf(final(ui)@),
{
    entry::init(ui, db);
    rss::init(ui, db, is_start_sync)
}

} // verus!
