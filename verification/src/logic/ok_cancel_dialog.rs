//! What a confirmed dialog sets off.

use crate::db::entry::after_delete_all;
use crate::db::{Database, DatabaseView};
use crate::logic::cache::remove_all_cache;
use crate::logic::entry::{
    remove_all_entrys, remove_all_favorite_entrys, remove_all_result, ui_after_remove_all,
    with_hashes,
};
use crate::logic::rss::{db_after_remove_rss, remove_rss, ui_after_remove_rss};
use crate::logic::store::{
    is_subscription, registry_wf, subscription_index, Registry, RegistryView, FAVORITE_UUID,
};
use crate::logic::ActionError;
use crate::util::list::found;
use crate::util::str::str_eq;
use vstd::prelude::*;

verus! {

/// What the user confirmed.
#[derive(Debug, PartialEq, Eq, Clone, Copy)]
pub enum DialogAction {
    RemoveAllEntrys,
    RemoveAllFavoriteEntrys,
    RemoveRss,
    RemoveAllCache,
    /// Sending a backup is for the caller to do.
    BackupToRemote,
    /// Fetching a backup is for the caller to do.
    RecoverFromRemote,
    /// The dialog was about nothing that is known here.
    Nothing,
}

/// What a dialog of a given kind confirms.
pub open spec fn spec_dialog_action(handle_type: Seq<char>) -> DialogAction {
    if handle_type == "remove-all-entrys"@ {
        DialogAction::RemoveAllEntrys
    } else if handle_type == "remove-all-favorite-entrys"@ {
        DialogAction::RemoveAllFavoriteEntrys
    } else if handle_type == "remove-rss"@ {
        DialogAction::RemoveRss
    } else if handle_type == "remove-all-cache"@ {
        DialogAction::RemoveAllCache
    } else if handle_type == "backup-to-remote"@ {
        DialogAction::BackupToRemote
    } else if handle_type == "recover-from-remote"@ {
        DialogAction::RecoverFromRemote
    } else {
        DialogAction::Nothing
    }
}

/// What a dialog of a given kind confirms.
pub fn dialog_action(handle_type: &str) -> (r: DialogAction)
    ensures
        r == spec_dialog_action(handle_type@),
{
    if str_eq(handle_type, "remove-all-entrys") {
        DialogAction::RemoveAllEntrys
    } else if str_eq(handle_type, "remove-all-favorite-entrys") {
        DialogAction::RemoveAllFavoriteEntrys
    } else if str_eq(handle_type, "remove-rss") {
        DialogAction::RemoveRss
    } else if str_eq(handle_type, "remove-all-cache") {
        DialogAction::RemoveAllCache
    } else if str_eq(handle_type, "backup-to-remote") {
        DialogAction::BackupToRemote
    } else if str_eq(handle_type, "recover-from-remote") {
        DialogAction::RecoverFromRemote
    } else {
        DialogAction::Nothing
    }
}

/// Carries out what the user confirmed in a dialog: removing every entry of
/// the subscription `handle_uuid`, removing every favorite, removing the
/// subscription `handle_uuid`, or forgetting the removed items. A backup is
/// neither sent nor fetched here: the kind of dialog is handed back, and the
/// caller does it. The result says what was confirmed and how it ended.
pub fn handle_ok_cancel_dialog(
    ui: &mut Registry,
    db: &mut Database,
    handle_type: &str,
    handle_uuid: &str,
) -> (r: (DialogAction, Result<(), ActionError>))
    ensures
        r.0 == spec_dialog_action(handle_type@),
        r.1 is Err ==> final(ui)@ == old(ui)@ && final(db)@ == old(db)@,
        match r.0 {
            DialogAction::RemoveAllEntrys => {
                &&& r.1 == remove_all_result(old(ui)@, old(db)@, handle_uuid@)
                &&& r.1 is Ok ==> final(ui)@ == ui_after_remove_all(old(ui)@, handle_uuid@)
                &&& r.1 is Ok ==> final(db)@ == (DatabaseView {
                    trash: with_hashes(
                        old(db)@.trash,
                        old(ui)@.rss_lists[subscription_index(
                            old(ui)@.rss_lists,
                            handle_uuid@,
                        )].entry,
                    ),
                    entry: after_delete_all(old(db)@.entry, handle_uuid@),
                    ..old(db)@
                })
            },
            DialogAction::RemoveAllFavoriteEntrys => {
                &&& r.1 is Ok <==> crate::db::entry::rows_of(old(db)@.entry, FAVORITE_UUID@) is Some
                &&& r.1 is Ok ==> final(ui)@ == (RegistryView {
                    rss_favorite_entrys: Seq::empty(),
                    ..old(ui)@
                })
                &&& final(db)@ == (DatabaseView {
                    entry: after_delete_all(old(db)@.entry, FAVORITE_UUID@),
                    ..old(db)@
                })
            },
            DialogAction::RemoveRss => {
                &&& r.1 is Ok <==> found(old(ui)@.rss_lists, is_subscription(handle_uuid@))
                    && old(db)@.rss is Some
                &&& r.1 is Ok ==> final(ui)@ == ui_after_remove_rss(old(ui)@, handle_uuid@)
                &&& r.1 is Ok ==> final(db)@ == db_after_remove_rss(
                    old(ui)@,
                    old(db)@,
                    handle_uuid@,
                )
            },
            DialogAction::RemoveAllCache => {
                &&& r.1 is Ok <==> old(db)@.trash is Some
                &&& final(ui)@ == old(ui)@
                &&& final(db)@ == (DatabaseView {
                    trash: match old(db)@.trash {
                        Some(_) => Some(Set::<Seq<char>>::empty()),
                        None => None,
                    },
                    ..old(db)@
                })
            },
            _ => r.1 is Ok && final(ui)@ == old(ui)@ && final(db)@ == old(db)@,
        },
        registry_wf(old(ui)@) ==> registry_wf(final(ui)@),
{
    let action = dialog_action(handle_type);
    let done = match action {
        DialogAction::RemoveAllEntrys => remove_all_entrys(ui, db, handle_uuid),
        DialogAction::RemoveAllFavoriteEntrys => remove_all_favorite_entrys(ui, db),
        DialogAction::RemoveRss => remove_rss(ui, db, handle_uuid),
        DialogAction::RemoveAllCache => match remove_all_cache(db) {
            Ok(()) => Ok(()),
            Err(e) => Err(ActionError::Store(e)),
        },
        _ => Ok(()),
    };
    (action, done)
}

} // verus!
