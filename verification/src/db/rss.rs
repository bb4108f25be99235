//! Subscription settings, and the table that holds them.

use crate::db::{Database, DatabaseView, DbError};
use crate::util::list::{first_index, found, lemma_first_index, lemma_first_index_is};
use crate::util::str::str_eq;
use vstd::prelude::*;

verus! {

/// The format that a subscription is read as, where it names none.
pub fn feed_format_default() -> (r: String)
    ensures
        r@ == "AUTO"@,
{
    "AUTO".to_string()
}

/// The settings of one subscription.
#[derive(Debug, PartialEq, Eq)]
pub struct RssConfig {
    pub uuid: String,
    pub name: String,
    pub url: String,
    pub icon_index: i32,
    pub use_http_proxy: bool,
    pub use_socks5_proxy: bool,
    pub is_favorite: bool,
    pub update_time: String,
    /// `auto`, `rss` or `atom`, in any case of letters.
    pub feed_format: String,
}

/// What the settings of a subscription hold, as plain values.
pub struct RssConfigView {
    pub uuid: Seq<char>,
    pub name: Seq<char>,
    pub url: Seq<char>,
    pub icon_index: i32,
    pub use_http_proxy: bool,
    pub use_socks5_proxy: bool,
    pub is_favorite: bool,
    pub update_time: Seq<char>,
    pub feed_format: Seq<char>,
}

impl View for RssConfig {
    type V = RssConfigView;

    open spec fn view(&self) -> RssConfigView {
        RssConfigView {
            uuid: self.uuid@,
            name: self.name@,
            url: self.url@,
            icon_index: self.icon_index,
            use_http_proxy: self.use_http_proxy,
            use_socks5_proxy: self.use_socks5_proxy,
            is_favorite: self.is_favorite,
            update_time: self.update_time@,
            feed_format: self.feed_format@,
        }
    }
}

impl Clone for RssConfig {
    fn clone(&self) -> (r: Self)
        ensures
            r@ == self@,
    {
        RssConfig {
            uuid: self.uuid.clone(),
            name: self.name.clone(),
            url: self.url.clone(),
            icon_index: self.icon_index,
            use_http_proxy: self.use_http_proxy,
            use_socks5_proxy: self.use_socks5_proxy,
            is_favorite: self.is_favorite,
            update_time: self.update_time.clone(),
            feed_format: self.feed_format.clone(),
        }
    }
}

/// The settings of a list as plain values, in the list's order.
pub open spec fn config_views(configs: Seq<RssConfig>) -> Seq<RssConfigView> {
    configs.map_values(|c: RssConfig| c@)
}

/// The settings with another identity.
pub open spec fn with_uuid(c: RssConfigView, uuid: Seq<char>) -> RssConfigView {
    RssConfigView { uuid, ..c }
}

/// Whether settings belong to the subscription with a given identity.
pub open spec fn is_config(uuid: Seq<char>) -> spec_fn(RssConfigView) -> bool {
    |c: RssConfigView| c.uuid == uuid
}

/// Position of the settings with a given identity in a list, or the length
/// of the list where it holds none.
pub open spec fn config_index(configs: Seq<RssConfigView>, uuid: Seq<char>) -> int {
    first_index(configs, is_config(uuid))
}

/// No two rows have one identity.
pub open spec fn configs_wf(configs: Seq<RssConfigView>) -> bool {
    forall|i: int, j: int|
        0 <= i < j < configs.len() ==> (#[trigger] configs[i]).uuid != (#[trigger] configs[j]).uuid
}

/// How an insertion ends: refused without the table, and where a row has
/// the identity already.
pub open spec fn insert_result(rss: Option<Seq<RssConfigView>>, c: RssConfigView) -> Result<
    (),
    DbError,
> {
    match rss {
        None => Err(DbError::NoSuchTable),
        Some(rows) => if found(rows, is_config(c.uuid)) {
            Err(DbError::Duplicate)
        } else {
            Ok(())
        },
    }
}

/// What an insertion leaves: the settings behind the rows where they are
/// accepted, and the table as it was where they are refused.
pub open spec fn after_insert(rss: Option<Seq<RssConfigView>>, c: RssConfigView) -> Option<
    Seq<RssConfigView>,
> {
    match rss {
        Some(rows) => if found(rows, is_config(c.uuid)) {
            rss
        } else {
            Some(rows.push(c))
        },
        None => None,
    }
}

/// How an operation on the row with a given identity ends: refused without
/// the table, and where no row has the identity.
pub open spec fn row_result(rss: Option<Seq<RssConfigView>>, uuid: Seq<char>) -> Result<
    (),
    DbError,
> {
    match rss {
        None => Err(DbError::NoSuchTable),
        Some(rows) => if found(rows, is_config(uuid)) {
            Ok(())
        } else {
            Err(DbError::NotFound)
        },
    }
}

/// What a deletion leaves: the table without the first row of the given
/// identity, and as it was where no row has it.
pub open spec fn after_delete(rss: Option<Seq<RssConfigView>>, uuid: Seq<char>) -> Option<
    Seq<RssConfigView>,
> {
    match rss {
        Some(rows) => if found(rows, is_config(uuid)) {
            Some(rows.remove(config_index(rows, uuid)))
        } else {
            rss
        },
        None => None,
    }
}

/// What an update leaves: the first row of the given identity replaced by
/// the settings under that identity, and the table as it was where no row
/// has it.
pub open spec fn after_update(
    rss: Option<Seq<RssConfigView>>,
    uuid: Seq<char>,
    c: RssConfigView,
) -> Option<Seq<RssConfigView>> {
    match rss {
        Some(rows) => if found(rows, is_config(uuid)) {
            Some(rows.update(config_index(rows, uuid), with_uuid(c, uuid)))
        } else {
            rss
        },
        None => None,
    }
}

/// Position of the first settings with a given identity, or the length of
/// the list.
pub fn find_config(configs: &Vec<RssConfig>, uuid: &str) -> (i: usize)
    ensures
        i == config_index(config_views(configs@), uuid@),
        i <= configs.len(),
{
    let mut i: usize = 0;
    while i < configs.len()
        invariant
            i <= configs.len(),
            forall|k: int| 0 <= k < i ==> configs@[k]@.uuid != uuid@,
        decreases configs.len() - i,
    {
        if str_eq(configs[i].uuid.as_str(), uuid) {
            proof {
                lemma_first_index_is(config_views(configs@), is_config(uuid@), i as int);
            }
            return i;
        }
        i = i + 1;
    }
    proof {
        lemma_first_index_is(config_views(configs@), is_config(uuid@), i as int);
    }
    i
}

/// A copy of a list of settings.
pub fn clone_configs(configs: &Vec<RssConfig>) -> (r: Vec<RssConfig>)
    ensures
        config_views(r@) == config_views(configs@),
{
    let mut r: Vec<RssConfig> = Vec::new();
    let mut i: usize = 0;
    while i < configs.len()
        invariant
            i <= configs.len(),
            r@.len() == i,
            forall|k: int| 0 <= k < i ==> r@[k]@ == configs@[k]@,
        decreases configs.len() - i,
    {
        r.push(configs[i].clone());
        i = i + 1;
    }
    assert(config_views(r@) =~= config_views(configs@));
    r
}

/// Creates the table of subscriptions where it is absent; one that exists
/// stays as it is.
pub fn new(db: &mut Database) -> (r: Result<(), DbError>)
    ensures
        r == Ok::<(), DbError>(()),
        final(db)@ == (DatabaseView {
            rss: Some(
                match old(db)@.rss {
                    Some(rows) => rows,
                    None => Seq::<RssConfigView>::empty(),
                },
            ),
            ..old(db)@
        }),
{
    if db.rss.is_none() {
        let rows: Vec<RssConfig> = Vec::new();
        assert(config_views(rows@) =~= Seq::<RssConfigView>::empty());
        db.rss = Some(rows);
    }
    Ok(())
}

/// Deletes the settings of a subscription. The rows that stay keep their
/// order.
pub fn delete(db: &mut Database, uuid: &str) -> (r: Result<(), DbError>)
    ensures
        r == row_result(old(db)@.rss, uuid@),
        final(db)@ == (DatabaseView { rss: after_delete(old(db)@.rss, uuid@), ..old(db)@ }),
        old(db)@.rss is Some && configs_wf(old(db)@.rss->0) ==> configs_wf(final(db)@.rss->0),
{
    match &mut db.rss {
        None => Err(DbError::NoSuchTable),
        Some(rows) => {
            let i = find_config(rows, uuid);
            if i == rows.len() {
                return Err(DbError::NotFound);
            }
            let ghost before = config_views(rows@);
            rows.remove(i);
            assert(config_views(rows@) =~= before.remove(i as int));
            Ok(())
        },
    }
}

/// Deletes the settings of every subscription.
pub fn delete_all(db: &mut Database) -> (r: Result<(), DbError>)
    ensures
        r == if old(db)@.rss is Some {
            Ok::<(), DbError>(())
        } else {
            Err::<(), DbError>(DbError::NoSuchTable)
        },
        final(db)@ == (DatabaseView {
            rss: match old(db)@.rss {
                Some(_) => Some(Seq::<RssConfigView>::empty()),
                None => None,
            },
            ..old(db)@
        }),
{
    match &mut db.rss {
        None => Err(DbError::NoSuchTable),
        Some(rows) => {
            rows.clear();
            assert(config_views(rows@) =~= Seq::<RssConfigView>::empty());
            Ok(())
        },
    }
}

/// Inserts the settings of a subscription behind the rows that are there.
/// Settings whose identity a row already has are refused.
pub fn insert(db: &mut Database, config: RssConfig) -> (r: Result<(), DbError>)
    ensures
        r == insert_result(old(db)@.rss, config@),
        final(db)@ == (DatabaseView { rss: after_insert(old(db)@.rss, config@), ..old(db)@ }),
        old(db)@.rss is Some && configs_wf(old(db)@.rss->0) ==> configs_wf(final(db)@.rss->0),
{
    match &mut db.rss {
        None => Err(DbError::NoSuchTable),
        Some(rows) => {
            let i = find_config(rows, config.uuid.as_str());
            if i < rows.len() {
                return Err(DbError::Duplicate);
            }
            proof {
                rows@.lemma_push_map_commute(|c: RssConfig| c@, config);
                lemma_first_index(config_views(rows@), is_config(config@.uuid));
            }
            rows.push(config);
            Ok(())
        },
    }
}

/// Replaces the settings of the subscription with a given identity. The row
/// keeps its place and its identity, whatever identity `config` carries.
pub fn update(db: &mut Database, uuid: &str, config: RssConfig) -> (r: Result<(), DbError>)
    ensures
        r == row_result(old(db)@.rss, uuid@),
        final(db)@ == (DatabaseView {
            rss: after_update(old(db)@.rss, uuid@, config@),
            ..old(db)@
        }),
        old(db)@.rss is Some && configs_wf(old(db)@.rss->0) ==> configs_wf(final(db)@.rss->0),
{
    match &mut db.rss {
        None => Err(DbError::NoSuchTable),
        Some(rows) => {
            let i = find_config(rows, uuid);
            if i == rows.len() {
                return Err(DbError::NotFound);
            }
            let mut row = config;
            row.uuid = uuid.to_string();
            let ghost before = config_views(rows@);
            proof {
                lemma_first_index(before, is_config(uuid@));
            }
            rows[i] = row;
            assert(config_views(rows@) =~= before.update(i as int, with_uuid(config@, uuid@)));
            Ok(())
        },
    }
}

/// The settings of the subscription with a given identity.
pub fn select(db: &Database, uuid: &str) -> (r: Result<RssConfig, DbError>)
    ensures
        match db@.rss {
            None => r is Err && r->Err_0 == DbError::NoSuchTable,
            Some(rows) => if found(rows, is_config(uuid@)) {
                r is Ok && r->Ok_0@ == rows[config_index(rows, uuid@)]
            } else {
                r is Err && r->Err_0 == DbError::NotFound
            },
        },
{
    match &db.rss {
        None => Err(DbError::NoSuchTable),
        Some(rows) => {
            let i = find_config(rows, uuid);
            if i == rows.len() {
                return Err(DbError::NotFound);
            }
            Ok(rows[i].clone())
        },
    }
}

/// The settings of every subscription, in the order of insertion.
pub fn select_all(db: &Database) -> (r: Result<Vec<RssConfig>, DbError>)
    ensures
        match db@.rss {
            None => r is Err && r->Err_0 == DbError::NoSuchTable,
            Some(rows) => r is Ok && config_views(r->Ok_0@) == rows,
        },
{
    match &db.rss {
        None => Err(DbError::NoSuchTable),
        Some(rows) => Ok(clone_configs(rows)),
    }
}

/// Succeeds exactly when the table holds settings with the given identity.
pub fn is_exist(db: &Database, uuid: &str) -> (r: Result<(), DbError>)
    ensures
        r is Ok <==> db@.rss is Some && found(db@.rss->0, is_config(uuid@)),
        r is Err ==> r->Err_0 == (if db@.rss is None {
            DbError::NoSuchTable
        } else {
            DbError::NotFound
        }),
{
    match select(db, uuid) {
        Ok(_) => Ok(()),
        Err(e) => Err(e),
    }
}

} // verus!
