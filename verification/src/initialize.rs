//! The bulk import: every staging document becomes one resource with its
//! seasons, formats, episodes and links, inside a single transaction, and the
//! observer hears of each document as it is done.

use vstd::prelude::*;
use vstd::string::*;
use crate::database::connect;
use crate::model::Count;
use crate::model::list;
use crate::model::listed;
use crate::model::loaded;
use crate::model::StagingRow;
use crate::response::Response;
use crate::response::SUCCESS;
use crate::store::added;
use crate::store::asked;
use crate::store::Gateway;
use crate::store::is_insert;
use crate::store::Issued;
use crate::store::row_of;
use crate::store::SqlArg;
use crate::store::SqlArgView;
use crate::store::StoreError;
use crate::store::began;
use crate::store::is_batch;
use crate::store::is_begin;
use crate::store::is_commit;
use crate::store::committed;
use crate::store::no_rows;
use crate::store::out_of_range;
use crate::store::ran;
use crate::text::lemma_trimmed_idempotent;
use crate::text::trim;
use crate::text::trimmed;
use crate::yyets::DataView;
use crate::yyets::find_group;
use crate::yyets::group_index;
use crate::yyets::Info;
use crate::yyets::InfoView;
use crate::yyets::Item;
use crate::yyets::ItemGroup;
use crate::yyets::ItemGroupView;
use crate::yyets::ItemView;
use crate::yyets::RecordData;
use crate::yyets::RecordDataView;
use crate::yyets::YYeTsFile;
use crate::yyets::YYeTsFileView;
use crate::yyets::YYeTsSeason;
use crate::yyets::YYeTsSeasonView;

verus! {

#[verifier::external_type_specification]
#[verifier::external_body]
#[verifier::reject_recursive_types(T)]
pub struct ExSender<T>(std::sync::mpsc::Sender<T>);

/// A row of a lookup table: the id that the store gave to a name.
#[derive(Debug)]
pub struct NameOnly {
    pub id: i64,
    pub name: String,
}

pub struct NameOnlyView {
    pub id: i64,
    pub name: Seq<char>,
}

impl View for NameOnly {
    type V = NameOnlyView;

    open spec fn view(&self) -> NameOnlyView {
        NameOnlyView { id: self.id, name: self.name@ }
    }
}

impl DeepView for NameOnly {
    type V = NameOnlyView;

    open spec fn deep_view(&self) -> NameOnlyView {
        self@
    }
}

/// The payload of a progress notice: the step that the import is at, and
/// what the step reports.
#[derive(Debug)]
pub struct ResponseData<T> {
    pub step: String,
    pub data: T,
}

impl<T: Clone> Clone for ResponseData<T> {
    fn clone(&self) -> (r: Self)
        ensures
            r.step@ == self.step@,
            cloned(self.data, r.data),
    {
        ResponseData { step: self.step.clone(), data: self.data.clone() }
    }
}

impl<T> ResponseData<T> {
    /// A payload for the given step.
    pub fn new(step: &str, data: T) -> (r: Self)
        ensures
            r.step@ == step@,
            r.data == data,
    {
        ResponseData { step: String::from_str(step), data }
    }
}

/// The channel to whoever watches the import, with the record of what was
/// handed to it.
#[verifier::reject_recursive_types(T)]
pub struct Observer<T> {
    sender: std::sync::mpsc::Sender<Response<T>>,
    sent: Ghost<Seq<Response<T>>>,
}

/// `Sender::send`: hands the notice to the channel without waiting for the
/// receiver, and reports whether a receiver is still there.
#[verifier::external_body]
fn post<T>(sender: &std::sync::mpsc::Sender<Response<T>>, response: Response<T>) -> (r: bool) {
    sender.send(response).is_ok()
}

impl<T> Observer<T> {
    /// The notices handed to the channel so far, oldest first.
    pub closed spec fn sent(&self) -> Seq<Response<T>> {
        self.sent@
    }

    /// An observer that hands its notices to `sender` and has handed over
    /// none yet.
    pub fn new(sender: std::sync::mpsc::Sender<Response<T>>) -> (observer: Self)
        ensures
            observer.sent() == Seq::<Response<T>>::empty(),
    {
        Observer { sender, sent: Ghost(Seq::empty()) }
    }
}

/// Hands one notice to the observer. A notice that nobody receives is lost:
/// the result says whether a receiver was there, and no caller of this crate
/// acts on it.
pub fn emit_initialize_event<T>(observer: &mut Observer<T>, response: Response<T>) -> (delivered:
    bool)
    ensures
        final(observer).sent() == old(observer).sent().push(response),
{
    proof {
        observer.sent@ = observer.sent@.push(response);
    }
    post(&observer.sender, response)
}

/// The message of the notices that the import sends.
pub const IMPORT_MESSAGE: &'static str = "导入数据";

/// The step that the notices of the import name.
pub const IMPORT_STEP: &'static str = "importing";

pub const INSERT_RESOURCE: &'static str =
    "insert into resources (name, original_name, alias_name, channel_id, area_id) values (?1, ?2, ?3, ?4, ?5)";

pub const INSERT_SEASON: &'static str =
    "insert into seasons (resource_id, season, name) values (?1, ?2, ?3)";

pub const INSERT_FORMAT: &'static str = "insert into formats (season_id, format) values (?1, ?2)";

pub const INSERT_SERIES: &'static str =
    "insert into series (format_id, episode, name, size) values (?1, ?2, ?3, ?4)";

pub const INSERT_FILE: &'static str =
    "insert into files (series_id, way_id, address, password) values (?1, ?2, ?3, ?4)";

pub const CLEAR: &'static str = "delete from resources;
            delete from areas;
            delete from channels;
            delete from files;
            delete from formats;
            delete from resources;
            delete from seasons;
            delete from series;
            delete from ways;
            delete from sqlite_sequence where name in ('resources', 'areas', 'channels', 'files', 'formats', 'resources', 'seasons', 'series', 'ways')";

/// The statement that adds a name to the lookup table `table`.
pub open spec fn lookup_insert(table: Seq<char>) -> Seq<char> {
    "insert into "@ + table + " (name) values (?1)"@
}

fn lookup_statement(table: &str) -> (r: String)
    ensures
        r@ == lookup_insert(table@),
{
    let mut sql = String::from_str("insert into ");
    sql.append(table);
    sql.append(" (name) values (?1)");
    sql
}

/// The index of the first entry whose trimmed name is `name`, or the length
/// of the cache where no entry has it.
pub open spec fn name_index(cache: Seq<NameOnlyView>, name: Seq<char>) -> int
    decreases cache.len(),
{
    if cache.len() == 0 {
        0
    } else if trimmed(cache[0].name) == name {
        0
    } else {
        1 + name_index(cache.drop_first(), name)
    }
}

/// What the index of a name in a cache is: no entry before it has the
/// name, and the entry at it has, where there is one.
pub proof fn lemma_name_index(cache: Seq<NameOnlyView>, name: Seq<char>)
    ensures
        0 <= name_index(cache, name) <= cache.len(),
        name_index(cache, name) < cache.len() ==> trimmed(cache[name_index(cache, name)].name)
            == name,
        forall|i: int|
            0 <= i < name_index(cache, name) ==> trimmed((#[trigger] cache[i]).name) != name,
    decreases cache.len(),
{
    if cache.len() != 0 && trimmed(cache[0].name) != name {
        let rest = cache.drop_first();
        lemma_name_index(rest, name);
        assert forall|i: int| 0 <= i < name_index(cache, name) implies trimmed(
            (#[trigger] cache[i]).name,
        ) != name by {
            if i > 0 {
                assert(cache[i] == rest[i - 1]);
            }
        }
    }
}

/// No two entries of the cache have the same trimmed name.
pub open spec fn distinct_names(cache: Seq<NameOnlyView>) -> bool {
    forall|i: int, j: int|
        0 <= i < j < cache.len() ==> trimmed((#[trigger] cache[i]).name) != trimmed(
            (#[trigger] cache[j]).name,
        )
}

fn find_name(cache: &Vec<NameOnly>, name: &String) -> (r: Option<usize>)
    ensures
        match r {
            Some(at) => at == name_index(cache.deep_view(), name@) && at < cache.len(),
            None => name_index(cache.deep_view(), name@) == cache.len(),
        },
{
    let ghost views = cache.deep_view();
    let mut i: usize = 0;
    while i < cache.len()
        invariant
            i <= cache.len(),
            views == cache.deep_view(),
            forall|j: int| 0 <= j < i ==> trimmed((#[trigger] views[j]).name) != name@,
        decreases cache.len() - i,
    {
        assert(views[i as int] == cache[i as int]@);
        let known = trim(cache[i].name.as_str());
        if known == *name {
            proof {
                lemma_name_index(views, name@);
            }
            return Some(i);
        }
        i = i + 1;
    }
    proof {
        lemma_name_index(views, name@);
    }
    None
}

/// Reads the lookup of `item` in `table` off the front of `log`.
///
/// Where the cache knows the trimmed name, nothing is read and the id is the
/// cache's. Otherwise the log must start with the insert of the name: where
/// that added a row, the name enters the cache under the row's id; where it
/// did not, the id is 0. The result is the id, the cache afterwards and the
/// rest of the log, or nothing where the log does not start so.
pub open spec fn read_lookup(
    table: Seq<char>,
    item: Seq<char>,
    cache: Seq<NameOnlyView>,
    log: Seq<Issued>,
) -> Option<(i64, Seq<NameOnlyView>, Seq<Issued>)> {
    let name = trimmed(item);
    let at = name_index(cache, name);
    if at < cache.len() {
        Some((cache[at].id, cache, log))
    } else if log.len() > 0 && is_insert(
        log[0],
        lookup_insert(table),
        seq![SqlArgView::Text(name)],
    ) {
        match row_of(log[0]) {
            Some(id) => Some((id, cache.push(NameOnlyView { id, name }), log.drop_first())),
            None => Some((0, cache, log.drop_first())),
        }
    } else {
        None
    }
}

/// The id of `item` in a lookup table, by its trimmed name.
///
/// Where the cache knows the name, the id comes from the cache and the store
/// is not asked. Otherwise one insert is issued: where it adds a row, the
/// name enters the cache under the new row's id, which is returned; where it
/// does not, the result is 0 and the cache stays as it was.
pub fn get_id_by_name(
    gateway: &mut Gateway,
    table: &str,
    item: &str,
    collection: &mut Vec<NameOnly>,
) -> (id: i64)
    ensures
        old(gateway).issued().is_prefix_of(final(gateway).issued()),
        forall|tail: Seq<Issued>| #[trigger]
            read_lookup(
                table@,
                item@,
                old(collection).deep_view(),
                added(old(gateway).issued(), final(gateway).issued()) + tail,
            ) == Some((id, final(collection).deep_view(), tail)),
{
    let ghost start = gateway.issued();
    let ghost before = collection.deep_view();
    let name = trim(item);
    match find_name(collection, &name) {
        Some(at) => {
            proof {
                assert forall|tail: Seq<Issued>| #[trigger]
                    read_lookup(table@, item@, before, added(start, gateway.issued()) + tail)
                        == Some((collection[at as int].id, before, tail)) by {
                    assert(before[at as int] == collection[at as int]@);
                }
            }
            collection[at].id
        },
        None => {
            let sql = lookup_statement(table);
            let mut args: Vec<SqlArg> = Vec::new();
            args.push(SqlArg::Text(name.clone()));
            assert(args.deep_view() =~= seq![SqlArgView::Text(name@)]);
            let row = gateway.insert(sql.as_str(), &args);
            match row {
                Some(id) => {
                    collection.push(NameOnly { id, name });
                    proof {
                        assert forall|tail: Seq<Issued>| #[trigger]
                            read_lookup(
                                table@,
                                item@,
                                before,
                                added(start, gateway.issued()) + tail,
                            ) == Some((id, collection.deep_view(), tail)) by {}
                    }
                    id
                },
                None => {
                    proof {
                        assert forall|tail: Seq<Issued>| #[trigger]
                            read_lookup(
                                table@,
                                item@,
                                before,
                                added(start, gateway.issued()) + tail,
                            ) == Some((0i64, before, tail)) by {}
                    }
                    0
                },
            }
        },
    }
}

/// A lookup leaves a cache without duplicates without duplicates, and only
/// ever adds at its end.
pub proof fn lemma_lookup_keeps_distinct(
    table: Seq<char>,
    item: Seq<char>,
    cache: Seq<NameOnlyView>,
    log: Seq<Issued>,
)
    requires
        read_lookup(table, item, cache, log) is Some,
    ensures
        cache.is_prefix_of(read_lookup(table, item, cache, log).unwrap().1),
        distinct_names(cache) ==> distinct_names(read_lookup(table, item, cache, log).unwrap().1),
{
    let name = trimmed(item);
    let after = read_lookup(table, item, cache, log).unwrap().1;
    lemma_name_index(cache, name);
    lemma_trimmed_idempotent(item);
    if after != cache {
        if distinct_names(cache) {
            assert forall|i: int, j: int| 0 <= i < j < after.len() implies trimmed(
                (#[trigger] after[i]).name,
            ) != trimmed((#[trigger] after[j]).name) by {}
        }
    }
}

/// The parameters of the insert of one link.
pub open spec fn file_args(series_id: i64, way_id: i64, file: YYeTsFileView) -> Seq<SqlArgView> {
    seq![
        SqlArgView::Integer(series_id),
        SqlArgView::Integer(way_id),
        SqlArgView::Text(file.address),
        SqlArgView::Text(file.passwd),
    ]
}

/// Reads the import of the links of one episode off the front of `log`: for
/// each link in order, the lookup of its delivery way and then the insert of
/// the link with the way's id, whatever the store answered to it.
pub open spec fn read_files(
    series_id: i64,
    files: Seq<YYeTsFileView>,
    ways: Seq<NameOnlyView>,
    log: Seq<Issued>,
) -> Option<(Seq<NameOnlyView>, Seq<Issued>)>
    decreases files.len(),
{
    if files.len() == 0 {
        Some((ways, log))
    } else {
        match read_lookup("ways"@, files[0].way_cn, ways, log) {
            None => None,
            Some((way_id, known, rest)) => {
                if rest.len() > 0 && is_insert(
                    rest[0],
                    INSERT_FILE@,
                    file_args(series_id, way_id, files[0]),
                ) {
                    read_files(series_id, files.drop_first(), known, rest.drop_first())
                } else {
                    None
                }
            },
        }
    }
}

/// Inserts the links of one episode, each with the id of its delivery way.
/// A link that the store refuses is passed over.
pub fn insert_files(
    gateway: &mut Gateway,
    series_id: i64,
    files: &Vec<YYeTsFile>,
    ways: &mut Vec<NameOnly>,
)
    ensures
        old(gateway).issued().is_prefix_of(final(gateway).issued()),
        forall|tail: Seq<Issued>| #[trigger]
            read_files(
                series_id,
                files.deep_view(),
                old(ways).deep_view(),
                added(old(gateway).issued(), final(gateway).issued()) + tail,
            ) == Some((final(ways).deep_view(), tail)),
{
    let ghost start = gateway.issued();
    let ghost cache = ways.deep_view();
    let ghost all = files.deep_view();
    let mut i: usize = 0;
    proof {
        assert forall|tail: Seq<Issued>| #[trigger]
            read_files(series_id, all, cache, added(start, gateway.issued()) + tail)
                == read_files(series_id, all.skip(0), ways.deep_view(), tail) by {
            assert(all.skip(0) =~= all);
        }
    }
    while i < files.len()
        invariant
            i <= files.len(),
            all == files.deep_view(),
            start.is_prefix_of(gateway.issued()),
            forall|tail: Seq<Issued>| #[trigger]
                read_files(series_id, all, cache, added(start, gateway.issued()) + tail)
                    == read_files(series_id, all.skip(i as int), ways.deep_view(), tail),
        decreases files.len() - i,
    {
        let ghost here = gateway.issued();
        let file = &files[i];
        let way_id = get_id_by_name(gateway, "ways", file.way_cn.as_str(), ways);
        let ghost mid = gateway.issued();
        let mut args: Vec<SqlArg> = Vec::new();
        args.push(SqlArg::Integer(series_id));
        args.push(SqlArg::Integer(way_id));
        args.push(SqlArg::Text(file.address.clone()));
        args.push(SqlArg::Text(file.passwd.clone()));
        assert(args.deep_view() =~= file_args(series_id, way_id, all[i as int]));
        let row = gateway.insert(INSERT_FILE, &args);
        proof {
            let entry = gateway.issued().last();
            assert(gateway.issued() =~= mid.push(entry));
            let looked = added(here, mid);
            let rest = all.skip(i as int);
            assert(rest.drop_first() =~= all.skip(i + 1));
            assert forall|tail: Seq<Issued>| #[trigger]
                read_files(series_id, all, cache, added(start, gateway.issued()) + tail)
                    == read_files(series_id, all.skip(i + 1), ways.deep_view(), tail) by {
                let after = seq![entry] + tail;
                assert(added(start, gateway.issued()) + tail =~= added(start, here) + (looked
                    + after));
                assert(after.drop_first() =~= tail);
            }
        }
        i = i + 1;
    }
}

/// The parameters of the insert of one episode.
pub open spec fn series_args(format_id: i64, item: ItemView) -> Seq<SqlArgView> {
    seq![
        SqlArgView::Integer(format_id),
        SqlArgView::Text(item.episode),
        SqlArgView::Text(item.name),
        SqlArgView::Text(item.size),
    ]
}

/// Reads the import of the episodes of one format off the front of `log`:
/// for each episode in order its insert and, where that added a row and the
/// episode has links, the import of the links under the new row's id.
pub open spec fn read_series(
    format_id: i64,
    items: Seq<ItemView>,
    ways: Seq<NameOnlyView>,
    log: Seq<Issued>,
) -> Option<(Seq<NameOnlyView>, Seq<Issued>)>
    decreases items.len(),
{
    if items.len() == 0 {
        Some((ways, log))
    } else if log.len() > 0 && is_insert(log[0], INSERT_SERIES@, series_args(format_id, items[0])) {
        match (row_of(log[0]), items[0].files) {
            (Some(series_id), Some(files)) => match read_files(
                series_id,
                files,
                ways,
                log.drop_first(),
            ) {
                None => None,
                Some((known, rest)) => read_series(format_id, items.drop_first(), known, rest),
            },
            _ => read_series(format_id, items.drop_first(), ways, log.drop_first()),
        }
    } else {
        None
    }
}

/// Inserts the episodes of one format and, under each episode that the store
/// took, its links.
pub fn insert_series(
    gateway: &mut Gateway,
    format_id: i64,
    series: &Vec<Item>,
    ways: &mut Vec<NameOnly>,
)
    ensures
        old(gateway).issued().is_prefix_of(final(gateway).issued()),
        forall|tail: Seq<Issued>| #[trigger]
            read_series(
                format_id,
                series.deep_view(),
                old(ways).deep_view(),
                added(old(gateway).issued(), final(gateway).issued()) + tail,
            ) == Some((final(ways).deep_view(), tail)),
{
    let ghost start = gateway.issued();
    let ghost cache = ways.deep_view();
    let ghost all = series.deep_view();
    let mut i: usize = 0;
    proof {
        assert forall|tail: Seq<Issued>| #[trigger]
            read_series(format_id, all, cache, added(start, gateway.issued()) + tail)
                == read_series(format_id, all.skip(0), ways.deep_view(), tail) by {
            assert(all.skip(0) =~= all);
        }
    }
    while i < series.len()
        invariant
            i <= series.len(),
            all == series.deep_view(),
            start.is_prefix_of(gateway.issued()),
            forall|tail: Seq<Issued>| #[trigger]
                read_series(format_id, all, cache, added(start, gateway.issued()) + tail)
                    == read_series(format_id, all.skip(i as int), ways.deep_view(), tail),
        decreases series.len() - i,
    {
        let ghost here = gateway.issued();
        let item = &series[i];
        let mut args: Vec<SqlArg> = Vec::new();
        args.push(SqlArg::Integer(format_id));
        args.push(SqlArg::Text(item.episode.clone()));
        args.push(SqlArg::Text(item.name.clone()));
        args.push(SqlArg::Text(item.size.clone()));
        assert(args.deep_view() =~= series_args(format_id, all[i as int]));
        let row = gateway.insert(INSERT_SERIES, &args);
        let ghost mid = gateway.issued();
        match (row, &item.files) {
            (Some(series_id), Some(files)) => {
                insert_files(gateway, series_id, files, ways);
            },
            _ => {},
        }
        proof {
            let entry = mid.last();
            assert(mid =~= here.push(entry));
            let below = added(mid, gateway.issued());
            assert(gateway.issued() =~= mid + below);
            let rest = all.skip(i as int);
            assert(rest.drop_first() =~= all.skip(i + 1));
            assert forall|tail: Seq<Issued>| #[trigger]
                read_series(format_id, all, cache, added(start, gateway.issued()) + tail)
                    == read_series(format_id, all.skip(i + 1), ways.deep_view(), tail) by {
                let after = seq![entry] + (below + tail);
                assert(added(start, gateway.issued()) + tail =~= added(start, here) + after);
                assert(after.drop_first() =~= below + tail);
            }
        }
        i = i + 1;
    }
}

/// The parameters of the insert of one format.
pub open spec fn format_args(season_id: i64, format: Seq<char>) -> Seq<SqlArgView> {
    seq![SqlArgView::Integer(season_id), SqlArgView::Text(format)]
}

/// Reads the import of the formats of one season off the front of `log`:
/// for each format in order its insert and, where that added a row and the
/// season lists episodes under the format's label, the import of those
/// episodes under the new row's id.
pub open spec fn read_formats(
    season_id: i64,
    formats: Seq<Seq<char>>,
    groups: Seq<ItemGroupView>,
    ways: Seq<NameOnlyView>,
    log: Seq<Issued>,
) -> Option<(Seq<NameOnlyView>, Seq<Issued>)>
    decreases formats.len(),
{
    if formats.len() == 0 {
        Some((ways, log))
    } else if log.len() > 0 && is_insert(log[0], INSERT_FORMAT@, format_args(season_id, formats[0])) {
        let at = group_index(groups, formats[0]);
        match row_of(log[0]) {
            Some(format_id) if at < groups.len() => match read_series(
                format_id,
                groups[at].items,
                ways,
                log.drop_first(),
            ) {
                None => None,
                Some((known, rest)) => read_formats(
                    season_id,
                    formats.drop_first(),
                    groups,
                    known,
                    rest,
                ),
            },
            _ => read_formats(season_id, formats.drop_first(), groups, ways, log.drop_first()),
        }
    } else {
        None
    }
}

/// Inserts the formats of one season and, under each format that the store
/// took and that the season lists episodes for, those episodes.
pub fn insert_formats(
    gateway: &mut Gateway,
    season_id: i64,
    formats: &Vec<String>,
    items: &Vec<ItemGroup>,
    ways: &mut Vec<NameOnly>,
) -> (r: Result<(), StoreError>)
    ensures
        r is Ok,
        old(gateway).issued().is_prefix_of(final(gateway).issued()),
        forall|tail: Seq<Issued>| #[trigger]
            read_formats(
                season_id,
                formats.deep_view(),
                items.deep_view(),
                old(ways).deep_view(),
                added(old(gateway).issued(), final(gateway).issued()) + tail,
            ) == Some((final(ways).deep_view(), tail)),
{
    let ghost start = gateway.issued();
    let ghost cache = ways.deep_view();
    let ghost all = formats.deep_view();
    let ghost groups = items.deep_view();
    let mut i: usize = 0;
    proof {
        assert forall|tail: Seq<Issued>| #[trigger]
            read_formats(season_id, all, groups, cache, added(start, gateway.issued()) + tail)
                == read_formats(season_id, all.skip(0), groups, ways.deep_view(), tail) by {
            assert(all.skip(0) =~= all);
        }
    }
    while i < formats.len()
        invariant
            i <= formats.len(),
            all == formats.deep_view(),
            groups == items.deep_view(),
            start.is_prefix_of(gateway.issued()),
            forall|tail: Seq<Issued>| #[trigger]
                read_formats(season_id, all, groups, cache, added(start, gateway.issued()) + tail)
                    == read_formats(season_id, all.skip(i as int), groups, ways.deep_view(), tail),
        decreases formats.len() - i,
    {
        let ghost here = gateway.issued();
        let format = &formats[i];
        let mut args: Vec<SqlArg> = Vec::new();
        args.push(SqlArg::Integer(season_id));
        args.push(SqlArg::Text(format.clone()));
        assert(args.deep_view() =~= format_args(season_id, all[i as int]));
        let row = gateway.insert(INSERT_FORMAT, &args);
        let ghost mid = gateway.issued();
        let group = find_group(items, format);
        match (row, group) {
            (Some(format_id), Some(at)) => {
                insert_series(gateway, format_id, &items[at].items, ways);
            },
            _ => {},
        }
        proof {
            let entry = mid.last();
            assert(mid =~= here.push(entry));
            let below = added(mid, gateway.issued());
            assert(gateway.issued() =~= mid + below);
            let rest = all.skip(i as int);
            assert(rest.drop_first() =~= all.skip(i + 1));
            assert forall|tail: Seq<Issued>| #[trigger]
                read_formats(season_id, all, groups, cache, added(start, gateway.issued()) + tail)
                    == read_formats(season_id, all.skip(i + 1), groups, ways.deep_view(), tail) by {
                let after = seq![entry] + (below + tail);
                assert(added(start, gateway.issued()) + tail =~= added(start, here) + after);
                assert(after.drop_first() =~= below + tail);
            }
        }
        i = i + 1;
    }
    Ok(())
}

/// The parameters of the insert of one season.
pub open spec fn season_args(resource_id: i64, season: YYeTsSeasonView) -> Seq<SqlArgView> {
    seq![
        SqlArgView::Integer(resource_id),
        SqlArgView::Text(season.season_num),
        SqlArgView::Text(season.season_cn),
    ]
}

/// Reads the import of the seasons of one resource off the front of `log`:
/// for each season in order its insert and, where that added a row, the
/// import of the season's formats under the new row's id.
pub open spec fn read_seasons(
    resource_id: i64,
    seasons: Seq<YYeTsSeasonView>,
    ways: Seq<NameOnlyView>,
    log: Seq<Issued>,
) -> Option<(Seq<NameOnlyView>, Seq<Issued>)>
    decreases seasons.len(),
{
    if seasons.len() == 0 {
        Some((ways, log))
    } else if log.len() > 0 && is_insert(log[0], INSERT_SEASON@, season_args(resource_id, seasons[0])) {
        match row_of(log[0]) {
            Some(season_id) => match read_formats(
                season_id,
                seasons[0].formats,
                seasons[0].items,
                ways,
                log.drop_first(),
            ) {
                None => None,
                Some((known, rest)) => read_seasons(resource_id, seasons.drop_first(), known, rest),
            },
            None => read_seasons(resource_id, seasons.drop_first(), ways, log.drop_first()),
        }
    } else {
        None
    }
}

/// Inserts the seasons of one resource and, under each season that the store
/// took, its formats.
pub fn insert_seasons(
    gateway: &mut Gateway,
    resource_id: i64,
    seasons: &Vec<YYeTsSeason>,
    ways: &mut Vec<NameOnly>,
) -> (r: Result<(), StoreError>)
    ensures
        r is Ok,
        old(gateway).issued().is_prefix_of(final(gateway).issued()),
        forall|tail: Seq<Issued>| #[trigger]
            read_seasons(
                resource_id,
                seasons.deep_view(),
                old(ways).deep_view(),
                added(old(gateway).issued(), final(gateway).issued()) + tail,
            ) == Some((final(ways).deep_view(), tail)),
{
    let ghost start = gateway.issued();
    let ghost cache = ways.deep_view();
    let ghost all = seasons.deep_view();
    let mut i: usize = 0;
    proof {
        assert forall|tail: Seq<Issued>| #[trigger]
            read_seasons(resource_id, all, cache, added(start, gateway.issued()) + tail)
                == read_seasons(resource_id, all.skip(0), ways.deep_view(), tail) by {
            assert(all.skip(0) =~= all);
        }
    }
    while i < seasons.len()
        invariant
            i <= seasons.len(),
            all == seasons.deep_view(),
            start.is_prefix_of(gateway.issued()),
            forall|tail: Seq<Issued>| #[trigger]
                read_seasons(resource_id, all, cache, added(start, gateway.issued()) + tail)
                    == read_seasons(resource_id, all.skip(i as int), ways.deep_view(), tail),
        decreases seasons.len() - i,
    {
        let ghost here = gateway.issued();
        let season = &seasons[i];
        let mut args: Vec<SqlArg> = Vec::new();
        args.push(SqlArg::Integer(resource_id));
        args.push(SqlArg::Text(season.season_num.clone()));
        args.push(SqlArg::Text(season.season_cn.clone()));
        assert(args.deep_view() =~= season_args(resource_id, all[i as int]));
        let row = gateway.insert(INSERT_SEASON, &args);
        let ghost mid = gateway.issued();
        match row {
            Some(season_id) => {
                let _ = insert_formats(gateway, season_id, &season.formats, &season.items, ways);
            },
            None => {},
        }
        proof {
            let entry = mid.last();
            assert(mid =~= here.push(entry));
            let below = added(mid, gateway.issued());
            assert(gateway.issued() =~= mid + below);
            let rest = all.skip(i as int);
            assert(rest.drop_first() =~= all.skip(i + 1));
            assert forall|tail: Seq<Issued>| #[trigger]
                read_seasons(resource_id, all, cache, added(start, gateway.issued()) + tail)
                    == read_seasons(resource_id, all.skip(i + 1), ways.deep_view(), tail) by {
                let after = seq![entry] + (below + tail);
                assert(added(start, gateway.issued()) + tail =~= added(start, here) + after);
                assert(after.drop_first() =~= below + tail);
            }
        }
        i = i + 1;
    }
    Ok(())
}

/// The lookup caches of one import: what the store is known to hold of
/// areas, channels and delivery ways.
#[derive(Debug)]
pub struct Lookups {
    pub areas: Vec<NameOnly>,
    pub channels: Vec<NameOnly>,
    pub ways: Vec<NameOnly>,
}

pub struct LookupsView {
    pub areas: Seq<NameOnlyView>,
    pub channels: Seq<NameOnlyView>,
    pub ways: Seq<NameOnlyView>,
}

impl View for Lookups {
    type V = LookupsView;

    open spec fn view(&self) -> LookupsView {
        LookupsView {
            areas: self.areas.deep_view(),
            channels: self.channels.deep_view(),
            ways: self.ways.deep_view(),
        }
    }
}

impl Lookups {
    /// What caches that know nothing hold.
    pub open spec fn none() -> LookupsView {
        LookupsView { areas: Seq::empty(), channels: Seq::empty(), ways: Seq::empty() }
    }

    /// Caches that know nothing yet.
    pub fn new() -> (r: Self)
        ensures
            r@ == Self::none(),
    {
        let r = Lookups { areas: Vec::new(), channels: Vec::new(), ways: Vec::new() };
        assert(r@.ways =~= Seq::<NameOnlyView>::empty());
        r
    }
}

/// The parameters of the insert of one resource.
pub open spec fn resource_args(info: InfoView, channel_id: i64, area_id: i64) -> Seq<SqlArgView> {
    seq![
        SqlArgView::Text(info.cnname),
        SqlArgView::Text(info.enname),
        SqlArgView::Text(info.aliasname),
        SqlArgView::Integer(channel_id),
        SqlArgView::Integer(area_id),
    ]
}

/// Reads the lookups of the channel and of the area of a document off the
/// front of `log`, in that order. The result is the two ids, the two caches
/// afterwards and the rest of the log.
pub open spec fn read_names(
    info: InfoView,
    channels: Seq<NameOnlyView>,
    areas: Seq<NameOnlyView>,
    log: Seq<Issued>,
) -> Option<(i64, i64, Seq<NameOnlyView>, Seq<NameOnlyView>, Seq<Issued>)> {
    match read_lookup("channels"@, info.channel, channels, log) {
        None => None,
        Some((channel_id, channels_after, after_channel)) => match read_lookup(
            "areas"@,
            info.area,
            areas,
            after_channel,
        ) {
            None => None,
            Some((area_id, areas_after, rest)) => Some(
                (channel_id, area_id, channels_after, areas_after, rest),
            ),
        },
    }
}

/// Reads the import of one document off the front of `log`: the lookups of
/// its channel and of its area, the insert of the resource with their ids
/// and, where that added a row, the import of the seasons under the new
/// row's id.
pub open spec fn read_record(data: DataView, lookups: LookupsView, log: Seq<Issued>) -> Option<
    (LookupsView, Seq<Issued>),
> {
    match read_names(data.info, lookups.channels, lookups.areas, log) {
        None => None,
        Some((channel_id, area_id, channels, areas, after_names)) => {
            if after_names.len() > 0 && is_insert(
                after_names[0],
                INSERT_RESOURCE@,
                resource_args(data.info, channel_id, area_id),
            ) {
                match row_of(after_names[0]) {
                    Some(resource_id) => match read_seasons(
                        resource_id,
                        data.list,
                        lookups.ways,
                        after_names.drop_first(),
                    ) {
                        None => None,
                        Some((ways, rest)) => Some((LookupsView { areas, channels, ways }, rest)),
                    },
                    None => Some(
                        (
                            LookupsView { areas, channels, ways: lookups.ways },
                            after_names.drop_first(),
                        ),
                    ),
                }
            } else {
                None
            }
        },
    }
}

/// Resolves the channel and the area of a document, in that order.
fn resolve_names(gateway: &mut Gateway, info: &Info, lookups: &mut Lookups) -> (ids: (i64, i64))
    ensures
        old(gateway).issued().is_prefix_of(final(gateway).issued()),
        final(lookups)@.ways == old(lookups)@.ways,
        forall|tail: Seq<Issued>| #[trigger]
            read_names(
                info@,
                old(lookups)@.channels,
                old(lookups)@.areas,
                added(old(gateway).issued(), final(gateway).issued()) + tail,
            ) == Some((ids.0, ids.1, final(lookups)@.channels, final(lookups)@.areas, tail)),
{
    let ghost start = gateway.issued();
    let ghost before = lookups@;
    let channel_id = get_id_by_name(gateway, "channels", info.channel.as_str(), &mut lookups.channels);
    let ghost middle = gateway.issued();
    let ghost channels = lookups@.channels;
    let area_id = get_id_by_name(gateway, "areas", info.area.as_str(), &mut lookups.areas);
    proof {
        let first = added(start, middle);
        let second = added(middle, gateway.issued());
        assert forall|tail: Seq<Issued>| #[trigger]
            read_names(
                info@,
                before.channels,
                before.areas,
                added(start, gateway.issued()) + tail,
            ) == Some((channel_id, area_id, lookups@.channels, lookups@.areas, tail)) by {
            assert(added(start, gateway.issued()) + tail =~= first + (second + tail));
        }
    }
    (channel_id, area_id)
}

/// Imports one document: resolves its channel and its area, inserts the
/// resource and, where the store took it, its seasons with all that hangs
/// below them. What the store refuses is passed over, with all below it.
pub fn import_record(gateway: &mut Gateway, record: &RecordData, lookups: &mut Lookups)
    ensures
        old(gateway).issued().is_prefix_of(final(gateway).issued()),
        forall|tail: Seq<Issued>| #[trigger]
            read_record(
                record@.data,
                old(lookups)@,
                added(old(gateway).issued(), final(gateway).issued()) + tail,
            ) == Some((final(lookups)@, tail)),
{
    let ghost start = gateway.issued();
    let ghost before = lookups@;
    let info = &record.data.info;
    let (channel_id, area_id) = resolve_names(gateway, info, lookups);
    let ghost after_names = gateway.issued();
    let mut args: Vec<SqlArg> = Vec::new();
    args.push(SqlArg::Text(info.cnname.clone()));
    args.push(SqlArg::Text(info.enname.clone()));
    args.push(SqlArg::Text(info.aliasname.clone()));
    args.push(SqlArg::Integer(channel_id));
    args.push(SqlArg::Integer(area_id));
    assert(args.deep_view() =~= resource_args(record@.data.info, channel_id, area_id));
    let row = gateway.insert(INSERT_RESOURCE, &args);
    let ghost mid = gateway.issued();
    match row {
        Some(resource_id) => {
            let _ = insert_seasons(gateway, resource_id, &record.data.list, &mut lookups.ways);
        },
        None => {},
    }
    proof {
        let data = record@.data;
        let entry = mid.last();
        assert(mid =~= after_names.push(entry));
        let first = added(start, after_names);
        let below = added(mid, gateway.issued());
        assert(gateway.issued() =~= mid + below);
        assert forall|tail: Seq<Issued>| #[trigger]
            read_record(data, before, added(start, gateway.issued()) + tail) == Some(
                (lookups@, tail),
            ) by {
            let after = seq![entry] + (below + tail);
            assert(added(start, gateway.issued()) + tail =~= first + after);
            assert(after.drop_first() =~= below + tail);
        }
    }
}

/// Reads the import of the documents off the front of `log`, one after the
/// other. A row of the staging dataset that holds no document adds nothing.
pub open spec fn read_records(
    records: Seq<Option<RecordDataView>>,
    lookups: LookupsView,
    log: Seq<Issued>,
) -> Option<(LookupsView, Seq<Issued>)>
    decreases records.len(),
{
    if records.len() == 0 {
        Some((lookups, log))
    } else {
        match records[0] {
            Some(record) => match read_record(record.data, lookups, log) {
                None => None,
                Some((known, rest)) => read_records(records.drop_first(), known, rest),
            },
            None => read_records(records.drop_first(), lookups, log),
        }
    }
}

/// Whether `notice` reports that `processed` of `total` documents are done.
pub open spec fn is_progress(
    notice: Response<ResponseData<(u64, u64)>>,
    processed: int,
    total: int,
) -> bool {
    &&& notice.code == SUCCESS
    &&& notice.message@ == IMPORT_MESSAGE@
    &&& notice.data.step@ == IMPORT_STEP@
    &&& notice.data.data.0 == processed
    &&& notice.data.data.1 == total
}

/// `after` is `before` followed by one notice for each of `count` documents:
/// the notice with index `k` says that `k + 1` of `total` are done.
pub open spec fn reported(
    before: Seq<Response<ResponseData<(u64, u64)>>>,
    after: Seq<Response<ResponseData<(u64, u64)>>>,
    count: int,
    total: int,
) -> bool {
    &&& after.len() == before.len() + count
    &&& before.is_prefix_of(after)
    &&& forall|k: int| 0 <= k < count ==> is_progress(#[trigger] after[before.len() + k], k + 1, total)
}

/// Imports the rows of the staging dataset in order, and tells the observer
/// after each row, whether it held a document or not and whatever the store
/// made of it, how many rows are done.
pub fn import_records(
    gateway: &mut Gateway,
    observer: &mut Observer<ResponseData<(u64, u64)>>,
    total: u64,
    records: &Vec<Option<RecordData>>,
    lookups: &mut Lookups,
)
    ensures
        old(gateway).issued().is_prefix_of(final(gateway).issued()),
        forall|tail: Seq<Issued>| #[trigger]
            read_records(
                records.deep_view(),
                old(lookups)@,
                added(old(gateway).issued(), final(gateway).issued()) + tail,
            ) == Some((final(lookups)@, tail)),
        reported(old(observer).sent(), final(observer).sent(), records.len() as int, total as int),
{
    let ghost start = gateway.issued();
    let ghost before = lookups@;
    let ghost heard = observer.sent();
    let ghost all = records.deep_view();
    let mut i: usize = 0;
    proof {
        assert forall|tail: Seq<Issued>| #[trigger]
            read_records(all, before, added(start, gateway.issued()) + tail) == read_records(
                all.skip(0),
                lookups@,
                tail,
            ) by {
            assert(all.skip(0) =~= all);
        }
    }
    while i < records.len()
        invariant
            i <= records.len(),
            all == records.deep_view(),
            start.is_prefix_of(gateway.issued()),
            forall|tail: Seq<Issued>| #[trigger]
                read_records(all, before, added(start, gateway.issued()) + tail) == read_records(
                    all.skip(i as int),
                    lookups@,
                    tail,
                ),
            reported(heard, observer.sent(), i as int, total as int),
        decreases records.len() - i,
    {
        let ghost here = gateway.issued();
        match &records[i] {
            Some(record) => {
                import_record(gateway, record, lookups);
            },
            None => {},
        }
        proof {
            let below = added(here, gateway.issued());
            let rest = all.skip(i as int);
            assert(rest.drop_first() =~= all.skip(i + 1));
            assert forall|tail: Seq<Issued>| #[trigger]
                read_records(all, before, added(start, gateway.issued()) + tail) == read_records(
                    all.skip(i + 1),
                    lookups@,
                    tail,
                ) by {
                assert(added(start, gateway.issued()) + tail =~= added(start, here) + (below
                    + tail));
            }
        }
        let processed: u64 = (i + 1) as u64;
        let notice = Response::ok(IMPORT_MESSAGE, ResponseData::new(IMPORT_STEP, (processed, total)));
        let _ = emit_initialize_event(observer, notice);
        proof {
            assert forall|k: int| 0 <= k < i + 1 implies is_progress(
                #[trigger] observer.sent()[heard.len() + k],
                k + 1,
                total as int,
            ) by {}
        }
        i = i + 1;
    }
}

pub const COUNT_STAGING: &'static str = "select count(*) as c from yyets";

pub const STAGING_DOCUMENTS: &'static str =
    "select typeof(data) = 'text', cast(case when typeof(data) = 'text' then data else '' end as blob) from yyets";

/// What a count of the staging dataset says of its size: the number in the
/// first row, where there is a row and the number is a 32-bit number.
pub open spec fn size_in(counts: Seq<i64>) -> Option<i32> {
    if counts.len() > 0 && i32::MIN <= counts[0] <= i32::MAX {
        Some(counts[0] as i32)
    } else {
        None
    }
}

/// The size of the staging dataset, from the rows that its count returned.
///
/// It fails exactly where the count returned no row or the number counted
/// is no 32-bit number, with the error that the store gives in such a case.
pub fn dataset_size(counts: &Vec<Count>) -> (r: Result<i32, StoreError>)
    ensures
        match r {
            Ok(size) => size_in(counts.deep_view()) == Some(size),
            Err(_) => size_in(counts.deep_view()) is None,
        },
{
    if counts.len() == 0 {
        return Err(no_rows());
    }
    let count = counts[0].value;
    if count < -2147483648 || count > 2147483647 {
        Err(out_of_range(0, count))
    } else {
        Ok(count as i32)
    }
}

/// The number of rows of the staging dataset.
///
/// It fails where the store cannot count them, with the store's error, and
/// where [`dataset_size`] fails.
pub fn staging_size(gateway: &mut Gateway) -> (r: Result<i32, StoreError>)
    ensures
        asked(old(gateway).issued(), final(gateway).issued(), COUNT_STAGING@, Seq::empty()),
        match r {
            Ok(size) => listed::<Count>(final(gateway).issued().last()) matches Some(counts)
                && size_in(counts) == Some(size),
            Err(_) => listed::<Count>(final(gateway).issued().last()) matches Some(counts)
                ==> size_in(counts) is None,
        },
{
    let args: Vec<SqlArg> = Vec::new();
    assert(args.deep_view() =~= Seq::<SqlArgView>::empty());
    match list::<Count>(gateway, COUNT_STAGING, &args) {
        Err(error) => Err(error),
        Ok(counts) => dataset_size(&counts),
    }
}

/// The rows of the staging dataset in the order in which the store yields
/// them, each with the bytes of its document where it holds one as text.
pub fn staging_documents(gateway: &mut Gateway) -> (r: Result<Vec<StagingRow>, StoreError>)
    ensures
        asked(old(gateway).issued(), final(gateway).issued(), STAGING_DOCUMENTS@, Seq::empty()),
        loaded(r) == listed::<StagingRow>(final(gateway).issued().last()),
{
    let args: Vec<SqlArg> = Vec::new();
    assert(args.deep_view() =~= Seq::<SqlArgView>::empty());
    list::<StagingRow>(gateway, STAGING_DOCUMENTS, &args)
}

/// Whether `body` is the import of the records, from caches that know
/// nothing, and nothing more.
pub open spec fn is_import(records: Seq<Option<RecordDataView>>, body: Seq<Issued>) -> bool {
    read_records(records, Lookups::none(), body) matches Some((_, rest)) && rest.len() == 0
}

/// `new` is an import of the records in one transaction: the beginning of
/// the transaction and, where the store began it, the import of the records
/// and the commit, with nothing between or after them. `done` says whether
/// the store began and committed the transaction.
pub open spec fn imported(records: Seq<Option<RecordDataView>>, new: Seq<Issued>, done: bool) -> bool {
    &&& new.len() >= 1
    &&& is_begin(new[0])
    &&& if began(new[0]) {
        &&& new.len() >= 2
        &&& is_commit(new.last())
        &&& done == committed(new.last())
        &&& is_import(records, new.subrange(1, new.len() - 1))
    } else {
        new.len() == 1 && !done
    }
}

/// Imports the staging dataset into the store, in one transaction.
///
/// `total_size` is the number of rows that the staging dataset reported and
/// `records` its rows in order, a row without a readable document as `None`.
/// With no rows reported nothing is issued and nothing is reported.
/// Otherwise the transaction is begun, every row is imported and reported to
/// the observer, and the transaction is committed. The import succeeds
/// exactly where the store began and committed the transaction; where it
/// does not, the store undoes every statement of the import.
pub fn import_series(
    gateway: &mut Gateway,
    observer: &mut Observer<ResponseData<(u64, u64)>>,
    total_size: i32,
    records: &Vec<Option<RecordData>>,
) -> (r: Result<(), StoreError>)
    ensures
        old(gateway).issued().is_prefix_of(final(gateway).issued()),
        total_size <= 0 ==> r is Ok && final(gateway).issued() == old(gateway).issued()
            && final(observer).sent() == old(observer).sent(),
        total_size > 0 ==> imported(
            records.deep_view(),
            added(old(gateway).issued(), final(gateway).issued()),
            r is Ok,
        ),
        total_size > 0 ==> if began(final(gateway).issued()[old(gateway).issued().len() as int]) {
            reported(
                old(observer).sent(),
                final(observer).sent(),
                records.len() as int,
                total_size as int,
            )
        } else {
            final(observer).sent() == old(observer).sent()
        },
{
    let ghost start = gateway.issued();
    if nothing_to_import(total_size) {
        return Ok(());
    }
    let trx = match gateway.begin() {
        Ok(trx) => trx,
        Err(error) => {
            assert(added(start, gateway.issued()) =~= seq![gateway.issued().last()]);
            return Err(error);
        },
    };
    let ghost mid = gateway.issued();
    let mut lookups = Lookups::new();
    import_records(gateway, observer, total_size as u64, records, &mut lookups);
    let ghost after = gateway.issued();
    let r = gateway.commit(trx);
    proof {
        let body = added(mid, after);
        let new = added(start, gateway.issued());
        let none = Seq::<Issued>::empty();
        assert(body + none =~= body);
        assert(read_records(records.deep_view(), Lookups::none(), body + none) == Some(
            (lookups@, none),
        ));
        assert(after =~= mid + body);
        assert(new =~= seq![mid.last()] + body + seq![gateway.issued().last()]);
        assert(new.subrange(1, new.len() - 1) =~= body);
        assert(start.is_prefix_of(gateway.issued())) by {
            assert(start =~= gateway.issued().subrange(0, start.len() as int));
        }
    }
    r
}

/// `new` is a clearing of the catalog in one transaction: the beginning of
/// the transaction, then, where the store began it, the batch that empties
/// the tables and resets the counters, then, where the store ran the batch,
/// the commit. `done` says whether all three succeeded; where they did not,
/// the store undoes what the batch did.
pub open spec fn cleared(new: Seq<Issued>, done: bool) -> bool {
    &&& new.len() >= 1
    &&& is_begin(new[0])
    &&& if !began(new[0]) {
        new.len() == 1 && !done
    } else if new.len() >= 2 && is_batch(new[1], CLEAR@) {
        if ran(new[1]) {
            new.len() == 3 && is_commit(new[2]) && done == committed(new[2])
        } else {
            new.len() == 2 && !done
        }
    } else {
        false
    }
}

/// Empties every table of the catalog on a connection but the favorites, and
/// resets the counters from which the store draws the ids: all of it or
/// none of it. The batch runs inside a transaction that is committed only
/// where the whole batch ran. The result says whether the catalog was
/// emptied.
pub fn clear_on(gateway: &mut Gateway) -> (done: bool)
    ensures
        old(gateway).issued().is_prefix_of(final(gateway).issued()),
        cleared(added(old(gateway).issued(), final(gateway).issued()), done),
{
    let ghost start = gateway.issued();
    let trx = match gateway.begin() {
        Ok(trx) => trx,
        Err(_) => {
            assert(added(start, gateway.issued()) =~= seq![gateway.issued().last()]);
            return false;
        },
    };
    let ghost first = gateway.issued().last();
    let swept = gateway.run_batch(CLEAR);
    let ghost second = gateway.issued().last();
    match swept {
        Ok(()) => {
            let r = gateway.commit(trx);
            assert(added(start, gateway.issued()) =~= seq![first, second, gateway.issued().last()]);
            assert(start.is_prefix_of(gateway.issued())) by {
                assert(start =~= gateway.issued().subrange(0, start.len() as int));
            }
            r.is_ok()
        },
        Err(_) => {
            assert(added(start, gateway.issued()) =~= seq![first, second]);
            assert(start.is_prefix_of(gateway.issued())) by {
                assert(start =~= gateway.issued().subrange(0, start.len() as int));
            }
            false
        },
    }
}

/// Empties the catalog in a store, all of it or none of it, given what came
/// of opening the store. The result says whether the catalog was emptied:
/// a store that could not be opened is left alone.
pub fn clear_in(opened: Result<rusqlite::Connection, StoreError>) -> (done: bool)
    ensures
        opened is Err ==> !done,
{
    match opened {
        Ok(connection) => {
            let mut gateway = Gateway::new(&connection);
            clear_on(&mut gateway)
        },
        Err(_) => false,
    }
}

/// Empties the catalog in the store at `db`: all of it or none of it. A
/// store that cannot be opened is left alone.
pub fn clear(db: &std::path::PathBuf) {
    let _ = clear_in(connect(db));
}

/// Whether a staging dataset of the given size leaves nothing to import.
pub fn nothing_to_import(total_size: i32) -> (r: bool)
    ensures
        r == (total_size <= 0),
{
    total_size <= 0
}

/// Where the job that fills the catalog stands.
#[derive(Clone, Copy, Debug, PartialEq, Eq, Structural)]
pub enum Phase {
    /// Nothing was begun yet.
    Idle,
    /// The staging dataset is being fetched.
    Downloading,
    /// The staging dataset is being taken out of its archive.
    Unpacking,
    /// The staging dataset is being imported.
    Importing,
    /// The staging dataset is being discarded.
    Finalizing,
    /// The catalog is filled.
    Done,
    /// A step failed, and the job with it.
    Failed,
}

/// The phase that follows `phase` once its work has ended, well or not.
///
/// The job goes from fetching to unpacking to importing to discarding the
/// staging dataset, and is done then. A fetch, an unpacking or an import
/// that fails fails the job; a staging dataset that cannot be discarded
/// does not. A job that is done or has failed stays so.
pub open spec fn follows(phase: Phase, succeeded: bool) -> Phase {
    match phase {
        Phase::Idle => Phase::Downloading,
        Phase::Downloading => if succeeded {
            Phase::Unpacking
        } else {
            Phase::Failed
        },
        Phase::Unpacking => if succeeded {
            Phase::Importing
        } else {
            Phase::Failed
        },
        Phase::Importing => if succeeded {
            Phase::Finalizing
        } else {
            Phase::Failed
        },
        Phase::Finalizing => Phase::Done,
        Phase::Done => Phase::Done,
        Phase::Failed => Phase::Failed,
    }
}

/// The phase that the job enters after the work of `phase` has ended.
pub fn advance(phase: Phase, succeeded: bool) -> (r: Phase)
    ensures
        r == follows(phase, succeeded),
{
    match phase {
        Phase::Idle => Phase::Downloading,
        Phase::Downloading => if succeeded {
            Phase::Unpacking
        } else {
            Phase::Failed
        },
        Phase::Unpacking => if succeeded {
            Phase::Importing
        } else {
            Phase::Failed
        },
        Phase::Importing => if succeeded {
            Phase::Finalizing
        } else {
            Phase::Failed
        },
        Phase::Finalizing => Phase::Done,
        Phase::Done => Phase::Done,
        Phase::Failed => Phase::Failed,
    }
}

/// Whether the job has ended.
pub fn ended(phase: Phase) -> (r: bool)
    ensures
        r == (phase == Phase::Done || phase == Phase::Failed),
{
    match phase {
        Phase::Done => true,
        Phase::Failed => true,
        _ => false,
    }
}

} // verus!
