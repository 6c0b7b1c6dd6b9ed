//! The tree of a resource, rebuilt from the store level by level: one query
//! for the seasons, one for all their formats, one for all the episodes of
//! those, and one for all the links of those.

use vstd::prelude::*;
use crate::laws::law_tree_takes_four_queries;
use crate::model::Format;
use crate::model::FormatView;
use crate::model::list;
use crate::model::listed;
use crate::model::loaded;
use crate::model::Season;
use crate::model::SeasonView;
use crate::model::Series;
use crate::model::SeriesFile;
use crate::model::SeriesFileView;
use crate::model::SeriesView;
use crate::store::added;
use crate::store::asked;
use crate::store::Gateway;
use crate::store::is_query;
use crate::store::Issued;
use crate::store::SqlArg;
use crate::store::SqlArgView;
use crate::store::StoreError;

verus! {

/// The links that belong to the episode with the given id.
pub open spec fn in_series(series_id: i64) -> spec_fn(SeriesFileView) -> bool {
    |file: SeriesFileView| file.series_id == series_id
}

/// Every episode with the links that belong to it, in the order of `files`.
pub open spec fn with_files(series: Seq<SeriesView>, files: Seq<SeriesFileView>) -> Seq<SeriesView> {
    Seq::new(
        series.len(),
        |i: int| SeriesView { files: files.filter(in_series(series[i].id)), ..series[i] },
    )
}

/// The links of one episode: those of `files` that name it, in their order.
pub fn links_of(files: &Vec<SeriesFile>, series_id: i64) -> (r: Vec<SeriesFile>)
    ensures
        r.deep_view() == files.deep_view().filter(in_series(series_id)),
{
    let ghost all = files.deep_view();
    let mut out: Vec<SeriesFile> = Vec::new();
    let mut i: usize = 0;
    proof {
        reveal(Seq::filter);
    }
    while i < files.len()
        invariant
            i <= files.len(),
            all == files.deep_view(),
            out.deep_view() == all.take(i as int).filter(in_series(series_id)),
        decreases files.len() - i,
    {
        proof {
            assert(all.take(i + 1) =~= all.take(i as int).push(all[i as int]));
            all.take(i as int).lemma_filter_push(all[i as int], in_series(series_id));
        }
        if files[i].series_id == series_id {
            out.push(files[i].clone());
        }
        i = i + 1;
    }
    assert(all.take(i as int) =~= all);
    out
}

/// Gives every episode the links that belong to it.
pub fn attach_files(series: &mut Vec<Series>, files: &Vec<SeriesFile>)
    ensures
        final(series).deep_view() == with_files(old(series).deep_view(), files.deep_view()),
{
    let ghost before = series.deep_view();
    let mut i: usize = 0;
    while i < series.len()
        invariant
            i <= series.len(),
            series.len() == before.len(),
            forall|j: int|
                0 <= j < i ==> (#[trigger] series[j])@ == with_files(before, files.deep_view())[j],
            forall|j: int| i <= j < series.len() ==> (#[trigger] series[j])@ == before[j],
        decreases series.len() - i,
    {
        let links = links_of(files, series[i].id);
        series[i].files = links;
        i = i + 1;
    }
}

pub const FILES_FOR_SERIES: &'static str =
    "select f.id, f.series_id, f.address, f.password, w.name as way from files as f left join ways as w on w.id=f.way_id where f.series_id in rarray(?)";

pub const SERIES_FOR_FORMATS: &'static str =
    "select id, format_id, episode, name, size from series where format_id in rarray(?) order by episode asc";

pub const FORMATS_FOR_SEASONS: &'static str =
    "select id, season_id, format from formats where season_id in rarray(?)";

pub const SEASONS_FOR_RESOURCE: &'static str =
    "select id, season, name from seasons where resource_id=?1 order by season asc";

/// The parameters of a query for the rows under the given parents.
pub open spec fn among(ids: Seq<i64>) -> Seq<SqlArgView> {
    seq![SqlArgView::Ids(ids)]
}

fn among_ids(ids: Vec<i64>) -> (r: Vec<SqlArg>)
    ensures
        r.deep_view() == among(ids@),
{
    let mut args: Vec<SqlArg> = Vec::new();
    args.push(SqlArg::Ids(ids));
    args
}

/// Reads the query for the links of the given episodes off the front of
/// `log`. With no episode nothing is asked and there are no links. The
/// result is the links, or nothing where the query failed, and the rest of
/// the log; it is nothing at all where the log does not start so.
pub open spec fn trace_files(series_ids: Seq<i64>, log: Seq<Issued>) -> Option<
    (Option<Seq<SeriesFileView>>, Seq<Issued>),
> {
    if series_ids.len() == 0 {
        Some((Some(Seq::empty()), log))
    } else if log.len() > 0 && is_query(log[0], FILES_FOR_SERIES@, among(series_ids)) {
        Some((listed::<SeriesFile>(log[0]), log.drop_first()))
    } else {
        None
    }
}

/// The links of the given episodes, with one query; with no episode, no
/// links and no query.
pub fn files_for_series(gateway: &mut Gateway, series_ids: Vec<i64>) -> (r: Result<
    Vec<SeriesFile>,
    StoreError,
>)
    ensures
        old(gateway).issued().is_prefix_of(final(gateway).issued()),
        forall|tail: Seq<Issued>| #[trigger]
            trace_files(series_ids@, added(old(gateway).issued(), final(gateway).issued()) + tail)
                == Some((loaded(r), tail)),
{
    if series_ids.len() == 0 {
        let none: Vec<SeriesFile> = Vec::new();
        return Ok(none);
    }
    let args = among_ids(series_ids);
    list::<SeriesFile>(gateway, FILES_FOR_SERIES, &args)
}

/// The ids of the episodes, in their order.
pub open spec fn series_ids(series: Seq<SeriesView>) -> Seq<i64> {
    Seq::new(series.len(), |i: int| series[i].id)
}

fn ids_of_series(series: &Vec<Series>) -> (r: Vec<i64>)
    ensures
        r@ == series_ids(series.deep_view()),
{
    let mut ids: Vec<i64> = Vec::new();
    let mut i: usize = 0;
    while i < series.len()
        invariant
            i <= series.len(),
            ids.len() == i,
            forall|j: int| 0 <= j < i ==> ids[j] == (#[trigger] series[j]).id,
        decreases series.len() - i,
    {
        ids.push(series[i].id);
        i = i + 1;
    }
    ids
}

/// Reads the queries for the episodes of the given formats off the front of
/// `log`: the query for the episodes and then, for their links, what
/// [`trace_files`] reads. Where the query for the links failed the episodes
/// stay without links. With no format nothing is asked.
pub open spec fn trace_series(format_ids: Seq<i64>, log: Seq<Issued>) -> Option<
    (Option<Seq<SeriesView>>, Seq<Issued>),
> {
    if format_ids.len() == 0 {
        Some((Some(Seq::empty()), log))
    } else if log.len() > 0 && is_query(log[0], SERIES_FOR_FORMATS@, among(format_ids)) {
        match listed::<Series>(log[0]) {
            None => Some((None, log.drop_first())),
            Some(series) => match trace_files(series_ids(series), log.drop_first()) {
                None => None,
                Some((Some(files), rest)) => Some((Some(with_files(series, files)), rest)),
                Some((None, rest)) => Some((Some(series), rest)),
            },
        }
    } else {
        None
    }
}

/// What [`trace_series`] reads of a log that holds the query for the
/// episodes, which returned `bare`, and then what [`trace_files`] reads
/// for the links below them.
proof fn lemma_series_traced(
    wanted: Seq<i64>,
    start: Seq<Issued>,
    mid: Seq<Issued>,
    end: Seq<Issued>,
    bare: Seq<SeriesView>,
    below: Option<Seq<SeriesFileView>>,
)
    requires
        wanted.len() > 0,
        asked(start, mid, SERIES_FOR_FORMATS@, among(wanted)),
        listed::<Series>(mid.last()) == Some(bare),
        mid.is_prefix_of(end),
        forall|tail: Seq<Issued>| #[trigger]
            trace_files(series_ids(bare), added(mid, end) + tail) == Some((below, tail)),
    ensures
        start.is_prefix_of(end),
        forall|tail: Seq<Issued>| #[trigger]
            trace_series(wanted, added(start, end) + tail) == Some(
                (
                    Some(
                        match below {
                            Some(rows) => with_files(bare, rows),
                            None => bare,
                        },
                    ),
                    tail,
                ),
            ),
{
    assert(start =~= mid.drop_last());
    assert(start.is_prefix_of(end)) by {
        assert(start =~= end.subrange(0, start.len() as int));
    }
    assert forall|tail: Seq<Issued>| #[trigger]
        trace_series(wanted, added(start, end) + tail) == Some(
            (
                Some(
                    match below {
                        Some(rows) => with_files(bare, rows),
                        None => bare,
                    },
                ),
                tail,
            ),
        ) by {
        let log = added(start, end) + tail;
        assert(log[0] == mid.last());
        assert(log.drop_first() =~= added(mid, end) + tail);
        assert(trace_files(series_ids(bare), added(mid, end) + tail) == Some((below, tail)));
    }
}

/// What [`trace_series`] reads of a log that holds the query for the
/// episodes and nothing else, where the query failed.
proof fn lemma_series_failed(wanted: Seq<i64>, start: Seq<Issued>, end: Seq<Issued>)
    requires
        wanted.len() > 0,
        asked(start, end, SERIES_FOR_FORMATS@, among(wanted)),
        listed::<Series>(end.last()) is None,
    ensures
        start.is_prefix_of(end),
        forall|tail: Seq<Issued>| #[trigger]
            trace_series(wanted, added(start, end) + tail) == Some(
                (None::<Seq<SeriesView>>, tail),
            ),
{
    assert(start =~= end.drop_last());
    assert(start.is_prefix_of(end)) by {
        assert(start =~= end.subrange(0, start.len() as int));
    }
    assert forall|tail: Seq<Issued>| #[trigger]
        trace_series(wanted, added(start, end) + tail) == Some(
            (None::<Seq<SeriesView>>, tail),
        ) by {
        let log = added(start, end) + tail;
        assert(log[0] == end.last());
        assert(log.drop_first() =~= tail);
    }
}

/// The episodes of the given formats in the order of their numbers, each
/// with its links: one query for the episodes and one for all their links.
pub fn series_for_formats(gateway: &mut Gateway, format_ids: Vec<i64>) -> (r: Result<
    Vec<Series>,
    StoreError,
>)
    ensures
        old(gateway).issued().is_prefix_of(final(gateway).issued()),
        forall|tail: Seq<Issued>| #[trigger]
            trace_series(format_ids@, added(old(gateway).issued(), final(gateway).issued()) + tail)
                == Some((loaded(r), tail)),
{
    let ghost start = gateway.issued();
    let ghost wanted = format_ids@;
    if format_ids.len() == 0 {
        let none: Vec<Series> = Vec::new();
        return Ok(none);
    }
    let args = among_ids(format_ids);
    let listing = list::<Series>(gateway, SERIES_FOR_FORMATS, &args);
    let ghost mid = gateway.issued();
    match listing {
        Err(error) => {
            proof {
                lemma_series_failed(wanted, start, mid);
            }
            Err(error)
        },
        Ok(mut series) => {
            let ghost bare = series.deep_view();
            let ids = ids_of_series(&series);
            let links = files_for_series(gateway, ids);
            match &links {
                Ok(files) => {
                    attach_files(&mut series, files);
                },
                Err(_) => {},
            }
            proof {
                lemma_series_traced(wanted, start, mid, gateway.issued(), bare, loaded(links));
            }
            Ok(series)
        },
    }
}

/// The episodes that belong to the format with the given id.
pub open spec fn in_format(format_id: i64) -> spec_fn(SeriesView) -> bool {
    |series: SeriesView| series.format_id == format_id
}

/// Every format with the episodes that belong to it, in the order of
/// `series`.
pub open spec fn with_series(formats: Seq<FormatView>, series: Seq<SeriesView>) -> Seq<FormatView> {
    Seq::new(
        formats.len(),
        |i: int| FormatView { series: series.filter(in_format(formats[i].id)), ..formats[i] },
    )
}

/// The episodes of one format: those of `series` that name it, in their
/// order.
pub fn episodes_of(series: &Vec<Series>, format_id: i64) -> (r: Vec<Series>)
    ensures
        r.deep_view() == series.deep_view().filter(in_format(format_id)),
{
    let ghost all = series.deep_view();
    let mut out: Vec<Series> = Vec::new();
    let mut i: usize = 0;
    proof {
        reveal(Seq::filter);
    }
    while i < series.len()
        invariant
            i <= series.len(),
            all == series.deep_view(),
            out.deep_view() == all.take(i as int).filter(in_format(format_id)),
        decreases series.len() - i,
    {
        proof {
            assert(all.take(i + 1) =~= all.take(i as int).push(all[i as int]));
            all.take(i as int).lemma_filter_push(all[i as int], in_format(format_id));
        }
        if series[i].format_id == format_id {
            out.push(series[i].clone());
        }
        i = i + 1;
    }
    assert(all.take(i as int) =~= all);
    out
}

/// Gives every format the episodes that belong to it.
pub fn attach_series(formats: &mut Vec<Format>, series: &Vec<Series>)
    ensures
        final(formats).deep_view() == with_series(old(formats).deep_view(), series.deep_view()),
{
    let ghost before = formats.deep_view();
    let mut i: usize = 0;
    while i < formats.len()
        invariant
            i <= formats.len(),
            formats.len() == before.len(),
            forall|j: int|
                0 <= j < i ==> (#[trigger] formats[j])@ == with_series(before, series.deep_view())[j],
            forall|j: int| i <= j < formats.len() ==> (#[trigger] formats[j])@ == before[j],
        decreases formats.len() - i,
    {
        let episodes = episodes_of(series, formats[i].id);
        formats[i].series = episodes;
        i = i + 1;
    }
}

/// The ids of the formats, in their order.
pub open spec fn format_ids(formats: Seq<FormatView>) -> Seq<i64> {
    Seq::new(formats.len(), |i: int| formats[i].id)
}

fn ids_of_formats(formats: &Vec<Format>) -> (r: Vec<i64>)
    ensures
        r@ == format_ids(formats.deep_view()),
{
    let mut ids: Vec<i64> = Vec::new();
    let mut i: usize = 0;
    while i < formats.len()
        invariant
            i <= formats.len(),
            ids.len() == i,
            forall|j: int| 0 <= j < i ==> ids[j] == (#[trigger] formats[j]).id,
        decreases formats.len() - i,
    {
        ids.push(formats[i].id);
        i = i + 1;
    }
    ids
}

/// Reads the queries for the formats of the given seasons off the front of
/// `log`: the query for the formats and then, for their episodes, what
/// [`trace_series`] reads. Where the episodes could not be read the formats
/// stay without episodes. With no season nothing is asked.
pub open spec fn trace_formats(season_ids: Seq<i64>, log: Seq<Issued>) -> Option<
    (Option<Seq<FormatView>>, Seq<Issued>),
> {
    if season_ids.len() == 0 {
        Some((Some(Seq::empty()), log))
    } else if log.len() > 0 && is_query(log[0], FORMATS_FOR_SEASONS@, among(season_ids)) {
        match listed::<Format>(log[0]) {
            None => Some((None, log.drop_first())),
            Some(formats) => match trace_series(format_ids(formats), log.drop_first()) {
                None => None,
                Some((Some(series), rest)) => Some((Some(with_series(formats, series)), rest)),
                Some((None, rest)) => Some((Some(formats), rest)),
            },
        }
    } else {
        None
    }
}

/// What [`trace_formats`] reads of a log that holds the query for the
/// formats, which returned `bare`, and then what [`trace_series`] reads
/// for the episodes below them.
proof fn lemma_formats_traced(
    wanted: Seq<i64>,
    start: Seq<Issued>,
    mid: Seq<Issued>,
    end: Seq<Issued>,
    bare: Seq<FormatView>,
    below: Option<Seq<SeriesView>>,
)
    requires
        wanted.len() > 0,
        asked(start, mid, FORMATS_FOR_SEASONS@, among(wanted)),
        listed::<Format>(mid.last()) == Some(bare),
        mid.is_prefix_of(end),
        forall|tail: Seq<Issued>| #[trigger]
            trace_series(format_ids(bare), added(mid, end) + tail) == Some((below, tail)),
    ensures
        start.is_prefix_of(end),
        forall|tail: Seq<Issued>| #[trigger]
            trace_formats(wanted, added(start, end) + tail) == Some(
                (
                    Some(
                        match below {
                            Some(rows) => with_series(bare, rows),
                            None => bare,
                        },
                    ),
                    tail,
                ),
            ),
{
    assert(start =~= mid.drop_last());
    assert(start.is_prefix_of(end)) by {
        assert(start =~= end.subrange(0, start.len() as int));
    }
    assert forall|tail: Seq<Issued>| #[trigger]
        trace_formats(wanted, added(start, end) + tail) == Some(
            (
                Some(
                    match below {
                        Some(rows) => with_series(bare, rows),
                        None => bare,
                    },
                ),
                tail,
            ),
        ) by {
        let log = added(start, end) + tail;
        assert(log[0] == mid.last());
        assert(log.drop_first() =~= added(mid, end) + tail);
        assert(trace_series(format_ids(bare), added(mid, end) + tail) == Some((below, tail)));
    }
}

/// What [`trace_formats`] reads of a log that holds the query for the
/// formats and nothing else, where the query failed.
proof fn lemma_formats_failed(wanted: Seq<i64>, start: Seq<Issued>, end: Seq<Issued>)
    requires
        wanted.len() > 0,
        asked(start, end, FORMATS_FOR_SEASONS@, among(wanted)),
        listed::<Format>(end.last()) is None,
    ensures
        start.is_prefix_of(end),
        forall|tail: Seq<Issued>| #[trigger]
            trace_formats(wanted, added(start, end) + tail) == Some(
                (None::<Seq<FormatView>>, tail),
            ),
{
    assert(start =~= end.drop_last());
    assert(start.is_prefix_of(end)) by {
        assert(start =~= end.subrange(0, start.len() as int));
    }
    assert forall|tail: Seq<Issued>| #[trigger]
        trace_formats(wanted, added(start, end) + tail) == Some(
            (None::<Seq<FormatView>>, tail),
        ) by {
        let log = added(start, end) + tail;
        assert(log[0] == end.last());
        assert(log.drop_first() =~= tail);
    }
}

/// The formats of the given seasons, each with its episodes: one query for
/// the formats, and for what hangs below them what [`series_for_formats`]
/// asks.
pub fn formats_for_seasons(gateway: &mut Gateway, season_ids: Vec<i64>) -> (r: Result<
    Vec<Format>,
    StoreError,
>)
    ensures
        old(gateway).issued().is_prefix_of(final(gateway).issued()),
        forall|tail: Seq<Issued>| #[trigger]
            trace_formats(season_ids@, added(old(gateway).issued(), final(gateway).issued()) + tail)
                == Some((loaded(r), tail)),
{
    let ghost start = gateway.issued();
    let ghost wanted = season_ids@;
    if season_ids.len() == 0 {
        let none: Vec<Format> = Vec::new();
        return Ok(none);
    }
    let args = among_ids(season_ids);
    let listing = list::<Format>(gateway, FORMATS_FOR_SEASONS, &args);
    let ghost mid = gateway.issued();
    match listing {
        Err(error) => {
            proof {
                lemma_formats_failed(wanted, start, mid);
            }
            Err(error)
        },
        Ok(mut formats) => {
            let ghost bare = formats.deep_view();
            let ids = ids_of_formats(&formats);
            let episodes = series_for_formats(gateway, ids);
            match &episodes {
                Ok(series) => {
                    attach_series(&mut formats, series);
                },
                Err(_) => {},
            }
            proof {
                lemma_formats_traced(wanted, start, mid, gateway.issued(), bare, loaded(episodes));
            }
            Ok(formats)
        },
    }
}

/// The formats that belong to the season with the given id.
pub open spec fn in_season(season_id: i64) -> spec_fn(FormatView) -> bool {
    |format: FormatView| format.season_id == season_id
}

/// Every season with the formats that belong to it, in the order of
/// `formats`.
pub open spec fn with_formats(seasons: Seq<SeasonView>, formats: Seq<FormatView>) -> Seq<SeasonView> {
    Seq::new(
        seasons.len(),
        |i: int| SeasonView { formats: formats.filter(in_season(seasons[i].id)), ..seasons[i] },
    )
}

/// The formats of one season: those of `formats` that name it, in their
/// order.
pub fn formats_of(formats: &Vec<Format>, season_id: i64) -> (r: Vec<Format>)
    ensures
        r.deep_view() == formats.deep_view().filter(in_season(season_id)),
{
    let ghost all = formats.deep_view();
    let mut out: Vec<Format> = Vec::new();
    let mut i: usize = 0;
    proof {
        reveal(Seq::filter);
    }
    while i < formats.len()
        invariant
            i <= formats.len(),
            all == formats.deep_view(),
            out.deep_view() == all.take(i as int).filter(in_season(season_id)),
        decreases formats.len() - i,
    {
        proof {
            assert(all.take(i + 1) =~= all.take(i as int).push(all[i as int]));
            all.take(i as int).lemma_filter_push(all[i as int], in_season(season_id));
        }
        if formats[i].season_id == season_id {
            out.push(formats[i].clone());
        }
        i = i + 1;
    }
    assert(all.take(i as int) =~= all);
    out
}

/// Gives every season the formats that belong to it.
pub fn attach_formats(seasons: &mut Vec<Season>, formats: &Vec<Format>)
    ensures
        final(seasons).deep_view() == with_formats(old(seasons).deep_view(), formats.deep_view()),
{
    let ghost before = seasons.deep_view();
    let mut i: usize = 0;
    while i < seasons.len()
        invariant
            i <= seasons.len(),
            seasons.len() == before.len(),
            forall|j: int|
                0 <= j < i ==> (#[trigger] seasons[j])@ == with_formats(
                    before,
                    formats.deep_view(),
                )[j],
            forall|j: int| i <= j < seasons.len() ==> (#[trigger] seasons[j])@ == before[j],
        decreases seasons.len() - i,
    {
        let own = formats_of(formats, seasons[i].id);
        seasons[i].formats = own;
        i = i + 1;
    }
}

/// The ids of the seasons, in their order.
pub open spec fn season_ids(seasons: Seq<SeasonView>) -> Seq<i64> {
    Seq::new(seasons.len(), |i: int| seasons[i].id)
}

fn ids_of_seasons(seasons: &Vec<Season>) -> (r: Vec<i64>)
    ensures
        r@ == season_ids(seasons.deep_view()),
{
    let mut ids: Vec<i64> = Vec::new();
    let mut i: usize = 0;
    while i < seasons.len()
        invariant
            i <= seasons.len(),
            ids.len() == i,
            forall|j: int| 0 <= j < i ==> ids[j] == (#[trigger] seasons[j]).id,
        decreases seasons.len() - i,
    {
        ids.push(seasons[i].id);
        i = i + 1;
    }
    ids
}

/// The parameters of a statement about one row, by its id.
pub open spec fn about(id: i64) -> Seq<SqlArgView> {
    seq![SqlArgView::Integer(id)]
}

pub(crate) fn about_id(id: i64) -> (r: Vec<SqlArg>)
    ensures
        r.deep_view() == about(id),
{
    let mut args: Vec<SqlArg> = Vec::new();
    args.push(SqlArg::Integer(id));
    args
}

/// Reads the queries for the tree of a resource off the front of `log`: the
/// query for its seasons and then, for their formats, what
/// [`trace_formats`] reads. Where the formats could not be read the seasons
/// stay without formats.
pub open spec fn trace_seasons(resource_id: i64, log: Seq<Issued>) -> Option<
    (Option<Seq<SeasonView>>, Seq<Issued>),
> {
    if log.len() > 0 && is_query(log[0], SEASONS_FOR_RESOURCE@, about(resource_id)) {
        match listed::<Season>(log[0]) {
            None => Some((None, log.drop_first())),
            Some(seasons) => match trace_formats(season_ids(seasons), log.drop_first()) {
                None => None,
                Some((Some(formats), rest)) => Some((Some(with_formats(seasons, formats)), rest)),
                Some((None, rest)) => Some((Some(seasons), rest)),
            },
        }
    } else {
        None
    }
}

/// What [`trace_seasons`] reads of a log that holds the query for the
/// seasons, which returned `bare`, and then what [`trace_formats`] reads
/// for the formats below them.
proof fn lemma_seasons_traced(
    wanted: i64,
    start: Seq<Issued>,
    mid: Seq<Issued>,
    end: Seq<Issued>,
    bare: Seq<SeasonView>,
    below: Option<Seq<FormatView>>,
)
    requires
        asked(start, mid, SEASONS_FOR_RESOURCE@, about(wanted)),
        listed::<Season>(mid.last()) == Some(bare),
        mid.is_prefix_of(end),
        forall|tail: Seq<Issued>| #[trigger]
            trace_formats(season_ids(bare), added(mid, end) + tail) == Some((below, tail)),
    ensures
        start.is_prefix_of(end),
        forall|tail: Seq<Issued>| #[trigger]
            trace_seasons(wanted, added(start, end) + tail) == Some(
                (
                    Some(
                        match below {
                            Some(rows) => with_formats(bare, rows),
                            None => bare,
                        },
                    ),
                    tail,
                ),
            ),
{
    assert(start =~= mid.drop_last());
    assert(start.is_prefix_of(end)) by {
        assert(start =~= end.subrange(0, start.len() as int));
    }
    assert forall|tail: Seq<Issued>| #[trigger]
        trace_seasons(wanted, added(start, end) + tail) == Some(
            (
                Some(
                    match below {
                        Some(rows) => with_formats(bare, rows),
                        None => bare,
                    },
                ),
                tail,
            ),
        ) by {
        let log = added(start, end) + tail;
        assert(log[0] == mid.last());
        assert(log.drop_first() =~= added(mid, end) + tail);
        assert(trace_formats(season_ids(bare), added(mid, end) + tail) == Some((below, tail)));
    }
}

/// What [`trace_seasons`] reads of a log that holds the query for the
/// seasons and nothing else, where the query failed.
proof fn lemma_seasons_failed(wanted: i64, start: Seq<Issued>, end: Seq<Issued>)
    requires
        asked(start, end, SEASONS_FOR_RESOURCE@, about(wanted)),
        listed::<Season>(end.last()) is None,
    ensures
        start.is_prefix_of(end),
        forall|tail: Seq<Issued>| #[trigger]
            trace_seasons(wanted, added(start, end) + tail) == Some(
                (None::<Seq<SeasonView>>, tail),
            ),
{
    assert(start =~= end.drop_last());
    assert(start.is_prefix_of(end)) by {
        assert(start =~= end.subrange(0, start.len() as int));
    }
    assert forall|tail: Seq<Issued>| #[trigger]
        trace_seasons(wanted, added(start, end) + tail) == Some(
            (None::<Seq<SeasonView>>, tail),
        ) by {
        let log = added(start, end) + tail;
        assert(log[0] == end.last());
        assert(log.drop_first() =~= tail);
    }
}

/// The seasons of a resource in the order of their numbers, each with its
/// formats, episodes and links: one query for each level of the tree, and
/// none for the levels below an empty one.
pub fn seasons_for_resource(gateway: &mut Gateway, resource_id: i64) -> (r: Result<
    Vec<Season>,
    StoreError,
>)
    ensures
        old(gateway).issued().is_prefix_of(final(gateway).issued()),
        forall|tail: Seq<Issued>| #[trigger]
            trace_seasons(resource_id, added(old(gateway).issued(), final(gateway).issued()) + tail)
                == Some((loaded(r), tail)),
        old(gateway).issued().len() < final(gateway).issued().len() <= old(gateway).issued().len()
            + 4,
{
    let ghost start = gateway.issued();
    let args = about_id(resource_id);
    let listing = list::<Season>(gateway, SEASONS_FOR_RESOURCE, &args);
    let ghost mid = gateway.issued();
    let r = match listing {
        Err(error) => {
            proof {
                lemma_seasons_failed(resource_id, start, mid);
            }
            Err(error)
        },
        Ok(mut seasons) => {
            let ghost bare = seasons.deep_view();
            let ids = ids_of_seasons(&seasons);
            let below_them = formats_for_seasons(gateway, ids);
            match &below_them {
                Ok(formats) => {
                    attach_formats(&mut seasons, formats);
                },
                Err(_) => {},
            }
            proof {
                lemma_seasons_traced(
                    resource_id,
                    start,
                    mid,
                    gateway.issued(),
                    bare,
                    loaded(below_them),
                );
            }
            Ok(seasons)
        },
    };
    proof {
        let new = added(start, gateway.issued());
        let none = Seq::<Issued>::empty();
        law_tree_takes_four_queries(resource_id, new + none);
    }
    r
}

} // verus!
