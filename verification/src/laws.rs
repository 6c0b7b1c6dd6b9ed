//! What holds of the catalog whatever the store answers.

use vstd::prelude::*;
use crate::api::begun;
use crate::api::enriched;
use crate::api::held;
use crate::api::is_handed;
use crate::api::Pending;
use crate::api::trace_resource;
use crate::api::update_args;
use crate::douban::SubjectView;
use crate::initialize::distinct_names;
use crate::initialize::follows;
use crate::initialize::Phase;
use crate::initialize::INSERT_FILE;
use crate::initialize::INSERT_FORMAT;
use crate::initialize::INSERT_RESOURCE;
use crate::initialize::INSERT_SEASON;
use crate::initialize::INSERT_SERIES;
use crate::initialize::lemma_lookup_keeps_distinct;
use crate::initialize::lemma_name_index;
use crate::initialize::lookup_insert;
use crate::initialize::LookupsView;
use crate::initialize::name_index;
use crate::initialize::NameOnlyView;
use crate::initialize::read_files;
use crate::initialize::read_formats;
use crate::initialize::read_lookup;
use crate::initialize::read_record;
use crate::initialize::read_records;
use crate::initialize::read_seasons;
use crate::initialize::read_series;
use crate::model::FormatView;
use crate::model::listed;
use crate::model::ResourceView;
use crate::model::Season;
use crate::model::SeasonView;
use crate::model::SeriesFileView;
use crate::model::SeriesView;
use crate::store::Issued;
use crate::store::Reply;
use crate::store::row_of;
use crate::store::SqlArgView;
use crate::text::lemma_trimmed_idempotent;
use crate::text::trimmed;
use crate::tree::format_ids;
use crate::tree::in_format;
use crate::tree::in_season;
use crate::tree::in_series;
use crate::tree::season_ids;
use crate::tree::series_ids;
use crate::tree::trace_files;
use crate::tree::trace_formats;
use crate::tree::trace_seasons;
use crate::tree::trace_series;
use crate::tree::with_files;
use crate::tree::with_formats;
use crate::tree::with_series;
use crate::yyets::DataView;
use crate::yyets::group_index;
use crate::yyets::ItemGroupView;
use crate::yyets::ItemView;
use crate::yyets::RecordDataView;
use crate::yyets::YYeTsFileView;
use crate::yyets::YYeTsSeasonView;

verus! {

/// `rest` is what is left of `log` after at most `most` statements were
/// read off its front.
pub open spec fn took_at_most(log: Seq<Issued>, rest: Seq<Issued>, most: int) -> bool {
    &&& rest.len() <= log.len() <= rest.len() + most
    &&& rest == log.skip(log.len() - rest.len())
}

/// The links of any number of episodes take at most one query.
pub proof fn law_links_take_one_query(series_ids: Seq<i64>, log: Seq<Issued>)
    requires
        trace_files(series_ids, log) is Some,
    ensures
        took_at_most(log, trace_files(series_ids, log).unwrap().1, 1),
{
    let rest = trace_files(series_ids, log).unwrap().1;
    assert(rest =~= log.skip(log.len() - rest.len()));
}

/// The episodes of any number of formats, with their links, take at most
/// two queries.
pub proof fn law_episodes_take_two_queries(format_ids: Seq<i64>, log: Seq<Issued>)
    requires
        trace_series(format_ids, log) is Some,
    ensures
        took_at_most(log, trace_series(format_ids, log).unwrap().1, 2),
{
    let rest = trace_series(format_ids, log).unwrap().1;
    assert(rest =~= log.skip(log.len() - rest.len()));
}

/// The formats of any number of seasons, with all below them, take at most
/// three queries.
pub proof fn law_formats_take_three_queries(season_ids: Seq<i64>, log: Seq<Issued>)
    requires
        trace_formats(season_ids, log) is Some,
    ensures
        took_at_most(log, trace_formats(season_ids, log).unwrap().1, 3),
{
    let rest = trace_formats(season_ids, log).unwrap().1;
    assert(rest =~= log.skip(log.len() - rest.len()));
}

/// The tree of a resource takes at least one and at most four queries, one
/// for each of its levels, however many seasons, formats, episodes and links
/// it has.
pub proof fn law_tree_takes_four_queries(resource_id: i64, log: Seq<Issued>)
    requires
        trace_seasons(resource_id, log) is Some,
    ensures
        took_at_most(log, trace_seasons(resource_id, log).unwrap().1, 4),
        trace_seasons(resource_id, log).unwrap().1.len() < log.len(),
{
    let rest = trace_seasons(resource_id, log).unwrap().1;
    assert(rest =~= log.skip(log.len() - rest.len()));
}

/// The load of a resource takes at most six statements: the resource's row,
/// the count of its favorite marks, and the four levels of its tree.
pub proof fn law_load_takes_six_statements(id: i64, log: Seq<Issued>)
    requires
        trace_resource(id, log) is Some,
    ensures
        took_at_most(log, trace_resource(id, log).unwrap().1, 6),
{
    let rest = trace_resource(id, log).unwrap().1;
    assert(rest =~= log.skip(log.len() - rest.len()));
}

/// A name that a lookup has left in the cache is resolved from the cache
/// from then on: a later lookup of any text with the same trimmed name, in
/// whatever table, asks the store nothing, changes nothing and gives the
/// same id.
pub proof fn law_lookup_resolves_once(
    table: Seq<char>,
    item: Seq<char>,
    cache: Seq<NameOnlyView>,
    log: Seq<Issued>,
    again: Seq<char>,
    later: Seq<Issued>,
)
    requires
        read_lookup(table, item, cache, log) is Some,
        name_index(read_lookup(table, item, cache, log).unwrap().1, trimmed(item)) < read_lookup(
            table,
            item,
            cache,
            log,
        ).unwrap().1.len(),
        trimmed(again) == trimmed(item),
    ensures
        read_lookup(table, again, read_lookup(table, item, cache, log).unwrap().1, later) == Some(
            (
                read_lookup(table, item, cache, log).unwrap().0,
                read_lookup(table, item, cache, log).unwrap().1,
                later,
            ),
        ),
{
    let name = trimmed(item);
    let (_, known, _) = read_lookup(table, item, cache, log).unwrap();
    lemma_name_index(cache, name);
    lemma_name_index(known, name);
}

/// A lookup that added a row leaves the name in the cache; one that found
/// the name there leaves the cache as it was.
pub proof fn law_lookup_remembers(
    table: Seq<char>,
    item: Seq<char>,
    cache: Seq<NameOnlyView>,
    log: Seq<Issued>,
)
    requires
        read_lookup(table, item, cache, log) is Some,
    ensures
        ({
            let (id, known, rest) = read_lookup(table, item, cache, log).unwrap();
            &&& name_index(cache, trimmed(item)) < cache.len() ==> known == cache && rest == log
            &&& known != cache ==> name_index(known, trimmed(item)) == cache.len() && known[cache.len() as int].id
                == id
            &&& name_index(known, trimmed(item)) >= known.len() ==> id == 0
        }),
{
    let name = trimmed(item);
    let (_, known, _) = read_lookup(table, item, cache, log).unwrap();
    lemma_name_index(cache, name);
    lemma_name_index(known, name);
    lemma_trimmed_idempotent(item);
    if known != cache {
        assert(trimmed(known[cache.len() as int].name) == name);
    }
}

/// The import of the links of an episode keeps the names of the delivery
/// ways apart: a cache without two entries of one trimmed name stays so, and
/// the cache only grows at its end.
pub proof fn law_links_keep_names_apart(
    series_id: i64,
    files: Seq<YYeTsFileView>,
    ways: Seq<NameOnlyView>,
    log: Seq<Issued>,
)
    requires
        read_files(series_id, files, ways, log) is Some,
    ensures
        ways.is_prefix_of(read_files(series_id, files, ways, log).unwrap().0),
        distinct_names(ways) ==> distinct_names(read_files(series_id, files, ways, log).unwrap().0),
    decreases files.len(),
{
    if files.len() > 0 {
        let (_, known, rest) = read_lookup("ways"@, files[0].way_cn, ways, log).unwrap();
        lemma_lookup_keeps_distinct("ways"@, files[0].way_cn, ways, log);
        law_links_keep_names_apart(series_id, files.drop_first(), known, rest.drop_first());
    }
}

/// The import of the episodes of a format keeps the names of the delivery
/// ways apart.
pub proof fn law_episodes_keep_names_apart(
    format_id: i64,
    items: Seq<ItemView>,
    ways: Seq<NameOnlyView>,
    log: Seq<Issued>,
)
    requires
        read_series(format_id, items, ways, log) is Some,
    ensures
        ways.is_prefix_of(read_series(format_id, items, ways, log).unwrap().0),
        distinct_names(ways) ==> distinct_names(read_series(format_id, items, ways, log).unwrap().0),
    decreases items.len(),
{
    if items.len() > 0 {
        match (row_of(log[0]), items[0].files) {
            (Some(series_id), Some(files)) => {
                law_links_keep_names_apart(series_id, files, ways, log.drop_first());
                let (known, rest) = read_files(series_id, files, ways, log.drop_first()).unwrap();
                law_episodes_keep_names_apart(format_id, items.drop_first(), known, rest);
            },
            _ => {
                law_episodes_keep_names_apart(format_id, items.drop_first(), ways, log.drop_first());
            },
        }
    }
}

/// The import of the formats of a season keeps the names of the delivery
/// ways apart.
pub proof fn law_formats_keep_names_apart(
    season_id: i64,
    formats: Seq<Seq<char>>,
    groups: Seq<ItemGroupView>,
    ways: Seq<NameOnlyView>,
    log: Seq<Issued>,
)
    requires
        read_formats(season_id, formats, groups, ways, log) is Some,
    ensures
        ways.is_prefix_of(read_formats(season_id, formats, groups, ways, log).unwrap().0),
        distinct_names(ways) ==> distinct_names(
            read_formats(season_id, formats, groups, ways, log).unwrap().0,
        ),
    decreases formats.len(),
{
    if formats.len() > 0 {
        let at = group_index(groups, formats[0]);
        match row_of(log[0]) {
            Some(format_id) if at < groups.len() => {
                law_episodes_keep_names_apart(format_id, groups[at].items, ways, log.drop_first());
                let (known, rest) = read_series(format_id, groups[at].items, ways, log.drop_first()).unwrap();
                law_formats_keep_names_apart(season_id, formats.drop_first(), groups, known, rest);
            },
            _ => {
                law_formats_keep_names_apart(
                    season_id,
                    formats.drop_first(),
                    groups,
                    ways,
                    log.drop_first(),
                );
            },
        }
    }
}

/// The import of the seasons of a resource keeps the names of the delivery
/// ways apart.
pub proof fn law_seasons_keep_names_apart(
    resource_id: i64,
    seasons: Seq<YYeTsSeasonView>,
    ways: Seq<NameOnlyView>,
    log: Seq<Issued>,
)
    requires
        read_seasons(resource_id, seasons, ways, log) is Some,
    ensures
        ways.is_prefix_of(read_seasons(resource_id, seasons, ways, log).unwrap().0),
        distinct_names(ways) ==> distinct_names(
            read_seasons(resource_id, seasons, ways, log).unwrap().0,
        ),
    decreases seasons.len(),
{
    if seasons.len() > 0 {
        match row_of(log[0]) {
            Some(season_id) => {
                law_formats_keep_names_apart(
                    season_id,
                    seasons[0].formats,
                    seasons[0].items,
                    ways,
                    log.drop_first(),
                );
                let (known, rest) = read_formats(
                    season_id,
                    seasons[0].formats,
                    seasons[0].items,
                    ways,
                    log.drop_first(),
                ).unwrap();
                law_seasons_keep_names_apart(resource_id, seasons.drop_first(), known, rest);
            },
            None => {
                law_seasons_keep_names_apart(
                    resource_id,
                    seasons.drop_first(),
                    ways,
                    log.drop_first(),
                );
            },
        }
    }
}

/// No table of the caches holds two entries of one trimmed name.
pub open spec fn names_apart(lookups: LookupsView) -> bool {
    &&& distinct_names(lookups.areas)
    &&& distinct_names(lookups.channels)
    &&& distinct_names(lookups.ways)
}

/// Each table of `after` starts with what `before` holds of it.
pub open spec fn grown(before: LookupsView, after: LookupsView) -> bool {
    &&& before.areas.is_prefix_of(after.areas)
    &&& before.channels.is_prefix_of(after.channels)
    &&& before.ways.is_prefix_of(after.ways)
}

/// The import of a document keeps the names of every lookup table apart.
pub proof fn law_document_keeps_names_apart(data: DataView, lookups: LookupsView, log: Seq<Issued>)
    requires
        read_record(data, lookups, log) is Some,
    ensures
        grown(lookups, read_record(data, lookups, log).unwrap().0),
        names_apart(lookups) ==> names_apart(read_record(data, lookups, log).unwrap().0),
{
    let (_, channels, after_channel) = read_lookup(
        "channels"@,
        data.info.channel,
        lookups.channels,
        log,
    ).unwrap();
    lemma_lookup_keeps_distinct("channels"@, data.info.channel, lookups.channels, log);
    let (_, areas, after_area) = read_lookup(
        "areas"@,
        data.info.area,
        lookups.areas,
        after_channel,
    ).unwrap();
    lemma_lookup_keeps_distinct("areas"@, data.info.area, lookups.areas, after_channel);
    match row_of(after_area[0]) {
        Some(resource_id) => {
            law_seasons_keep_names_apart(
                resource_id,
                data.list,
                lookups.ways,
                after_area.drop_first(),
            );
        },
        None => {},
    }
}

/// The whole import keeps the names of every lookup table apart: as far as
/// the caches tell, no trimmed name gets a second row.
pub proof fn law_import_keeps_names_apart(
    records: Seq<Option<RecordDataView>>,
    lookups: LookupsView,
    log: Seq<Issued>,
)
    requires
        read_records(records, lookups, log) is Some,
    ensures
        grown(lookups, read_records(records, lookups, log).unwrap().0),
        names_apart(lookups) ==> names_apart(read_records(records, lookups, log).unwrap().0),
    decreases records.len(),
{
    if records.len() > 0 {
        match records[0] {
            Some(record) => {
                law_document_keeps_names_apart(record.data, lookups, log);
                let (known, rest) = read_record(record.data, lookups, log).unwrap();
                law_import_keeps_names_apart(records.drop_first(), known, rest);
            },
            None => {
                law_import_keeps_names_apart(records.drop_first(), lookups, log);
            },
        }
    }
}

/// The store answered the statements of `first` and of `second` alike, one
/// by one.
pub open spec fn same_answers(first: Seq<Issued>, second: Seq<Issued>) -> bool {
    &&& first.len() == second.len()
    &&& forall|k: int| 0 <= k < first.len() ==> (#[trigger] first[k]).reply == second[k].reply
}

/// The same answers give the same links.
pub proof fn law_same_answers_same_links(
    series_ids: Seq<i64>,
    first: Seq<Issued>,
    second: Seq<Issued>,
)
    requires
        trace_files(series_ids, first) is Some,
        trace_files(series_ids, second) is Some,
        same_answers(first, second),
    ensures
        trace_files(series_ids, first).unwrap().0 == trace_files(series_ids, second).unwrap().0,
        same_answers(
            trace_files(series_ids, first).unwrap().1,
            trace_files(series_ids, second).unwrap().1,
        ),
{
}

/// The same answers give the same episodes.
pub proof fn law_same_answers_same_episodes(
    format_ids: Seq<i64>,
    first: Seq<Issued>,
    second: Seq<Issued>,
)
    requires
        trace_series(format_ids, first) is Some,
        trace_series(format_ids, second) is Some,
        same_answers(first, second),
    ensures
        trace_series(format_ids, first).unwrap().0 == trace_series(format_ids, second).unwrap().0,
        same_answers(
            trace_series(format_ids, first).unwrap().1,
            trace_series(format_ids, second).unwrap().1,
        ),
{
}

/// The same answers give the same formats.
pub proof fn law_same_answers_same_formats(
    season_ids: Seq<i64>,
    first: Seq<Issued>,
    second: Seq<Issued>,
)
    requires
        trace_formats(season_ids, first) is Some,
        trace_formats(season_ids, second) is Some,
        same_answers(first, second),
    ensures
        trace_formats(season_ids, first).unwrap().0 == trace_formats(season_ids, second).unwrap().0,
        same_answers(
            trace_formats(season_ids, first).unwrap().1,
            trace_formats(season_ids, second).unwrap().1,
        ),
{
}

/// The same answers give the same seasons.
pub proof fn law_same_answers_same_seasons(
    resource_id: i64,
    first: Seq<Issued>,
    second: Seq<Issued>,
)
    requires
        trace_seasons(resource_id, first) is Some,
        trace_seasons(resource_id, second) is Some,
        same_answers(first, second),
    ensures
        trace_seasons(resource_id, first).unwrap().0 == trace_seasons(
            resource_id,
            second,
        ).unwrap().0,
        same_answers(
            trace_seasons(resource_id, first).unwrap().1,
            trace_seasons(resource_id, second).unwrap().1,
        ),
{
}

/// Loading a resource is a function of what the store answers: two loads of
/// one id that the store answers alike give the same resource with the same
/// tree, or both find nothing.
pub proof fn law_same_answers_same_resource(id: i64, first: Seq<Issued>, second: Seq<Issued>)
    requires
        trace_resource(id, first) is Some,
        trace_resource(id, second) is Some,
        same_answers(first, second),
    ensures
        trace_resource(id, first).unwrap().0 == trace_resource(id, second).unwrap().0,
{
}

/// The tree has one season for each row that the query for the seasons
/// returned, with the row's id, number and name, in the order of the rows;
/// whatever the queries for the levels below returned.
pub proof fn law_a_season_for_each_row(resource_id: i64, log: Seq<Issued>)
    requires
        trace_seasons(resource_id, log) matches Some((Some(_), _)),
    ensures
        ({
            let tree = trace_seasons(resource_id, log).unwrap().0.unwrap();
            let rows = listed::<Season>(log[0]).unwrap();
            &&& tree.len() == rows.len()
            &&& forall|i: int|
                0 <= i < tree.len() ==> (#[trigger] tree[i]).id == rows[i].id && tree[i].season
                    == rows[i].season && tree[i].name == rows[i].name
        }),
{
}

/// No two of the ids are the same.
pub open spec fn distinct_ids(ids: Seq<i64>) -> bool {
    forall|i: int, j: int| 0 <= i < j < ids.len() ==> ids[i] != ids[j]
}

/// Whether one of the seasons has the given id.
pub open spec fn has_season(seasons: Seq<SeasonView>, id: i64) -> bool {
    exists|i: int| 0 <= i < seasons.len() && seasons[i].id == id
}

/// The number of formats that the seasons show, all together.
pub open spec fn formats_shown(seasons: Seq<SeasonView>) -> int
    decreases seasons.len(),
{
    if seasons.len() == 0 {
        0
    } else {
        formats_shown(seasons.drop_last()) + seasons.last().formats.len()
    }
}

proof fn lemma_one_more_format(seasons: Seq<SeasonView>, formats: Seq<FormatView>, next: FormatView)
    requires
        distinct_ids(season_ids(seasons)),
    ensures
        formats_shown(with_formats(seasons, formats.push(next))) == formats_shown(
            with_formats(seasons, formats),
        ) + if has_season(seasons, next.season_id) {
            1int
        } else {
            0int
        },
    decreases seasons.len(),
{
    if seasons.len() > 0 {
        let head = seasons.drop_last();
        let last = seasons.last();
        assert(with_formats(seasons, formats).drop_last() =~= with_formats(head, formats));
        assert(with_formats(seasons, formats.push(next)).drop_last() =~= with_formats(
            head,
            formats.push(next),
        ));
        assert forall|i: int, j: int| 0 <= i < j < head.len() implies season_ids(head)[i]
            != season_ids(head)[j] by {
            assert(season_ids(seasons)[i] != season_ids(seasons)[j]);
        }
        lemma_one_more_format(head, formats, next);
        formats.lemma_filter_push(next, in_season(last.id));
        if last.id == next.season_id {
            if has_season(head, next.season_id) {
                let i = choose|i: int| 0 <= i < head.len() && head[i].id == next.season_id;
                assert(season_ids(seasons)[i] != season_ids(seasons)[seasons.len() - 1]);
            }
        } else {
            if has_season(seasons, next.season_id) {
                let i = choose|i: int| 0 <= i < seasons.len() && seasons[i].id == next.season_id;
                assert(head[i].id == next.season_id);
            }
        }
    }
}

proof fn lemma_no_format(seasons: Seq<SeasonView>, formats: Seq<FormatView>)
    requires
        formats.len() == 0,
    ensures
        formats_shown(with_formats(seasons, formats)) == 0,
    decreases seasons.len(),
{
    if seasons.len() > 0 {
        assert(with_formats(seasons, formats).drop_last() =~= with_formats(
            seasons.drop_last(),
            formats,
        ));
        lemma_no_format(seasons.drop_last(), formats);
    }
}

/// The tree shows every format once: where no two seasons share an id and
/// every format names one of the seasons, the seasons show as many formats,
/// all together, as there are.
pub proof fn law_every_format_is_shown(seasons: Seq<SeasonView>, formats: Seq<FormatView>)
    requires
        distinct_ids(season_ids(seasons)),
        forall|k: int| 0 <= k < formats.len() ==> has_season(seasons, (#[trigger] formats[k]).season_id),
    ensures
        with_formats(seasons, formats).len() == seasons.len(),
        formats_shown(with_formats(seasons, formats)) == formats.len(),
    decreases formats.len(),
{
    if formats.len() == 0 {
        lemma_no_format(seasons, formats);
    } else {
        let head = formats.drop_last();
        law_every_format_is_shown(seasons, head);
        assert(formats =~= head.push(formats.last()));
        lemma_one_more_format(seasons, head, formats.last());
    }
}

/// Whether one of the series has the given id.
pub open spec fn has_format(formats: Seq<FormatView>, id: i64) -> bool {
    exists|i: int| 0 <= i < formats.len() && formats[i].id == id
}

/// The number of episodes that the series show, all together.
pub open spec fn episodes_shown(formats: Seq<FormatView>) -> int
    decreases formats.len(),
{
    if formats.len() == 0 {
        0
    } else {
        episodes_shown(formats.drop_last()) + formats.last().series.len()
    }
}

proof fn lemma_one_more_episode(formats: Seq<FormatView>, series: Seq<SeriesView>, next: SeriesView)
    requires
        distinct_ids(format_ids(formats)),
    ensures
        episodes_shown(with_series(formats, series.push(next))) == episodes_shown(
            with_series(formats, series),
        ) + if has_format(formats, next.format_id) {
            1int
        } else {
            0int
        },
    decreases formats.len(),
{
    if formats.len() > 0 {
        let head = formats.drop_last();
        let last = formats.last();
        assert(with_series(formats, series).drop_last() =~= with_series(head, series));
        assert(with_series(formats, series.push(next)).drop_last() =~= with_series(
            head,
            series.push(next),
        ));
        assert forall|i: int, j: int| 0 <= i < j < head.len() implies format_ids(head)[i]
            != format_ids(head)[j] by {
            assert(format_ids(formats)[i] != format_ids(formats)[j]);
        }
        lemma_one_more_episode(head, series, next);
        series.lemma_filter_push(next, in_format(last.id));
        if last.id == next.format_id {
            if has_format(head, next.format_id) {
                let i = choose|i: int| 0 <= i < head.len() && head[i].id == next.format_id;
                assert(format_ids(formats)[i] != format_ids(formats)[formats.len() - 1]);
            }
        } else {
            if has_format(formats, next.format_id) {
                let i = choose|i: int| 0 <= i < formats.len() && formats[i].id == next.format_id;
                assert(head[i].id == next.format_id);
            }
        }
    }
}

proof fn lemma_no_episode(formats: Seq<FormatView>, series: Seq<SeriesView>)
    requires
        series.len() == 0,
    ensures
        episodes_shown(with_series(formats, series)) == 0,
    decreases formats.len(),
{
    if formats.len() > 0 {
        assert(with_series(formats, series).drop_last() =~= with_series(
            formats.drop_last(),
            series,
        ));
        lemma_no_episode(formats.drop_last(), series);
    }
}

/// The tree shows every episode once: where no two series share an id and
/// every episode names one of the series, the series show as many
/// episodes, all together, as there are.
pub proof fn law_every_episode_is_shown(formats: Seq<FormatView>, series: Seq<SeriesView>)
    requires
        distinct_ids(format_ids(formats)),
        forall|k: int| 0 <= k < series.len() ==> has_format(formats, (#[trigger] series[k]).format_id),
    ensures
        with_series(formats, series).len() == formats.len(),
        episodes_shown(with_series(formats, series)) == series.len(),
    decreases series.len(),
{
    if series.len() == 0 {
        lemma_no_episode(formats, series);
    } else {
        let head = series.drop_last();
        law_every_episode_is_shown(formats, head);
        assert(series =~= head.push(series.last()));
        lemma_one_more_episode(formats, head, series.last());
    }
}

/// Whether one of the episodes has the given id.
pub open spec fn has_episode(series: Seq<SeriesView>, id: i64) -> bool {
    exists|i: int| 0 <= i < series.len() && series[i].id == id
}

/// The number of links that the episodes show, all together.
pub open spec fn links_shown(series: Seq<SeriesView>) -> int
    decreases series.len(),
{
    if series.len() == 0 {
        0
    } else {
        links_shown(series.drop_last()) + series.last().files.len()
    }
}

proof fn lemma_one_more_link(series: Seq<SeriesView>, files: Seq<SeriesFileView>, next: SeriesFileView)
    requires
        distinct_ids(series_ids(series)),
    ensures
        links_shown(with_files(series, files.push(next))) == links_shown(
            with_files(series, files),
        ) + if has_episode(series, next.series_id) {
            1int
        } else {
            0int
        },
    decreases series.len(),
{
    if series.len() > 0 {
        let head = series.drop_last();
        let last = series.last();
        assert(with_files(series, files).drop_last() =~= with_files(head, files));
        assert(with_files(series, files.push(next)).drop_last() =~= with_files(
            head,
            files.push(next),
        ));
        assert forall|i: int, j: int| 0 <= i < j < head.len() implies series_ids(head)[i]
            != series_ids(head)[j] by {
            assert(series_ids(series)[i] != series_ids(series)[j]);
        }
        lemma_one_more_link(head, files, next);
        files.lemma_filter_push(next, in_series(last.id));
        if last.id == next.series_id {
            if has_episode(head, next.series_id) {
                let i = choose|i: int| 0 <= i < head.len() && head[i].id == next.series_id;
                assert(series_ids(series)[i] != series_ids(series)[series.len() - 1]);
            }
        } else {
            if has_episode(series, next.series_id) {
                let i = choose|i: int| 0 <= i < series.len() && series[i].id == next.series_id;
                assert(head[i].id == next.series_id);
            }
        }
    }
}

proof fn lemma_no_link(series: Seq<SeriesView>, files: Seq<SeriesFileView>)
    requires
        files.len() == 0,
    ensures
        links_shown(with_files(series, files)) == 0,
    decreases series.len(),
{
    if series.len() > 0 {
        assert(with_files(series, files).drop_last() =~= with_files(
            series.drop_last(),
            files,
        ));
        lemma_no_link(series.drop_last(), files);
    }
}

/// The tree shows every link once: where no two episodes share an id and
/// every link names one of the episodes, the episodes show as many links,
/// all together, as there are.
pub proof fn law_every_link_is_shown(series: Seq<SeriesView>, files: Seq<SeriesFileView>)
    requires
        distinct_ids(series_ids(series)),
        forall|k: int| 0 <= k < files.len() ==> has_episode(series, (#[trigger] files[k]).series_id),
    ensures
        with_files(series, files).len() == series.len(),
        links_shown(with_files(series, files)) == files.len(),
    decreases files.len(),
{
    if files.len() == 0 {
        lemma_no_link(series, files);
    } else {
        let head = files.drop_last();
        law_every_link_is_shown(series, head);
        assert(files =~= head.push(files.last()));
        lemma_one_more_link(series, head, files.last());
    }
}

/// How many rows of the catalog's tables a run of statements asks the store
/// to add, table by table.
pub struct Inserts {
    pub resources: int,
    pub seasons: int,
    pub formats: int,
    pub series: int,
    pub files: int,
}

impl Inserts {
    /// No row at all.
    pub open spec fn none() -> Inserts {
        Inserts { resources: 0, seasons: 0, formats: 0, series: 0, files: 0 }
    }

    /// The rows of both, table by table.
    pub open spec fn and(self, other: Inserts) -> Inserts {
        Inserts {
            resources: self.resources + other.resources,
            seasons: self.seasons + other.seasons,
            formats: self.formats + other.formats,
            series: self.series + other.series,
            files: self.files + other.files,
        }
    }
}

/// The row that one statement asks the store to add.
pub open spec fn insert_of(entry: Issued) -> Inserts {
    Inserts {
        resources: if entry.sql == INSERT_RESOURCE@ {
            1
        } else {
            0
        },
        seasons: if entry.sql == INSERT_SEASON@ {
            1
        } else {
            0
        },
        formats: if entry.sql == INSERT_FORMAT@ {
            1
        } else {
            0
        },
        series: if entry.sql == INSERT_SERIES@ {
            1
        } else {
            0
        },
        files: if entry.sql == INSERT_FILE@ {
            1
        } else {
            0
        },
    }
}

/// The rows that the statements of `log` ask the store to add.
pub open spec fn inserts(log: Seq<Issued>) -> Inserts
    decreases log.len(),
{
    if log.len() == 0 {
        Inserts::none()
    } else {
        insert_of(log[0]).and(inserts(log.drop_first()))
    }
}

/// The store took every insert of `log`: each added a row.
pub open spec fn all_taken(log: Seq<Issued>) -> bool {
    forall|k: int| 0 <= k < log.len() && (#[trigger] log[k]).reply is Row ==> row_of(log[k]) is Some
}

/// The rows that the links of an episode call for: one for each link.
pub open spec fn links_call_for(files: Seq<YYeTsFileView>) -> Inserts {
    Inserts { files: files.len() as int, ..Inserts::none() }
}

/// The rows that a list of episodes calls for: one for each episode and one
/// for each of its links.
pub open spec fn episodes_call_for(items: Seq<ItemView>) -> Inserts
    decreases items.len(),
{
    if items.len() == 0 {
        Inserts::none()
    } else {
        Inserts {
            series: 1,
            files: match items[0].files {
                Some(files) => files.len() as int,
                None => 0,
            },
            ..Inserts::none()
        }.and(episodes_call_for(items.drop_first()))
    }
}

/// The rows that the formats of a season call for: one for each format, and
/// for each format what the episodes listed under its label call for.
pub open spec fn formats_call_for(formats: Seq<Seq<char>>, groups: Seq<ItemGroupView>) -> Inserts
    decreases formats.len(),
{
    if formats.len() == 0 {
        Inserts::none()
    } else {
        let at = group_index(groups, formats[0]);
        Inserts { formats: 1, ..Inserts::none() }.and(
            if at < groups.len() {
                episodes_call_for(groups[at].items)
            } else {
                Inserts::none()
            },
        ).and(formats_call_for(formats.drop_first(), groups))
    }
}

/// The rows that the seasons of a document call for: one for each season,
/// and what its formats call for.
pub open spec fn seasons_call_for(seasons: Seq<YYeTsSeasonView>) -> Inserts
    decreases seasons.len(),
{
    if seasons.len() == 0 {
        Inserts::none()
    } else {
        Inserts { seasons: 1, ..Inserts::none() }.and(
            formats_call_for(seasons[0].formats, seasons[0].items),
        ).and(seasons_call_for(seasons.drop_first()))
    }
}

/// The rows that a document calls for: one resource, and what its seasons
/// call for.
pub open spec fn document_calls_for(data: DataView) -> Inserts {
    Inserts { resources: 1, ..Inserts::none() }.and(seasons_call_for(data.list))
}

/// A document calls for as many seasons as it lists.
pub proof fn law_a_season_for_each_listed(seasons: Seq<YYeTsSeasonView>)
    ensures
        seasons_call_for(seasons).seasons == seasons.len(),
        seasons_call_for(seasons).resources == 0,
    decreases seasons.len(),
{
    if seasons.len() > 0 {
        law_a_season_for_each_listed(seasons.drop_first());
        lemma_formats_call_for_no_season(seasons[0].formats, seasons[0].items);
    }
}

proof fn lemma_episodes_call_for_no_format(items: Seq<ItemView>)
    ensures
        episodes_call_for(items).formats == 0,
        episodes_call_for(items).seasons == 0,
        episodes_call_for(items).resources == 0,
        episodes_call_for(items).series == items.len(),
    decreases items.len(),
{
    if items.len() > 0 {
        lemma_episodes_call_for_no_format(items.drop_first());
    }
}

proof fn lemma_formats_call_for_no_season(formats: Seq<Seq<char>>, groups: Seq<ItemGroupView>)
    ensures
        formats_call_for(formats, groups).formats == formats.len(),
        formats_call_for(formats, groups).seasons == 0,
        formats_call_for(formats, groups).resources == 0,
    decreases formats.len(),
{
    if formats.len() > 0 {
        lemma_formats_call_for_no_season(formats.drop_first(), groups);
        let at = group_index(groups, formats[0]);
        if at < groups.len() {
            lemma_episodes_call_for_no_format(groups[at].items);
        }
    }
}

/// A season calls for as many formats as it lists, and a list of episodes
/// for as many episodes as it holds.
pub proof fn law_a_format_for_each_listed(formats: Seq<Seq<char>>, groups: Seq<ItemGroupView>)
    ensures
        formats_call_for(formats, groups).formats == formats.len(),
{
    lemma_formats_call_for_no_season(formats, groups);
}

/// A list of episodes calls for as many episodes as it holds.
pub proof fn law_an_episode_for_each_listed(items: Seq<ItemView>)
    ensures
        episodes_call_for(items).series == items.len(),
{
    lemma_episodes_call_for_no_format(items);
}

proof fn lemma_statements_differ()
    ensures
        INSERT_RESOURCE@ != INSERT_SEASON@,
        INSERT_RESOURCE@ != INSERT_FORMAT@,
        INSERT_RESOURCE@ != INSERT_SERIES@,
        INSERT_RESOURCE@ != INSERT_FILE@,
        INSERT_SEASON@ != INSERT_FORMAT@,
        INSERT_SEASON@ != INSERT_SERIES@,
        INSERT_SEASON@ != INSERT_FILE@,
        INSERT_FORMAT@ != INSERT_SERIES@,
        INSERT_FORMAT@ != INSERT_FILE@,
        INSERT_SERIES@ != INSERT_FILE@,
        forall|table: Seq<char>| insert_of(
            Issued { sql: #[trigger] lookup_insert(table), args: Seq::empty(), reply: Reply::Batch(true) },
        ) == Inserts::none(),
{
    reveal_strlit(
        "insert into resources (name, original_name, alias_name, channel_id, area_id) values (?1, ?2, ?3, ?4, ?5)",
    );
    reveal_strlit("insert into seasons (resource_id, season, name) values (?1, ?2, ?3)");
    reveal_strlit("insert into formats (season_id, format) values (?1, ?2)");
    reveal_strlit("insert into series (format_id, episode, name, size) values (?1, ?2, ?3, ?4)");
    reveal_strlit("insert into files (series_id, way_id, address, password) values (?1, ?2, ?3, ?4)");
    reveal_strlit("insert into ");
    reveal_strlit(" (name) values (?1)");
    assert forall|table: Seq<char>| insert_of(
        Issued { sql: #[trigger] lookup_insert(table), args: Seq::empty(), reply: Reply::Batch(true) },
    ) == Inserts::none() by {
        let sql = lookup_insert(table);
        let at = sql.len() - 1;
        assert(sql[at] == ')');
        assert(INSERT_RESOURCE@[INSERT_RESOURCE@.len() - 2] == '5');
        assert(INSERT_SEASON@[INSERT_SEASON@.len() - 2] == '3');
        assert(INSERT_FORMAT@[INSERT_FORMAT@.len() - 2] == '2');
        assert(INSERT_SERIES@[INSERT_SERIES@.len() - 2] == '4');
        assert(INSERT_FILE@[INSERT_FILE@.len() - 2] == '4');
    }
}

/// `rest` is the end of `log`.
pub open spec fn end_of(log: Seq<Issued>, rest: Seq<Issued>) -> bool {
    rest.len() <= log.len() && rest == log.skip(log.len() - rest.len())
}

proof fn lemma_end_of_end(log: Seq<Issued>, middle: Seq<Issued>, rest: Seq<Issued>)
    requires
        end_of(log, middle),
        end_of(middle, rest),
    ensures
        end_of(log, rest),
{
    assert(rest =~= log.skip(log.len() - rest.len()));
}

proof fn lemma_lookup_asks_for_no_row(
    table: Seq<char>,
    item: Seq<char>,
    cache: Seq<NameOnlyView>,
    log: Seq<Issued>,
)
    requires
        read_lookup(table, item, cache, log) is Some,
    ensures
        end_of(log, read_lookup(table, item, cache, log).unwrap().2),
        inserts(log) == inserts(read_lookup(table, item, cache, log).unwrap().2),
{
    let rest = read_lookup(table, item, cache, log).unwrap().2;
    if rest != log {
        lemma_statements_differ();
    } else {
        assert(log =~= log.skip(0));
    }
}

/// The import of the links of an episode asks for one row for each link,
/// whatever the store answers.
pub proof fn law_links_are_all_asked_for(
    series_id: i64,
    files: Seq<YYeTsFileView>,
    ways: Seq<NameOnlyView>,
    log: Seq<Issued>,
)
    requires
        read_files(series_id, files, ways, log) is Some,
    ensures
        end_of(log, read_files(series_id, files, ways, log).unwrap().1),
        inserts(log) == links_call_for(files).and(
            inserts(read_files(series_id, files, ways, log).unwrap().1),
        ),
    decreases files.len(),
{
    if files.len() == 0 {
        assert(log =~= log.skip(0));
    } else {
        let (_, known, after) = read_lookup("ways"@, files[0].way_cn, ways, log).unwrap();
        lemma_lookup_asks_for_no_row("ways"@, files[0].way_cn, ways, log);
        lemma_statements_differ();
        law_links_are_all_asked_for(series_id, files.drop_first(), known, after.drop_first());
        let rest = read_files(series_id, files, ways, log).unwrap().1;
        lemma_end_of_end(after, after.drop_first(), rest);
        lemma_end_of_end(log, after, rest);
    }
}

/// Where the store takes every insert, the import of the episodes of a
/// format asks for one row for each episode and one for each of its links.
pub proof fn law_episodes_are_all_asked_for(
    format_id: i64,
    items: Seq<ItemView>,
    ways: Seq<NameOnlyView>,
    log: Seq<Issued>,
)
    requires
        read_series(format_id, items, ways, log) is Some,
    ensures
        end_of(log, read_series(format_id, items, ways, log).unwrap().1),
        all_taken(log) ==> inserts(log) == episodes_call_for(items).and(
            inserts(read_series(format_id, items, ways, log).unwrap().1),
        ),
    decreases items.len(),
{
    if items.len() == 0 {
        assert(log =~= log.skip(0));
    } else {
        let rest = read_series(format_id, items, ways, log).unwrap().1;
        let below = log.drop_first();
        lemma_statements_differ();
        match (row_of(log[0]), items[0].files) {
            (Some(series_id), Some(files)) => {
                law_links_are_all_asked_for(series_id, files, ways, below);
                let (known, after) = read_files(series_id, files, ways, below).unwrap();
                law_episodes_are_all_asked_for(format_id, items.drop_first(), known, after);
                lemma_end_of_end(below, after, rest);
            },
            _ => {
                law_episodes_are_all_asked_for(format_id, items.drop_first(), ways, below);
            },
        }
        lemma_end_of_end(log, below, rest);
    }
}

/// Where the store takes every insert, the import of the formats of a
/// season asks for one row for each format and for all that the episodes
/// listed under the formats' labels call for.
pub proof fn law_formats_are_all_asked_for(
    season_id: i64,
    formats: Seq<Seq<char>>,
    groups: Seq<ItemGroupView>,
    ways: Seq<NameOnlyView>,
    log: Seq<Issued>,
)
    requires
        read_formats(season_id, formats, groups, ways, log) is Some,
    ensures
        end_of(log, read_formats(season_id, formats, groups, ways, log).unwrap().1),
        all_taken(log) ==> inserts(log) == formats_call_for(formats, groups).and(
            inserts(read_formats(season_id, formats, groups, ways, log).unwrap().1),
        ),
    decreases formats.len(),
{
    if formats.len() == 0 {
        assert(log =~= log.skip(0));
    } else {
        let rest = read_formats(season_id, formats, groups, ways, log).unwrap().1;
        let below = log.drop_first();
        let at = group_index(groups, formats[0]);
        lemma_statements_differ();
        match row_of(log[0]) {
            Some(format_id) if at < groups.len() => {
                law_episodes_are_all_asked_for(format_id, groups[at].items, ways, below);
                let (known, after) = read_series(format_id, groups[at].items, ways, below).unwrap();
                law_formats_are_all_asked_for(season_id, formats.drop_first(), groups, known, after);
                lemma_end_of_end(below, after, rest);
            },
            _ => {
                law_formats_are_all_asked_for(season_id, formats.drop_first(), groups, ways, below);
            },
        }
        lemma_end_of_end(log, below, rest);
    }
}

/// Where the store takes every insert, the import of the seasons of a
/// resource asks for one row for each season and for all that the seasons'
/// formats call for.
pub proof fn law_seasons_are_all_asked_for(
    resource_id: i64,
    seasons: Seq<YYeTsSeasonView>,
    ways: Seq<NameOnlyView>,
    log: Seq<Issued>,
)
    requires
        read_seasons(resource_id, seasons, ways, log) is Some,
    ensures
        end_of(log, read_seasons(resource_id, seasons, ways, log).unwrap().1),
        all_taken(log) ==> inserts(log) == seasons_call_for(seasons).and(
            inserts(read_seasons(resource_id, seasons, ways, log).unwrap().1),
        ),
    decreases seasons.len(),
{
    if seasons.len() == 0 {
        assert(log =~= log.skip(0));
    } else {
        let rest = read_seasons(resource_id, seasons, ways, log).unwrap().1;
        let below = log.drop_first();
        lemma_statements_differ();
        match row_of(log[0]) {
            Some(season_id) => {
                law_formats_are_all_asked_for(
                    season_id,
                    seasons[0].formats,
                    seasons[0].items,
                    ways,
                    below,
                );
                let (known, after) = read_formats(
                    season_id,
                    seasons[0].formats,
                    seasons[0].items,
                    ways,
                    below,
                ).unwrap();
                law_seasons_are_all_asked_for(resource_id, seasons.drop_first(), known, after);
                lemma_end_of_end(below, after, rest);
            },
            None => {
                law_seasons_are_all_asked_for(resource_id, seasons.drop_first(), ways, below);
            },
        }
        lemma_end_of_end(log, below, rest);
    }
}

/// Where the store takes every insert, the import of a document asks for
/// one resource and for as many seasons, formats, episodes and links as the
/// document lists: a season for each of its seasons, a format for each
/// format of each season, an episode for each episode listed under the
/// label of a format, and a link for each link of each such episode.
pub proof fn law_document_is_all_asked_for(data: DataView, lookups: LookupsView, log: Seq<Issued>)
    requires
        read_record(data, lookups, log) is Some,
    ensures
        end_of(log, read_record(data, lookups, log).unwrap().1),
        all_taken(log) ==> inserts(log) == document_calls_for(data).and(
            inserts(read_record(data, lookups, log).unwrap().1),
        ),
        document_calls_for(data).resources == 1,
        document_calls_for(data).seasons == data.list.len(),
{
    let rest = read_record(data, lookups, log).unwrap().1;
    let (_, channels, after_channel) = read_lookup(
        "channels"@,
        data.info.channel,
        lookups.channels,
        log,
    ).unwrap();
    lemma_lookup_asks_for_no_row("channels"@, data.info.channel, lookups.channels, log);
    let (_, areas, after_area) = read_lookup(
        "areas"@,
        data.info.area,
        lookups.areas,
        after_channel,
    ).unwrap();
    lemma_lookup_asks_for_no_row("areas"@, data.info.area, lookups.areas, after_channel);
    lemma_end_of_end(log, after_channel, after_area);
    let below = after_area.drop_first();
    lemma_statements_differ();
    lemma_end_of_end(log, after_area, below);
    match row_of(after_area[0]) {
        Some(resource_id) => {
            law_seasons_are_all_asked_for(resource_id, data.list, lookups.ways, below);
            lemma_end_of_end(log, below, rest);
        },
        None => {},
    }
    law_a_season_for_each_listed(data.list);
}

/// A resource that was loaded with a picture is handed out at once, and one
/// that was loaded without is to be described: the provider is asked exactly
/// for the resources that have no picture.
pub proof fn law_a_picture_ends_the_asking(pending: Pending, loaded: ResourceView)
    requires
        begun(pending),
        held(pending) == Some(loaded),
    ensures
        loaded.pic.len() > 0 ==> (pending matches Pending::Answer(answer) && is_handed(
            answer,
            loaded,
        )),
        loaded.pic.len() == 0 ==> pending is Describe,
{
}

/// A picture that was fetched is what the resource shows from then on and
/// what is written to the store, first among the parameters of the update.
pub proof fn law_the_picture_is_kept(resource: ResourceView, subject: SubjectView, name: Seq<char>)
    ensures
        enriched(resource, subject, Some(name)).pic == name,
        update_args(enriched(resource, subject, Some(name)))[0] == SqlArgView::Text(name),
        enriched(resource, subject, Some(name)).id == resource.id,
        enriched(resource, subject, Some(name)).seasons == resource.seasons,
{
}

/// The phase that a job is in after its steps ended as `outcomes` tell, one
/// after the other.
pub open spec fn phase_after(outcomes: Seq<bool>) -> Phase
    decreases outcomes.len(),
{
    if outcomes.len() == 0 {
        Phase::Idle
    } else {
        follows(phase_after(outcomes.drop_last()), outcomes.last())
    }
}

/// A job ends after five steps at the latest, and stays ended.
pub proof fn law_the_job_ends(outcomes: Seq<bool>)
    requires
        outcomes.len() >= 5,
    ensures
        phase_after(outcomes) == Phase::Done || phase_after(outcomes) == Phase::Failed,
    decreases outcomes.len(),
{
    if outcomes.len() > 5 {
        law_the_job_ends(outcomes.drop_last());
    } else {
        let four = outcomes.drop_last();
        let three = four.drop_last();
        let two = three.drop_last();
        let one = two.drop_last();
        assert(phase_after(one.drop_last()) == Phase::Idle);
        assert(phase_after(one) == Phase::Downloading);
        assert(phase_after(two) == Phase::Unpacking || phase_after(two) == Phase::Failed);
        assert(phase_after(three) == Phase::Importing || phase_after(three) == Phase::Failed);
        assert(phase_after(four) == Phase::Finalizing || phase_after(four) == Phase::Failed);
    }
}

/// A job is done only where the fetch, the unpacking and the import all
/// succeeded: the second, third and fourth of its steps.
pub proof fn law_done_needs_every_step(outcomes: Seq<bool>)
    requires
        phase_after(outcomes) == Phase::Done,
    ensures
        outcomes.len() >= 5,
        outcomes[1] && outcomes[2] && outcomes[3],
    decreases outcomes.len(),
{
    if outcomes.len() > 0 {
        let before = outcomes.drop_last();
        if phase_after(before) == Phase::Done {
            law_done_needs_every_step(before);
        } else {
            let four = before;
            let three = four.drop_last();
            let two = three.drop_last();
            let one = two.drop_last();
            assert(phase_after(four) == Phase::Finalizing);
            assert(phase_after(three) == Phase::Importing);
            assert(phase_after(two) == Phase::Unpacking);
            assert(phase_after(one) == Phase::Downloading);
            assert(phase_after(one.drop_last()) == Phase::Idle);
            assert(one.len() == 1) by {
                if one.len() > 1 {
                    lemma_never_idle_again(one.drop_last());
                }
            }
        }
    }
}

proof fn lemma_never_idle_again(outcomes: Seq<bool>)
    requires
        outcomes.len() > 0,
    ensures
        phase_after(outcomes) != Phase::Idle,
{
}

} // verus!
