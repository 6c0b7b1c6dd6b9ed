//! What the application asks of the catalog: a resource with its tree and
//! its description, a search, and the favorites.

use vstd::prelude::*;
use vstd::string::*;
use crate::database::connect;
use crate::douban::Subject;
use crate::douban::SubjectView;
use crate::model::Count;
use crate::model::Favorite;
use crate::model::list;
use crate::model::listed;
use crate::model::Resource;
use crate::model::ResourceView;
use crate::model::SearchResult;
use crate::response::FAILURE;
use crate::response::Response;
use crate::response::SUCCESS;
use crate::store::added;
use crate::store::asked;
use crate::store::carried_out;
use crate::store::changed;
use crate::store::changed_rows;
use crate::store::Gateway;
use crate::store::is_change;
use crate::store::is_query;
use crate::store::Reply;
use crate::store::Issued;
use crate::store::same_real;
use crate::store::SqlArg;
use crate::store::SqlArgView;
use crate::store::StoreError;
use crate::tree::about;
use crate::tree::about_id;
use crate::tree::seasons_for_resource;
use crate::tree::trace_seasons;

verus! {

pub const RESOURCE_BY_ID: &'static str =
    "select r.id, r.name, r.original_name, r.alias_name, r.pic, r.directors, r.writers, r.actors, r.types, r.released_at, r.summary, r.rating, c.name as channel, a.name as area from resources as r left join channels as c on c.id=r.channel_id left join areas as a on a.id=r.area_id where r.id=?";

pub const FAVORITE_COUNT: &'static str = "select count(*) from favorites where resource_id=?1";

pub const ADD_FAVORITE: &'static str = "insert into favorites (resource_id) values (?1)";

pub const REMOVE_FAVORITE: &'static str = "delete from favorites where resource_id=?1";

pub const FAVORITES: &'static str =
    "select r.id, r.name, r.original_name, r.alias_name, r.pic from favorites as f left join resources as r on f.resource_id=r.id";

pub const SEARCH: &'static str =
    "select r.id, r.name, r.original_name, r.alias_name, c.name as channel from resources as r left join channels as c on c.id=r.channel_id where r.name like ?1 escape '\\' or r.alias_name like ?1 escape '\\' or r.original_name like ?1 escape '\\' order by r.released_at desc, r.id desc";

pub const UPDATE_RESOURCE: &'static str =
    "update resources set pic=?1, directors=?2, writers=?3, actors=?4, types=?5, released_at=?6, summary=?7, rating=?8 where id=?9";

/// The message of an answer that reports success.
pub const DONE: &'static str = "success";

/// The message of the answer for a resource that the catalog does not hold.
pub const MISSING: &'static str = "resource is not exists.";

/// Whether the rows of a count say that something was counted: there is a
/// row, and its number is above zero.
pub open spec fn some_counted(counts: Option<Seq<i64>>) -> bool {
    match counts {
        Some(counts) => counts.len() > 0 && counts[0] > 0,
        None => false,
    }
}

/// Whether a count of favorites says that there is one.
pub open spec fn counted(entry: Issued) -> bool {
    some_counted(listed::<Count>(entry))
}

/// Whether the rows that a count of the favorite marks returned say that
/// there is a mark.
pub fn marked(counts: &Vec<Count>) -> (r: bool)
    ensures
        r == some_counted(Some(counts.deep_view())),
{
    if counts.len() > 0 {
        counts[0].value > 0
    } else {
        false
    }
}

/// Whether the resource is marked as a favorite. A count that the store
/// cannot give reads as no.
pub fn is_favorite(gateway: &mut Gateway, resource_id: i64) -> (r: bool)
    ensures
        asked(old(gateway).issued(), final(gateway).issued(), FAVORITE_COUNT@, about(resource_id)),
        r == counted(final(gateway).issued().last()),
{
    let args = about_id(resource_id);
    match list::<Count>(gateway, FAVORITE_COUNT, &args) {
        Ok(counts) => marked(&counts),
        Err(_) => false,
    }
}

/// Reads the load of one resource off the front of `log`.
///
/// An id below one asks nothing and finds nothing. Otherwise the log starts
/// with the query for the resource's row; where that returns no row, or
/// fails, the resource is not found. Then come the count of its favorite
/// marks and what [`trace_seasons`] reads; where the seasons cannot be read
/// the resource is not found either.
pub open spec fn trace_resource(id: i64, log: Seq<Issued>) -> Option<
    (Option<ResourceView>, Seq<Issued>),
> {
    if id < 1 {
        Some((None, log))
    } else if log.len() > 0 && is_query(log[0], RESOURCE_BY_ID@, about(id)) {
        match listed::<Resource>(log[0]) {
            Some(found) if found.len() > 0 => {
                if log.len() > 1 && is_query(log[1], FAVORITE_COUNT@, about(id)) {
                    match trace_seasons(id, log.skip(2)) {
                        None => None,
                        Some((None, rest)) => Some((None, rest)),
                        Some((Some(seasons), rest)) => Some(
                            (
                                Some(
                                    ResourceView {
                                        favorite: counted(log[1]),
                                        seasons,
                                        ..found[0]
                                    },
                                ),
                                rest,
                            ),
                        ),
                    }
                } else {
                    None
                }
            },
            _ => Some((None, log.drop_first())),
        }
    } else {
        None
    }
}

/// The resource as it came back, if it did.
pub open spec fn found(outcome: Option<Resource>) -> Option<ResourceView> {
    match outcome {
        Some(resource) => Some(resource@),
        None => None,
    }
}

/// The resource with the given id, with whether it is a favorite and with
/// its whole tree, or nothing where the catalog does not hold it.
pub fn load_resource(gateway: &mut Gateway, id: i64) -> (r: Option<Resource>)
    ensures
        old(gateway).issued().is_prefix_of(final(gateway).issued()),
        forall|tail: Seq<Issued>| #[trigger]
            trace_resource(id, added(old(gateway).issued(), final(gateway).issued()) + tail)
                == Some((found(r), tail)),
        final(gateway).issued().len() <= old(gateway).issued().len() + 6,
{
    let ghost start = gateway.issued();
    if id < 1 {
        return None;
    }
    let args = about_id(id);
    let listing = list::<Resource>(gateway, RESOURCE_BY_ID, &args);
    let mut rows = match listing {
        Ok(rows) => rows,
        Err(_) => Vec::new(),
    };
    if rows.len() == 0 {
        proof {
            assert forall|tail: Seq<Issued>| #[trigger]
                trace_resource(id, added(start, gateway.issued()) + tail) == Some(
                    (None::<ResourceView>, tail),
                ) by {}
        }
        return None;
    }
    let mut resource = rows.swap_remove(0);
    let favorite = is_favorite(gateway, id);
    let ghost mid = gateway.issued();
    let seasons = seasons_for_resource(gateway, id);
    proof {
        let below = added(mid, gateway.issued());
        assert forall|tail: Seq<Issued>|
            (#[trigger] (added(start, gateway.issued()) + tail)).skip(2) =~= below + tail by {}
    }
    match seasons {
        Err(_) => {
            proof {
                assert forall|tail: Seq<Issued>| #[trigger]
                    trace_resource(id, added(start, gateway.issued()) + tail) == Some(
                        (None::<ResourceView>, tail),
                    ) by {}
            }
            None
        },
        Ok(tree) => {
            resource.favorite = favorite;
            resource.seasons = tree;
            proof {
                assert forall|tail: Seq<Issued>| #[trigger]
                    trace_resource(id, added(start, gateway.issued()) + tail) == Some(
                        (Some(resource@), tail),
                    ) by {}
            }
            Some(resource)
        },
    }
}

/// The parameters of the update that writes the description of a resource
/// back.
pub open spec fn update_args(resource: ResourceView) -> Seq<SqlArgView> {
    seq![
        SqlArgView::Text(resource.pic),
        SqlArgView::Text(resource.directors),
        SqlArgView::Text(resource.writers),
        SqlArgView::Text(resource.actors),
        SqlArgView::Text(resource.types),
        SqlArgView::Text(resource.released_at),
        SqlArgView::Text(resource.summary),
        SqlArgView::Real(resource.rating),
        SqlArgView::Integer(resource.id),
    ]
}

/// Writes the picture and the description of the resource to its row, and
/// returns the number of rows that the store reports as changed, or the
/// store's error.
pub fn update_resource(gateway: &mut Gateway, resource: &Resource) -> (r: Result<usize, StoreError>)
    ensures
        changed(
            old(gateway).issued(),
            final(gateway).issued(),
            UPDATE_RESOURCE@,
            update_args(resource@),
        ),
        final(gateway).issued().last().reply == Reply::Changed(changed_rows(r)),
{
    let ghost before = gateway.issued();
    let mut args: Vec<SqlArg> = Vec::new();
    args.push(SqlArg::Text(resource.pic.clone()));
    args.push(SqlArg::Text(resource.directors.clone()));
    args.push(SqlArg::Text(resource.writers.clone()));
    args.push(SqlArg::Text(resource.actors.clone()));
    args.push(SqlArg::Text(resource.types.clone()));
    args.push(SqlArg::Text(resource.released_at.clone()));
    args.push(SqlArg::Text(resource.summary.clone()));
    args.push(SqlArg::Real(same_real(&resource.rating.value)));
    args.push(SqlArg::Integer(resource.id));
    assert(args.deep_view() =~= update_args(resource@));
    let r = gateway.run(UPDATE_RESOURCE, &args);
    assert(gateway.issued().drop_last() =~= before);
    r
}

/// What is to be done next for a request for a resource.
#[derive(Debug)]
pub enum Pending {
    /// Nothing: this is the answer.
    Answer(Response<Option<Resource>>),
    /// The resource has no picture yet: the provider is to be asked for its
    /// description, under the resource's name, and [`described`] is to be
    /// told what came of it.
    Describe(Resource),
    /// The picture that the description names is to be fetched, and
    /// [`illustrated`] is to be told under which name it is kept.
    Illustrate(Resource, Subject),
    /// The resource is to be written to the store with [`persist`], and
    /// [`persisted`] is to be told what came of it.
    Persist(Resource),
}

/// The resource that a request has found so far.
pub open spec fn held(pending: Pending) -> Option<ResourceView> {
    match pending {
        Pending::Answer(answer) => found(answer.data),
        Pending::Describe(resource) => Some(resource@),
        Pending::Illustrate(resource, _) => Some(resource@),
        Pending::Persist(resource) => Some(resource@),
    }
}

/// Whether `answer` says that the resource is missing.
pub open spec fn is_missing(answer: Response<Option<Resource>>) -> bool {
    answer.code == FAILURE && answer.message@ == MISSING@ && answer.data is None
}

/// Whether `answer` hands the resource out.
pub open spec fn is_handed(answer: Response<Option<Resource>>, resource: ResourceView) -> bool {
    answer.code == SUCCESS && answer.message@ == DONE@ && found(answer.data) == Some(resource)
}

/// Whether a request that has just loaded a resource goes on as it has to:
/// a missing resource is answered as missing, one with a picture is handed
/// out, and one without is to be described.
pub open spec fn begun(pending: Pending) -> bool {
    match pending {
        Pending::Answer(answer) => match answer.data {
            Some(resource) => is_handed(answer, resource@) && resource.pic@.len() > 0,
            None => is_missing(answer),
        },
        Pending::Describe(resource) => resource.pic@.len() == 0,
        _ => false,
    }
}

/// The answer for a resource that the catalog does not hold.
pub fn missing() -> (r: Response<Option<Resource>>)
    ensures
        is_missing(r),
{
    Response::fail(MISSING, None)
}

/// Starts the request for the resource with the given id on a connection:
/// loads it with its tree, answers at once where it is missing or has its
/// picture, and asks for its description otherwise.
pub fn resource_on(gateway: &mut Gateway, id: i64) -> (r: Pending)
    ensures
        old(gateway).issued().is_prefix_of(final(gateway).issued()),
        forall|tail: Seq<Issued>| #[trigger]
            trace_resource(id, added(old(gateway).issued(), final(gateway).issued()) + tail)
                == Some((held(r), tail)),
        final(gateway).issued().len() <= old(gateway).issued().len() + 6,
        begun(r),
{
    match load_resource(gateway, id) {
        None => Pending::Answer(missing()),
        Some(resource) => {
            if resource.pic.as_str().unicode_len() == 0 {
                Pending::Describe(resource)
            } else {
                Pending::Answer(Response::ok(DONE, Some(resource)))
            }
        },
    }
}

/// Starts the request for the resource with the given id in a store, given
/// what came of opening it. A store that could not be opened holds no
/// resource, and neither does any store hold one with an id below one: both
/// are answered as missing.
pub fn resource_in(opened: Result<rusqlite::Connection, StoreError>, id: i64) -> (r: Pending)
    ensures
        begun(r),
        id < 1 || opened is Err ==> (r matches Pending::Answer(answer) && is_missing(answer)),
{
    match opened {
        Ok(connection) => {
            let mut gateway = Gateway::new(&connection);
            let r = resource_on(&mut gateway, id);
            proof {
                let none = Seq::<Issued>::empty();
                assert(trace_resource(id, added(none, gateway.issued()) + none) == Some(
                    (held(r), none),
                ));
            }
            r
        },
        Err(_) => Pending::Answer(missing()),
    }
}

/// Starts the request for the resource with the given id in the store at
/// `db`. An id below one is answered as missing at once, and the store is
/// not opened for it. A store that cannot be opened holds no resource.
pub fn resource(db: &std::path::PathBuf, id: i64) -> (r: Pending)
    ensures
        begun(r),
        id < 1 ==> (r matches Pending::Answer(answer) && is_missing(answer)),
{
    if id < 1 {
        return Pending::Answer(missing());
    }
    resource_in(connect(db), id)
}

/// Goes on with a request after the provider was asked: without a
/// description the resource is handed out as it is, with one the picture is
/// asked for.
pub fn described(resource: Resource, subject: Option<Subject>) -> (r: Pending)
    ensures
        match subject {
            Some(subject) => r == Pending::Illustrate(resource, subject),
            None => r matches Pending::Answer(answer) && is_handed(answer, resource@),
        },
{
    match subject {
        Some(subject) => Pending::Illustrate(resource, subject),
        None => Pending::Answer(Response::ok(DONE, Some(resource))),
    }
}

/// The resource with the description of `subject`, and with the picture
/// kept under `pic` where one was fetched.
pub open spec fn enriched(
    resource: ResourceView,
    subject: SubjectView,
    pic: Option<Seq<char>>,
) -> ResourceView {
    ResourceView {
        pic: match pic {
            Some(name) => name,
            None => resource.pic,
        },
        directors: subject.directors,
        writers: subject.writers,
        actors: subject.actors,
        types: subject.types,
        released_at: subject.released_at,
        summary: subject.summary,
        rating: subject.rating,
        ..resource
    }
}

/// The name that a picture is kept under, if one was fetched.
pub open spec fn kept(pic: Option<String>) -> Option<Seq<char>> {
    match pic {
        Some(name) => Some(name@),
        None => None,
    }
}

/// Goes on with a request after the picture was asked for: the resource
/// takes the description and, where the picture was fetched, its name, and
/// is to be written to the store.
pub fn illustrated(resource: Resource, subject: Subject, pic: Option<String>) -> (r: Pending)
    ensures
        r matches Pending::Persist(rich) && rich@ == enriched(resource@, subject@, kept(pic)),
{
    let mut resource = resource;
    match pic {
        Some(name) => {
            resource.pic = name;
        },
        None => {},
    }
    resource.directors = subject.directors;
    resource.writers = subject.writers;
    resource.actors = subject.actors;
    resource.types = subject.types;
    resource.released_at = subject.released_at;
    resource.summary = subject.summary;
    resource.rating = subject.rating;
    Pending::Persist(resource)
}

/// Writes the picture and the description of the resource to its row in a
/// store, given what came of opening it, and returns the number of rows
/// changed. Where the store could not be opened, its error is the result.
pub fn persist_in(opened: Result<rusqlite::Connection, StoreError>, resource: &Resource) -> (r:
    Result<usize, StoreError>)
    ensures
        opened matches Err(error) ==> r == Err::<usize, StoreError>(error),
{
    match opened {
        Ok(connection) => {
            let mut gateway = Gateway::new(&connection);
            update_resource(&mut gateway, resource)
        },
        Err(error) => Err(error),
    }
}

/// Writes the picture and the description of the resource to its row in the
/// store at `db`, and returns the number of rows changed.
pub fn persist(db: &std::path::PathBuf, resource: &Resource) -> (r: Result<usize, StoreError>) {
    persist_in(connect(db), resource)
}

/// Ends a request after the resource was written to the store: the resource
/// is handed out as it is, whether the store took it or not.
pub fn persisted(resource: Resource, outcome: Result<usize, StoreError>) -> (r: Response<
    Option<Resource>,
>)
    ensures
        is_handed(r, resource@),
{
    Response::ok(DONE, Some(resource))
}

/// Whether the character has a meaning of its own in a pattern: the two
/// wildcards and the sign that takes a meaning away.
pub open spec fn is_special(c: char) -> bool {
    c == '%' || c == '_' || c == '\\'
}

/// The pattern that matches `keyword` itself and nothing else: every
/// character of it that has a meaning of its own in a pattern follows the
/// sign that takes that meaning away.
pub open spec fn literal(keyword: Seq<char>) -> Seq<char>
    decreases keyword.len(),
{
    if keyword.len() == 0 {
        Seq::empty()
    } else if is_special(keyword.last()) {
        literal(keyword.drop_last()).push('\\').push(keyword.last())
    } else {
        literal(keyword.drop_last()).push(keyword.last())
    }
}

/// The pattern that matches `keyword` itself and nothing else.
pub fn escaped(keyword: &str) -> (r: String)
    ensures
        r@ == literal(keyword@),
{
    let length = keyword.unicode_len();
    let mut out = String::new();
    let mut i: usize = 0;
    proof {
        reveal_strlit("\\");
        assert(keyword@.take(0) =~= Seq::<char>::empty());
    }
    while i < length
        invariant
            i <= length,
            length == keyword@.len(),
            "\\"@ == seq!['\\'],
            out@ == literal(keyword@.take(i as int)),
        decreases length - i,
    {
        let c = keyword.get_char(i);
        proof {
            let next = keyword@.take(i + 1);
            assert(next.drop_last() =~= keyword@.take(i as int));
            assert(next.last() == c);
        }
        if c == '%' || c == '_' || c == '\\' {
            out.append("\\");
        }
        out.append(keyword.substring_char(i, i + 1));
        assert(keyword@.subrange(i as int, i + 1) =~= seq![c]);
        assert(out@ =~= literal(keyword@.take(i + 1)));
        i = i + 1;
    }
    assert(keyword@.take(i as int) =~= keyword@);
    out
}

/// The parameters of the search for the texts that hold `keyword`: the
/// pattern of any text, the keyword itself, any text.
pub open spec fn holding(keyword: Seq<char>) -> Seq<SqlArgView> {
    seq![SqlArgView::Text("%"@ + literal(keyword) + "%"@)]
}

/// The resources whose name, alias or original name holds `keyword`, the
/// latest release first and among equal releases the highest id first.
/// Where the store cannot carry the search out, the answer reports the
/// failure with the store's message, and lists none.
pub fn search_on(gateway: &mut Gateway, keyword: &str) -> (r: Response<Vec<SearchResult>>)
    ensures
        asked(old(gateway).issued(), final(gateway).issued(), SEARCH@, holding(keyword@)),
        match listed::<SearchResult>(final(gateway).issued().last()) {
            Some(results) => r.code == SUCCESS && r.message@ == DONE@ && r.data.deep_view()
                == results,
            None => r.code == FAILURE && r.data.len() == 0,
        },
{
    let mut pattern = String::from_str("%");
    pattern.append(escaped(keyword).as_str());
    pattern.append("%");
    let mut args: Vec<SqlArg> = Vec::new();
    args.push(SqlArg::Text(pattern));
    assert(args.deep_view() =~= holding(keyword@));
    match list::<SearchResult>(gateway, SEARCH, &args) {
        Ok(results) => Response::ok(DONE, results),
        Err(error) => Response::fail(error.message.as_str(), Vec::new()),
    }
}

/// The resources marked as favorites. Where the store cannot list them the
/// answer reports the failure with the store's message, and lists none.
pub fn favorites_on(gateway: &mut Gateway) -> (r: Response<Vec<Favorite>>)
    ensures
        asked(old(gateway).issued(), final(gateway).issued(), FAVORITES@, Seq::empty()),
        match listed::<Favorite>(final(gateway).issued().last()) {
            Some(marked) => r.code == SUCCESS && r.message@ == DONE@ && r.data.deep_view()
                == marked,
            None => r.code == FAILURE && r.data.len() == 0,
        },
{
    let args: Vec<SqlArg> = Vec::new();
    assert(args.deep_view() =~= Seq::<SqlArgView>::empty());
    match list::<Favorite>(gateway, FAVORITES, &args) {
        Ok(marked) => Response::ok(DONE, marked),
        Err(error) => Response::fail(error.message.as_str(), Vec::new()),
    }
}

/// `new` is the marking of a resource as a favorite: the count of its marks
/// and, only where that finds none, the addition of one. `succeeded` says
/// whether nothing was to be added or the store carried the addition out.
pub open spec fn marking(resource_id: i64, new: Seq<Issued>, succeeded: bool) -> bool {
    &&& new.len() >= 1
    &&& is_query(new[0], FAVORITE_COUNT@, about(resource_id))
    &&& if counted(new[0]) {
        new.len() == 1 && succeeded
    } else {
        &&& new.len() == 2
        &&& is_change(new[1], ADD_FAVORITE@, about(resource_id))
        &&& succeeded <==> carried_out(new[1])
    }
}

/// Marks the resource as a favorite, unless it is marked already: the marks
/// are counted first, and one is added only where there is none. The answer
/// reports failure, with the store's message, exactly where the store did
/// not carry the addition out.
pub fn favorite_on(gateway: &mut Gateway, resource_id: i64) -> (r: Response<()>)
    ensures
        old(gateway).issued().is_prefix_of(final(gateway).issued()),
        marking(
            resource_id,
            added(old(gateway).issued(), final(gateway).issued()),
            r.code == SUCCESS,
        ),
        is_verdict(r),
{
    let known = is_favorite(gateway, resource_id);
    if !known {
        let args = about_id(resource_id);
        let outcome = gateway.run(ADD_FAVORITE, &args);
        match outcome {
            Ok(_) => {},
            Err(error) => {
                return Response::fail(error.message.as_str(), ());
            },
        }
    }
    Response::ok(DONE, ())
}

/// Takes the favorite marks of the resource away, however many there are.
/// The answer reports failure, with the store's message, exactly where the
/// store did not carry the removal out.
pub fn un_favorite_on(gateway: &mut Gateway, resource_id: i64) -> (r: Response<()>)
    ensures
        changed(
            old(gateway).issued(),
            final(gateway).issued(),
            REMOVE_FAVORITE@,
            about(resource_id),
        ),
        r.code == SUCCESS <==> carried_out(final(gateway).issued().last()),
        is_verdict(r),
{
    let ghost before = gateway.issued();
    let args = about_id(resource_id);
    let outcome = gateway.run(REMOVE_FAVORITE, &args);
    assert(gateway.issued().drop_last() =~= before);
    match outcome {
        Ok(_) => Response::ok(DONE, ()),
        Err(error) => Response::fail(error.message.as_str(), ()),
    }
}

/// Whether `answer` reports either success, with the message of success,
/// or failure.
pub open spec fn is_verdict<T>(answer: Response<T>) -> bool {
    &&& answer.code == SUCCESS || answer.code == FAILURE
    &&& answer.code == SUCCESS ==> answer.message@ == DONE@
}

/// Whether `answer` reports the failure of a store that could not be
/// opened: with that failure's message, where there is one.
pub open spec fn is_refusal<T>(
    opened: Result<rusqlite::Connection, StoreError>,
    answer: Response<T>,
) -> bool {
    opened matches Err(error) ==> answer.code == FAILURE && answer.message@ == error.message@
}

/// The resources in a store whose name, alias or original name holds
/// `keyword`, given what came of opening the store. Where the store could
/// not be opened the answer reports the failure with the store's message,
/// and lists none, as it does where the store cannot carry the search out.
pub fn search_in(opened: Result<rusqlite::Connection, StoreError>, keyword: &str) -> (r: Response<
    Vec<SearchResult>,
>)
    ensures
        is_verdict(r),
        is_refusal(opened, r),
        r.code == FAILURE ==> r.data.len() == 0,
{
    match opened {
        Ok(connection) => {
            let mut gateway = Gateway::new(&connection);
            search_on(&mut gateway, keyword)
        },
        Err(error) => Response::fail(error.message.as_str(), Vec::new()),
    }
}

/// The resources in the store at `db` whose name, alias or original name
/// holds `keyword`. Where the store cannot be opened or cannot carry the
/// search out, the answer reports the failure with the store's message, and
/// lists none.
pub fn search(db: &std::path::PathBuf, keyword: &str) -> (r: Response<Vec<SearchResult>>)
    ensures
        is_verdict(r),
        r.code == FAILURE ==> r.data.len() == 0,
{
    search_in(connect(db), keyword)
}

/// The resources marked as favorites in a store, given what came of opening
/// it. Where the store could not be opened the answer reports the failure
/// with the store's message, and lists none, as it does where the store
/// cannot list them.
pub fn favorites_in(opened: Result<rusqlite::Connection, StoreError>) -> (r: Response<
    Vec<Favorite>,
>)
    ensures
        is_verdict(r),
        is_refusal(opened, r),
        r.code == FAILURE ==> r.data.len() == 0,
{
    match opened {
        Ok(connection) => {
            let mut gateway = Gateway::new(&connection);
            favorites_on(&mut gateway)
        },
        Err(error) => Response::fail(error.message.as_str(), Vec::new()),
    }
}

/// The resources marked as favorites in the store at `db`. Where the store
/// cannot be opened or cannot list them the answer reports the failure with
/// the store's message, and lists none.
pub fn favorites(db: &std::path::PathBuf) -> (r: Response<Vec<Favorite>>)
    ensures
        is_verdict(r),
        r.code == FAILURE ==> r.data.len() == 0,
{
    favorites_in(connect(db))
}

/// Marks the resource as a favorite in a store, unless it is marked
/// already, given what came of opening the store. Where the store could not
/// be opened the answer reports the failure with the store's message, as it
/// does where the store does not carry the addition out.
pub fn favorite_in(opened: Result<rusqlite::Connection, StoreError>, resource_id: i64) -> (r:
    Response<()>)
    ensures
        is_verdict(r),
        is_refusal(opened, r),
{
    match opened {
        Ok(connection) => {
            let mut gateway = Gateway::new(&connection);
            favorite_on(&mut gateway, resource_id)
        },
        Err(error) => Response::fail(error.message.as_str(), ()),
    }
}

/// Marks the resource as a favorite in the store at `db`, unless it is
/// marked already. Where the store cannot be opened or does not carry the
/// addition out, the answer reports the failure with the store's message.
pub fn favorite(db: &std::path::PathBuf, resource_id: i64) -> (r: Response<()>)
    ensures
        is_verdict(r),
{
    favorite_in(connect(db), resource_id)
}

/// Takes the favorite marks of the resource in a store away, given what
/// came of opening the store. Where the store could not be opened the
/// answer reports the failure with the store's message, as it does where
/// the store does not carry the removal out.
pub fn un_favorite_in(opened: Result<rusqlite::Connection, StoreError>, resource_id: i64) -> (r:
    Response<()>)
    ensures
        is_verdict(r),
        is_refusal(opened, r),
{
    match opened {
        Ok(connection) => {
            let mut gateway = Gateway::new(&connection);
            un_favorite_on(&mut gateway, resource_id)
        },
        Err(error) => Response::fail(error.message.as_str(), ()),
    }
}

/// Takes the favorite marks of the resource in the store at `db` away.
/// Where the store cannot be opened or does not carry the removal out, the
/// answer reports the failure with the store's message.
pub fn un_favorite(db: &std::path::PathBuf, resource_id: i64) -> (r: Response<()>)
    ensures
        is_verdict(r),
{
    un_favorite_in(connect(db), resource_id)
}

} // verus!
