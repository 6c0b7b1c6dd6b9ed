//! The rows of the catalog as the readers see them, and how each is read
//! from a row of a query's result.

use vstd::prelude::*;
use crate::store::all_fit;
use crate::store::asked;
use crate::store::fits;
use crate::store::Gateway;
use crate::store::Issued;
use crate::store::Kind;
use crate::store::rows_of;
use crate::store::same_real;
use crate::store::SqlArg;
use crate::store::SqlValue;
use crate::store::SqlValueView;
use crate::store::StoreError;

verus! {

/// A type whose values are read from the rows of a query's result.
pub trait Model: Sized + DeepView {
    /// The kinds of the columns that a value is read from, in order.
    spec fn columns() -> Seq<Kind>;

    /// The value that a row stands for.
    spec fn of_row(row: Seq<SqlValueView>) -> <Self as DeepView>::V;

    /// The kinds of the columns, to hand to the store with the query.
    fn shape() -> (r: Vec<Kind>)
        ensures
            r@ == Self::columns(),
    ;

    /// Reads a value from a row. A row that does not have the columns of
    /// this model stands for no value.
    fn from_row(row: &Vec<SqlValue>) -> (r: Option<Self>)
        ensures
            match r {
                Some(value) => fits(row.deep_view(), Self::columns()) && value.deep_view()
                    == Self::of_row(row.deep_view()),
                None => !fits(row.deep_view(), Self::columns()),
            },
    ;
}

/// Whether the row holds one value for each entry of `shape`, of that
/// entry's kind.
pub fn fits_shape(row: &Vec<SqlValue>, shape: &Vec<Kind>) -> (r: bool)
    ensures
        r == fits(row.deep_view(), shape@),
{
    if row.len() != shape.len() {
        return false;
    }
    let mut i: usize = 0;
    while i < row.len()
        invariant
            i <= row.len(),
            row.len() == shape.len(),
            forall|j: int| 0 <= j < i ==> (#[trigger] row.deep_view()[j]).kind() == shape[j],
        decreases row.len() - i,
    {
        assert(row.deep_view()[i as int] == row[i as int]@);
        let same = match (&row[i], shape[i]) {
            (SqlValue::Integer(_), Kind::Integer) => true,
            (SqlValue::Text(_), Kind::Text) => true,
            (SqlValue::Real(_), Kind::Real) => true,
            (SqlValue::Blob(_), Kind::Blob) => true,
            _ => false,
        };
        if !same {
            return false;
        }
        i = i + 1;
    }
    true
}

/// The values that the rows stand for, in the order of the rows.
pub open spec fn of_rows<T: Model>(rows: Seq<Seq<SqlValueView>>) -> Seq<<T as DeepView>::V> {
    Seq::new(rows.len(), |i: int| T::of_row(rows[i]))
}

/// Reads one value from each row.
fn models<T: Model>(rows: &Vec<Vec<SqlValue>>) -> (r: Vec<T>)
    requires
        all_fit(rows.deep_view(), T::columns()),
    ensures
        r.deep_view() == of_rows::<T>(rows.deep_view()),
{
    let mut out: Vec<T> = Vec::new();
    let mut i: usize = 0;
    while i < rows.len()
        invariant
            i <= rows.len(),
            all_fit(rows.deep_view(), T::columns()),
            out.len() == i,
            forall|j: int|
                0 <= j < i ==> (#[trigger] out[j]).deep_view() == T::of_row(rows.deep_view()[j]),
        decreases rows.len() - i,
    {
        assert(rows.deep_view()[i as int] == rows[i as int].deep_view());
        if let Some(value) = T::from_row(&rows[i]) {
            out.push(value);
        }
        i = i + 1;
    }
    out
}

/// The values that a query returned, if it returned any.
pub open spec fn listed<T: Model>(entry: Issued) -> Option<Seq<<T as DeepView>::V>> {
    match rows_of(entry) {
        Some(rows) => Some(of_rows::<T>(rows)),
        None => None,
    }
}

/// The values that a reader came back with, if it came back with any.
pub open spec fn loaded<T: DeepView>(outcome: Result<Vec<T>, StoreError>) -> Option<
    Seq<<T as DeepView>::V>,
> {
    match outcome {
        Ok(values) => Some(values.deep_view()),
        Err(_) => None,
    }
}

/// Runs one query and reads a value from each row of its result. It comes
/// back with the values exactly where the store returned rows.
pub fn list<T: Model>(gateway: &mut Gateway, sql: &str, args: &Vec<SqlArg>) -> (r: Result<
    Vec<T>,
    StoreError,
>)
    ensures
        asked(old(gateway).issued(), final(gateway).issued(), sql@, args.deep_view()),
        loaded(r) == listed::<T>(final(gateway).issued().last()),
{
    let ghost before = gateway.issued();
    let shape = T::shape();
    let outcome = gateway.fetch(sql, args, &shape);
    assert(gateway.issued().drop_last() =~= before);
    match outcome {
        Ok(rows) => Ok(models::<T>(&rows)),
        Err(error) => Err(error),
    }
}

/// The integer in column `at` of a row.
fn integer_at(row: &Vec<SqlValue>, at: usize) -> (r: i64)
    requires
        at < row.len(),
        row.deep_view()[at as int].kind() == Kind::Integer,
    ensures
        r == row.deep_view()[at as int].integer(),
{
    match &row[at] {
        SqlValue::Integer(value) => *value,
        _ => 0,
    }
}

/// The text in column `at` of a row.
fn text_at(row: &Vec<SqlValue>, at: usize) -> (r: String)
    requires
        at < row.len(),
        row.deep_view()[at as int].kind() == Kind::Text,
    ensures
        r@ == row.deep_view()[at as int].text(),
{
    match &row[at] {
        SqlValue::Text(value) => value.clone(),
        _ => String::new(),
    }
}

/// The bytes in column `at` of a row.
fn bytes_at(row: &Vec<SqlValue>, at: usize) -> (r: Vec<u8>)
    requires
        at < row.len(),
        row.deep_view()[at as int].kind() == Kind::Blob,
    ensures
        r@ == row.deep_view()[at as int].bytes(),
{
    assert(row.deep_view()[at as int] == row[at as int]@);
    match &row[at] {
        SqlValue::Blob(value) => value.clone(),
        _ => Vec::new(),
    }
}

/// The real number in column `at` of a row.
fn real_at(row: &Vec<SqlValue>, at: usize) -> (r: rusqlite::types::Value)
    requires
        at < row.len(),
        row.deep_view()[at as int].kind() == Kind::Real,
    ensures
        r == row.deep_view()[at as int].number(),
{
    match &row[at] {
        SqlValue::Real(value) => same_real(value),
        _ => unreached(),
    }
}

/// A link of an episode, with the name of its delivery way.
#[derive(Debug)]
pub struct SeriesFile {
    pub id: i64,
    pub series_id: i64,
    pub address: String,
    pub password: String,
    pub way: String,
}

pub struct SeriesFileView {
    pub id: i64,
    pub series_id: i64,
    pub address: Seq<char>,
    pub password: Seq<char>,
    pub way: Seq<char>,
}

impl View for SeriesFile {
    type V = SeriesFileView;

    open spec fn view(&self) -> SeriesFileView {
        SeriesFileView {
            id: self.id,
            series_id: self.series_id,
            address: self.address@,
            password: self.password@,
            way: self.way@,
        }
    }
}

impl DeepView for SeriesFile {
    type V = SeriesFileView;

    open spec fn deep_view(&self) -> SeriesFileView {
        self@
    }
}

impl Clone for SeriesFile {
    fn clone(&self) -> (r: Self)
        ensures
            r@ == self@,
    {
        SeriesFile {
            id: self.id,
            series_id: self.series_id,
            address: self.address.clone(),
            password: self.password.clone(),
            way: self.way.clone(),
        }
    }
}

impl Model for SeriesFile {
    open spec fn columns() -> Seq<Kind> {
        seq![Kind::Integer, Kind::Integer, Kind::Text, Kind::Text, Kind::Text]
    }

    open spec fn of_row(row: Seq<SqlValueView>) -> SeriesFileView {
        SeriesFileView {
            id: row[0].integer(),
            series_id: row[1].integer(),
            address: row[2].text(),
            password: row[3].text(),
            way: row[4].text(),
        }
    }

    fn shape() -> (r: Vec<Kind>) {
        let mut shape: Vec<Kind> = Vec::new();
        shape.push(Kind::Integer);
        shape.push(Kind::Integer);
        shape.push(Kind::Text);
        shape.push(Kind::Text);
        shape.push(Kind::Text);
        shape
    }

    fn from_row(row: &Vec<SqlValue>) -> (r: Option<Self>) {
        if !fits_shape(row, &Self::shape()) {
            None
        } else {
            Some(
                SeriesFile {
                    id: integer_at(row, 0),
                    series_id: integer_at(row, 1),
                    address: text_at(row, 2),
                    password: text_at(row, 3),
                    way: text_at(row, 4),
                },
            )
        }
    }
}

/// Clones the links one by one.
pub fn clone_files(files: &Vec<SeriesFile>) -> (r: Vec<SeriesFile>)
    ensures
        r.deep_view() == files.deep_view(),
{
    let mut out: Vec<SeriesFile> = Vec::new();
    let mut i: usize = 0;
    while i < files.len()
        invariant
            i <= files.len(),
            out.len() == i,
            forall|j: int| 0 <= j < i ==> (#[trigger] out[j])@ == files[j]@,
        decreases files.len() - i,
    {
        out.push(files[i].clone());
        i = i + 1;
    }
    out
}

/// An episode of a format, with its links.
#[derive(Debug)]
pub struct Series {
    pub id: i64,
    pub format_id: i64,
    pub episode: i64,
    pub name: String,
    pub size: String,
    pub files: Vec<SeriesFile>,
}

pub struct SeriesView {
    pub id: i64,
    pub format_id: i64,
    pub episode: i64,
    pub name: Seq<char>,
    pub size: Seq<char>,
    pub files: Seq<SeriesFileView>,
}

impl View for Series {
    type V = SeriesView;

    open spec fn view(&self) -> SeriesView {
        SeriesView {
            id: self.id,
            format_id: self.format_id,
            episode: self.episode,
            name: self.name@,
            size: self.size@,
            files: self.files.deep_view(),
        }
    }
}

impl DeepView for Series {
    type V = SeriesView;

    open spec fn deep_view(&self) -> SeriesView {
        self@
    }
}

impl Clone for Series {
    fn clone(&self) -> (r: Self)
        ensures
            r@ == self@,
    {
        Series {
            id: self.id,
            format_id: self.format_id,
            episode: self.episode,
            name: self.name.clone(),
            size: self.size.clone(),
            files: clone_files(&self.files),
        }
    }
}

impl Model for Series {
    open spec fn columns() -> Seq<Kind> {
        seq![Kind::Integer, Kind::Integer, Kind::Integer, Kind::Text, Kind::Text]
    }

    open spec fn of_row(row: Seq<SqlValueView>) -> SeriesView {
        SeriesView {
            id: row[0].integer(),
            format_id: row[1].integer(),
            episode: row[2].integer(),
            name: row[3].text(),
            size: row[4].text(),
            files: Seq::empty(),
        }
    }

    fn shape() -> (r: Vec<Kind>) {
        let mut shape: Vec<Kind> = Vec::new();
        shape.push(Kind::Integer);
        shape.push(Kind::Integer);
        shape.push(Kind::Integer);
        shape.push(Kind::Text);
        shape.push(Kind::Text);
        shape
    }

    fn from_row(row: &Vec<SqlValue>) -> (r: Option<Self>) {
        if !fits_shape(row, &Self::shape()) {
            None
        } else {
            let r = Series {
                id: integer_at(row, 0),
                format_id: integer_at(row, 1),
                episode: integer_at(row, 2),
                name: text_at(row, 3),
                size: text_at(row, 4),
                files: Vec::new(),
            };
            assert(r.files.deep_view() =~= Seq::<SeriesFileView>::empty());
            Some(r)
        }
    }
}

/// Clones the episodes one by one.
pub fn clone_series(series: &Vec<Series>) -> (r: Vec<Series>)
    ensures
        r.deep_view() == series.deep_view(),
{
    let mut out: Vec<Series> = Vec::new();
    let mut i: usize = 0;
    while i < series.len()
        invariant
            i <= series.len(),
            out.len() == i,
            forall|j: int| 0 <= j < i ==> (#[trigger] out[j])@ == series[j]@,
        decreases series.len() - i,
    {
        out.push(series[i].clone());
        i = i + 1;
    }
    out
}

/// A format of a season, with its episodes.
#[derive(Debug)]
pub struct Format {
    pub id: i64,
    pub season_id: i64,
    pub format: String,
    pub series: Vec<Series>,
}

pub struct FormatView {
    pub id: i64,
    pub season_id: i64,
    pub format: Seq<char>,
    pub series: Seq<SeriesView>,
}

impl View for Format {
    type V = FormatView;

    open spec fn view(&self) -> FormatView {
        FormatView {
            id: self.id,
            season_id: self.season_id,
            format: self.format@,
            series: self.series.deep_view(),
        }
    }
}

impl DeepView for Format {
    type V = FormatView;

    open spec fn deep_view(&self) -> FormatView {
        self@
    }
}

impl Clone for Format {
    fn clone(&self) -> (r: Self)
        ensures
            r@ == self@,
    {
        Format {
            id: self.id,
            season_id: self.season_id,
            format: self.format.clone(),
            series: clone_series(&self.series),
        }
    }
}

impl Model for Format {
    open spec fn columns() -> Seq<Kind> {
        seq![Kind::Integer, Kind::Integer, Kind::Text]
    }

    open spec fn of_row(row: Seq<SqlValueView>) -> FormatView {
        FormatView {
            id: row[0].integer(),
            season_id: row[1].integer(),
            format: row[2].text(),
            series: Seq::empty(),
        }
    }

    fn shape() -> (r: Vec<Kind>) {
        let mut shape: Vec<Kind> = Vec::new();
        shape.push(Kind::Integer);
        shape.push(Kind::Integer);
        shape.push(Kind::Text);
        shape
    }

    fn from_row(row: &Vec<SqlValue>) -> (r: Option<Self>) {
        if !fits_shape(row, &Self::shape()) {
            None
        } else {
            let r = Format {
                id: integer_at(row, 0),
                season_id: integer_at(row, 1),
                format: text_at(row, 2),
                series: Vec::new(),
            };
            assert(r.series.deep_view() =~= Seq::<SeriesView>::empty());
            Some(r)
        }
    }
}

/// A season of a resource, with its formats.
#[derive(Debug)]
pub struct Season {
    pub id: i64,
    pub season: i64,
    pub name: String,
    pub formats: Vec<Format>,
}

pub struct SeasonView {
    pub id: i64,
    pub season: i64,
    pub name: Seq<char>,
    pub formats: Seq<FormatView>,
}

impl View for Season {
    type V = SeasonView;

    open spec fn view(&self) -> SeasonView {
        SeasonView {
            id: self.id,
            season: self.season,
            name: self.name@,
            formats: self.formats.deep_view(),
        }
    }
}

impl DeepView for Season {
    type V = SeasonView;

    open spec fn deep_view(&self) -> SeasonView {
        self@
    }
}

impl Model for Season {
    open spec fn columns() -> Seq<Kind> {
        seq![Kind::Integer, Kind::Integer, Kind::Text]
    }

    open spec fn of_row(row: Seq<SqlValueView>) -> SeasonView {
        SeasonView {
            id: row[0].integer(),
            season: row[1].integer(),
            name: row[2].text(),
            formats: Seq::empty(),
        }
    }

    fn shape() -> (r: Vec<Kind>) {
        let mut shape: Vec<Kind> = Vec::new();
        shape.push(Kind::Integer);
        shape.push(Kind::Integer);
        shape.push(Kind::Text);
        shape
    }

    fn from_row(row: &Vec<SqlValue>) -> (r: Option<Self>) {
        if !fits_shape(row, &Self::shape()) {
            None
        } else {
            let r = Season {
                id: integer_at(row, 0),
                season: integer_at(row, 1),
                name: text_at(row, 2),
                formats: Vec::new(),
            };
            assert(r.formats.deep_view() =~= Seq::<FormatView>::empty());
            Some(r)
        }
    }
}

/// A resource as a search lists it.
#[derive(Debug)]
pub struct SearchResult {
    pub id: i64,
    pub name: String,
    pub original_name: String,
    pub alias_name: String,
    pub channel: String,
}

pub struct SearchResultView {
    pub id: i64,
    pub name: Seq<char>,
    pub original_name: Seq<char>,
    pub alias_name: Seq<char>,
    pub channel: Seq<char>,
}

impl View for SearchResult {
    type V = SearchResultView;

    open spec fn view(&self) -> SearchResultView {
        SearchResultView {
            id: self.id,
            name: self.name@,
            original_name: self.original_name@,
            alias_name: self.alias_name@,
            channel: self.channel@,
        }
    }
}

impl DeepView for SearchResult {
    type V = SearchResultView;

    open spec fn deep_view(&self) -> SearchResultView {
        self@
    }
}

impl Model for SearchResult {
    open spec fn columns() -> Seq<Kind> {
        seq![Kind::Integer, Kind::Text, Kind::Text, Kind::Text, Kind::Text]
    }

    open spec fn of_row(row: Seq<SqlValueView>) -> SearchResultView {
        SearchResultView {
            id: row[0].integer(),
            name: row[1].text(),
            original_name: row[2].text(),
            alias_name: row[3].text(),
            channel: row[4].text(),
        }
    }

    fn shape() -> (r: Vec<Kind>) {
        let mut shape: Vec<Kind> = Vec::new();
        shape.push(Kind::Integer);
        shape.push(Kind::Text);
        shape.push(Kind::Text);
        shape.push(Kind::Text);
        shape.push(Kind::Text);
        shape
    }

    fn from_row(row: &Vec<SqlValue>) -> (r: Option<Self>) {
        if !fits_shape(row, &Self::shape()) {
            None
        } else {
            Some(
                SearchResult {
                    id: integer_at(row, 0),
                    name: text_at(row, 1),
                    original_name: text_at(row, 2),
                    alias_name: text_at(row, 3),
                    channel: text_at(row, 4),
                },
            )
        }
    }
}

/// A resource as the list of favorites shows it.
#[derive(Debug)]
pub struct Favorite {
    pub id: i64,
    pub name: String,
    pub original_name: String,
    pub alias_name: String,
    pub pic: String,
}

pub struct FavoriteView {
    pub id: i64,
    pub name: Seq<char>,
    pub original_name: Seq<char>,
    pub alias_name: Seq<char>,
    pub pic: Seq<char>,
}

impl View for Favorite {
    type V = FavoriteView;

    open spec fn view(&self) -> FavoriteView {
        FavoriteView {
            id: self.id,
            name: self.name@,
            original_name: self.original_name@,
            alias_name: self.alias_name@,
            pic: self.pic@,
        }
    }
}

impl DeepView for Favorite {
    type V = FavoriteView;

    open spec fn deep_view(&self) -> FavoriteView {
        self@
    }
}

impl Model for Favorite {
    open spec fn columns() -> Seq<Kind> {
        seq![Kind::Integer, Kind::Text, Kind::Text, Kind::Text, Kind::Text]
    }

    open spec fn of_row(row: Seq<SqlValueView>) -> FavoriteView {
        FavoriteView {
            id: row[0].integer(),
            name: row[1].text(),
            original_name: row[2].text(),
            alias_name: row[3].text(),
            pic: row[4].text(),
        }
    }

    fn shape() -> (r: Vec<Kind>) {
        let mut shape: Vec<Kind> = Vec::new();
        shape.push(Kind::Integer);
        shape.push(Kind::Text);
        shape.push(Kind::Text);
        shape.push(Kind::Text);
        shape.push(Kind::Text);
        shape
    }

    fn from_row(row: &Vec<SqlValue>) -> (r: Option<Self>) {
        if !fits_shape(row, &Self::shape()) {
            None
        } else {
            Some(
                Favorite {
                    id: integer_at(row, 0),
                    name: text_at(row, 1),
                    original_name: text_at(row, 2),
                    alias_name: text_at(row, 3),
                    pic: text_at(row, 4),
                },
            )
        }
    }
}

/// The rating of a resource: a real number, held as the store's own value.
#[derive(Debug)]
pub struct Rating {
    pub value: rusqlite::types::Value,
}

/// A resource with all that the catalog knows of it.
#[derive(Debug)]
pub struct Resource {
    pub id: i64,
    pub name: String,
    pub original_name: String,
    pub alias_name: String,
    pub pic: String,
    pub directors: String,
    pub writers: String,
    pub actors: String,
    pub types: String,
    pub released_at: String,
    pub summary: String,
    pub rating: Rating,
    pub seasons: Vec<Season>,
    pub channel: String,
    pub area: String,
    pub favorite: bool,
}

pub struct ResourceView {
    pub id: i64,
    pub name: Seq<char>,
    pub original_name: Seq<char>,
    pub alias_name: Seq<char>,
    pub pic: Seq<char>,
    pub directors: Seq<char>,
    pub writers: Seq<char>,
    pub actors: Seq<char>,
    pub types: Seq<char>,
    pub released_at: Seq<char>,
    pub summary: Seq<char>,
    pub rating: rusqlite::types::Value,
    pub seasons: Seq<SeasonView>,
    pub channel: Seq<char>,
    pub area: Seq<char>,
    pub favorite: bool,
}

impl View for Resource {
    type V = ResourceView;

    open spec fn view(&self) -> ResourceView {
        ResourceView {
            id: self.id,
            name: self.name@,
            original_name: self.original_name@,
            alias_name: self.alias_name@,
            pic: self.pic@,
            directors: self.directors@,
            writers: self.writers@,
            actors: self.actors@,
            types: self.types@,
            released_at: self.released_at@,
            summary: self.summary@,
            rating: self.rating.value,
            seasons: self.seasons.deep_view(),
            channel: self.channel@,
            area: self.area@,
            favorite: self.favorite,
        }
    }
}

impl DeepView for Resource {
    type V = ResourceView;

    open spec fn deep_view(&self) -> ResourceView {
        self@
    }
}

impl Model for Resource {
    open spec fn columns() -> Seq<Kind> {
        seq![
            Kind::Integer,
            Kind::Text,
            Kind::Text,
            Kind::Text,
            Kind::Text,
            Kind::Text,
            Kind::Text,
            Kind::Text,
            Kind::Text,
            Kind::Text,
            Kind::Text,
            Kind::Real,
            Kind::Text,
            Kind::Text,
        ]
    }

    open spec fn of_row(row: Seq<SqlValueView>) -> ResourceView {
        ResourceView {
            id: row[0].integer(),
            name: row[1].text(),
            original_name: row[2].text(),
            alias_name: row[3].text(),
            pic: row[4].text(),
            directors: row[5].text(),
            writers: row[6].text(),
            actors: row[7].text(),
            types: row[8].text(),
            released_at: row[9].text(),
            summary: row[10].text(),
            rating: row[11].number(),
            seasons: Seq::empty(),
            channel: row[12].text(),
            area: row[13].text(),
            favorite: false,
        }
    }

    fn shape() -> (r: Vec<Kind>) {
        let mut shape: Vec<Kind> = Vec::new();
        shape.push(Kind::Integer);
        let mut i: usize = 0;
        while i < 10
            invariant
                i <= 10,
                shape.len() == 1 + i,
                shape[0] == Kind::Integer,
                forall|j: int| 1 <= j < 1 + i ==> shape[j] == Kind::Text,
            decreases 10 - i,
        {
            shape.push(Kind::Text);
            i = i + 1;
        }
        shape.push(Kind::Real);
        shape.push(Kind::Text);
        shape.push(Kind::Text);
        shape
    }

    fn from_row(row: &Vec<SqlValue>) -> (r: Option<Self>) {
        if !fits_shape(row, &Self::shape()) {
            None
        } else {
            let r = Resource {
                id: integer_at(row, 0),
                name: text_at(row, 1),
                original_name: text_at(row, 2),
                alias_name: text_at(row, 3),
                pic: text_at(row, 4),
                directors: text_at(row, 5),
                writers: text_at(row, 6),
                actors: text_at(row, 7),
                types: text_at(row, 8),
                released_at: text_at(row, 9),
                summary: text_at(row, 10),
                rating: Rating { value: real_at(row, 11) },
                seasons: Vec::new(),
                channel: text_at(row, 12),
                area: text_at(row, 13),
                favorite: false,
            };
            assert(r.seasons.deep_view() =~= Seq::<SeasonView>::empty());
            Some(r)
        }
    }
}

/// The single number that a counting query returns.
#[derive(Debug)]
pub struct Count {
    pub value: i64,
}

impl View for Count {
    type V = i64;

    open spec fn view(&self) -> i64 {
        self.value
    }
}

impl DeepView for Count {
    type V = i64;

    open spec fn deep_view(&self) -> i64 {
        self.value
    }
}

impl Model for Count {
    open spec fn columns() -> Seq<Kind> {
        seq![Kind::Integer]
    }

    open spec fn of_row(row: Seq<SqlValueView>) -> i64 {
        row[0].integer()
    }

    fn shape() -> (r: Vec<Kind>) {
        let mut shape: Vec<Kind> = Vec::new();
        shape.push(Kind::Integer);
        shape
    }

    fn from_row(row: &Vec<SqlValue>) -> (r: Option<Self>) {
        if !fits_shape(row, &Self::shape()) {
            None
        } else {
            Some(
                Count { value: integer_at(row, 0) },
            )
        }
    }
}

/// A row of the staging dataset: the bytes of its document, where the row
/// holds one as text.
#[derive(Debug)]
pub struct StagingRow {
    pub document: Option<Vec<u8>>,
}

impl View for StagingRow {
    type V = Option<Seq<u8>>;

    open spec fn view(&self) -> Option<Seq<u8>> {
        match self.document {
            Some(bytes) => Some(bytes@),
            None => None,
        }
    }
}

impl DeepView for StagingRow {
    type V = Option<Seq<u8>>;

    open spec fn deep_view(&self) -> Option<Seq<u8>> {
        self@
    }
}

impl Model for StagingRow {
    open spec fn columns() -> Seq<Kind> {
        seq![Kind::Integer, Kind::Blob]
    }

    open spec fn of_row(row: Seq<SqlValueView>) -> Option<Seq<u8>> {
        if row[0].integer() != 0 {
            Some(row[1].bytes())
        } else {
            None
        }
    }

    fn shape() -> (r: Vec<Kind>) {
        let mut shape: Vec<Kind> = Vec::new();
        shape.push(Kind::Integer);
        shape.push(Kind::Blob);
        shape
    }

    fn from_row(row: &Vec<SqlValue>) -> (r: Option<Self>) {
        if !fits_shape(row, &Self::shape()) {
            None
        } else {
            if integer_at(row, 0) != 0 {
                Some(StagingRow { document: Some(bytes_at(row, 1)) })
            } else {
                Some(StagingRow { document: None })
            }
        }
    }
}

} // verus!
