//! The staging documents: one denormalized record per show, as the staging
//! dataset holds them.

use vstd::prelude::*;
use vstd::string::*;
use crate::text::decimal;
use crate::text::to_decimal;

verus! {

/// A failure while the staging dataset is fetched or unpacked.
#[derive(Debug)]
pub struct YYeTsError {
    pub message: String,
}

impl YYeTsError {
    /// A failure with the given message.
    pub fn new(message: &str) -> (r: Self)
        ensures
            r.message@ == message@,
    {
        YYeTsError { message: String::from_str(message) }
    }

    /// The message of the failure.
    pub fn text(&self) -> (r: String)
        ensures
            r@ == self.message@,
    {
        self.message.clone()
    }
}

/// What a document says of the show itself.
#[derive(Debug)]
pub struct Info {
    pub id: i32,
    pub cnname: String,
    pub enname: String,
    pub aliasname: String,
    pub channel: String,
    pub channel_cn: String,
    pub area: String,
    pub show_type: String,
    pub expire: String,
    pub views: i32,
    pub year: Vec<i32>,
}

pub struct InfoView {
    pub id: i32,
    pub cnname: Seq<char>,
    pub enname: Seq<char>,
    pub aliasname: Seq<char>,
    pub channel: Seq<char>,
    pub channel_cn: Seq<char>,
    pub area: Seq<char>,
    pub show_type: Seq<char>,
    pub expire: Seq<char>,
    pub views: i32,
    pub year: Seq<i32>,
}

impl View for Info {
    type V = InfoView;

    open spec fn view(&self) -> InfoView {
        InfoView {
            id: self.id,
            cnname: self.cnname@,
            enname: self.enname@,
            aliasname: self.aliasname@,
            channel: self.channel@,
            channel_cn: self.channel_cn@,
            area: self.area@,
            show_type: self.show_type@,
            expire: self.expire@,
            views: self.views,
            year: self.year@,
        }
    }
}

impl DeepView for Info {
    type V = InfoView;

    open spec fn deep_view(&self) -> InfoView {
        self@
    }
}

/// One download link of an episode.
#[derive(Debug)]
pub struct YYeTsFile {
    pub way: String,
    pub way_cn: String,
    pub address: String,
    pub passwd: String,
}

pub struct YYeTsFileView {
    pub way: Seq<char>,
    pub way_cn: Seq<char>,
    pub address: Seq<char>,
    pub passwd: Seq<char>,
}

impl View for YYeTsFile {
    type V = YYeTsFileView;

    open spec fn view(&self) -> YYeTsFileView {
        YYeTsFileView {
            way: self.way@,
            way_cn: self.way_cn@,
            address: self.address@,
            passwd: self.passwd@,
        }
    }
}

impl DeepView for YYeTsFile {
    type V = YYeTsFileView;

    open spec fn deep_view(&self) -> YYeTsFileView {
        self@
    }
}

/// One episode of a format, with its links where the document gives any.
#[derive(Debug)]
pub struct Item {
    pub itemid: String,
    pub episode: String,
    pub name: String,
    pub size: String,
    pub yyets_trans: i32,
    pub dateline: String,
    pub files: Option<Vec<YYeTsFile>>,
}

pub struct ItemView {
    pub itemid: Seq<char>,
    pub episode: Seq<char>,
    pub name: Seq<char>,
    pub size: Seq<char>,
    pub yyets_trans: i32,
    pub dateline: Seq<char>,
    pub files: Option<Seq<YYeTsFileView>>,
}

impl View for Item {
    type V = ItemView;

    open spec fn view(&self) -> ItemView {
        ItemView {
            itemid: self.itemid@,
            episode: self.episode@,
            name: self.name@,
            size: self.size@,
            yyets_trans: self.yyets_trans,
            dateline: self.dateline@,
            files: match self.files {
                Some(files) => Some(files.deep_view()),
                None => None,
            },
        }
    }
}

impl DeepView for Item {
    type V = ItemView;

    open spec fn deep_view(&self) -> ItemView {
        self@
    }
}

/// The episodes that a season lists under one format label.
#[derive(Debug)]
pub struct ItemGroup {
    pub format: String,
    pub items: Vec<Item>,
}

pub struct ItemGroupView {
    pub format: Seq<char>,
    pub items: Seq<ItemView>,
}

impl View for ItemGroup {
    type V = ItemGroupView;

    open spec fn view(&self) -> ItemGroupView {
        ItemGroupView { format: self.format@, items: self.items.deep_view() }
    }
}

impl DeepView for ItemGroup {
    type V = ItemGroupView;

    open spec fn deep_view(&self) -> ItemGroupView {
        self@
    }
}

/// One season of a document: its formats, and its episodes grouped by
/// format label. A label occurs in at most one group: [`labels_apart`]
/// holds of `items`, as [`put_group`] keeps it.
#[derive(Debug)]
pub struct YYeTsSeason {
    pub season_num: String,
    pub season_cn: String,
    pub items: Vec<ItemGroup>,
    pub formats: Vec<String>,
}

pub struct YYeTsSeasonView {
    pub season_num: Seq<char>,
    pub season_cn: Seq<char>,
    pub items: Seq<ItemGroupView>,
    pub formats: Seq<Seq<char>>,
}

impl View for YYeTsSeason {
    type V = YYeTsSeasonView;

    open spec fn view(&self) -> YYeTsSeasonView {
        YYeTsSeasonView {
            season_num: self.season_num@,
            season_cn: self.season_cn@,
            items: self.items.deep_view(),
            formats: self.formats.deep_view(),
        }
    }
}

impl DeepView for YYeTsSeason {
    type V = YYeTsSeasonView;

    open spec fn deep_view(&self) -> YYeTsSeasonView {
        self@
    }
}

/// The payload of a document: the show and its seasons.
#[derive(Debug)]
pub struct Data {
    pub info: Info,
    pub list: Vec<YYeTsSeason>,
}

pub struct DataView {
    pub info: InfoView,
    pub list: Seq<YYeTsSeasonView>,
}

impl View for Data {
    type V = DataView;

    open spec fn view(&self) -> DataView {
        DataView { info: self.info@, list: self.list.deep_view() }
    }
}

impl DeepView for Data {
    type V = DataView;

    open spec fn deep_view(&self) -> DataView {
        self@
    }
}

/// One staging document.
#[derive(Debug)]
pub struct RecordData {
    pub status: i32,
    pub info: String,
    pub data: Data,
}

pub struct RecordDataView {
    pub status: i32,
    pub info: Seq<char>,
    pub data: DataView,
}

impl View for RecordData {
    type V = RecordDataView;

    open spec fn view(&self) -> RecordDataView {
        RecordDataView { status: self.status, info: self.info@, data: self.data@ }
    }
}

impl DeepView for RecordData {
    type V = RecordDataView;

    open spec fn deep_view(&self) -> RecordDataView {
        self@
    }
}

/// The index of the first group with the given label, or the number of
/// groups where none has it.
pub open spec fn group_index(groups: Seq<ItemGroupView>, label: Seq<char>) -> int
    decreases groups.len(),
{
    if groups.len() == 0 {
        0
    } else if groups[0].format == label {
        0
    } else {
        1 + group_index(groups.drop_first(), label)
    }
}

/// What the index of a label among the groups is: no group before it has
/// the label, and the group at it has, where there is one.
pub proof fn lemma_group_index(groups: Seq<ItemGroupView>, label: Seq<char>)
    ensures
        0 <= group_index(groups, label) <= groups.len(),
        group_index(groups, label) < groups.len() ==> groups[group_index(groups, label)].format
            == label,
        forall|i: int|
            0 <= i < group_index(groups, label) ==> (#[trigger] groups[i]).format != label,
    decreases groups.len(),
{
    if groups.len() != 0 && groups[0].format != label {
        let rest = groups.drop_first();
        lemma_group_index(rest, label);
        assert forall|i: int| 0 <= i < group_index(groups, label) implies (#[trigger] groups[i]).format
            != label by {
            if i > 0 {
                assert(groups[i] == rest[i - 1]);
            }
        }
    }
}

/// The position of the group that lists the episodes of `label`: the first
/// group with that label.
pub fn find_group(groups: &Vec<ItemGroup>, label: &String) -> (r: Option<usize>)
    ensures
        match r {
            Some(at) => at == group_index(groups.deep_view(), label@) && at < groups.len(),
            None => group_index(groups.deep_view(), label@) == groups.len(),
        },
{
    let ghost views = groups.deep_view();
    let mut i: usize = 0;
    while i < groups.len()
        invariant
            i <= groups.len(),
            views == groups.deep_view(),
            forall|j: int| 0 <= j < i ==> (#[trigger] views[j]).format != label@,
        decreases groups.len() - i,
    {
        assert(views[i as int] == groups[i as int]@);
        if groups[i].format == *label {
            proof {
                lemma_group_index(views, label@);
            }
            return Some(i);
        }
        i = i + 1;
    }
    proof {
        lemma_group_index(views, label@);
    }
    None
}

/// No two groups have the same label.
pub open spec fn labels_apart(groups: Seq<ItemGroupView>) -> bool {
    forall|i: int, j: int|
        0 <= i < j < groups.len() ==> (#[trigger] groups[i]).format != (#[trigger] groups[j]).format
}

impl YYeTsSeason {
    /// No label has two groups of episodes.
    pub open spec fn well_formed(&self) -> bool {
        labels_apart(self@.items)
    }
}

/// The groups after the episodes were listed under the label: in place of
/// the group with that label, where there is one, and as a new group at the
/// end otherwise.
pub open spec fn with_group(
    groups: Seq<ItemGroupView>,
    label: Seq<char>,
    items: Seq<ItemView>,
) -> Seq<ItemGroupView> {
    let at = group_index(groups, label);
    let group = ItemGroupView { format: label, items };
    if at < groups.len() {
        groups.update(at, group)
    } else {
        groups.push(group)
    }
}

/// Listing episodes under a label keeps the labels apart.
pub proof fn lemma_with_group_keeps_apart(
    groups: Seq<ItemGroupView>,
    label: Seq<char>,
    items: Seq<ItemView>,
)
    requires
        labels_apart(groups),
    ensures
        labels_apart(with_group(groups, label, items)),
{
    lemma_group_index(groups, label);
    let after = with_group(groups, label, items);
    assert forall|i: int, j: int| 0 <= i < j < after.len() implies (#[trigger] after[i]).format != (
    #[trigger] after[j]).format by {
        if group_index(groups, label) < groups.len() {
            assert(after[i].format == groups[i].format);
            assert(after[j].format == groups[j].format);
        } else {
            assert(after[i] == groups[i]);
            if j < groups.len() {
                assert(after[j] == groups[j]);
            }
        }
    }
}

/// Where the labels are apart, the group found for a label is the only one
/// with it.
pub proof fn lemma_one_group_for_a_label(groups: Seq<ItemGroupView>, label: Seq<char>)
    requires
        labels_apart(groups),
    ensures
        forall|j: int|
            0 <= j < groups.len() && j != group_index(groups, label) ==> (#[trigger] groups[j]).format
                != label,
{
    lemma_group_index(groups, label);
    let at = group_index(groups, label);
    assert forall|j: int| 0 <= j < groups.len() && j != at implies (#[trigger] groups[j]).format
        != label by {
        if j > at {
            assert(groups[at].format != groups[j].format);
        }
    }
}

/// Lists the episodes under the label, as a map from labels to episodes
/// would: in place of the group with that label, where there is one, and as
/// a new group at the end otherwise. Labels that were apart stay apart.
pub fn put_group(groups: &mut Vec<ItemGroup>, format: String, items: Vec<Item>)
    ensures
        final(groups).deep_view() == with_group(
            old(groups).deep_view(),
            format@,
            items.deep_view(),
        ),
        labels_apart(old(groups).deep_view()) ==> labels_apart(final(groups).deep_view()),
{
    let ghost before = groups.deep_view();
    proof {
        if labels_apart(before) {
            lemma_with_group_keeps_apart(before, format@, items.deep_view());
        }
    }
    match find_group(groups, &format) {
        Some(at) => {
            groups.set(at, ItemGroup { format, items });
            assert(groups.deep_view() =~= with_group(before, format@, items.deep_view()));
        },
        None => {
            groups.push(ItemGroup { format, items });
            assert(groups.deep_view() =~= with_group(before, format@, items.deep_view()));
        },
    }
}

/// The name of a staging file drawn at the given instant: the decimal
/// numeral of the instant's hash.
pub fn stamp_name(hash: u64) -> (r: String)
    ensures
        r@ == decimal(hash as nat),
{
    to_decimal(hash)
}

} // verus!
