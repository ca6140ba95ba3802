//! The time series dataset: a polars table together with the name of its time
//! column, the names of its feature columns and free-form tags.

use crate::error::{ErrorView, IndustrytsError};
use crate::frame::{ColumnType, ColumnTypeView};
use crate::string_map::StringMap;
use polars::prelude::DataFrame;
use vstd::prelude::*;

verus! {

/// The names under which a time column is looked for, most preferred first.
pub open spec fn canonical_time_names() -> Seq<Seq<char>> {
    seq![
        "DateTime"@,
        "datetime"@,
        "tagTime"@,
        "tagtime"@,
        "timestamp"@,
        "Timestamp"@,
        "time"@,
        "Time"@,
        "date"@,
        "Date"@,
    ]
}

/// The first of `candidates` that is one of `columns`.
pub open spec fn first_listed(candidates: Seq<Seq<char>>, columns: Seq<Seq<char>>) -> Option<
    Seq<char>,
>
    decreases candidates.len(),
{
    if candidates.len() == 0 {
        None
    } else if columns.contains(candidates[0]) {
        Some(candidates[0])
    } else {
        first_listed(candidates.drop_first(), columns)
    }
}

/// The time column that detection settles on: the most preferred canonical name that
/// is a column, else the first column, else none.
pub open spec fn detected_time_column(columns: Seq<Seq<char>>) -> Option<Seq<char>> {
    match first_listed(canonical_time_names(), columns) {
        Some(name) => Some(name),
        None => if columns.len() > 0 {
            Some(columns[0])
        } else {
            None
        },
    }
}

/// The test that keeps every name but `time`.
pub open spec fn other_than(time: Seq<char>) -> spec_fn(Seq<char>) -> bool {
    |name: Seq<char>| name != time
}

/// The feature columns of a table: all of its columns but the time column, in the
/// table's order.
pub open spec fn features_of(columns: Seq<Seq<char>>, time: Seq<char>) -> Seq<Seq<char>> {
    columns.filter(other_than(time))
}

/// The time column for a new dataset: the requested one, else the detected one.
pub open spec fn chosen_time_column(df: DataFrame, requested: Option<Seq<char>>) -> Result<
    Seq<char>,
    ErrorView,
> {
    match requested {
        Some(name) => Ok(name),
        None => match detected_time_column(crate::frame::frame_columns(df)) {
            Some(name) => Ok(name),
            None => Err(ErrorView::TimeColumnNotFound("DataFrame is empty"@)),
        },
    }
}

/// Whether `name` can serve as the time column of `df`, and if not, why.
pub open spec fn time_column_check(df: DataFrame, name: Seq<char>) -> Result<(), ErrorView> {
    match crate::frame::frame_column_type(df, name) {
        None => Err(ErrorView::TimeColumnNotFound(name)),
        Some(ColumnTypeView::Other(text)) => Err(ErrorView::InvalidTimeColumnType(text)),
        Some(_) => Ok(()),
    }
}

/// The characters of each value of a tag map.
pub open spec fn tag_texts(tags: Map<Seq<char>, String>) -> Map<Seq<char>, Seq<char>> {
    tags.map_values(|v: String| v@)
}

/// The mathematical value of a [`TimeSeriesData`].
pub struct DatasetView {
    pub frame: DataFrame,
    pub time_column: Seq<char>,
    pub feature_columns: Seq<Seq<char>>,
    pub tags: Map<Seq<char>, Seq<char>>,
}

impl DatasetView {
    /// The dataset that wraps `df` with `time` as its time column.
    pub open spec fn wrap(df: DataFrame, time: Seq<char>, tags: Map<Seq<char>, Seq<char>>) -> Self {
        DatasetView {
            frame: df,
            time_column: time,
            feature_columns: features_of(crate::frame::frame_columns(df), time),
            tags,
        }
    }

    /// What holds of every dataset: the time column is a column of the table and holds
    /// dates or datetimes, and the feature columns are the table's other columns in
    /// the table's order.
    pub open spec fn well_formed(self) -> bool {
        &&& crate::frame::frame_columns(self.frame).contains(self.time_column)
        &&& time_column_check(self.frame, self.time_column) is Ok
        &&& self.feature_columns == features_of(
            crate::frame::frame_columns(self.frame),
            self.time_column,
        )
    }

    /// The number of rows.
    pub open spec fn rows(self) -> nat {
        crate::frame::frame_height(self.frame)
    }
}

/// What making a dataset from `df` gives, with `requested` as the time column or,
/// without one, the detected column.
pub open spec fn construction(df: DataFrame, requested: Option<Seq<char>>) -> Result<
    DatasetView,
    ErrorView,
> {
    match chosen_time_column(df, requested) {
        Err(e) => Err(e),
        Ok(time) => match time_column_check(df, time) {
            Err(e) => Err(e),
            Ok(_) => Ok(DatasetView::wrap(df, time, Map::empty())),
        },
    }
}

/// What attaching metadata to `df` gives: the metadata's time column is checked, the
/// feature columns are computed afresh, the tags are kept.
pub open spec fn attachment(df: DataFrame, time: Seq<char>, tags: Map<Seq<char>, Seq<char>>) -> Result<
    DatasetView,
    ErrorView,
> {
    match time_column_check(df, time) {
        Err(e) => Err(e),
        Ok(_) => Ok(DatasetView::wrap(df, time, tags)),
    }
}

/// What [`first_listed`] finds is the earliest candidate that is a column; it finds
/// nothing exactly when no candidate is a column.
pub proof fn lemma_first_listed(candidates: Seq<Seq<char>>, columns: Seq<Seq<char>>)
    ensures
        match first_listed(candidates, columns) {
            Some(name) => exists|i: int|
                0 <= i < candidates.len() && #[trigger] candidates[i] == name && columns.contains(
                    name,
                ) && forall|j: int| 0 <= j < i ==> !columns.contains(#[trigger] candidates[j]),
            None => forall|i: int|
                0 <= i < candidates.len() ==> !columns.contains(#[trigger] candidates[i]),
        },
    decreases candidates.len(),
{
    if candidates.len() > 0 && !columns.contains(candidates[0]) {
        let rest = candidates.drop_first();
        lemma_first_listed(rest, columns);
        match first_listed(rest, columns) {
            Some(name) => {
                let i = choose|i: int|
                    0 <= i < rest.len() && #[trigger] rest[i] == name && columns.contains(name)
                        && forall|j: int| 0 <= j < i ==> !columns.contains(#[trigger] rest[j]);
                assert(candidates[i + 1] == name);
                assert forall|j: int| 0 <= j < i + 1 implies !columns.contains(
                    #[trigger] candidates[j],
                ) by {
                    if j > 0 {
                        assert(candidates[j] == rest[j - 1]);
                    }
                }
            },
            None => {
                assert forall|i: int| 0 <= i < candidates.len() implies !columns.contains(
                    #[trigger] candidates[i],
                ) by {
                    if i > 0 {
                        assert(candidates[i] == rest[i - 1]);
                    }
                }
            },
        }
    } else if candidates.len() > 0 {
        assert(candidates[0] == candidates[0]);
    }
}

/// Detection returns the most preferred canonical name that is a column of the
/// table; when no canonical name is a column it returns the first column; when the
/// table has no column it finds nothing.
pub proof fn lemma_detection(columns: Seq<Seq<char>>)
    ensures
        (exists|i: int|
            0 <= i < canonical_time_names().len() && columns.contains(
                #[trigger] canonical_time_names()[i],
            )) ==> exists|i: int|
            0 <= i < canonical_time_names().len() && detected_time_column(columns) == Some(
                #[trigger] canonical_time_names()[i],
            ) && columns.contains(canonical_time_names()[i]) && forall|j: int|
                0 <= j < i ==> !columns.contains(#[trigger] canonical_time_names()[j]),
        (forall|i: int|
            0 <= i < canonical_time_names().len() ==> !columns.contains(
                #[trigger] canonical_time_names()[i],
            )) && columns.len() > 0 ==> detected_time_column(columns) == Some(columns[0]),
        columns.len() == 0 ==> detected_time_column(columns) is None,
{
    let canonical = canonical_time_names();
    lemma_first_listed(canonical, columns);
    match first_listed(canonical, columns) {
        Some(name) => {
            let i = choose|i: int|
                0 <= i < canonical.len() && #[trigger] canonical[i] == name && columns.contains(
                    name,
                ) && forall|j: int| 0 <= j < i ==> !columns.contains(#[trigger] canonical[j]);
            assert(detected_time_column(columns) == Some(canonical[i]));
        },
        None => {},
    }
    if columns.len() == 0 {
        assert forall|i: int| 0 <= i < canonical.len() implies !columns.contains(
            #[trigger] canonical[i],
        ) by {}
    }
}

/// A time column that holds neither dates nor datetimes is rejected with the type it
/// holds, whether the dataset is made anew or metadata is attached.
pub proof fn lemma_non_temporal_time_column_is_rejected(
    df: DataFrame,
    requested: Option<Seq<char>>,
    time: Seq<char>,
    text: Seq<char>,
    tags: Map<Seq<char>, Seq<char>>,
)
    requires
        chosen_time_column(df, requested) == Ok::<Seq<char>, ErrorView>(time),
        crate::frame::frame_column_type(df, time) == Some(ColumnTypeView::Other(text)),
    ensures
        construction(df, requested) == Err::<DatasetView, ErrorView>(
            ErrorView::InvalidTimeColumnType(text),
        ),
        attachment(df, time, tags) == Err::<DatasetView, ErrorView>(
            ErrorView::InvalidTimeColumnType(text),
        ),
{
}

/// The feature columns are exactly the columns other than the time column.
pub proof fn lemma_features_are_the_other_columns(columns: Seq<Seq<char>>, time: Seq<char>)
    ensures
        forall|name: Seq<char>|
            #[trigger] features_of(columns, time).contains(name) <==> columns.contains(name)
                && name != time,
        !columns.contains(time) ==> features_of(columns, time) == columns,
    decreases columns.len(),
{
    reveal(Seq::filter);
    let keep = other_than(time);
    if columns.len() > 0 {
        let init = columns.drop_last();
        let last = columns.last();
        lemma_features_are_the_other_columns(init, time);
        assert(columns =~= init.push(last));
        init.lemma_filter_push(last, keep);
        assert forall|name: Seq<char>| #[trigger]
            features_of(columns, time).contains(name) <==> columns.contains(name) && name
                != time by {
            if features_of(columns, time).contains(name) {
                if keep(last) && name == last {
                    assert(columns[columns.len() - 1] == name);
                } else {
                    assert(features_of(init, time).contains(name));
                    let i = choose|i: int| 0 <= i < init.len() && init[i] == name;
                    assert(columns[i] == name);
                }
            }
            if columns.contains(name) && name != time {
                let i = choose|i: int| 0 <= i < columns.len() && columns[i] == name;
                if i < init.len() {
                    assert(init[i] == name);
                    assert(features_of(init, time).contains(name));
                    let j = choose|j: int|
                        0 <= j < features_of(init, time).len() && features_of(init, time)[j]
                            == name;
                    assert(features_of(columns, time)[j] == name);
                } else {
                    assert(features_of(columns, time) == features_of(init, time).push(last));
                    assert(features_of(columns, time)[features_of(init, time).len() as int]
                        == name);
                }
            }
        }
        if !columns.contains(time) {
            assert(!init.contains(time)) by {
                if init.contains(time) {
                    let i = choose|i: int| 0 <= i < init.len() && init[i] == time;
                    assert(columns[i] == time);
                }
            }
            assert(last != time) by {
                if last == time {
                    assert(columns[columns.len() - 1] == time);
                }
            }
            assert(features_of(columns, time) =~= columns);
        }
    }
}

/// The feature columns keep the order of the table: the features of two runs of
/// columns, one after the other, are the features of the first followed by those of
/// the second; and the time column alone has no features.
pub proof fn lemma_features_keep_the_order(
    front: Seq<Seq<char>>,
    back: Seq<Seq<char>>,
    time: Seq<char>,
)
    ensures
        features_of(front + back, time) == features_of(front, time) + features_of(back, time),
        features_of(seq![time], time) == Seq::<Seq<char>>::empty(),
{
    Seq::filter_distributes_over_add(front, back, other_than(time));
    let none = Seq::<Seq<char>>::empty();
    assert(seq![time] =~= none.push(time));
    none.lemma_filter_push(time, other_than(time));
    assert(none.filter(other_than(time)) =~= none) by {
        reveal(Seq::filter);
    }
}

/// Whether `name` is one of `columns`.
pub fn contains_name(columns: &Vec<String>, name: &str) -> (r: bool)
    ensures
        r == crate::text::texts(columns@).contains(name@),
{
    crate::text::find_text(columns, name).is_some()
}

/// Picks the time column among the names of a table's columns: the most preferred
/// canonical name that occurs, else the first column. Fails when there is no column.
pub fn detect_among(columns: &Vec<String>) -> (r: Result<String, IndustrytsError>)
    ensures
        match detected_time_column(crate::text::texts(columns@)) {
            Some(name) => r matches Ok(found) && found@ == name,
            None => r matches Err(e) && e@ == ErrorView::TimeColumnNotFound(
                "DataFrame is empty"@,
            ),
        },
{
    let common_names: [&str; 10] = [
        "DateTime",
        "datetime",
        "tagTime",
        "tagtime",
        "timestamp",
        "Timestamp",
        "time",
        "Time",
        "date",
        "Date",
    ];
    let ghost canonical = canonical_time_names();
    let ghost names = crate::text::texts(columns@);
    let mut c: usize = 0;
    assert(canonical.skip(0) =~= canonical);
    while c < 10
        invariant
            c <= 10,
            canonical == canonical_time_names(),
            names == crate::text::texts(columns@),
            forall|k: int| 0 <= k < 10 ==> (#[trigger] common_names@[k])@ == canonical[k],
            first_listed(canonical, names) == first_listed(canonical.skip(c as int), names),
        decreases 10 - c,
    {
        let candidate: &str = common_names[c];
        proof {
            assert(canonical.skip(c as int)[0] == canonical[c as int]);
            assert(canonical.skip(c as int).drop_first() =~= canonical.skip(c + 1));
        }
        if contains_name(columns, candidate) {
            return Ok(candidate.to_owned());
        }
        c = c + 1;
    }
    assert(canonical.skip(10).len() == 0);
    if columns.len() > 0 {
        Ok(columns[0].clone())
    } else {
        Err(IndustrytsError::TimeColumnNotFound("DataFrame is empty".to_owned()))
    }
}

/// The strings of `names` that differ from `time`, in their order.
pub fn names_other_than(names: &Vec<String>, time: &str) -> (r: Vec<String>)
    ensures
        crate::text::texts(r@) == features_of(crate::text::texts(names@), time@),
{
    let ghost all = crate::text::texts(names@);
    let ghost keep = other_than(time@);
    let mut kept: Vec<String> = Vec::new();
    let mut i: usize = 0;
    proof {
        assert(all.take(0) =~= Seq::<Seq<char>>::empty());
        reveal(Seq::filter);
        assert(crate::text::texts(kept@) =~= all.take(0).filter(keep));
    }
    while i < names.len()
        invariant
            i <= names@.len(),
            all == crate::text::texts(names@),
            keep == other_than(time@),
            crate::text::texts(kept@) == all.take(i as int).filter(keep),
        decreases names@.len() - i,
    {
        proof {
            assert(all.take(i + 1) =~= all.take(i as int).push(all[i as int]));
            all.take(i as int).lemma_filter_push(all[i as int], keep);
        }
        if !crate::text::same_text(names[i].as_str(), time) {
            let ghost before = kept@;
            kept.push(names[i].clone());
            assert(crate::text::texts(kept@) =~= crate::text::texts(before).push(all[i as int]));
        }
        i = i + 1;
    }
    assert(all.take(names@.len() as int) =~= all);
    kept
}

/// What a dataset knows about its table besides the table itself.
#[derive(Debug)]
pub struct TimeSeriesMetadata {
    /// Name of the time column.
    pub time_column: String,
    /// Names of the feature columns.
    pub feature_columns: Vec<String>,
    /// Free-form annotations.
    pub tags: StringMap<String>,
}

impl Clone for TimeSeriesMetadata {
    fn clone(&self) -> (r: Self)
        ensures
            r.time_column@ == self.time_column@,
            crate::text::texts(r.feature_columns@) == crate::text::texts(self.feature_columns@),
            tag_texts(r.tags@) == tag_texts(self.tags@),
    {
        let tags = self.tags.clone();
        proof {
            lemma_same_tags(self.tags, tags);
        }
        TimeSeriesMetadata {
            time_column: self.time_column.clone(),
            feature_columns: crate::text::copy_texts(self.feature_columns.as_slice()),
            tags,
        }
    }
}

/// Two tag maps with the same keys in the same order and the same text at each
/// position hold the same tags.
proof fn lemma_same_tags(a: StringMap<String>, b: StringMap<String>)
    requires
        a.key_seq() == b.key_seq(),
        a.value_seq().len() == b.value_seq().len(),
        forall|i: int|
            0 <= i < a.value_seq().len() ==> cloned::<String>(
                a.value_seq()[i],
                #[trigger] b.value_seq()[i],
            ),
    ensures
        tag_texts(a@) == tag_texts(b@),
{
    a.lemma_parallel();
    assert forall|k: Seq<char>| #[trigger] a@.contains_key(k) implies a@[k]@ == b@[k]@ by {
        let i = a.key_seq().index_of(k);
        assert(cloned::<String>(a.value_seq()[i], b.value_seq()[i]));
    }
    assert(tag_texts(a@) =~= tag_texts(b@));
}

/// A polars table read as a time series: one column holds the time, the others are
/// features.
pub struct TimeSeriesData {
    df: DataFrame,
    metadata: TimeSeriesMetadata,
}

impl View for TimeSeriesData {
    type V = DatasetView;

    closed spec fn view(&self) -> DatasetView {
        DatasetView {
            frame: self.df,
            time_column: self.metadata.time_column@,
            feature_columns: crate::text::texts(self.metadata.feature_columns@),
            tags: tag_texts(self.metadata.tags@),
        }
    }
}

impl TimeSeriesData {
    #[verifier::type_invariant]
    spec fn consistent(&self) -> bool {
        self@.well_formed()
    }

    /// Checks that `col_name` names a column of `df` that holds dates or datetimes.
    pub fn validate_time_column(df: &DataFrame, col_name: &str) -> (r: Result<(), IndustrytsError>)
        ensures
            match time_column_check(*df, col_name@) {
                Ok(_) => r is Ok && crate::frame::frame_columns(*df).contains(col_name@),
                Err(e) => r matches Err(err) && err@ == e,
            },
            crate::frame::frame_column_type(*df, col_name@) is Some <==> crate::frame::frame_columns(
                *df,
            ).contains(col_name@),
    {
        match crate::frame::column_type(df, col_name) {
            None => Err(IndustrytsError::TimeColumnNotFound(col_name.to_owned())),
            Some(ColumnType::Other(text)) => Err(IndustrytsError::InvalidTimeColumnType(text)),
            Some(_) => Ok(()),
        }
    }

    /// Picks the time column of `df`: the most preferred canonical name among its
    /// columns, else its first column. Fails when the table has no column.
    pub fn detect_time_column(df: &DataFrame) -> (r: Result<String, IndustrytsError>)
        ensures
            match detected_time_column(crate::frame::frame_columns(*df)) {
                Some(name) => r matches Ok(found) && found@ == name,
                None => r matches Err(e) && e@ == ErrorView::TimeColumnNotFound(
                    "DataFrame is empty"@,
                ),
            },
    {
        let columns = crate::frame::column_names(df);
        detect_among(&columns)
    }

    /// Wraps `df` as a time series. The time column is `time_column` or, without one,
    /// the detected column; it must be a column of the table that holds dates or
    /// datetimes. The feature columns are the other columns; there are no tags.
    pub fn new(df: DataFrame, time_column: Option<&str>) -> (r: Result<Self, IndustrytsError>)
        ensures
            match construction(
                df,
                match time_column {
                    Some(name) => Some(name@),
                    None => None,
                },
            ) {
                Ok(v) => r matches Ok(ts) && ts@ == v && v.well_formed(),
                Err(e) => r matches Err(err) && err@ == e,
            },
    {
        let time_col: String = match time_column {
            Some(name) => name.to_owned(),
            None => match Self::detect_time_column(&df) {
                Ok(name) => name,
                Err(e) => {
                    return Err(e);
                },
            },
        };
        match Self::validate_time_column(&df, time_col.as_str()) {
            Ok(_) => {},
            Err(e) => {
                return Err(e);
            },
        }
        let columns = crate::frame::column_names(&df);
        let feature_columns = names_other_than(&columns, time_col.as_str());
        let tags: StringMap<String> = StringMap::new();
        proof {
            assert(tag_texts(tags@) =~= Map::<Seq<char>, Seq<char>>::empty());
        }
        let metadata = TimeSeriesMetadata { time_column: time_col, feature_columns, tags };
        Ok(TimeSeriesData { df, metadata })
    }

    /// Wraps `df` with the time column and the tags of `metadata`. The time column is
    /// checked as in [`Self::new`]; the feature columns are computed from the table,
    /// whatever `metadata` lists.
    pub fn with_metadata(df: DataFrame, metadata: TimeSeriesMetadata) -> (r: Result<
        Self,
        IndustrytsError,
    >)
        ensures
            match attachment(df, metadata.time_column@, tag_texts(metadata.tags@)) {
                Ok(v) => r matches Ok(ts) && ts@ == v && v.well_formed(),
                Err(e) => r matches Err(err) && err@ == e,
            },
    {
        match Self::validate_time_column(&df, metadata.time_column.as_str()) {
            Ok(_) => {},
            Err(e) => {
                return Err(e);
            },
        }
        let columns = crate::frame::column_names(&df);
        let feature_columns = names_other_than(&columns, metadata.time_column.as_str());
        let metadata = TimeSeriesMetadata {
            time_column: metadata.time_column,
            feature_columns,
            tags: metadata.tags,
        };
        Ok(TimeSeriesData { df, metadata })
    }

    /// The underlying table.
    pub fn dataframe(&self) -> (r: &DataFrame)
        ensures
            *r == self@.frame,
            self@.well_formed(),
    {
        proof {
            use_type_invariant(self);
        }
        &self.df
    }

    /// The name of the time column.
    pub fn time_column(&self) -> (r: &str)
        ensures
            r@ == self@.time_column,
            self@.well_formed(),
    {
        proof {
            use_type_invariant(self);
        }
        self.metadata.time_column.as_str()
    }

    /// The names of the feature columns: the table's columns without the time column,
    /// in the table's order.
    pub fn feature_columns(&self) -> (r: &[String])
        ensures
            crate::text::texts(r@) == self@.feature_columns,
            self@.feature_columns == features_of(
                crate::frame::frame_columns(self@.frame),
                self@.time_column,
            ),
    {
        proof {
            use_type_invariant(self);
        }
        self.metadata.feature_columns.as_slice()
    }

    /// The time column, the feature columns and the tags.
    pub fn metadata(&self) -> (r: &TimeSeriesMetadata)
        ensures
            r.time_column@ == self@.time_column,
            crate::text::texts(r.feature_columns@) == self@.feature_columns,
            tag_texts(r.tags@) == self@.tags,
            self@.well_formed(),
    {
        proof {
            use_type_invariant(self);
        }
        &self.metadata
    }

    /// Gives up the dataset for its table.
    pub fn into_dataframe(self) -> (r: DataFrame)
        ensures
            r == self@.frame,
    {
        self.df
    }

    /// Gives up the dataset for its table and its metadata.
    pub fn into_parts(self) -> (r: (DataFrame, TimeSeriesMetadata))
        ensures
            r.0 == self@.frame,
            r.1.time_column@ == self@.time_column,
            crate::text::texts(r.1.feature_columns@) == self@.feature_columns,
            tag_texts(r.1.tags@) == self@.tags,
            self@.well_formed(),
    {
        proof {
            use_type_invariant(&self);
        }
        (self.df, self.metadata)
    }

    /// The number of rows.
    pub fn len(&self) -> (r: usize)
        ensures
            r == self@.rows(),
    {
        self.df.height()
    }

    /// Whether the dataset has no rows.
    pub fn is_empty(&self) -> (r: bool)
        ensures
            r == (self@.rows() == 0),
    {
        proof {
            use_type_invariant(self);
        }
        self.df.is_empty()
    }

    /// Sets a tag, replacing an earlier one under the same key. The table, the time
    /// column and the feature columns stay as they are.
    pub fn add_tag(&mut self, key: String, value: String)
        ensures
            final(self)@ == (DatasetView { tags: old(self)@.tags.insert(key@, value@), ..old(self)@ }),
    {
        proof {
            use_type_invariant(&*self);
        }
        let mut tags: StringMap<String> = StringMap::new();
        std::mem::swap(&mut tags, &mut self.metadata.tags);
        let ghost before = tags@;
        tags.insert(key, value);
        proof {
            assert(tag_texts(tags@) =~= tag_texts(before).insert(key@, value@));
        }
        self.metadata.tags = tags;
    }

    /// The tag stored under `key`, if there is one.
    pub fn get_tag(&self, key: &str) -> (r: Option<&str>)
        ensures
            match r {
                Some(v) => self@.tags.contains_key(key@) && v@ == self@.tags[key@],
                None => !self@.tags.contains_key(key@),
            },
    {
        match self.metadata.tags.get(key) {
            Some(v) => Some(v.as_str()),
            None => None,
        }
    }
}

impl Clone for TimeSeriesData {
    fn clone(&self) -> (r: Self)
        ensures
            r@ == self@,
    {
        proof {
            use_type_invariant(self);
        }
        TimeSeriesData { df: self.df.clone(), metadata: self.metadata.clone() }
    }
}

} // verus!
