use vstd::prelude::*;

use crate::call::said;
use crate::globs::{
    check_glob, glob_error, may_be_invalid, starts_with_three_stars, GlobError,
};
use crate::number::{
    decimal_text, is_digit, is_number, lemma_decimal_text, number, number_fault, number_fault_text,
    parse_number, unsigned_part, write_number, NumberError,
};
use crate::text::{
    enclose, first, lemma_first, lemma_first_unique, lemma_split_len, occurs, occurs_at, split,
    split_text,
};

verus! {

/// The number of a partition in its table. Partitions are counted from one.
#[derive(Debug, Clone, Copy, PartialEq, Eq, Structural)]
pub struct PartitionIndex {
    number: u32,
}

impl PartitionIndex {
    #[verifier::type_invariant]
    spec fn counts_from_one(self) -> bool {
        self.number != 0
    }

    pub closed spec fn view(self) -> u32 {
        self.number
    }

    /// The index `number`, unless that is zero.
    pub fn new(number: u32) -> (index: Option<PartitionIndex>)
        ensures
            index is Some <==> number != 0,
            index matches Some(index) ==> index@ == number,
    {
        if number == 0 {
            None
        } else {
            Some(PartitionIndex { number })
        }
    }

    pub fn get(self) -> (number: u32)
        ensures
            number == self@,
            number != 0,
    {
        proof {
            use_type_invariant(self);
        }
        self.number
    }
}

/// Which partitions of a disk are kept through an installation.
#[derive(Debug, Clone, PartialEq, Eq)]
pub enum PartitionFilter {
    /// Those whose label matches a glob pattern.
    Label(String),
    /// Those whose index lies between two bounds, both of them within. A bound that is
    /// left out is open.
    Index(Option<PartitionIndex>, Option<PartitionIndex>),
}

/// What a [`PartitionFilter`] says.
pub enum Filter {
    Label(Seq<char>),
    Index(Option<u32>, Option<u32>),
}

pub open spec fn bound(index: Option<PartitionIndex>) -> Option<u32> {
    match index {
        Some(index) => Some(index@),
        None => None,
    }
}

impl View for PartitionFilter {
    type V = Filter;

    open spec fn view(&self) -> Filter {
        match self {
            PartitionFilter::Label(glob) => Filter::Label(glob@),
            PartitionFilter::Index(start, end) => Filter::Index(bound(*start), bound(*end)),
        }
    }
}

/// What is wrong with a request to keep partitions.
#[derive(Debug, Clone, PartialEq, Eq)]
pub enum FilterError {
    /// The label is no glob pattern.
    LabelGlob { glob: String, cause: GlobError },
    /// A bound of a range is no 32-bit number.
    IndexNumber { index: String, cause: NumberError },
    /// A bound of a range is zero.
    ZeroIndex,
    /// The range has more than two bounds.
    RangeSyntax { range: String },
    /// Both bounds of the range are left out.
    OpenRange { range: String },
    /// The range ends before it starts.
    ReversedRange { range: String },
}

/// What a [`FilterError`] says.
pub enum FilterFault {
    LabelGlob { glob: Seq<char>, cause: (nat, Seq<char>) },
    IndexNumber { index: Seq<char>, cause: NumberError },
    ZeroIndex,
    RangeSyntax { range: Seq<char> },
    OpenRange { range: Seq<char> },
    ReversedRange { range: Seq<char> },
}

impl View for FilterError {
    type V = FilterFault;

    open spec fn view(&self) -> FilterFault {
        match self {
            FilterError::LabelGlob { glob, cause } => FilterFault::LabelGlob {
                glob: glob@,
                cause: cause@,
            },
            FilterError::IndexNumber { index, cause } => FilterFault::IndexNumber {
                index: index@,
                cause: *cause,
            },
            FilterError::ZeroIndex => FilterFault::ZeroIndex,
            FilterError::RangeSyntax { range } => FilterFault::RangeSyntax { range: range@ },
            FilterError::OpenRange { range } => FilterFault::OpenRange { range: range@ },
            FilterError::ReversedRange { range } => FilterFault::ReversedRange { range: range@ },
        }
    }
}

/// How a fault is put to the user.
pub open spec fn fault_message(fault: FilterFault) -> Seq<char> {
    match fault {
        FilterFault::LabelGlob { glob, .. } => "couldn't parse label glob '"@ + glob + "'"@,
        FilterFault::IndexNumber { index, .. } => "couldn't parse partition index '"@ + index
            + "'"@,
        FilterFault::ZeroIndex => "partition index cannot be zero"@,
        FilterFault::RangeSyntax { range } => "couldn't parse partition index range '"@ + range
            + "'"@,
        FilterFault::OpenRange { range } => "both ends of partition index range '"@ + range
            + "' cannot be open"@,
        FilterFault::ReversedRange { range } => "start of partition index range '"@ + range
            + "' cannot be greater than end"@,
    }
}

/// What lies beneath a fault, where there is more to say than its message does.
pub open spec fn fault_cause(fault: FilterFault) -> Option<Seq<char>> {
    match fault {
        FilterFault::LabelGlob { cause, .. } => Some(
            "Pattern syntax error near position "@ + decimal_text(cause.0) + ": "@ + cause.1,
        ),
        FilterFault::IndexNumber { cause, .. } => Some(number_fault_text(cause)),
        _ => None,
    }
}

impl FilterError {
    /// What lies beneath the error, where there is more to say than its message does.
    pub fn cause(&self) -> (cause: Option<String>)
        ensures
            said(cause) == fault_cause(self@),
    {
        match self {
            FilterError::LabelGlob { cause, .. } => Some(
                enclose(
                    "Pattern syntax error near position ",
                    write_number(cause.position as u64).as_str(),
                    ": ",
                ).concat(cause.reason.as_str()),
            ),
            FilterError::IndexNumber { cause, .. } => Some(cause.text()),
            _ => None,
        }
    }

    /// How the error is put to the user.
    pub fn message(&self) -> (message: String)
        ensures
            message@ == fault_message(self@),
    {
        match self {
            FilterError::LabelGlob { glob, .. } => enclose(
                "couldn't parse label glob '",
                glob.as_str(),
                "'",
            ),
            FilterError::IndexNumber { index, .. } => enclose(
                "couldn't parse partition index '",
                index.as_str(),
                "'",
            ),
            FilterError::ZeroIndex => "partition index cannot be zero".to_owned(),
            FilterError::RangeSyntax { range } => enclose(
                "couldn't parse partition index range '",
                range.as_str(),
                "'",
            ),
            FilterError::OpenRange { range } => enclose(
                "both ends of partition index range '",
                range.as_str(),
                "' cannot be open",
            ),
            FilterError::ReversedRange { range } => enclose(
                "start of partition index range '",
                range.as_str(),
                "' cannot be greater than end",
            ),
        }
    }
}

/// The filter of one label, where `cause` says why the label is no glob pattern.
pub open spec fn label_filter(label: Seq<char>, cause: Option<(nat, Seq<char>)>) -> Result<
    Filter,
    FilterFault,
> {
    match cause {
        None => Ok(Filter::Label(label)),
        Some(cause) => Err(FilterFault::LabelGlob { glob: label, cause }),
    }
}

/// The bound that one end of a range writes. An empty end is open.
pub open spec fn range_end(text: Seq<char>) -> Result<Option<u32>, FilterFault> {
    if text.len() == 0 {
        Ok(None)
    } else {
        match number(text) {
            None => Err(FilterFault::IndexNumber { index: text, cause: number_fault(text) }),
            Some(0) => Err(FilterFault::ZeroIndex),
            Some(n) => Ok(Some(n)),
        }
    }
}

/// The filter of one index range: a single index, or two ends with a `-` between them.
pub open spec fn index_filter(range: Seq<char>) -> Result<Filter, FilterFault> {
    let ends = split(range, seq!['-']);
    if ends.len() > 2 {
        Err(FilterFault::RangeSyntax { range })
    } else {
        match (range_end(ends.first()), range_end(ends.last())) {
            (Err(fault), _) => Err(fault),
            (_, Err(fault)) => Err(fault),
            (Ok(None), Ok(None)) => Err(FilterFault::OpenRange { range }),
            (Ok(start), Ok(end)) => if start is Some && end is Some && start->0 > end->0 {
                Err(FilterFault::ReversedRange { range })
            } else {
                Ok(Filter::Index(start, end))
            },
        }
    }
}

/// All the items, or the first error among them.
pub open spec fn gather<T, E>(results: Seq<Result<T, E>>) -> Result<Seq<T>, E>
    decreases results.len(),
{
    if results.len() == 0 {
        Ok(Seq::empty())
    } else {
        match gather(results.drop_last()) {
            Err(error) => Err(error),
            Ok(items) => match results.last() {
                Err(error) => Err(error),
                Ok(item) => Ok(items.push(item)),
            },
        }
    }
}

/// What each label and then each index range gives.
pub open spec fn filter_results(
    labels: Seq<Seq<char>>,
    causes: Seq<Option<(nat, Seq<char>)>>,
    indexes: Seq<Seq<char>>,
) -> Seq<Result<Filter, FilterFault>> {
    Seq::new(labels.len(), |i: int| label_filter(labels[i], causes[i])) + Seq::new(
        indexes.len(),
        |i: int| index_filter(indexes[i]),
    )
}

/// The contents of a list of texts.
pub open spec fn texts(list: Seq<&str>) -> Seq<Seq<char>> {
    Seq::new(list.len(), |i: int| list[i]@)
}

/// What a list of glob errors says.
pub open spec fn causes(list: Seq<Option<GlobError>>) -> Seq<Option<(nat, Seq<char>)>> {
    Seq::new(
        list.len(),
        |i: int|
            match list[i] {
                Some(error) => Some(error@),
                None => None,
            },
    )
}

/// What the glob compiler says of each of the labels.
pub open spec fn glob_errors(labels: Seq<Seq<char>>) -> Seq<Option<(nat, Seq<char>)>> {
    Seq::new(labels.len(), |i: int| glob_error(labels[i]))
}

/// What a list of filters says.
pub open spec fn filter_views(list: Seq<PartitionFilter>) -> Seq<Filter> {
    Seq::new(list.len(), |i: int| list[i]@)
}

/// `parsed` is what `results` gathers to.
pub open spec fn gathered(
    parsed: Result<Vec<PartitionFilter>, FilterError>,
    results: Seq<Result<Filter, FilterFault>>,
) -> bool {
    match parsed {
        Ok(filters) => gather(results) == Ok::<_, FilterFault>(filter_views(filters@)),
        Err(error) => gather(results) == Err::<Seq<Filter>, _>(error@),
    }
}

/// An error among the first results is the error of all of them.
proof fn lemma_gather_prefix<T, E>(results: Seq<Result<T, E>>, k: int)
    requires
        0 <= k <= results.len(),
        gather(results.take(k)) is Err,
    ensures
        gather(results) == gather(results.take(k)),
    decreases results.len(),
{
    if k == results.len() {
        assert(results.take(k) =~= results);
    } else {
        assert(results.drop_last().take(k) =~= results.take(k));
        lemma_gather_prefix(results.drop_last(), k);
    }
}

/// One more result.
proof fn lemma_gather_next<T, E>(results: Seq<Result<T, E>>, k: int, items: Seq<T>)
    requires
        0 <= k < results.len(),
        gather(results.take(k)) == Ok::<_, E>(items),
    ensures
        results[k] matches Ok(item) ==> gather(results.take(k + 1)) == Ok::<_, E>(items.push(item)),
        results[k] matches Err(error) ==> gather(results) == Err::<Seq<T>, _>(error),
{
    assert(results.take(k + 1).drop_last() =~= results.take(k));
    if results[k] is Err {
        lemma_gather_prefix(results, k + 1);
    }
}

/// Reads one end of an index range.
fn parse_index(text: &str) -> (parsed: Result<Option<PartitionIndex>, FilterError>)
    ensures
        match parsed {
            Ok(index) => range_end(text@) == Ok::<_, FilterFault>(bound(index)),
            Err(error) => range_end(text@) == Err::<Option<u32>, _>(error@),
        },
{
    if text.is_empty() {
        return Ok(None);
    }
    match parse_number(text) {
        Err(cause) => Err(FilterError::IndexNumber { index: text.to_owned(), cause }),
        Ok(n) => match PartitionIndex::new(n) {
            None => Err(FilterError::ZeroIndex),
            Some(index) => Ok(Some(index)),
        },
    }
}

/// Reads one index range.
fn parse_index_range(range: &str) -> (parsed: Result<PartitionFilter, FilterError>)
    ensures
        match parsed {
            Ok(filter) => index_filter(range@) == Ok::<_, FilterFault>(filter@),
            Err(error) => index_filter(range@) == Err::<Filter, _>(error@),
        },
{
    proof {
        reveal_strlit("-");
        assert("-"@ =~= seq!['-']);
        lemma_split_len(range@, seq!['-']);
    }
    let ends = split_text(range, "-");
    let ghost pieces = split(range@, seq!['-']);
    assert(ends@.len() == pieces.len());
    if ends.len() > 2 {
        return Err(FilterError::RangeSyntax { range: range.to_owned() });
    }
    assert(ends@[0]@ == pieces[0]);
    assert(ends@[ends@.len() - 1]@ == pieces[pieces.len() - 1]);
    let start = match parse_index(ends[0]) {
        Ok(start) => start,
        Err(error) => {
            return Err(error);
        },
    };
    let end = match parse_index(ends[ends.len() - 1]) {
        Ok(end) => end,
        Err(error) => {
            return Err(error);
        },
    };
    match (start, end) {
        (None, None) => Err(FilterError::OpenRange { range: range.to_owned() }),
        (Some(x), Some(y)) => if x.get() > y.get() {
            Err(FilterError::ReversedRange { range: range.to_owned() })
        } else {
            Ok(PartitionFilter::Index(start, end))
        },
        _ => Ok(PartitionFilter::Index(start, end)),
    }
}

/// The filters of some labels and index ranges, in that order, given for each label why it
/// is no glob pattern, if it is none. The first label or range that is wrong decides the
/// error.
pub fn collect_partition_filters(
    labels: &[&str],
    globs: &Vec<Option<GlobError>>,
    indexes: &[&str],
) -> (parsed: Result<Vec<PartitionFilter>, FilterError>)
    requires
        globs@.len() == labels@.len(),
    ensures
        gathered(parsed, filter_results(texts(labels@), causes(globs@), texts(indexes@))),
{
    let ghost results = filter_results(texts(labels@), causes(globs@), texts(indexes@));
    let mut filters: Vec<PartitionFilter> = Vec::new();
    assert(results.take(0) =~= Seq::empty());
    assert(filter_views(filters@) =~= Seq::empty());
    let mut i: usize = 0;
    while i < labels.len()
        invariant
            i <= labels@.len(),
            globs@.len() == labels@.len(),
            results == filter_results(texts(labels@), causes(globs@), texts(indexes@)),
            gather(results.take(i as int)) == Ok::<_, FilterFault>(filter_views(filters@)),
        decreases labels@.len() - i,
    {
        let ghost before = filter_views(filters@);
        proof {
            lemma_gather_next(results, i as int, before);
            assert(results[i as int] == label_filter(labels@[i as int]@, causes(globs@)[i as int]));
        }
        match &globs[i] {
            Some(cause) => {
                return Err(
                    FilterError::LabelGlob {
                        glob: labels[i].to_owned(),
                        cause: GlobError { position: cause.position, reason: cause.reason.clone() },
                    },
                );
            },
            None => {
                filters.push(PartitionFilter::Label(labels[i].to_owned()));
            },
        }
        assert(filter_views(filters@) =~= before.push(Filter::Label(labels@[i as int]@)));
        i += 1;
    }
    let mut j: usize = 0;
    while j < indexes.len()
        invariant
            j <= indexes@.len(),
            globs@.len() == labels@.len(),
            results == filter_results(texts(labels@), causes(globs@), texts(indexes@)),
            gather(results.take(labels@.len() + j)) == Ok::<_, FilterFault>(filter_views(filters@)),
        decreases indexes@.len() - j,
    {
        let ghost before = filter_views(filters@);
        let ghost k = labels@.len() + j;
        proof {
            lemma_gather_next(results, k, before);
            assert(results[k] == index_filter(indexes@[j as int]@));
        }
        match parse_index_range(indexes[j]) {
            Err(error) => {
                return Err(error);
            },
            Ok(filter) => {
                let ghost said = filter@;
                filters.push(filter);
                assert(filter_views(filters@) =~= before.push(said));
            },
        }
        j += 1;
    }
    assert(results.take(labels@.len() + j) =~= results);
    Ok(filters)
}

/// Reads the labels and the index ranges of the partitions that the user wants to keep.
/// A label is a glob pattern. An index range is a single index or `start-end`, where one
/// of the ends may be left out.
pub fn parse_partition_filters(labels: &[&str], indexes: &[&str]) -> (parsed: Result<
    Vec<PartitionFilter>,
    FilterError,
>)
    ensures
        gathered(
            parsed,
            filter_results(texts(labels@), glob_errors(texts(labels@)), texts(indexes@)),
        ),
        parsed matches Ok(filters) ==> {
            &&& filters@.len() == labels@.len() + indexes@.len()
            &&& forall|i: int|
                0 <= i < labels@.len() ==> filters@[i]@ == Filter::Label((#[trigger] labels@[i])@)
            &&& forall|i: int|
                0 <= i < indexes@.len() ==> index_filter((#[trigger] indexes@[i])@) == Ok::<
                    _,
                    FilterFault,
                >(filters@[labels@.len() + i]@)
        },
        forall|i: int|
            0 <= i < labels@.len() ==> {
                let label = (#[trigger] labels@[i])@;
                &&& starts_with_three_stars(label) ==> glob_error(label) is Some
                &&& glob_error(label) is Some ==> may_be_invalid(label)
            },
        parsed matches Err(FilterError::LabelGlob { glob, .. }) ==> may_be_invalid(glob@),
        parsed is Ok ==> forall|i: int|
            0 <= i < labels@.len() ==> !starts_with_three_stars((#[trigger] labels@[i])@),
{
    let mut globs: Vec<Option<GlobError>> = Vec::new();
    let mut i: usize = 0;
    while i < labels.len()
        invariant
            i <= labels@.len(),
            globs@.len() == i,
            causes(globs@) == glob_errors(texts(labels@)).take(i as int),
            forall|k: int|
                0 <= k < i ==> {
                    let label = (#[trigger] labels@[k])@;
                    &&& glob_error(label) is Some ==> may_be_invalid(label)
                    &&& starts_with_three_stars(label) ==> glob_error(label) is Some
                },
        decreases labels@.len() - i,
    {
        let glob = match check_glob(labels[i]) {
            Ok(_) => None,
            Err(error) => Some(error),
        };
        globs.push(glob);
        i += 1;
        assert(causes(globs@) =~= glob_errors(texts(labels@)).take(i as int));
    }
    assert(causes(globs@) =~= glob_errors(texts(labels@)));
    let parsed = collect_partition_filters(labels, &globs, indexes);
    proof {
        let results = filter_results(texts(labels@), glob_errors(texts(labels@)), texts(indexes@));
        law_first_error_decides(results);
        match gather(results) {
            Ok(items) => {
                assert(items == filter_views(parsed->Ok_0@));
                assert forall|i: int| 0 <= i < labels@.len() implies parsed->Ok_0@[i]@
                    == Filter::Label((#[trigger] labels@[i])@) by {
                    assert(results[i] == Ok::<_, FilterFault>(items[i]));
                    assert(results[i] == label_filter(labels@[i]@, glob_error(labels@[i]@)));
                }
                assert forall|i: int| 0 <= i < indexes@.len() implies index_filter(
                    (#[trigger] indexes@[i])@,
                ) == Ok::<_, FilterFault>(parsed->Ok_0@[labels@.len() + i]@) by {
                    let k = labels@.len() + i;
                    assert(results[k] == Ok::<_, FilterFault>(items[k]));
                    assert(results[k] == index_filter(indexes@[i]@));
                }
                assert forall|i: int| 0 <= i < labels@.len() implies !starts_with_three_stars(
                    (#[trigger] labels@[i])@,
                ) by {
                    assert(results[i] == Ok::<_, FilterFault>(items[i]));
                    assert(results[i] == label_filter(labels@[i]@, glob_error(labels@[i]@)));
                }
            },
            Err(fault) => {
                let k = choose|k: int|
                    0 <= k < results.len() && #[trigger] results[k] == Err::<Filter, _>(fault)
                        && forall|i: int| 0 <= i < k ==> (#[trigger] results[i]) is Ok;
                if k < labels@.len() {
                    assert(results[k] == label_filter(labels@[k]@, glob_error(labels@[k]@)));
                } else {
                    assert(results[k] == index_filter(indexes@[k - labels@.len()]@));
                }
            },
        }
    }
    parsed
}

/// All labels and ranges are right, or the first that is not decides the error.
pub proof fn law_first_error_decides<T, E>(results: Seq<Result<T, E>>)
    ensures
        match gather(results) {
            Ok(items) => items.len() == results.len() && forall|i: int|
                0 <= i < results.len() ==> results[i] == Ok::<T, E>(#[trigger] items[i]),
            Err(error) => exists|k: int|
                0 <= k < results.len() && #[trigger] results[k] == Err::<T, E>(error) && forall|
                    i: int,
                |
                    0 <= i < k ==> (#[trigger] results[i]) is Ok,
        },
    decreases results.len(),
{
    if results.len() > 0 {
        let before = results.drop_last();
        law_first_error_decides(before);
        match gather(before) {
            Ok(items) => {
                assert forall|i: int| 0 <= i < before.len() implies (#[trigger] results[i]) is Ok by {
                    assert(results[i] == before[i]);
                    assert(before[i] == Ok::<T, E>(items[i]));
                }
                match results.last() {
                    Ok(item) => {
                        assert forall|i: int| 0 <= i < results.len() implies results[i] == Ok::<T, E>(
                            #[trigger] items.push(item)[i],
                        ) by {
                            if i < before.len() {
                                assert(before[i] == Ok::<T, E>(items[i]));
                            }
                        }
                    },
                    Err(error) => {
                        assert(results[results.len() - 1] == Err::<T, E>(error));
                    },
                }
            },
            Err(error) => {
                let k = choose|k: int|
                    0 <= k < before.len() && #[trigger] before[k] == Err::<T, E>(error) && forall|
                        i: int,
                    |
                        0 <= i < k ==> (#[trigger] before[i]) is Ok;
                assert(results[k] == Err::<T, E>(error));
                assert forall|i: int| 0 <= i < k implies (#[trigger] results[i]) is Ok by {
                    assert(before[i] is Ok);
                }
            },
        }
    }
}

/// An index filter that makes sense: bounds count from one, at least one of them is there, and
/// the range does not end before it starts.
pub open spec fn valid_filter(filter: Filter) -> bool {
    match filter {
        Filter::Label(_) => true,
        Filter::Index(start, end) => {
            &&& start is Some || end is Some
            &&& start is Some ==> start->0 != 0
            &&& end is Some ==> end->0 != 0
            &&& start is Some && end is Some ==> start->0 <= end->0
        },
    }
}

/// The filters that come out are those of the labels and then those of the index ranges, each
/// in the order in which they were given, and all of them make sense. A label is one that the
/// glob compiler took.
pub proof fn law_filters_are_valid_and_in_order(
    labels: Seq<Seq<char>>,
    indexes: Seq<Seq<char>>,
    filters: Seq<Filter>,
)
    requires
        gather(filter_results(labels, glob_errors(labels), indexes)) == Ok::<_, FilterFault>(
            filters,
        ),
    ensures
        filters.len() == labels.len() + indexes.len(),
        forall|i: int|
            0 <= i < labels.len() ==> #[trigger] filters[i] == Filter::Label(labels[i])
                && glob_error(labels[i]) is None,
        forall|i: int|
            0 <= i < indexes.len() ==> index_filter(#[trigger] indexes[i]) == Ok::<_, FilterFault>(
                filters[labels.len() + i],
            ),
        forall|i: int| 0 <= i < filters.len() ==> valid_filter(#[trigger] filters[i]),
{
    let results = filter_results(labels, glob_errors(labels), indexes);
    law_first_error_decides(results);
    assert forall|i: int| 0 <= i < labels.len() implies #[trigger] filters[i] == Filter::Label(
        labels[i],
    ) && glob_error(labels[i]) is None by {
        assert(results[i] == label_filter(labels[i], glob_errors(labels)[i]));
    }
    assert forall|i: int| 0 <= i < indexes.len() implies index_filter(#[trigger] indexes[i])
        == Ok::<_, FilterFault>(filters[labels.len() + i]) by {
        assert(results[labels.len() + i] == index_filter(indexes[i]));
    }
    assert forall|i: int| 0 <= i < filters.len() implies valid_filter(#[trigger] filters[i]) by {
        if i >= labels.len() {
            let range = indexes[i - labels.len()];
            assert(index_filter(range) == Ok::<_, FilterFault>(filters[labels.len() + (i
                - labels.len())]));
        }
    }
}

proof fn lemma_no_dash(text: Seq<char>)
    requires
        text.len() == 0 || is_number(text),
    ensures
        !text.contains('-'),
{
    if text.contains('-') {
        let i = choose|i: int| 0 <= i < text.len() && text[i] == '-';
        let digits = unsigned_part(text);
        if text[0] == '+' {
            assert(digits[i - 1] == '-');
            assert(is_digit(digits[i - 1]));
        } else {
            assert(is_digit(digits[i]));
        }
    }
}

proof fn lemma_split_single(text: Seq<char>)
    requires
        !text.contains('-'),
    ensures
        split(text, seq!['-']) == seq![text],
{
    if occurs(text, seq!['-']) {
        lemma_first(text, seq!['-']);
        let i = first(text, seq!['-']);
        assert(text.subrange(i, i + 1)[0] == '-');
        assert(text[i] == '-');
    }
}

proof fn lemma_split_pair(start: Seq<char>, end: Seq<char>)
    requires
        !start.contains('-'),
        !end.contains('-'),
    ensures
        split(start + seq!['-'] + end, seq!['-']) == seq![start, end],
{
    let dash = seq!['-'];
    let whole = start + dash + end;
    let n = start.len() as int;
    assert(first(whole, dash) == n) by {
        assert(whole.subrange(n, n + 1) =~= dash);
        assert forall|j: int| 0 <= j < n implies !occurs_at(whole, j, dash) by {
            assert(whole[j] == start[j]);
            assert(whole.subrange(j, j + 1)[0] == whole[j]);
        }
        lemma_first_unique(whole, dash, n);
    }
    assert(occurs(whole, dash)) by {
        assert(whole.subrange(n, n + 1) =~= dash);
        assert(occurs_at(whole, n, dash));
    }
    assert(split(whole, dash) == seq![whole.take(n)] + split(whole.skip(n + 1), dash));
    assert(whole.take(n) =~= start);
    assert(whole.skip(n + 1) =~= end);
    lemma_split_single(end);
    assert(seq![start] + seq![end] =~= seq![start, end]);
}

/// A single index is the range from itself to itself.
pub proof fn law_single_index(text: Seq<char>, n: u32)
    requires
        number(text) == Some(n),
        n != 0,
    ensures
        index_filter(text) == Ok::<_, FilterFault>(Filter::Index(Some(n), Some(n))),
{
    lemma_no_dash(text);
    lemma_split_single(text);
}

/// The two ends of a range are read one by one. Either may be left out, but not both, and the
/// first may not be greater than the second.
pub proof fn law_two_ends(
    start: Seq<char>,
    end: Seq<char>,
    from: Option<u32>,
    to: Option<u32>,
)
    requires
        range_end(start) == Ok::<_, FilterFault>(from),
        range_end(end) == Ok::<_, FilterFault>(to),
    ensures
        index_filter(start + seq!['-'] + end) == if from is None && to is None {
            Err::<Filter, _>(FilterFault::OpenRange { range: start + seq!['-'] + end })
        } else if from is Some && to is Some && from->0 > to->0 {
            Err(FilterFault::ReversedRange { range: start + seq!['-'] + end })
        } else {
            Ok(Filter::Index(from, to))
        },
{
    lemma_no_dash(start);
    lemma_no_dash(end);
    lemma_split_pair(start, end);
}

/// A range that is written down with numbers for its ends has those ends.
pub proof fn law_written_range_reads_back(from: u32, to: u32)
    requires
        1 <= from <= to,
    ensures
        index_filter(decimal_text(from as nat) + seq!['-'] + decimal_text(to as nat)) == Ok::<
            _,
            FilterFault,
        >(Filter::Index(Some(from), Some(to))),
{
    lemma_decimal_text(from);
    lemma_decimal_text(to);
    law_two_ends(decimal_text(from as nat), decimal_text(to as nat), Some(from), Some(to));
}

/// A text without `-` is a single index, which is both the first and the last that is kept.
pub proof fn law_text_without_dash(text: Seq<char>)
    requires
        !text.contains('-'),
    ensures
        text.len() == 0 ==> index_filter(text) == Err::<Filter, _>(
            FilterFault::OpenRange { range: text },
        ),
        text.len() > 0 ==> index_filter(text) == match number(text) {
            None => Err::<Filter, _>(
                FilterFault::IndexNumber { index: text, cause: number_fault(text) },
            ),
            Some(n) => if n == 0 {
                Err(FilterFault::ZeroIndex)
            } else {
                Ok(Filter::Index(Some(n), Some(n)))
            },
        },
{
    lemma_split_single(text);
}

/// A range without a start keeps everything up to its end.
pub proof fn law_open_start(end: Seq<char>)
    requires
        end.len() > 0,
        !end.contains('-'),
    ensures
        index_filter(seq!['-'] + end) == match number(end) {
            None => Err::<Filter, _>(
                FilterFault::IndexNumber { index: end, cause: number_fault(end) },
            ),
            Some(n) => if n == 0 {
                Err(FilterFault::ZeroIndex)
            } else {
                Ok(Filter::Index(None, Some(n)))
            },
        },
{
    let start = Seq::<char>::empty();
    lemma_split_pair(start, end);
    assert(start + seq!['-'] + end =~= seq!['-'] + end);
}

/// A range without an end keeps everything from its start on.
pub proof fn law_open_end(start: Seq<char>)
    requires
        start.len() > 0,
        !start.contains('-'),
    ensures
        index_filter(start + seq!['-']) == match number(start) {
            None => Err::<Filter, _>(
                FilterFault::IndexNumber { index: start, cause: number_fault(start) },
            ),
            Some(n) => if n == 0 {
                Err(FilterFault::ZeroIndex)
            } else {
                Ok(Filter::Index(Some(n), None))
            },
        },
{
    let end = Seq::<char>::empty();
    lemma_split_pair(start, end);
    assert(start + seq!['-'] + end =~= start + seq!['-']);
}

/// A range needs an end at least.
pub proof fn law_range_needs_an_end()
    ensures
        index_filter(seq!['-']) == Err::<Filter, _>(FilterFault::OpenRange { range: seq!['-'] }),
{
    let nothing = Seq::<char>::empty();
    lemma_split_pair(nothing, nothing);
    assert(nothing + seq!['-'] + nothing =~= seq!['-']);
}

/// A range with both ends keeps what lies between them. What is wrong with its start counts
/// before what is wrong with its end, and that before the order of the two.
pub proof fn law_range_between(start: Seq<char>, end: Seq<char>)
    requires
        start.len() > 0,
        end.len() > 0,
        !start.contains('-'),
        !end.contains('-'),
    ensures
        ({
            let range = start + seq!['-'] + end;
            let found = index_filter(range);
            &&& number(start) is None ==> found == Err::<Filter, _>(
                FilterFault::IndexNumber { index: start, cause: number_fault(start) },
            )
            &&& number(start) == Some(0u32) ==> found == Err::<Filter, _>(FilterFault::ZeroIndex)
            &&& number(start) is Some && number(start)->0 != 0 ==> {
                &&& number(end) is None ==> found == Err::<Filter, _>(
                    FilterFault::IndexNumber { index: end, cause: number_fault(end) },
                )
                &&& number(end) == Some(0u32) ==> found == Err::<Filter, _>(FilterFault::ZeroIndex)
                &&& number(end) is Some && number(end)->0 != 0 ==> found == if number(start)->0
                    <= number(end)->0 {
                    Ok(Filter::Index(number(start), number(end)))
                } else {
                    Err(FilterFault::ReversedRange { range })
                }
            }
        }),
{
    lemma_split_pair(start, end);
}

/// More than one `-` makes no range.
pub proof fn law_range_has_one_dash(first_part: Seq<char>, second: Seq<char>, third: Seq<char>)
    ensures
        index_filter(first_part + seq!['-'] + second + seq!['-'] + third) == Err::<Filter, _>(
            FilterFault::RangeSyntax {
                range: first_part + seq!['-'] + second + seq!['-'] + third,
            },
        ),
{
    let dash = seq!['-'];
    let range = first_part + dash + second + dash + third;
    let p = first_part.len() as int;
    let q = p + 1 + second.len();
    assert(range.subrange(p, p + 1) =~= dash);
    assert(occurs_at(range, p, dash));
    lemma_first(range, dash);
    let i = first(range, dash);
    assert(i <= p);
    let rest = range.skip(i + 1);
    assert(rest.subrange(q - i - 1, q - i) =~= dash);
    assert(occurs_at(rest, q - i - 1, dash));
    lemma_split_len(rest, dash);
    assert(split(range, dash).len() == 1 + split(rest, dash).len());
}

/// A range that is written down with one of its ends left out has the other end, and is open
/// where the end was left out.
pub proof fn law_left_out_end_is_open(n: u32)
    requires
        n >= 1,
    ensures
        index_filter(seq!['-'] + decimal_text(n as nat)) == Ok::<_, FilterFault>(
            Filter::Index(None, Some(n)),
        ),
        index_filter(decimal_text(n as nat) + seq!['-']) == Ok::<_, FilterFault>(
            Filter::Index(Some(n), None),
        ),
        index_filter(decimal_text(n as nat)) == Ok::<_, FilterFault>(
            Filter::Index(Some(n), Some(n)),
        ),
{
    let text = decimal_text(n as nat);
    lemma_decimal_text(n);
    lemma_no_dash(text);
    law_open_start(text);
    law_open_end(text);
    law_text_without_dash(text);
}

/// The label with the number `k` is the first that is no pattern, and that is the fault.
pub open spec fn wrong_label(
    labels: Seq<Seq<char>>,
    causes: Seq<Option<(nat, Seq<char>)>>,
    k: int,
    fault: FilterFault,
) -> bool {
    &&& 0 <= k < labels.len()
    &&& causes[k] is Some
    &&& fault == FilterFault::LabelGlob { glob: labels[k], cause: causes[k]->0 }
    &&& forall|i: int| 0 <= i < k ==> (#[trigger] causes[i]) is None
}

/// The index range with the number `k` is the first that is wrong, and what is wrong with it is
/// the fault.
pub open spec fn wrong_range(indexes: Seq<Seq<char>>, k: int, fault: FilterFault) -> bool {
    &&& 0 <= k < indexes.len()
    &&& index_filter(indexes[k]) == Err::<Filter, _>(fault)
    &&& forall|i: int| 0 <= i < k ==> index_filter(#[trigger] indexes[i]) is Ok
}

/// Every label and every range gives its filter, labels first, or the first of them that is
/// wrong is to blame. Labels come before ranges here too.
pub proof fn law_first_wrong_request_decides(
    labels: Seq<Seq<char>>,
    causes: Seq<Option<(nat, Seq<char>)>>,
    indexes: Seq<Seq<char>>,
)
    requires
        causes.len() == labels.len(),
    ensures
        match gather(filter_results(labels, causes, indexes)) {
            Ok(filters) => {
                &&& filters.len() == labels.len() + indexes.len()
                &&& forall|i: int|
                    0 <= i < labels.len() ==> (#[trigger] causes[i]) is None && filters[i]
                        == Filter::Label(labels[i])
                &&& forall|i: int|
                    0 <= i < indexes.len() ==> index_filter(#[trigger] indexes[i]) == Ok::<
                        _,
                        FilterFault,
                    >(filters[labels.len() + i])
            },
            Err(fault) => {
                ||| exists|k: int| #[trigger] wrong_label(labels, causes, k, fault)
                ||| (forall|i: int| 0 <= i < causes.len() ==> (#[trigger] causes[i]) is None)
                    && exists|k: int| #[trigger] wrong_range(indexes, k, fault)
            },
        },
{
    let results = filter_results(labels, causes, indexes);
    let n = labels.len() as int;
    law_first_error_decides(results);
    assert forall|i: int| 0 <= i < n implies results[i] == label_filter(
        labels[i],
        #[trigger] causes[i],
    ) by {}
    assert forall|i: int| 0 <= i < indexes.len() implies results[n + i] == index_filter(
        #[trigger] indexes[i],
    ) by {}
    match gather(results) {
        Ok(filters) => {
            assert forall|i: int| 0 <= i < n implies (#[trigger] causes[i]) is None && filters[i]
                == Filter::Label(labels[i]) by {
                assert(results[i] == Ok::<_, FilterFault>(filters[i]));
            }
            assert forall|i: int| 0 <= i < indexes.len() implies index_filter(#[trigger] indexes[i])
                == Ok::<_, FilterFault>(filters[n + i]) by {
                assert(results[n + i] == Ok::<_, FilterFault>(filters[n + i]));
            }
        },
        Err(fault) => {
            let k = choose|k: int|
                0 <= k < results.len() && #[trigger] results[k] == Err::<Filter, _>(fault)
                    && forall|i: int| 0 <= i < k ==> (#[trigger] results[i]) is Ok;
            if k < n {
                assert forall|i: int| 0 <= i < k implies (#[trigger] causes[i]) is None by {
                    assert(results[i] is Ok);
                }
                assert(results[k] == label_filter(labels[k], causes[k]));
                assert(wrong_label(labels, causes, k, fault));
            } else {
                assert forall|i: int| 0 <= i < n implies (#[trigger] causes[i]) is None by {
                    assert(results[i] is Ok);
                }
                assert forall|i: int| 0 <= i < k - n implies index_filter(
                    #[trigger] indexes[i],
                ) is Ok by {
                    assert(results[n + i] is Ok);
                }
                assert(results[k] == index_filter(indexes[k - n]));
                assert(wrong_range(indexes, k - n, fault));
            }
        },
    }
}

/// Lists are taken item by item, in their order, and a result says what its list says.
pub proof fn law_lists_keep_their_items(
    labels: Seq<&str>,
    globs: Seq<Option<GlobError>>,
    filters: Vec<PartitionFilter>,
    error: FilterError,
    results: Seq<Result<Filter, FilterFault>>,
)
    ensures
        texts(labels).len() == labels.len(),
        forall|i: int| 0 <= i < labels.len() ==> #[trigger] texts(labels)[i] == labels[i]@,
        causes(globs).len() == globs.len(),
        forall|i: int|
            0 <= i < globs.len() ==> ((#[trigger] causes(globs)[i]) is Some <==> globs[i] is Some)
                && (globs[i] is Some ==> causes(globs)[i] == Some(
                (globs[i]->0.position as nat, globs[i]->0.reason@),
            )),
        glob_errors(texts(labels)).len() == labels.len(),
        forall|i: int|
            0 <= i < labels.len() ==> #[trigger] glob_errors(texts(labels))[i] == glob_error(
                labels[i]@,
            ),
        filter_views(filters@).len() == filters@.len(),
        forall|i: int|
            0 <= i < filters@.len() ==> #[trigger] filter_views(filters@)[i] == filters@[i]@,
        gathered(Ok(filters), results) <==> gather(results) == Ok::<_, FilterFault>(
            filter_views(filters@),
        ),
        gathered(Err(error), results) <==> gather(results) == Err::<Seq<Filter>, _>(error@),
{
}

/// A filter says what it holds.
pub proof fn law_filter_says_what_it_holds(
    label: String,
    start: Option<PartitionIndex>,
    end: Option<PartitionIndex>,
)
    ensures
        PartitionFilter::Label(label)@ == Filter::Label(label@),
        PartitionFilter::Index(start, end)@ matches Filter::Index(from, to) && (from is Some
            <==> start is Some) && (to is Some <==> end is Some) && (start is Some ==> from->0
            == start->0@) && (end is Some ==> to->0 == end->0@),
{
}

/// An error says what it holds.
pub proof fn law_error_says_what_it_holds(text: String, glob: GlobError, number: NumberError)
    ensures
        (FilterError::LabelGlob { glob: text, cause: glob })@ == (FilterFault::LabelGlob {
            glob: text@,
            cause: (glob.position as nat, glob.reason@),
        }),
        (FilterError::IndexNumber { index: text, cause: number })@ == (FilterFault::IndexNumber {
            index: text@,
            cause: number,
        }),
        FilterError::ZeroIndex@ == FilterFault::ZeroIndex,
        (FilterError::RangeSyntax { range: text })@ == (FilterFault::RangeSyntax { range: text@ }),
        (FilterError::OpenRange { range: text })@ == (FilterFault::OpenRange { range: text@ }),
        (FilterError::ReversedRange { range: text })@ == (FilterFault::ReversedRange {
            range: text@,
        }),
{
}

/// A message names what is wrong, whole and in quotes, and the cause of an error is told with it.
pub proof fn law_messages_quote_what_is_wrong(
    text: Seq<char>,
    position: nat,
    reason: Seq<char>,
    number: NumberError,
)
    ensures
        fault_message(FilterFault::LabelGlob { glob: text, cause: (position, reason) })
            == "couldn't parse label glob '"@ + text + "'"@,
        fault_message(FilterFault::IndexNumber { index: text, cause: number })
            == "couldn't parse partition index '"@ + text + "'"@,
        fault_message(FilterFault::ZeroIndex) == "partition index cannot be zero"@,
        fault_message(FilterFault::RangeSyntax { range: text })
            == "couldn't parse partition index range '"@ + text + "'"@,
        fault_message(FilterFault::OpenRange { range: text })
            == "both ends of partition index range '"@ + text + "' cannot be open"@,
        fault_message(FilterFault::ReversedRange { range: text })
            == "start of partition index range '"@ + text + "' cannot be greater than end"@,
        fault_cause(FilterFault::LabelGlob { glob: text, cause: (position, reason) }) == Some(
            "Pattern syntax error near position "@ + decimal_text(position) + ": "@ + reason,
        ),
        fault_cause(FilterFault::IndexNumber { index: text, cause: number }) == Some(
            if number == NumberError::TooLarge {
                "number too large to fit in target type"@
            } else {
                "invalid digit found in string"@
            },
        ),
        fault_cause(FilterFault::ZeroIndex) is None,
        fault_cause(FilterFault::RangeSyntax { range: text }) is None,
        fault_cause(FilterFault::OpenRange { range: text }) is None,
        fault_cause(FilterFault::ReversedRange { range: text }) is None,
{
}

} // verus!
