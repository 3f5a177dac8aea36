//! Filtering, ordering and resource totals of the services listed on the overview page.

use vstd::prelude::*;

use crate::protocol::{ResourceUsageDto, ServiceStatusDto, ServiceViewDto};
use crate::text_view::min_int;
use crate::text::{
    chars_of, contains, contains_text, lowercase, string_of, trim_chars, trimmed, unicode_lowercase,
};

verus! {

/// A service summary as a mathematical value.
pub type ServiceModel = <ServiceViewDto as DeepView>::V;

/// Field the overview orders its services by.
#[derive(Clone, Copy, Debug, PartialEq, Eq, Structural)]
pub enum OverviewSort {
    /// By stable service name.
    Name,
    /// By running state.
    Status,
    /// By total CPU usage.
    Cpu,
    /// By total memory usage.
    Memory,
}

/// Short label of a sort field.
pub open spec fn sort_label(sort: OverviewSort) -> Seq<char> {
    match sort {
        OverviewSort::Name => "名称"@,
        OverviewSort::Status => "状态"@,
        OverviewSort::Cpu => "CPU"@,
        OverviewSort::Memory => "内存"@,
    }
}

impl OverviewSort {
    /// The next sort field, wrapping around.
    pub open spec fn following(self) -> OverviewSort {
        match self {
            OverviewSort::Name => OverviewSort::Status,
            OverviewSort::Status => OverviewSort::Cpu,
            OverviewSort::Cpu => OverviewSort::Memory,
            OverviewSort::Memory => OverviewSort::Name,
        }
    }

    /// Whether the field reads best from the largest value down.
    pub open spec fn descending_by_default(self) -> bool {
        self == OverviewSort::Cpu || self == OverviewSort::Memory
    }

    /// Switches to the next sort field.
    pub fn next(self) -> (result: OverviewSort)
        ensures
            result == self.following(),
    {
        match self {
            OverviewSort::Name => OverviewSort::Status,
            OverviewSort::Status => OverviewSort::Cpu,
            OverviewSort::Cpu => OverviewSort::Memory,
            OverviewSort::Memory => OverviewSort::Name,
        }
    }

    /// Short label of the sort field.
    pub fn label(self) -> (result: &'static str)
        ensures
            result@ == sort_label(self),
    {
        match self {
            OverviewSort::Name => "名称",
            OverviewSort::Status => "状态",
            OverviewSort::Cpu => "CPU",
            OverviewSort::Memory => "内存",
        }
    }

    /// Whether the field is ordered from the largest value down by default.
    pub fn default_descending(self) -> (result: bool)
        ensures
            result == self.descending_by_default(),
    {
        match self {
            OverviewSort::Cpu | OverviewSort::Memory => true,
            OverviewSort::Name | OverviewSort::Status => false,
        }
    }
}

/// Lexicographic order of two texts by code point: negative, zero or positive.
pub open spec fn text_order(left: Seq<char>, right: Seq<char>) -> int
    decreases left.len(),
{
    if left.len() == 0 {
        if right.len() == 0 {
            0
        } else {
            -1
        }
    } else if right.len() == 0 {
        1
    } else if (left[0] as u32) < (right[0] as u32) {
        -1
    } else if (left[0] as u32) > (right[0] as u32) {
        1
    } else {
        text_order(left.drop_first(), right.drop_first())
    }
}

/// Lemma: swapping two texts reverses their order.
pub proof fn lemma_text_order_antisymmetric(left: Seq<char>, right: Seq<char>)
    ensures
        text_order(left, right) == -text_order(right, left),
        -1 <= text_order(left, right) <= 1,
    decreases left.len(),
{
    if left.len() > 0 && right.len() > 0 && left[0] as u32 == right[0] as u32 {
        lemma_text_order_antisymmetric(left.drop_first(), right.drop_first());
    }
}

/// Lemma: the order of texts is transitive.
pub proof fn lemma_text_order_transitive(first: Seq<char>, second: Seq<char>, third: Seq<char>)
    requires
        text_order(first, second) < 0,
        text_order(second, third) < 0,
    ensures
        text_order(first, third) < 0,
    decreases first.len(),
{
    if first.len() > 0 && second.len() > 0 && third.len() > 0 && first[0] as u32 == second[0] as u32
        && second[0] as u32 == third[0] as u32 {
        lemma_text_order_transitive(first.drop_first(), second.drop_first(), third.drop_first());
    }
}

/// Lemma: texts of equal order are equal.
pub proof fn lemma_text_order_equal(left: Seq<char>, right: Seq<char>)
    requires
        text_order(left, right) == 0,
    ensures
        left == right,
    decreases left.len(),
{
    if left.len() > 0 && right.len() > 0 {
        lemma_text_order_equal(left.drop_first(), right.drop_first());
        vstd::utf8::char_u32_cast(left[0], left[0] as u32);
        vstd::utf8::char_u32_cast(right[0], right[0] as u32);
        assert(left == seq![left[0]] + left.drop_first());
        assert(right == seq![right[0]] + right.drop_first());
    }
}

/// Lexicographic order of two texts by code point.
pub fn text_rank(left: &[char], right: &[char]) -> (result: i8)
    ensures
        result == text_order(left@, right@),
{
    let mut index: usize = 0;
    assert(left@.skip(0) == left@);
    assert(right@.skip(0) == right@);
    loop
        invariant
            index <= left@.len(),
            index <= right@.len(),
            text_order(left@.skip(index as int), right@.skip(index as int)) == text_order(
                left@,
                right@,
            ),
        decreases left@.len() - index,
    {
        if index == left.len() {
            return if index == right.len() {
                0
            } else {
                -1
            };
        }
        if index == right.len() {
            return 1;
        }
        let left_code = left[index] as u32;
        let right_code = right[index] as u32;
        assert(left@.skip(index as int)[0] == left@[index as int]);
        assert(right@.skip(index as int)[0] == right@[index as int]);
        if left_code < right_code {
            return -1;
        }
        if left_code > right_code {
            return 1;
        }
        assert(left@.skip(index as int).drop_first() == left@.skip(index + 1));
        assert(right@.skip(index as int).drop_first() == right@.skip(index + 1));
        index += 1;
    }
}

/// Stable rank of a running state.
pub open spec fn status_rank(status: ServiceStatusDto) -> int {
    match status {
        ServiceStatusDto::Running => 0,
        ServiceStatusDto::Stopped => 1,
        ServiceStatusDto::Failed => 2,
    }
}

/// Order of two optional measurements: nothing first, then by value.
pub open spec fn measurement_order(left: Option<int>, right: Option<int>) -> int {
    match (left, right) {
        (None, None) => 0,
        (None, Some(_)) => -1,
        (Some(_), None) => 1,
        (Some(left), Some(right)) => if left < right {
            -1
        } else if left > right {
            1
        } else {
            0
        },
    }
}

/// Total CPU usage of a service, when sampled.
pub open spec fn cpu_of(service: ServiceModel) -> Option<int> {
    match service.5 {
        Some(resources) => match resources.cpu_tenths_percent {
            Some(value) => Some(value as int),
            None => None,
        },
        None => None,
    }
}

/// Memory usage of a service, when sampled.
pub open spec fn memory_of(service: ServiceModel) -> Option<int> {
    match service.5 {
        Some(resources) => match resources.memory_bytes {
            Some(value) => Some(value as int),
            None => None,
        },
        None => None,
    }
}

/// Order of two services by one field.
pub open spec fn field_order(left: ServiceModel, right: ServiceModel, sort: OverviewSort) -> int {
    match sort {
        OverviewSort::Name => text_order(left.0, right.0),
        OverviewSort::Status => if status_rank(left.3) < status_rank(right.3) {
            -1
        } else if status_rank(left.3) > status_rank(right.3) {
            1
        } else {
            0
        },
        OverviewSort::Cpu => measurement_order(cpu_of(left), cpu_of(right)),
        OverviewSort::Memory => measurement_order(memory_of(left), memory_of(right)),
    }
}

/// Order of two services on the overview: by the field, reversed when descending, then by name.
pub open spec fn service_order(
    left: ServiceModel,
    right: ServiceModel,
    sort: OverviewSort,
    descending: bool,
) -> int {
    let by_field = if descending {
        -field_order(left, right, sort)
    } else {
        field_order(left, right, sort)
    };
    if by_field != 0 {
        by_field
    } else {
        text_order(left.0, right.0)
    }
}

/// Lemma: swapping two services reverses their order.
pub proof fn lemma_service_order_antisymmetric(
    left: ServiceModel,
    right: ServiceModel,
    sort: OverviewSort,
    descending: bool,
)
    ensures
        service_order(left, right, sort, descending) == -service_order(right, left, sort, descending),
{
    lemma_text_order_antisymmetric(left.0, right.0);
}

/// Order of two optional measurements.
fn measurement_rank(left: Option<u64>, right: Option<u64>) -> (result: i8)
    ensures
        result == measurement_order(
            match left {
                Some(value) => Some(value as int),
                None => None,
            },
            match right {
                Some(value) => Some(value as int),
                None => None,
            },
        ),
{
    match (left, right) {
        (None, None) => 0,
        (None, Some(_)) => -1,
        (Some(_), None) => 1,
        (Some(left), Some(right)) => if left < right {
            -1
        } else if left > right {
            1
        } else {
            0
        },
    }
}

/// Stable rank of a running state.
fn status_level(status: ServiceStatusDto) -> (result: u8)
    ensures
        result == status_rank(status),
{
    match status {
        ServiceStatusDto::Running => 0,
        ServiceStatusDto::Stopped => 1,
        ServiceStatusDto::Failed => 2,
    }
}

/// Total CPU usage of a service, when sampled.
fn cpu_value(service: &ServiceViewDto) -> (result: Option<u64>)
    ensures
        match result {
            Some(value) => cpu_of(service.deep_view()) == Some(value as int),
            None => cpu_of(service.deep_view()) is None,
        },
{
    match service.resources {
        Some(resources) => match resources.cpu_tenths_percent {
            Some(value) => Some(value as u64),
            None => None,
        },
        None => None,
    }
}

/// Memory usage of a service, when sampled.
fn memory_value(service: &ServiceViewDto) -> (result: Option<u64>)
    ensures
        match result {
            Some(value) => memory_of(service.deep_view()) == Some(value as int),
            None => memory_of(service.deep_view()) is None,
        },
{
    match service.resources {
        Some(resources) => resources.memory_bytes,
        None => None,
    }
}

/// Order of two services by one field.
fn field_rank(left: &ServiceViewDto, right: &ServiceViewDto, sort: OverviewSort) -> (result: i8)
    ensures
        result == field_order(left.deep_view(), right.deep_view(), sort),
{
    match sort {
        OverviewSort::Name => text_rank(
            chars_of(left.name.as_str()).as_slice(),
            chars_of(right.name.as_str()).as_slice(),
        ),
        OverviewSort::Status => {
            let left_level = status_level(left.status);
            let right_level = status_level(right.status);
            if left_level < right_level {
                -1
            } else if left_level > right_level {
                1
            } else {
                0
            }
        },
        OverviewSort::Cpu => measurement_rank(cpu_value(left), cpu_value(right)),
        OverviewSort::Memory => measurement_rank(memory_value(left), memory_value(right)),
    }
}

/// Order of two services on the overview.
pub fn service_rank(
    left: &ServiceViewDto,
    right: &ServiceViewDto,
    sort: OverviewSort,
    descending: bool,
) -> (result: i8)
    ensures
        result == service_order(left.deep_view(), right.deep_view(), sort, descending),
{
    proof {
        lemma_text_order_antisymmetric(left.deep_view().0, right.deep_view().0);
    }
    let by_field = field_rank(left, right, sort);
    let by_field = if descending {
        if by_field < 0 {
            1
        } else if by_field > 0 {
            -1
        } else {
            0
        }
    } else {
        by_field
    };
    if by_field != 0 {
        by_field
    } else {
        text_rank(chars_of(left.name.as_str()).as_slice(), chars_of(right.name.as_str()).as_slice())
    }
}

/// Searchable text of a running state, in English and Chinese.
pub open spec fn status_text(status: ServiceStatusDto) -> Seq<char> {
    match status {
        ServiceStatusDto::Running => "running 运行中"@,
        ServiceStatusDto::Stopped => "stopped 已停止"@,
        ServiceStatusDto::Failed => "failed 失败"@,
    }
}

/// Whether a lowercase query occurs in the name, root, configuration path, message or state
/// of a service, each compared in lowercase.
pub open spec fn service_matches(service: ServiceModel, query: Seq<char>) -> bool {
    ||| contains_text(unicode_lowercase(service.0), query)
    ||| contains_text(unicode_lowercase(service.1), query)
    ||| contains_text(unicode_lowercase(service.2), query)
    ||| match service.4 {
        Some(message) => contains_text(unicode_lowercase(message), query),
        None => false,
    }
    ||| contains_text(status_text(service.3), query)
}

/// A filter text as the overview applies it: trimmed and in lowercase; a blank text is the
/// empty query.
pub open spec fn normalized_query(query: Seq<char>) -> Seq<char> {
    if trimmed(query).len() == 0 {
        Seq::empty()
    } else {
        unicode_lowercase(trimmed(query))
    }
}

/// Services kept by a normalized query, in their original order; an empty query keeps all.
pub open spec fn kept_services(services: Seq<ServiceModel>, query: Seq<char>) -> Seq<ServiceModel>
    decreases services.len(),
{
    if services.len() == 0 {
        Seq::empty()
    } else {
        let rest = kept_services(services.drop_last(), query);
        if query.len() == 0 || service_matches(services.last(), query) {
            rest.push(services.last())
        } else {
            rest
        }
    }
}

/// Lemma: the empty query keeps every service in its order.
pub proof fn lemma_empty_query_keeps_all(services: Seq<ServiceModel>)
    ensures
        kept_services(services, normalized_query(Seq::empty())) == services,
    decreases services.len(),
{
    assert(trimmed(Seq::<char>::empty()) =~= Seq::<char>::empty()) by {
        crate::text::lemma_trim_end_prefix(Seq::<char>::empty());
    }
    lemma_kept_all(services);
}

/// Lemma: the empty normalized query keeps every service.
proof fn lemma_kept_all(services: Seq<ServiceModel>)
    ensures
        kept_services(services, Seq::empty()) == services,
    decreases services.len(),
{
    if services.len() > 0 {
        lemma_kept_all(services.drop_last());
        assert(services.drop_last().push(services.last()) =~= services);
    }
}

/// `items` holds each element of `source` exactly once, `order[i]` being where `items[i]`
/// stood in `source`.
pub open spec fn arranged(items: Seq<ServiceModel>, source: Seq<ServiceModel>, order: Seq<int>) -> bool {
    &&& items.len() == source.len()
    &&& order.len() == source.len()
    &&& forall|i: int|
        0 <= i < items.len() ==> 0 <= #[trigger] order[i] < source.len() && items[i] == source[order[i]]
    &&& forall|i: int, j: int| 0 <= i < j < order.len() ==> order[i] != order[j]
}

/// Neighbours at `i` and `i + 1` are in overview order, equal ones in their original order.
pub open spec fn in_order_at(
    items: Seq<ServiceModel>,
    order: Seq<int>,
    i: int,
    sort: OverviewSort,
    descending: bool,
) -> bool {
    let relation = service_order(items[i], items[i + 1], sort, descending);
    relation < 0 || (relation == 0 && order[i] < order[i + 1])
}

/// Every pair of neighbours is in overview order.
pub open spec fn stably_ordered(
    items: Seq<ServiceModel>,
    order: Seq<int>,
    sort: OverviewSort,
    descending: bool,
) -> bool {
    forall|i: int| 0 <= i < items.len() - 1 ==> #[trigger] in_order_at(items, order, i, sort, descending)
}

/// `items` is `source` in overview order, a stable sort of it.
pub open spec fn sorted_arrangement(
    items: Seq<ServiceModel>,
    source: Seq<ServiceModel>,
    sort: OverviewSort,
    descending: bool,
) -> bool {
    exists|order: Seq<int>|
        arranged(items, source, order) && #[trigger] stably_ordered(items, order, sort, descending)
}

/// Lemma: inserting the next source element after its last predecessor in order keeps the
/// arrangement stably ordered.
proof fn lemma_insertion_keeps_order(
    items: Seq<ServiceModel>,
    source: Seq<ServiceModel>,
    order: Seq<int>,
    position: int,
    sort: OverviewSort,
    descending: bool,
)
    requires
        source.len() > 0,
        arranged(items, source.drop_last(), order),
        stably_ordered(items, order, sort, descending),
        0 <= position <= items.len(),
        position > 0 ==> service_order(items[position - 1], source.last(), sort, descending) <= 0,
        position < items.len() ==> service_order(items[position], source.last(), sort, descending) > 0,
    ensures
        arranged(items.insert(position, source.last()), source, order.insert(position, source.len() - 1)),
        stably_ordered(
            items.insert(position, source.last()),
            order.insert(position, source.len() - 1),
            sort,
            descending,
        ),
{
    let x = source.last();
    let next = items.insert(position, x);
    let next_order = order.insert(position, source.len() - 1);
    items.insert_ensures(position, x);
    order.insert_ensures(position, source.len() - 1);
    assert forall|i: int| 0 <= i < next.len() implies 0 <= #[trigger] next_order[i] < source.len()
        && next[i] == source[next_order[i]] by {
        if i < position {
        } else if i == position {
        } else {
            assert(next[i] == items[i - 1]);
            assert(next_order[i] == order[i - 1]);
        }
    }
    assert forall|i: int, j: int| 0 <= i < j < next_order.len() implies next_order[i]
        != next_order[j] by {
        let oi = if i < position {
            i
        } else if i == position {
            -1
        } else {
            i - 1
        };
        let oj = if j < position {
            j
        } else if j == position {
            -1
        } else {
            j - 1
        };
        if oi >= 0 {
            assert(next_order[i] == order[oi]);
        }
        if oj >= 0 {
            assert(next_order[j] == order[oj]);
        }
    }
    assert forall|i: int| 0 <= i < next.len() - 1 implies #[trigger] in_order_at(
        next,
        next_order,
        i,
        sort,
        descending,
    ) by {
        if i + 1 < position {
            assert(in_order_at(items, order, i, sort, descending));
        } else if i + 1 == position {
            assert(next[i] == items[i]);
            assert(next_order[i] == order[i]);
            assert(order[i] < source.len() - 1);
        } else if i == position {
            assert(next[i + 1] == items[i]);
            lemma_service_order_antisymmetric(items[i], x, sort, descending);
        } else {
            assert(next[i] == items[i - 1]);
            assert(next[i + 1] == items[i]);
            assert(next_order[i] == order[i - 1]);
            assert(next_order[i + 1] == order[i]);
            assert(in_order_at(items, order, i - 1, sort, descending));
        }
    }
}

/// Where an insertion sort puts `item` among `items`: after the last of the first `position`
/// items that does not come after it.
pub open spec fn insertion_point(
    items: Seq<ServiceModel>,
    item: ServiceModel,
    position: int,
    sort: OverviewSort,
    descending: bool,
) -> int
    decreases position,
{
    if position > 0 && service_order(items[position - 1], item, sort, descending) > 0 {
        insertion_point(items, item, position - 1, sort, descending)
    } else {
        position
    }
}

/// The services in overview order, built by inserting each one in turn after the last
/// service that does not come after it.
pub open spec fn ordered_services(
    services: Seq<ServiceModel>,
    sort: OverviewSort,
    descending: bool,
) -> Seq<ServiceModel>
    decreases services.len(),
{
    if services.len() == 0 {
        Seq::empty()
    } else {
        let rest = ordered_services(services.drop_last(), sort, descending);
        rest.insert(
            insertion_point(rest, services.last(), rest.len() as int, sort, descending),
            services.last(),
        )
    }
}

/// Lemma: an insertion point lies within the scanned prefix.
proof fn lemma_insertion_point_bounds(
    items: Seq<ServiceModel>,
    item: ServiceModel,
    position: int,
    sort: OverviewSort,
    descending: bool,
)
    requires
        0 <= position <= items.len(),
    ensures
        0 <= insertion_point(items, item, position, sort, descending) <= position,
    decreases position,
{
    if position > 0 && service_order(items[position - 1], item, sort, descending) > 0 {
        lemma_insertion_point_bounds(items, item, position - 1, sort, descending);
    }
}

/// Lemma: building the overview order keeps the number of services.
proof fn lemma_ordered_length(services: Seq<ServiceModel>, sort: OverviewSort, descending: bool)
    ensures
        ordered_services(services, sort, descending).len() == services.len(),
    decreases services.len(),
{
    if services.len() > 0 {
        let rest = ordered_services(services.drop_last(), sort, descending);
        lemma_ordered_length(services.drop_last(), sort, descending);
        lemma_insertion_point_bounds(rest, services.last(), rest.len() as int, sort, descending);
    }
}

/// Lemma: an insertion point follows every earlier item that does not come after the new one
/// and precedes the first scanned item that does.
proof fn lemma_insertion_point_fits(
    items: Seq<ServiceModel>,
    item: ServiceModel,
    position: int,
    sort: OverviewSort,
    descending: bool,
)
    requires
        0 <= position <= items.len(),
    ensures
        ({
            let point = insertion_point(items, item, position, sort, descending);
            &&& 0 <= point <= position
            &&& point > 0 ==> service_order(items[point - 1], item, sort, descending) <= 0
            &&& point < position ==> service_order(items[point], item, sort, descending) > 0
        }),
    decreases position,
{
    if position > 0 && service_order(items[position - 1], item, sort, descending) > 0 {
        lemma_insertion_point_fits(items, item, position - 1, sort, descending);
    }
}

/// The overview order is a stable sort: every service appears once, neighbours are in order,
/// and services that compare equal keep the order they arrived in.
pub proof fn lemma_ordered_services_sorted(
    services: Seq<ServiceModel>,
    sort: OverviewSort,
    descending: bool,
)
    ensures
        sorted_arrangement(ordered_services(services, sort, descending), services, sort, descending),
    decreases services.len(),
{
    if services.len() == 0 {
        let order = Seq::<int>::empty();
        assert(arranged(ordered_services(services, sort, descending), services, order));
        assert(stably_ordered(ordered_services(services, sort, descending), order, sort, descending));
    } else {
        let rest = ordered_services(services.drop_last(), sort, descending);
        lemma_ordered_services_sorted(services.drop_last(), sort, descending);
        let order = choose|order: Seq<int>|
            arranged(rest, services.drop_last(), order) && #[trigger] stably_ordered(
                rest,
                order,
                sort,
                descending,
            );
        let point = insertion_point(rest, services.last(), rest.len() as int, sort, descending);
        lemma_insertion_point_fits(rest, services.last(), rest.len() as int, sort, descending);
        lemma_insertion_keeps_order(rest, services, order, point, sort, descending);
        let next_order = order.insert(point, services.len() - 1);
        assert(arranged(ordered_services(services, sort, descending), services, next_order));
        assert(stably_ordered(ordered_services(services, sort, descending), next_order, sort, descending));
    }
}

/// The services in overview order, equal ones keeping their relative order.
pub fn sort_services(services: &Vec<ServiceViewDto>, sort: OverviewSort, descending: bool) -> (result:
    Vec<ServiceViewDto>)
    ensures
        result.deep_view() == ordered_services(services.deep_view(), sort, descending),
        sorted_arrangement(result.deep_view(), services.deep_view(), sort, descending),
{
    let mut result: Vec<ServiceViewDto> = Vec::new();
    let ghost mut order: Seq<int> = Seq::empty();
    let mut index: usize = 0;
    assert(result.deep_view() =~= Seq::<ServiceModel>::empty());
    while index < services.len()
        invariant
            index <= services@.len(),
            arranged(result.deep_view(), services.deep_view().take(index as int), order),
            stably_ordered(result.deep_view(), order, sort, descending),
            result.deep_view() == ordered_services(
                services.deep_view().take(index as int),
                sort,
                descending,
            ),
        decreases services@.len() - index,
    {
        let item = services[index].copy();
        let mut position = result.len();
        while position > 0 && service_rank(&result[position - 1], &item, sort, descending) > 0
            invariant
                position <= result@.len(),
                position < result@.len() ==> service_order(
                    result.deep_view()[position as int],
                    item.deep_view(),
                    sort,
                    descending,
                ) > 0,
                insertion_point(
                    result.deep_view(),
                    item.deep_view(),
                    result@.len() as int,
                    sort,
                    descending,
                ) == insertion_point(
                    result.deep_view(),
                    item.deep_view(),
                    position as int,
                    sort,
                    descending,
                ),
            decreases position,
        {
            position -= 1;
        }
        let ghost items = result.deep_view();
        let ghost source = services.deep_view().take(index + 1);
        assert(source.drop_last() == services.deep_view().take(index as int));
        assert(source.last() == item.deep_view());
        assert(insertion_point(items, item.deep_view(), position as int, sort, descending)
            == position);
        proof {
            lemma_insertion_keeps_order(items, source, order, position as int, sort, descending);
            order = order.insert(position as int, index as int);
        }
        result.insert(position, item);
        assert(result.deep_view() == items.insert(position as int, item.deep_view()));
        index += 1;
    }
    assert(services.deep_view().take(services@.len() as int) == services.deep_view());
    result
}

/// Whether a service matches a normalized, non-empty query.
fn matches_query(service: &ServiceViewDto, query: &[char]) -> (result: bool)
    ensures
        result == service_matches(service.deep_view(), query@),
{
    let status = match service.status {
        ServiceStatusDto::Running => "running 运行中",
        ServiceStatusDto::Stopped => "stopped 已停止",
        ServiceStatusDto::Failed => "failed 失败",
    };
    contains(chars_of(lowercase(service.name.as_str()).as_str()).as_slice(), query) || contains(
        chars_of(lowercase(service.root.as_str()).as_str()).as_slice(),
        query,
    ) || contains(chars_of(lowercase(service.config_path.as_str()).as_str()).as_slice(), query)
        || match &service.message {
        Some(message) => contains(chars_of(lowercase(message.as_str()).as_str()).as_slice(), query),
        None => false,
    } || contains(chars_of(status).as_slice(), query)
}

/// The services a filter text keeps, in their original order.
pub fn filter_services(services: &Vec<ServiceViewDto>, query: &str) -> (result: Vec<ServiceViewDto>)
    ensures
        result.deep_view() == kept_services(services.deep_view(), normalized_query(query@)),
{
    let stripped = trim_chars(chars_of(query).as_slice());
    let normalized = if stripped.len() == 0 {
        Vec::new()
    } else {
        let trimmed_query = string_of(stripped.as_slice());
        chars_of(lowercase(trimmed_query.as_str()).as_str())
    };
    let mut result: Vec<ServiceViewDto> = Vec::new();
    let mut index: usize = 0;
    assert(services.deep_view().take(0) =~= Seq::<ServiceModel>::empty());
    assert(result.deep_view() =~= Seq::<ServiceModel>::empty());
    while index < services.len()
        invariant
            index <= services@.len(),
            normalized@ == normalized_query(query@),
            result.deep_view() == kept_services(services.deep_view().take(index as int), normalized@),
        decreases services@.len() - index,
    {
        assert(services.deep_view().take(index + 1).drop_last() == services.deep_view().take(
            index as int,
        ));
        if normalized.len() == 0 || matches_query(&services[index], normalized.as_slice()) {
            result.push(services[index].copy());
        }
        index += 1;
    }
    assert(services.deep_view().take(services@.len() as int) == services.deep_view());
    result
}

/// The services the overview lists for a filter text and an order.
pub fn visible_services(
    services: &Vec<ServiceViewDto>,
    query: &str,
    sort: OverviewSort,
    descending: bool,
) -> (result: Vec<ServiceViewDto>)
    ensures
        result.deep_view() == ordered_services(
            kept_services(services.deep_view(), normalized_query(query@)),
            sort,
            descending,
        ),
        sorted_arrangement(
            result.deep_view(),
            kept_services(services.deep_view(), normalized_query(query@)),
            sort,
            descending,
        ),
{
    let kept = filter_services(services, query);
    sort_services(&kept, sort, descending)
}

/// Saturating sum of two values below a bound.
pub open spec fn bounded_sum(left: int, right: int, bound: int) -> int {
    if left + right > bound {
        bound
    } else {
        left + right
    }
}

/// CPU and memory totals of some services: CPU summed with saturation and capped at 1000
/// tenths of a percent, memory summed with saturation; nothing where no service reported one.
pub open spec fn resource_totals(services: Seq<ServiceModel>) -> (Option<u16>, Option<u64>)
    decreases services.len(),
{
    if services.len() == 0 {
        (None, None)
    } else {
        let (cpu, memory) = resource_totals(services.drop_last());
        match services.last().5 {
            None => (cpu, memory),
            Some(resources) => (
                match resources.cpu_tenths_percent {
                    Some(value) => Some(
                        min_int(
                            bounded_sum(
                                match cpu {
                                    Some(total) => total as int,
                                    None => 0,
                                },
                                value as int,
                                u16::MAX as int,
                            ),
                            1000,
                        ) as u16,
                    ),
                    None => cpu,
                },
                match resources.memory_bytes {
                    Some(value) => Some(
                        bounded_sum(
                            match memory {
                                Some(total) => total as int,
                                None => 0,
                            },
                            value as int,
                            u64::MAX as int,
                        ) as u64,
                    ),
                    None => memory,
                },
            ),
        }
    }
}

/// Resource usage summed over the listed services; nothing when none reported any.
pub fn aggregate_resources(services: &[ServiceViewDto]) -> (result: Option<ResourceUsageDto>)
    ensures
        ({
            let (cpu, memory) = resource_totals(services@.map_values(|service: ServiceViewDto| service.deep_view()));
            if cpu is Some || memory is Some {
                result == Some(ResourceUsageDto { cpu_tenths_percent: cpu, memory_bytes: memory })
            } else {
                result is None
            }
        }),
{
    let ghost models = services@.map_values(|service: ServiceViewDto| service.deep_view());
    let mut cpu: Option<u16> = None;
    let mut memory: Option<u64> = None;
    let mut index: usize = 0;
    while index < services.len()
        invariant
            index <= services@.len(),
            models == services@.map_values(|service: ServiceViewDto| service.deep_view()),
            (cpu, memory) == resource_totals(models.take(index as int)),
        decreases services@.len() - index,
    {
        assert(models.take(index + 1).drop_last() == models.take(index as int));
        assert(models.take(index + 1).last() == services@[index as int].deep_view());
        if let Some(resources) = services[index].resources {
            if let Some(value) = resources.cpu_tenths_percent {
                let total = match cpu {
                    Some(total) => total,
                    None => 0,
                }.saturating_add(value);
                cpu = Some(if total < 1000 {
                    total
                } else {
                    1000
                });
            }
            if let Some(value) = resources.memory_bytes {
                memory = Some(match memory {
                    Some(total) => total,
                    None => 0,
                }.saturating_add(value));
            }
        }
        index += 1;
    }
    assert(models.take(services@.len() as int) == models);
    if cpu.is_some() || memory.is_some() {
        Some(ResourceUsageDto { cpu_tenths_percent: cpu, memory_bytes: memory })
    } else {
        None
    }
}

/// Law: a non-empty lowercase query keeps exactly the services whose name, root,
/// configuration path or message, in lowercase, or whose state text contains it; an empty
/// query keeps them all.
pub proof fn lemma_kept_exactly(services: Seq<ServiceModel>, query: Seq<char>)
    ensures
        forall|service: ServiceModel|
            kept_services(services, query).contains(service) <==> (services.contains(service) && (
            query.len() == 0 || contains_text(unicode_lowercase(service.0), query) || contains_text(
                unicode_lowercase(service.1),
                query,
            ) || contains_text(unicode_lowercase(service.2), query) || (service.4 is Some && contains_text(
                unicode_lowercase(service.4.unwrap()),
                query,
            )) || contains_text(status_text(service.3), query))),
    decreases services.len(),
{
    if services.len() > 0 {
        let front = services.drop_last();
        lemma_kept_exactly(front, query);
        let rest = kept_services(front, query);
        assert forall|service: ServiceModel|
            kept_services(services, query).contains(service) <==> (services.contains(service) && (
            query.len() == 0 || contains_text(unicode_lowercase(service.0), query) || contains_text(
                unicode_lowercase(service.1),
                query,
            ) || contains_text(unicode_lowercase(service.2), query) || (service.4 is Some && contains_text(
                unicode_lowercase(service.4.unwrap()),
                query,
            )) || contains_text(status_text(service.3), query))) by {
            let kept = kept_services(services, query);
            let last = services.last();
            assert(services[services.len() - 1] == last);
            if services.contains(service) && service != last {
                let found = choose|index: int| 0 <= index < services.len() && services[index] == service;
                assert(front[found] == service);
            }
            if front.contains(service) {
                let found = choose|index: int| 0 <= index < front.len() && front[index] == service;
                assert(services[found] == service);
            }
            if kept.contains(service) && service != last {
                let found = choose|index: int| 0 <= index < kept.len() && kept[index] == service;
                if found < rest.len() {
                    assert(rest[found] == service);
                }
            }
            if rest.contains(service) {
                let found = choose|index: int| 0 <= index < rest.len() && rest[index] == service;
                if query.len() == 0 || service_matches(last, query) {
                    assert(kept[found] == service);
                }
            }
            if service == last && (query.len() == 0 || service_matches(last, query)) {
                assert(kept[kept.len() - 1] == service);
            }
        }
    }
}

/// Rank of a state in the overview's state order: running, then stopped, then failed.
pub open spec fn state_position(status: ServiceStatusDto) -> int {
    if status == ServiceStatusDto::Running {
        0
    } else if status == ServiceStatusDto::Stopped {
        1
    } else {
        2
    }
}

/// Whether one optional measurement comes no later than another: an absent one first, then
/// smaller values.
pub open spec fn measured_no_later(left: Option<u64>, right: Option<u64>) -> bool {
    match (left, right) {
        (None, _) => true,
        (Some(_), None) => false,
        (Some(left), Some(right)) => left <= right,
    }
}

/// Law: neighbouring services on the overview are in the chosen order: by name in code point
/// order, by state running before stopped before failed, or by CPU or memory with unsampled
/// services first and then by value; descending reverses the field.
pub proof fn lemma_overview_neighbours(services: Seq<ServiceModel>, sort: OverviewSort, descending: bool)
    ensures
        forall|index: int|
            0 <= index < ordered_services(services, sort, descending).len() - 1 ==> {
                let left = #[trigger] ordered_services(services, sort, descending)[index];
                let right = ordered_services(services, sort, descending)[index + 1];
                let left_cpu = match left.5 {
                    Some(resources) => match resources.cpu_tenths_percent {
                        Some(value) => Some(value as u64),
                        None => None,
                    },
                    None => None,
                };
                let right_cpu = match right.5 {
                    Some(resources) => match resources.cpu_tenths_percent {
                        Some(value) => Some(value as u64),
                        None => None,
                    },
                    None => None,
                };
                let left_memory = match left.5 {
                    Some(resources) => resources.memory_bytes,
                    None => None,
                };
                let right_memory = match right.5 {
                    Some(resources) => resources.memory_bytes,
                    None => None,
                };
                &&& sort == OverviewSort::Name && !descending ==> text_order(left.0, right.0) <= 0
                &&& sort == OverviewSort::Name && descending ==> text_order(left.0, right.0) >= 0
                &&& sort == OverviewSort::Status && !descending ==> state_position(left.3) <= state_position(right.3)
                &&& sort == OverviewSort::Status && descending ==> state_position(left.3) >= state_position(right.3)
                &&& sort == OverviewSort::Cpu && !descending ==> measured_no_later(left_cpu, right_cpu)
                &&& sort == OverviewSort::Cpu && descending ==> measured_no_later(right_cpu, left_cpu)
                &&& sort == OverviewSort::Memory && !descending ==> measured_no_later(left_memory, right_memory)
                &&& sort == OverviewSort::Memory && descending ==> measured_no_later(right_memory, left_memory)
            },
{
    lemma_ordered_services_sorted(services, sort, descending);
    let items = ordered_services(services, sort, descending);
    let order = choose|order: Seq<int>|
        arranged(items, services, order) && #[trigger] stably_ordered(items, order, sort, descending);
    assert forall|index: int| 0 <= index < items.len() - 1 implies service_order(
        #[trigger] items[index],
        items[index + 1],
        sort,
        descending,
    ) <= 0 by {
        assert(in_order_at(items, order, index, sort, descending));
    }
    assert forall|index: int| 0 <= index < items.len() - 1 implies {
        let left = #[trigger] items[index];
        let right = items[index + 1];
        let left_cpu = match left.5 {
            Some(resources) => match resources.cpu_tenths_percent {
                Some(value) => Some(value as u64),
                None => None,
            },
            None => None,
        };
        let right_cpu = match right.5 {
            Some(resources) => match resources.cpu_tenths_percent {
                Some(value) => Some(value as u64),
                None => None,
            },
            None => None,
        };
        let left_memory = match left.5 {
            Some(resources) => resources.memory_bytes,
            None => None,
        };
        let right_memory = match right.5 {
            Some(resources) => resources.memory_bytes,
            None => None,
        };
        &&& sort == OverviewSort::Name && !descending ==> text_order(left.0, right.0) <= 0
        &&& sort == OverviewSort::Name && descending ==> text_order(left.0, right.0) >= 0
        &&& sort == OverviewSort::Status && !descending ==> state_position(left.3) <= state_position(right.3)
        &&& sort == OverviewSort::Status && descending ==> state_position(left.3) >= state_position(right.3)
        &&& sort == OverviewSort::Cpu && !descending ==> measured_no_later(left_cpu, right_cpu)
        &&& sort == OverviewSort::Cpu && descending ==> measured_no_later(right_cpu, left_cpu)
        &&& sort == OverviewSort::Memory && !descending ==> measured_no_later(left_memory, right_memory)
        &&& sort == OverviewSort::Memory && descending ==> measured_no_later(right_memory, left_memory)
    } by {
        let left = items[index];
        let right = items[index + 1];
        assert(service_order(left, right, sort, descending) <= 0);
        lemma_text_order_antisymmetric(left.0, right.0);
    }
}

/// Law: the state text a filter searches is `running 运行中`, `stopped 已停止` or `failed 失败`.
pub proof fn lemma_state_words(status: ServiceStatusDto)
    ensures
        status == ServiceStatusDto::Running ==> status_text(status) == "running 运行中"@,
        status == ServiceStatusDto::Stopped ==> status_text(status) == "stopped 已停止"@,
        status == ServiceStatusDto::Failed ==> status_text(status) == "failed 失败"@,
{
}

} // verus!
