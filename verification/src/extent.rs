//! Extents: the region and the time span that a collection covers.

use crate::error::{Error, ErrorView};
use crate::field::{
    all_numbers, clone_numbers, clone_text, decode_all, encode_all, lemma_decode_all_prefix,
    lemma_decode_all_push, lemma_decode_all_round_trip, lemma_names, lemma_numbers_round_trip,
    nullable_string_json, numbers_from_items, numbers_json, numbers_of, numbers_to_json,
    push_member, push_members, read_array, read_object, required_array, required_object,
};
use crate::json::{
    can_stand_beside, clone_members, distinct_keys, has_distinct_keys, keys_outside,
    lemma_known_then_rest, lemma_without_keys, member, rest, without, Json, JsonView, Members,
    Number,
};
use vstd::prelude::*;

verus! {

broadcast use crate::json::group_json_view;

/// The bounding box that a JSON value is read as: an array of numbers.
pub open spec fn box_from_json(j: JsonView) -> Result<Seq<Seq<char>>, ErrorView> {
    match j {
        JsonView::Array(items) => if all_numbers(items) {
            Ok(numbers_of(items))
        } else {
            Err(ErrorView::InvalidField("bbox"@))
        },
        _ => Err(ErrorView::InvalidField("bbox"@)),
    }
}

/// Reading a bounding box, as a function.
pub open spec fn box_decoder() -> spec_fn(JsonView) -> Result<Seq<Seq<char>>, ErrorView> {
    |j: JsonView| box_from_json(j)
}

/// Writing a bounding box, as a function.
pub open spec fn box_encoder() -> spec_fn(Seq<Seq<char>>) -> JsonView {
    |b: Seq<Seq<char>>| numbers_json(b)
}

/// A time interval: its start and its end, each of which may be open.
pub type IntervalView = (Option<Seq<char>>, Option<Seq<char>>);

/// A JSON value that can stand for one end of an interval.
pub open spec fn is_instant(j: JsonView) -> bool {
    j is Null || j is String
}

/// The end of an interval that a JSON value stands for.
pub open spec fn instant_of(j: JsonView) -> Option<Seq<char>> {
    match j {
        JsonView::String(s) => Some(s),
        _ => None,
    }
}

/// The interval that a JSON value is read as: an array of two ends, each a
/// string or null.
pub open spec fn interval_from_json(j: JsonView) -> Result<IntervalView, ErrorView> {
    match j {
        JsonView::Array(items) => if items.len() == 2 && is_instant(items[0]) && is_instant(
            items[1],
        ) {
            Ok((instant_of(items[0]), instant_of(items[1])))
        } else {
            Err(ErrorView::InvalidField("interval"@))
        },
        _ => Err(ErrorView::InvalidField("interval"@)),
    }
}

/// The JSON that an interval is written as.
pub open spec fn interval_to_json(interval: IntervalView) -> JsonView {
    JsonView::Array(
        Seq::<JsonView>::empty().push(nullable_string_json(interval.0)).push(
            nullable_string_json(interval.1),
        ),
    )
}

/// Reading an interval, as a function.
pub open spec fn interval_decoder() -> spec_fn(JsonView) -> Result<IntervalView, ErrorView> {
    |j: JsonView| interval_from_json(j)
}

/// Writing an interval, as a function.
pub open spec fn interval_encoder() -> spec_fn(IntervalView) -> JsonView {
    |interval: IntervalView| interval_to_json(interval)
}

/// The region that a collection covers, as one or more bounding boxes.
#[derive(Debug, PartialEq)]
pub struct SpatialExtent {
    /// The bounding boxes.
    pub bbox: Vec<Vec<Number>>,
    /// Every other member of the `spatial` object, kept verbatim.
    pub additional_fields: Vec<(String, Json)>,
}

/// The mathematical model of a [`SpatialExtent`].
pub struct SpatialExtentView {
    pub bbox: Seq<Seq<Seq<char>>>,
    pub additional_fields: Members,
}

impl DeepView for SpatialExtent {
    type V = SpatialExtentView;

    open spec fn deep_view(&self) -> SpatialExtentView {
        SpatialExtentView {
            bbox: self.bbox.deep_view(),
            additional_fields: self.additional_fields.deep_view(),
        }
    }
}

impl View for SpatialExtent {
    type V = SpatialExtentView;

    open spec fn view(&self) -> SpatialExtentView {
        self.deep_view()
    }
}

/// The names of the members that a `spatial` object gives a meaning to.
pub open spec fn spatial_fields() -> Seq<Seq<char>> {
    seq!["bbox"@]
}

impl SpatialExtentView {
    /// The additional fields form a mapping, and none of them shadows the
    /// member that the extent itself writes.
    pub open spec fn is_valid(self) -> bool {
        &&& distinct_keys(self.additional_fields)
        &&& keys_outside(self.additional_fields, spatial_fields())
    }

    /// The member that the typed field is written as.
    pub open spec fn known_members(self) -> Members {
        Seq::<(Seq<char>, JsonView)>::empty().push(
            ("bbox"@, JsonView::Array(encode_all(self.bbox, box_encoder()))),
        )
    }

    /// The members that the extent is written as.
    pub open spec fn to_members(self) -> Members {
        self.known_members() + self.additional_fields
    }

    /// The extent that the members of an object are read as, or why they
    /// are none.
    pub open spec fn from_members(ms: Members) -> Result<SpatialExtentView, ErrorView> {
        if !distinct_keys(ms) {
            Err(ErrorView::DuplicateField)
        } else if required_array(ms, "bbox"@) is Err {
            Err(required_array(ms, "bbox"@)->Err_0)
        } else if decode_all(required_array(ms, "bbox"@)->Ok_0, box_decoder()) is Err {
            Err(decode_all(required_array(ms, "bbox"@)->Ok_0, box_decoder())->Err_0)
        } else {
            Ok(
                SpatialExtentView {
                    bbox: decode_all(required_array(ms, "bbox"@)->Ok_0, box_decoder())->Ok_0,
                    additional_fields: without(ms, spatial_fields()),
                },
            )
        }
    }
}

/// A valid spatial extent that is written and read back is the same
/// extent.
pub proof fn lemma_spatial_round_trip(s: SpatialExtentView)
    requires
        s.is_valid(),
    ensures
        SpatialExtentView::from_members(s.to_members()) == Ok::<SpatialExtentView, ErrorView>(s),
{
    broadcast use {
        crate::json::lemma_member_push,
        crate::json::lemma_has_key_push,
        crate::json::lemma_distinct_push,
        crate::json::lemma_keys_within_push,
    };

    assert(spatial_fields()[0] == "bbox"@);
    lemma_known_then_rest(s.known_members(), s.additional_fields, spatial_fields());
    assert forall|i: int| 0 <= i < s.bbox.len() implies box_decoder()(
        box_encoder()(#[trigger] s.bbox[i]),
    ) == Ok::<Seq<Seq<char>>, ErrorView>(s.bbox[i]) by {
        lemma_numbers_round_trip(s.bbox[i]);
    }
    lemma_decode_all_round_trip(s.bbox, box_encoder(), box_decoder());
}

/// What is read is valid.
pub proof fn lemma_spatial_from_members_valid(ms: Members)
    ensures
        SpatialExtentView::from_members(ms) matches Ok(s) ==> s.is_valid(),
{
    lemma_without_keys(ms, spatial_fields());
}

/// Copies bounding boxes.
pub fn clone_boxes(boxes: &Vec<Vec<Number>>) -> (r: Vec<Vec<Number>>)
    ensures
        r.deep_view() == boxes.deep_view(),
{
    let mut out: Vec<Vec<Number>> = Vec::new();
    let mut i: usize = 0;
    while i < boxes.len()
        invariant
            i <= boxes.len(),
            out.len() == i,
            forall|k: int| 0 <= k < i ==> out@[k].deep_view() == boxes@[k].deep_view(),
        decreases boxes.len() - i,
    {
        out.push(clone_numbers(&boxes[i]));
        i += 1;
    }
    assert(out.deep_view() =~= boxes.deep_view());
    out
}

/// Reads the items of a `bbox` array of an extent: every item a bounding
/// box.
pub fn boxes_from_json(items: &Vec<Json>) -> (r: Result<Vec<Vec<Number>>, Error>)
    ensures
        match r {
            Ok(boxes) => decode_all(items.deep_view(), box_decoder()) == Ok::<
                Seq<Seq<Seq<char>>>,
                ErrorView,
            >(boxes.deep_view()),
            Err(e) => decode_all(items.deep_view(), box_decoder()) == Err::<
                Seq<Seq<Seq<char>>>,
                ErrorView,
            >(e@),
        },
{
    let ghost js = items.deep_view();
    let mut out: Vec<Vec<Number>> = Vec::new();
    let mut i: usize = 0;
    assert(out.deep_view() =~= Seq::empty());
    assert(js.take(0) =~= Seq::empty());
    while i < items.len()
        invariant
            i <= items.len(),
            js == items.deep_view(),
            decode_all(js.take(i as int), box_decoder()) == Ok::<Seq<Seq<Seq<char>>>, ErrorView>(
                out.deep_view(),
            ),
        decreases items.len() - i,
    {
        proof {
            assert(js.take(i + 1) =~= js.take(i as int).push(js[i as int]));
            lemma_decode_all_push(js.take(i as int), js[i as int], box_decoder());
        }
        let numbers = match &items[i] {
            Json::Array(inner) => numbers_from_items(inner),
            _ => None,
        };
        match numbers {
            Some(b) => {
                let ghost before = out.deep_view();
                let ghost bv = b.deep_view();
                out.push(b);
                assert(out.deep_view() =~= before.push(bv));
            },
            None => {
                proof {
                    lemma_decode_all_prefix(js, i + 1, box_decoder());
                }
                return Err(Error::InvalidField("bbox".to_owned()));
            },
        }
        i += 1;
    }
    proof {
        assert(js.take(i as int) =~= js);
    }
    Ok(out)
}

/// Writes bounding boxes as a JSON array of arrays.
pub fn boxes_to_json(boxes: &Vec<Vec<Number>>) -> (j: Json)
    ensures
        j@ == JsonView::Array(encode_all(boxes.deep_view(), box_encoder())),
{
    let mut out: Vec<Json> = Vec::new();
    let mut i: usize = 0;
    while i < boxes.len()
        invariant
            i <= boxes.len(),
            out.len() == i,
            forall|k: int| 0 <= k < i ==> out@[k]@ == numbers_json(boxes@[k].deep_view()),
        decreases boxes.len() - i,
    {
        out.push(numbers_to_json(&boxes[i]));
        i += 1;
    }
    assert(out.deep_view() =~= encode_all(boxes.deep_view(), box_encoder()));
    Json::Array(out)
}

impl Clone for SpatialExtent {
    fn clone(&self) -> (r: Self)
        ensures
            r@ == self@,
    {
        SpatialExtent {
            bbox: clone_boxes(&self.bbox),
            additional_fields: clone_members(&self.additional_fields),
        }
    }
}

impl SpatialExtent {
    /// Writes the extent as the members of a JSON object.
    pub fn to_members(&self) -> (r: Vec<(String, Json)>)
        ensures
            r.deep_view() == self@.to_members(),
    {
        let mut members: Vec<(String, Json)> = Vec::new();
        assert(members.deep_view() =~= Seq::empty());
        push_member(&mut members, "bbox", boxes_to_json(&self.bbox));
        push_members(&mut members, &self.additional_fields);
        members
    }

    /// Reads an extent from the members of a JSON object, which has to
    /// hold no key twice and an array `bbox` of arrays of numbers.
    pub fn from_members(members: &Vec<(String, Json)>) -> (r: Result<SpatialExtent, Error>)
        ensures
            match r {
                Ok(s) => SpatialExtentView::from_members(members.deep_view()) == Ok::<
                    SpatialExtentView,
                    ErrorView,
                >(s@) && s@.is_valid(),
                Err(e) => SpatialExtentView::from_members(members.deep_view()) == Err::<
                    SpatialExtentView,
                    ErrorView,
                >(e@),
            },
    {
        if !has_distinct_keys(members) {
            return Err(Error::DuplicateField);
        }
        let items = match read_array(members, "bbox") {
            Ok(items) => items,
            Err(e) => {
                return Err(e);
            },
        };
        let bbox = match boxes_from_json(items) {
            Ok(boxes) => boxes,
            Err(e) => {
                return Err(e);
            },
        };
        let additional_fields = rest(members, &spatial_field_names());
        proof {
            lemma_spatial_from_members_valid(members.deep_view());
        }
        Ok(SpatialExtent { bbox, additional_fields })
    }
}

/// The time span that a collection covers, as one or more intervals.
#[derive(Debug, PartialEq)]
pub struct TemporalExtent {
    /// The intervals: start and end, each of which may be open.
    pub interval: Vec<(Option<String>, Option<String>)>,
    /// Every other member of the `temporal` object, kept verbatim.
    pub additional_fields: Vec<(String, Json)>,
}

/// The mathematical model of a [`TemporalExtent`].
pub struct TemporalExtentView {
    pub interval: Seq<IntervalView>,
    pub additional_fields: Members,
}

impl DeepView for TemporalExtent {
    type V = TemporalExtentView;

    open spec fn deep_view(&self) -> TemporalExtentView {
        TemporalExtentView {
            interval: self.interval.deep_view(),
            additional_fields: self.additional_fields.deep_view(),
        }
    }
}

impl View for TemporalExtent {
    type V = TemporalExtentView;

    open spec fn view(&self) -> TemporalExtentView {
        self.deep_view()
    }
}

/// The names of the members that a `temporal` object gives a meaning to.
pub open spec fn temporal_fields() -> Seq<Seq<char>> {
    seq!["interval"@]
}

impl TemporalExtentView {
    /// The additional fields form a mapping, and none of them shadows the
    /// member that the extent itself writes.
    pub open spec fn is_valid(self) -> bool {
        &&& distinct_keys(self.additional_fields)
        &&& keys_outside(self.additional_fields, temporal_fields())
    }

    /// The member that the typed field is written as.
    pub open spec fn known_members(self) -> Members {
        Seq::<(Seq<char>, JsonView)>::empty().push(
            ("interval"@, JsonView::Array(encode_all(self.interval, interval_encoder()))),
        )
    }

    /// The members that the extent is written as.
    pub open spec fn to_members(self) -> Members {
        self.known_members() + self.additional_fields
    }

    /// The extent that the members of an object are read as, or why they
    /// are none.
    pub open spec fn from_members(ms: Members) -> Result<TemporalExtentView, ErrorView> {
        if !distinct_keys(ms) {
            Err(ErrorView::DuplicateField)
        } else if required_array(ms, "interval"@) is Err {
            Err(required_array(ms, "interval"@)->Err_0)
        } else if decode_all(required_array(ms, "interval"@)->Ok_0, interval_decoder()) is Err {
            Err(decode_all(required_array(ms, "interval"@)->Ok_0, interval_decoder())->Err_0)
        } else {
            Ok(
                TemporalExtentView {
                    interval: decode_all(
                        required_array(ms, "interval"@)->Ok_0,
                        interval_decoder(),
                    )->Ok_0,
                    additional_fields: without(ms, temporal_fields()),
                },
            )
        }
    }
}

/// An interval that is written and read back is the same interval.
pub proof fn lemma_interval_round_trip(interval: IntervalView)
    ensures
        interval_from_json(interval_to_json(interval)) == Ok::<IntervalView, ErrorView>(interval),
{
}

/// A valid temporal extent that is written and read back is the same
/// extent.
pub proof fn lemma_temporal_round_trip(t: TemporalExtentView)
    requires
        t.is_valid(),
    ensures
        TemporalExtentView::from_members(t.to_members()) == Ok::<TemporalExtentView, ErrorView>(t),
{
    broadcast use {
        crate::json::lemma_member_push,
        crate::json::lemma_has_key_push,
        crate::json::lemma_distinct_push,
        crate::json::lemma_keys_within_push,
    };

    assert(temporal_fields()[0] == "interval"@);
    lemma_known_then_rest(t.known_members(), t.additional_fields, temporal_fields());
    assert forall|i: int| 0 <= i < t.interval.len() implies interval_decoder()(
        interval_encoder()(#[trigger] t.interval[i]),
    ) == Ok::<IntervalView, ErrorView>(t.interval[i]) by {
        lemma_interval_round_trip(t.interval[i]);
    }
    lemma_decode_all_round_trip(t.interval, interval_encoder(), interval_decoder());
}

/// What is read is valid.
pub proof fn lemma_temporal_from_members_valid(ms: Members)
    ensures
        TemporalExtentView::from_members(ms) matches Ok(t) ==> t.is_valid(),
{
    lemma_without_keys(ms, temporal_fields());
}

/// Copies intervals.
pub fn clone_intervals(intervals: &Vec<(Option<String>, Option<String>)>) -> (r: Vec<
    (Option<String>, Option<String>),
>)
    ensures
        r.deep_view() == intervals.deep_view(),
{
    let mut out: Vec<(Option<String>, Option<String>)> = Vec::new();
    let mut i: usize = 0;
    while i < intervals.len()
        invariant
            i <= intervals.len(),
            out.len() == i,
            forall|k: int| 0 <= k < i ==> out@[k].deep_view() == intervals@[k].deep_view(),
        decreases intervals.len() - i,
    {
        out.push((clone_text(&intervals[i].0), clone_text(&intervals[i].1)));
        i += 1;
    }
    assert(out.deep_view() =~= intervals.deep_view());
    out
}

/// Reads one end of an interval: a string, or null for an open end.
fn instant_from_json(j: &Json) -> (r: Option<Option<String>>)
    ensures
        match r {
            Some(end) => is_instant(j@) && end.deep_view() == instant_of(j@),
            None => !is_instant(j@),
        },
{
    match j {
        Json::Null => Some(None),
        Json::String(s) => Some(Some(s.clone())),
        _ => None,
    }
}

/// Reads one interval: an array of two ends.
fn interval_from_items(j: &Json) -> (r: Option<(Option<String>, Option<String>)>)
    ensures
        match r {
            Some(interval) => interval_from_json(j@) == Ok::<IntervalView, ErrorView>(
                interval.deep_view(),
            ),
            None => interval_from_json(j@) is Err,
        },
{
    match j {
        Json::Array(items) => {
            if items.len() != 2 {
                return None;
            }
            let start = match instant_from_json(&items[0]) {
                Some(end) => end,
                None => {
                    return None;
                },
            };
            let end = match instant_from_json(&items[1]) {
                Some(end) => end,
                None => {
                    return None;
                },
            };
            Some((start, end))
        },
        _ => None,
    }
}

/// Reads the items of an `interval` array: every item an interval.
pub fn intervals_from_json(items: &Vec<Json>) -> (r: Result<
    Vec<(Option<String>, Option<String>)>,
    Error,
>)
    ensures
        match r {
            Ok(intervals) => decode_all(items.deep_view(), interval_decoder()) == Ok::<
                Seq<IntervalView>,
                ErrorView,
            >(intervals.deep_view()),
            Err(e) => decode_all(items.deep_view(), interval_decoder()) == Err::<
                Seq<IntervalView>,
                ErrorView,
            >(e@),
        },
{
    let ghost js = items.deep_view();
    let mut out: Vec<(Option<String>, Option<String>)> = Vec::new();
    let mut i: usize = 0;
    assert(out.deep_view() =~= Seq::empty());
    assert(js.take(0) =~= Seq::empty());
    while i < items.len()
        invariant
            i <= items.len(),
            js == items.deep_view(),
            decode_all(js.take(i as int), interval_decoder()) == Ok::<
                Seq<IntervalView>,
                ErrorView,
            >(out.deep_view()),
        decreases items.len() - i,
    {
        proof {
            assert(js.take(i + 1) =~= js.take(i as int).push(js[i as int]));
            lemma_decode_all_push(js.take(i as int), js[i as int], interval_decoder());
        }
        match interval_from_items(&items[i]) {
            Some(interval) => {
                let ghost before = out.deep_view();
                let ghost iv = interval.deep_view();
                out.push(interval);
                assert(out.deep_view() =~= before.push(iv));
            },
            None => {
                proof {
                    lemma_decode_all_prefix(js, i + 1, interval_decoder());
                }
                return Err(Error::InvalidField("interval".to_owned()));
            },
        }
        i += 1;
    }
    proof {
        assert(js.take(i as int) =~= js);
    }
    Ok(out)
}

/// Writes one end of an interval: null for an open end.
fn instant_to_json(end: &Option<String>) -> (j: Json)
    ensures
        j@ == nullable_string_json(end.deep_view()),
{
    match end {
        Some(s) => Json::String(s.clone()),
        None => Json::Null,
    }
}

/// Writes intervals as a JSON array of pairs.
pub fn intervals_to_json(intervals: &Vec<(Option<String>, Option<String>)>) -> (j: Json)
    ensures
        j@ == JsonView::Array(encode_all(intervals.deep_view(), interval_encoder())),
{
    let mut out: Vec<Json> = Vec::new();
    let mut i: usize = 0;
    while i < intervals.len()
        invariant
            i <= intervals.len(),
            out.len() == i,
            forall|k: int| 0 <= k < i ==> out@[k]@ == interval_to_json(intervals@[k].deep_view()),
        decreases intervals.len() - i,
    {
        let mut pair: Vec<Json> = Vec::new();
        pair.push(instant_to_json(&intervals[i].0));
        pair.push(instant_to_json(&intervals[i].1));
        assert(pair.deep_view() =~= interval_to_json(intervals@[i as int].deep_view())->Array_0);
        out.push(Json::Array(pair));
        i += 1;
    }
    assert(out.deep_view() =~= encode_all(intervals.deep_view(), interval_encoder()));
    Json::Array(out)
}

impl Clone for TemporalExtent {
    fn clone(&self) -> (r: Self)
        ensures
            r@ == self@,
    {
        TemporalExtent {
            interval: clone_intervals(&self.interval),
            additional_fields: clone_members(&self.additional_fields),
        }
    }
}

impl TemporalExtent {
    /// Writes the extent as the members of a JSON object.
    pub fn to_members(&self) -> (r: Vec<(String, Json)>)
        ensures
            r.deep_view() == self@.to_members(),
    {
        let mut members: Vec<(String, Json)> = Vec::new();
        assert(members.deep_view() =~= Seq::empty());
        push_member(&mut members, "interval", intervals_to_json(&self.interval));
        push_members(&mut members, &self.additional_fields);
        members
    }

    /// Reads an extent from the members of a JSON object, which has to
    /// hold no key twice and an array `interval` of pairs, each end a
    /// string or null.
    pub fn from_members(members: &Vec<(String, Json)>) -> (r: Result<TemporalExtent, Error>)
        ensures
            match r {
                Ok(t) => TemporalExtentView::from_members(members.deep_view()) == Ok::<
                    TemporalExtentView,
                    ErrorView,
                >(t@) && t@.is_valid(),
                Err(e) => TemporalExtentView::from_members(members.deep_view()) == Err::<
                    TemporalExtentView,
                    ErrorView,
                >(e@),
            },
    {
        if !has_distinct_keys(members) {
            return Err(Error::DuplicateField);
        }
        let items = match read_array(members, "interval") {
            Ok(items) => items,
            Err(e) => {
                return Err(e);
            },
        };
        let interval = match intervals_from_json(items) {
            Ok(intervals) => intervals,
            Err(e) => {
                return Err(e);
            },
        };
        let additional_fields = rest(members, &temporal_field_names());
        proof {
            lemma_temporal_from_members_valid(members.deep_view());
        }
        Ok(TemporalExtent { interval, additional_fields })
    }
}

/// What a collection covers, in space and in time.
#[derive(Debug, PartialEq)]
pub struct Extent {
    /// The region.
    pub spatial: SpatialExtent,
    /// The time span.
    pub temporal: TemporalExtent,
    /// Every other member of the `extent` object, kept verbatim.
    pub additional_fields: Vec<(String, Json)>,
}

/// The mathematical model of an [`Extent`].
pub struct ExtentView {
    pub spatial: SpatialExtentView,
    pub temporal: TemporalExtentView,
    pub additional_fields: Members,
}

impl DeepView for Extent {
    type V = ExtentView;

    open spec fn deep_view(&self) -> ExtentView {
        ExtentView {
            spatial: self.spatial@,
            temporal: self.temporal@,
            additional_fields: self.additional_fields.deep_view(),
        }
    }
}

impl View for Extent {
    type V = ExtentView;

    open spec fn view(&self) -> ExtentView {
        self.deep_view()
    }
}

/// The names of the members that an `extent` object gives a meaning to.
pub open spec fn extent_fields() -> Seq<Seq<char>> {
    seq!["spatial"@, "temporal"@]
}

impl ExtentView {
    /// Both parts are valid, the additional fields form a mapping, and
    /// none of them shadows a member that the extent itself writes.
    pub open spec fn is_valid(self) -> bool {
        &&& self.spatial.is_valid()
        &&& self.temporal.is_valid()
        &&& distinct_keys(self.additional_fields)
        &&& keys_outside(self.additional_fields, extent_fields())
    }

    /// The extent of a collection of which nothing is known: the whole
    /// world, at any time.
    pub open spec fn whole() -> ExtentView {
        ExtentView {
            spatial: SpatialExtentView {
                bbox: seq![seq!["-180"@, "-90"@, "180"@, "90"@]],
                additional_fields: Seq::empty(),
            },
            temporal: TemporalExtentView {
                interval: seq![(None, None)],
                additional_fields: Seq::empty(),
            },
            additional_fields: Seq::empty(),
        }
    }

    /// The members that the typed fields are written as.
    pub open spec fn known_members(self) -> Members {
        Seq::<(Seq<char>, JsonView)>::empty().push(
            ("spatial"@, JsonView::Object(self.spatial.to_members())),
        ).push(("temporal"@, JsonView::Object(self.temporal.to_members())))
    }

    /// The members that the extent is written as.
    pub open spec fn to_members(self) -> Members {
        self.known_members() + self.additional_fields
    }

    /// The extent that the members of an object are read as, or why they
    /// are none.
    pub open spec fn from_members(ms: Members) -> Result<ExtentView, ErrorView> {
        if !distinct_keys(ms) {
            Err(ErrorView::DuplicateField)
        } else if required_object(ms, "spatial"@) is Err {
            Err(required_object(ms, "spatial"@)->Err_0)
        } else if SpatialExtentView::from_members(required_object(ms, "spatial"@)->Ok_0) is Err {
            Err(SpatialExtentView::from_members(required_object(ms, "spatial"@)->Ok_0)->Err_0)
        } else if required_object(ms, "temporal"@) is Err {
            Err(required_object(ms, "temporal"@)->Err_0)
        } else if TemporalExtentView::from_members(required_object(ms, "temporal"@)->Ok_0)
            is Err {
            Err(TemporalExtentView::from_members(required_object(ms, "temporal"@)->Ok_0)->Err_0)
        } else {
            Ok(
                ExtentView {
                    spatial: SpatialExtentView::from_members(
                        required_object(ms, "spatial"@)->Ok_0,
                    )->Ok_0,
                    temporal: TemporalExtentView::from_members(
                        required_object(ms, "temporal"@)->Ok_0,
                    )->Ok_0,
                    additional_fields: without(ms, extent_fields()),
                },
            )
        }
    }
}

/// A valid extent that is written and read back is the same extent.
pub proof fn lemma_extent_round_trip(x: ExtentView)
    requires
        x.is_valid(),
    ensures
        ExtentView::from_members(x.to_members()) == Ok::<ExtentView, ErrorView>(x),
{
    broadcast use {
        crate::json::lemma_member_push,
        crate::json::lemma_has_key_push,
        crate::json::lemma_distinct_push,
        crate::json::lemma_keys_within_push,
    };

    lemma_names();
    assert(extent_fields()[0] == "spatial"@);
    assert(extent_fields()[1] == "temporal"@);
    lemma_known_then_rest(x.known_members(), x.additional_fields, extent_fields());
    lemma_spatial_round_trip(x.spatial);
    lemma_temporal_round_trip(x.temporal);
}

/// What is read is valid.
pub proof fn lemma_extent_from_members_valid(ms: Members)
    ensures
        ExtentView::from_members(ms) matches Ok(x) ==> x.is_valid(),
{
    lemma_without_keys(ms, extent_fields());
    if required_object(ms, "spatial"@) is Ok {
        lemma_spatial_from_members_valid(required_object(ms, "spatial"@)->Ok_0);
    }
    if required_object(ms, "temporal"@) is Ok {
        lemma_temporal_from_members_valid(required_object(ms, "temporal"@)->Ok_0);
    }
}

impl Clone for Extent {
    fn clone(&self) -> (r: Self)
        ensures
            r@ == self@,
    {
        Extent {
            spatial: self.spatial.clone(),
            temporal: self.temporal.clone(),
            additional_fields: clone_members(&self.additional_fields),
        }
    }
}

impl Extent {
    /// The extent of a collection of which nothing is known: the whole
    /// world, at any time.
    pub fn new() -> (x: Extent)
        ensures
            x@ == ExtentView::whole(),
            x@.is_valid(),
    {
        let mut world: Vec<Number> = Vec::new();
        world.push(Number { literal: "-180".to_owned() });
        world.push(Number { literal: "-90".to_owned() });
        world.push(Number { literal: "180".to_owned() });
        world.push(Number { literal: "90".to_owned() });
        let mut bbox: Vec<Vec<Number>> = Vec::new();
        bbox.push(world);
        let mut interval: Vec<(Option<String>, Option<String>)> = Vec::new();
        interval.push((None, None));
        let x = Extent {
            spatial: SpatialExtent { bbox, additional_fields: Vec::new() },
            temporal: TemporalExtent { interval, additional_fields: Vec::new() },
            additional_fields: Vec::new(),
        };
        assert(x.spatial.bbox.deep_view()[0] =~= seq!["-180"@, "-90"@, "180"@, "90"@]);
        assert(x.spatial.bbox.deep_view() =~= seq![seq!["-180"@, "-90"@, "180"@, "90"@]]);
        assert(x.temporal.interval.deep_view() =~= seq![(None, None)]);
        assert(x.spatial.additional_fields.deep_view() =~= Seq::empty());
        assert(x.temporal.additional_fields.deep_view() =~= Seq::empty());
        assert(x.additional_fields.deep_view() =~= Seq::empty());
        x
    }

    /// Writes the extent as the members of a JSON object.
    pub fn to_members(&self) -> (r: Vec<(String, Json)>)
        ensures
            r.deep_view() == self@.to_members(),
    {
        let mut members: Vec<(String, Json)> = Vec::new();
        assert(members.deep_view() =~= Seq::empty());
        push_member(&mut members, "spatial", Json::Object(self.spatial.to_members()));
        push_member(&mut members, "temporal", Json::Object(self.temporal.to_members()));
        push_members(&mut members, &self.additional_fields);
        members
    }

    /// Reads an extent from the members of a JSON object, which has to
    /// hold no key twice and the objects `spatial` and `temporal`.
    pub fn from_members(members: &Vec<(String, Json)>) -> (r: Result<Extent, Error>)
        ensures
            match r {
                Ok(x) => ExtentView::from_members(members.deep_view()) == Ok::<
                    ExtentView,
                    ErrorView,
                >(x@) && x@.is_valid(),
                Err(e) => ExtentView::from_members(members.deep_view()) == Err::<
                    ExtentView,
                    ErrorView,
                >(e@),
            },
    {
        if !has_distinct_keys(members) {
            return Err(Error::DuplicateField);
        }
        let spatial_members = match read_object(members, "spatial") {
            Ok(inner) => inner,
            Err(e) => {
                return Err(e);
            },
        };
        let spatial = match SpatialExtent::from_members(spatial_members) {
            Ok(s) => s,
            Err(e) => {
                return Err(e);
            },
        };
        let temporal_members = match read_object(members, "temporal") {
            Ok(inner) => inner,
            Err(e) => {
                return Err(e);
            },
        };
        let temporal = match TemporalExtent::from_members(temporal_members) {
            Ok(t) => t,
            Err(e) => {
                return Err(e);
            },
        };
        let additional_fields = rest(members, &extent_field_names());
        proof {
            lemma_extent_from_members_valid(members.deep_view());
        }
        Ok(Extent { spatial, temporal, additional_fields })
    }
}

/// The one name of `spatial_fields`.
fn spatial_field_names() -> (names: Vec<String>)
    ensures
        names.deep_view() == spatial_fields(),
{
    let mut names: Vec<String> = Vec::new();
    names.push("bbox".to_owned());
    assert(names.deep_view() =~= spatial_fields());
    names
}

/// The one name of `temporal_fields`.
fn temporal_field_names() -> (names: Vec<String>)
    ensures
        names.deep_view() == temporal_fields(),
{
    let mut names: Vec<String> = Vec::new();
    names.push("interval".to_owned());
    assert(names.deep_view() =~= temporal_fields());
    names
}

/// The two names of `extent_fields`.
fn extent_field_names() -> (names: Vec<String>)
    ensures
        names.deep_view() == extent_fields(),
{
    let mut names: Vec<String> = Vec::new();
    names.push("spatial".to_owned());
    names.push("temporal".to_owned());
    assert(names.deep_view() =~= extent_fields());
    names
}

impl SpatialExtent {
    /// Tells whether the extent is valid: whether it can be written and
    /// read back as it is.
    pub fn is_valid(&self) -> (r: bool)
        ensures
            r == self@.is_valid(),
    {
        can_stand_beside(&self.additional_fields, &spatial_field_names())
    }
}

impl TemporalExtent {
    /// Tells whether the extent is valid: whether it can be written and
    /// read back as it is.
    pub fn is_valid(&self) -> (r: bool)
        ensures
            r == self@.is_valid(),
    {
        can_stand_beside(&self.additional_fields, &temporal_field_names())
    }
}

impl Extent {
    /// Tells whether the extent is valid: whether it can be written and
    /// read back as it is.
    pub fn is_valid(&self) -> (r: bool)
        ensures
            r == self@.is_valid(),
    {
        self.spatial.is_valid() && self.temporal.is_valid() && can_stand_beside(
            &self.additional_fields,
            &extent_field_names(),
        )
    }
}

} // verus!
