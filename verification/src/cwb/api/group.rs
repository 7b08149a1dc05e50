//! Grouping the stations by elevation: of each range of elevation that has a
//! station, the coldest.

use vstd::prelude::*;
use crate::cwb::model::decimal::SCALE;
use crate::cwb::model::resp::{Position, Record};
use crate::cwb::text::same_text;

verus! {

/// A range of elevation, in meters above sea level. A station belongs to the
/// range that holds its elevation without the fraction of a meter.
#[derive(Debug, Clone, Copy, PartialEq, Eq, Structural)]
pub enum ElevationBucket {
    /// Up to 500 m.
    UpTo500,
    /// Above 500 m, up to 1000 m.
    UpTo1000,
    /// Above 1000 m, up to 1500 m.
    UpTo1500,
    /// Above 1500 m, up to 2000 m.
    UpTo2000,
    /// Above 2000 m, up to 2500 m.
    UpTo2500,
    /// Above 2500 m, up to 3000 m.
    UpTo3000,
    /// Above 3000 m.
    Above3000,
}

/// A range of elevation with the coldest of its stations.
#[derive(Debug)]
pub struct Group {
    pub bucket: ElevationBucket,
    pub record: Record,
}

impl ElevationBucket {
    /// The name of the range.
    pub open spec fn label_text(self) -> Seq<char> {
        match self {
            ElevationBucket::UpTo500 => "0-500"@,
            ElevationBucket::UpTo1000 => "500-1000"@,
            ElevationBucket::UpTo1500 => "1000-1500"@,
            ElevationBucket::UpTo2000 => "1500-2000"@,
            ElevationBucket::UpTo2500 => "2000-2500"@,
            ElevationBucket::UpTo3000 => "2500-3000"@,
            ElevationBucket::Above3000 => "> 3000"@,
        }
    }

    pub fn label(&self) -> (r: &'static str)
        ensures
            r@ == self.label_text(),
    {
        match self {
            ElevationBucket::UpTo500 => "0-500",
            ElevationBucket::UpTo1000 => "500-1000",
            ElevationBucket::UpTo1500 => "1000-1500",
            ElevationBucket::UpTo2000 => "1500-2000",
            ElevationBucket::UpTo2500 => "2000-2500",
            ElevationBucket::UpTo3000 => "2500-3000",
            ElevationBucket::Above3000 => "> 3000",
        }
    }
}

/// The whole meters of an elevation given in millionths of a meter: the
/// fraction is dropped, towards zero.
pub open spec fn whole_meters(altitude: int) -> int {
    if altitude >= 0 {
        altitude / (SCALE as int)
    } else {
        -((-altitude) / (SCALE as int))
    }
}

/// The range of elevation to which an elevation belongs.
pub open spec fn bucket_of(altitude: i64) -> ElevationBucket {
    let meters = whole_meters(altitude as int);
    if meters <= 500 {
        ElevationBucket::UpTo500
    } else if meters <= 1000 {
        ElevationBucket::UpTo1000
    } else if meters <= 1500 {
        ElevationBucket::UpTo1500
    } else if meters <= 2000 {
        ElevationBucket::UpTo2000
    } else if meters <= 2500 {
        ElevationBucket::UpTo2500
    } else if meters <= 3000 {
        ElevationBucket::UpTo3000
    } else {
        ElevationBucket::Above3000
    }
}

/// The coldest of the stations of `data` that belong to `bucket`; of several
/// that are equally cold, the one that comes first.
pub open spec fn coldest(bucket: ElevationBucket, data: Seq<Record>) -> Option<Record>
    decreases data.len(),
{
    if data.len() == 0 {
        None
    } else {
        let so_far = coldest(bucket, data.drop_last());
        let last = data.last();
        if bucket_of(last.altitude) != bucket {
            so_far
        } else {
            match so_far {
                Some(found) if found.temperature <= last.temperature => so_far,
                _ => Some(last),
            }
        }
    }
}

/// The ranges to which stations of `data` belong, each once, in the order in
/// which the stations first reach them.
pub open spec fn buckets_seen(data: Seq<Record>) -> Seq<ElevationBucket>
    decreases data.len(),
{
    if data.len() == 0 {
        Seq::empty()
    } else {
        let so_far = buckets_seen(data.drop_last());
        let bucket = bucket_of(data.last().altitude);
        if so_far.contains(bucket) {
            so_far
        } else {
            so_far.push(bucket)
        }
    }
}

/// The group of `bucket` among the stations `data`.
pub open spec fn group_of(bucket: ElevationBucket, data: Seq<Record>) -> Group {
    Group { bucket, record: coldest(bucket, data)->Some_0 }
}

/// The groups of the stations `data`: one for each range that has a station,
/// in the order in which the stations first reach the ranges.
pub open spec fn grouped(data: Seq<Record>) -> Seq<Group> {
    buckets_seen(data).map_values(|bucket: ElevationBucket| group_of(bucket, data))
}

/// The groups that the value of a `group_by` directive asks for: those by
/// elevation for `ELEV`, none for any other value.
pub open spec fn grouped_by(value: Seq<char>, data: Seq<Record>) -> Seq<Group> {
    if value == "ELEV"@ {
        grouped(data)
    } else {
        Seq::empty()
    }
}

/// The range of elevation to which an elevation belongs.
pub fn bucket_for(altitude: i64) -> (r: ElevationBucket)
    ensures
        r == bucket_of(altitude),
{
    if altitude < 501 * SCALE {
        ElevationBucket::UpTo500
    } else if altitude < 1001 * SCALE {
        ElevationBucket::UpTo1000
    } else if altitude < 1501 * SCALE {
        ElevationBucket::UpTo1500
    } else if altitude < 2001 * SCALE {
        ElevationBucket::UpTo2000
    } else if altitude < 2501 * SCALE {
        ElevationBucket::UpTo2500
    } else if altitude < 3001 * SCALE {
        ElevationBucket::UpTo3000
    } else {
        ElevationBucket::Above3000
    }
}

/// A copy of a station.
pub fn copy_of(record: &Record) -> (r: Record)
    ensures
        r == *record,
{
    Record {
        city: record.city.clone(),
        town: record.town.clone(),
        name: record.name.clone(),
        precipitation_per_day: record.precipitation_per_day,
        altitude: record.altitude,
        temperature: record.temperature,
        location: Position {
            latitude: record.location.latitude,
            longitude: record.location.longitude,
        },
    }
}

/// A range has a coldest station exactly when a station has reached it, and
/// that station belongs to the range.
pub proof fn lemma_seen_has_coldest(bucket: ElevationBucket, data: Seq<Record>)
    ensures
        buckets_seen(data).contains(bucket) <==> coldest(bucket, data) is Some,
        coldest(bucket, data) is Some ==> bucket_of(coldest(bucket, data)->Some_0.altitude)
            == bucket && data.contains(coldest(bucket, data)->Some_0),
    decreases data.len(),
{
    if data.len() > 0 {
        let rest = data.drop_last();
        lemma_seen_has_coldest(bucket, rest);
        let so_far = buckets_seen(rest);
        let reached = bucket_of(data.last().altitude);
        if so_far.contains(reached) {
        } else {
            assert(so_far.push(reached).last() == reached);
            assert forall|j: int| 0 <= j < so_far.len() implies so_far.push(reached)[j]
                == so_far[j] by {}
            if so_far.contains(bucket) {
                let j = choose|j: int| 0 <= j < so_far.len() && so_far[j] == bucket;
                assert(so_far.push(reached)[j] == bucket);
            }
        }
        assert(data[data.len() - 1] == data.last());
        if coldest(bucket, data) is Some {
            let found = coldest(bucket, data)->Some_0;
            if found != data.last() {
                assert(rest.contains(found));
                let j = choose|j: int| 0 <= j < rest.len() && rest[j] == found;
                assert(data[j] == found);
            }
        }
    }
}

/// No range is reached twice.
pub proof fn lemma_buckets_seen_distinct(data: Seq<Record>)
    ensures
        buckets_seen(data).no_duplicates(),
    decreases data.len(),
{
    if data.len() > 0 {
        lemma_buckets_seen_distinct(data.drop_last());
    }
}

/// Where the coldest station of a range stands: at `k`, a station of the
/// range; no station of the range is colder; and no station of the range
/// that comes before it is as cold.
pub proof fn lemma_coldest_is_coldest(bucket: ElevationBucket, data: Seq<Record>) -> (k: int)
    requires
        coldest(bucket, data) is Some,
    ensures
        0 <= k < data.len(),
        data[k] == coldest(bucket, data)->Some_0,
        bucket_of(data[k].altitude) == bucket,
        forall|i: int|
            0 <= i < data.len() && bucket_of((#[trigger] data[i]).altitude) == bucket
                ==> data[k].temperature <= data[i].temperature,
        forall|i: int|
            0 <= i < k && bucket_of((#[trigger] data[i]).altitude) == bucket ==> data[k].temperature
                < data[i].temperature,
    decreases data.len(),
{
    let rest = data.drop_last();
    let last = data.len() - 1;
    assert forall|i: int| 0 <= i < rest.len() implies #[trigger] rest[i] == data[i] by {}
    if coldest(bucket, rest) is Some {
        let earlier = lemma_coldest_is_coldest(bucket, rest);
        if coldest(bucket, data) == coldest(bucket, rest) {
            assert forall|i: int|
                0 <= i < data.len() && bucket_of((#[trigger] data[i]).altitude)
                    == bucket implies data[earlier].temperature <= data[i].temperature by {
                if i < rest.len() {
                    assert(rest[i] == data[i]);
                }
            }
            assert forall|i: int|
                0 <= i < earlier && bucket_of((#[trigger] data[i]).altitude)
                    == bucket implies data[earlier].temperature < data[i].temperature by {
                assert(rest[i] == data[i]);
            }
            earlier
        } else {
            assert forall|i: int|
                0 <= i < data.len() && bucket_of((#[trigger] data[i]).altitude)
                    == bucket implies data[last].temperature <= data[i].temperature by {
                if i < rest.len() {
                    assert(rest[i] == data[i]);
                }
            }
            assert forall|i: int|
                0 <= i < last && bucket_of((#[trigger] data[i]).altitude)
                    == bucket implies data[last].temperature < data[i].temperature by {
                assert(rest[i] == data[i]);
            }
            last
        }
    } else {
        lemma_no_coldest(bucket, rest);
        assert forall|i: int|
            0 <= i < data.len() && bucket_of((#[trigger] data[i]).altitude)
                == bucket implies data[last].temperature <= data[i].temperature by {
            if i < rest.len() {
                assert(rest[i] == data[i]);
            }
        }
        assert forall|i: int|
            0 <= i < last && bucket_of((#[trigger] data[i]).altitude)
                == bucket implies data[last].temperature < data[i].temperature by {
            assert(rest[i] == data[i]);
        }
        last
    }
}

/// A range without a coldest station has no station.
pub proof fn lemma_no_coldest(bucket: ElevationBucket, data: Seq<Record>)
    requires
        coldest(bucket, data) is None,
    ensures
        forall|i: int| 0 <= i < data.len() ==> bucket_of((#[trigger] data[i]).altitude) != bucket,
    decreases data.len(),
{
    if data.len() > 0 {
        let rest = data.drop_last();
        lemma_no_coldest(bucket, rest);
        assert forall|i: int| 0 <= i < data.len() implies bucket_of(
            (#[trigger] data[i]).altitude,
        ) != bucket by {
            if i < rest.len() {
                assert(rest[i] == data[i]);
            }
        }
    }
}

/// Every station's range has its group, once, and every group is that of
/// the range of some station, with the coldest station of the range.
pub proof fn lemma_grouped_ranges(data: Seq<Record>)
    ensures
        grouped(data).len() == buckets_seen(data).len(),
        buckets_seen(data).no_duplicates(),
        forall|i: int|
            0 <= i < data.len() ==> buckets_seen(data).contains(
                bucket_of((#[trigger] data[i]).altitude),
            ),
        forall|k: int|
            0 <= k < grouped(data).len() ==> {
                &&& (#[trigger] grouped(data)[k]).bucket == buckets_seen(data)[k]
                &&& coldest(buckets_seen(data)[k], data) == Some(grouped(data)[k].record)
            },
{
    lemma_buckets_seen_distinct(data);
    assert forall|i: int| 0 <= i < data.len() implies buckets_seen(data).contains(
        bucket_of((#[trigger] data[i]).altitude),
    ) by {
        let bucket = bucket_of(data[i].altitude);
        lemma_seen_has_coldest(bucket, data);
        if coldest(bucket, data) is None {
            lemma_no_coldest(bucket, data);
        }
    }
    assert forall|k: int| 0 <= k < grouped(data).len() implies {
        &&& (#[trigger] grouped(data)[k]).bucket == buckets_seen(data)[k]
        &&& coldest(buckets_seen(data)[k], data) == Some(grouped(data)[k].record)
    } by {
        let bucket = buckets_seen(data)[k];
        assert(buckets_seen(data).contains(bucket));
        lemma_seen_has_coldest(bucket, data);
    }
}

/// Groups the stations as the value of a `group_by` directive asks for.
pub fn group_by(value: &str, data: &Vec<Record>) -> (r: Vec<Group>)
    ensures
        r@ == grouped_by(value@, data@),
{
    let mut result: Vec<Group> = Vec::new();
    if !same_text(value, "ELEV") {
        return result;
    }
    let mut i: usize = 0;
    assert(data@.take(0) =~= Seq::<Record>::empty());
    assert(result@ =~= grouped(data@.take(0)));
    while i < data.len()
        invariant
            i <= data.len(),
            result@ == grouped(data@.take(i as int)),
        decreases data.len() - i,
    {
        let record = &data[i];
        let bucket = bucket_for(record.altitude);
        let ghost prev = data@.take(i as int);
        let ghost next = data@.take(i + 1);
        let ghost seen = buckets_seen(prev);
        proof {
            assert(next.drop_last() =~= prev);
            assert(next.last() == *record);
            assert(result@.len() == seen.len());
            assert forall|j: int| 0 <= j < seen.len() implies (#[trigger] result@[j]).bucket
                == seen[j] by {
                assert(result@[j] == group_of(seen[j], prev));
            }
        }
        let mut at: usize = 0;
        while at < result.len() && result[at].bucket != bucket
            invariant
                at <= result.len(),
                result@.len() == seen.len(),
                forall|j: int| 0 <= j < seen.len() ==> (#[trigger] result@[j]).bucket == seen[j],
                forall|j: int| 0 <= j < at ==> seen[j] != bucket,
            decreases result.len() - at,
        {
            at += 1;
        }
        proof {
            lemma_seen_has_coldest(bucket, prev);
            lemma_buckets_seen_distinct(prev);
        }
        if at == result.len() {
            assert(!seen.contains(bucket));
            result.push(Group { bucket, record: copy_of(record) });
        } else {
            assert(seen[at as int] == bucket);
            assert(result@[at as int] == group_of(seen[at as int], prev));
            if record.temperature < result[at].record.temperature {
                result.set(at, Group { bucket, record: copy_of(record) });
            }
        }
        proof {
            let after = buckets_seen(next);
            assert(result@.len() == after.len());
            assert forall|j: int| 0 <= j < after.len() implies result@[j] == group_of(
                after[j],
                next,
            ) by {
                if j < seen.len() {
                    assert(after[j] == seen[j]);
                    assert(grouped(prev)[j] == group_of(seen[j], prev));
                    if seen[j] != bucket {
                        assert(coldest(seen[j], next) == coldest(seen[j], prev));
                    } else {
                        assert(j == at);
                    }
                }
            }
            assert(result@ =~= grouped(next));
        }
        i += 1;
    }
    assert(data@.take(i as int) =~= data@);
    result
}

} // verus!
