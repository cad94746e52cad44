//! Online per-feature aggregation of raster samples: one slot per feature
//! holds the running count, sum, first value and a null flag.  A chosen
//! method turns the slots into an attribute column when a time window is
//! flushed.

use vstd::prelude::*;

use crate::collections::{fd_cells, CellValue, FeatureData, Fraction};
use crate::error::Error;

verus! {

/// How sampled pixel values aggregate into one value per feature.
#[derive(Clone, Copy, Debug, PartialEq, Eq, Structural)]
pub enum FeatureAggregationMethod {
    First,
    Mean,
    Sum,
    Count,
}

/// The running accumulation for one feature.
#[derive(Clone, Copy, Debug, PartialEq, Eq, Structural)]
pub struct AggSlot {
    pub count: u64,
    pub sum: i64,
    pub first: Option<i64>,
    pub null: bool,
}

impl AggSlot {
    /// The state before any sample arrived.
    pub open spec fn spec_empty() -> AggSlot {
        AggSlot { count: 0, sum: 0, first: None, null: false }
    }

    /// Whether one more sample of this value still fits the accumulators.
    /// Counts stay within `i64` so that a count can be emitted as a cell.
    pub open spec fn spec_value_fits(self, value: i64) -> bool {
        &&& self.count + 1 <= i64::MAX
        &&& i64::MIN <= self.sum + value <= i64::MAX
    }

    /// The slot after one more sample.
    pub open spec fn spec_with_value(self, value: i64) -> AggSlot {
        AggSlot {
            count: (self.count + 1) as u64,
            sum: (self.sum + value) as i64,
            first: if self.first is None {
                Some(value)
            } else {
                self.first
            },
            null: self.null,
        }
    }

    /// The slot after a null sample under the given no-data policy.
    pub open spec fn spec_with_null(self, ignore_no_data: bool) -> AggSlot {
        if ignore_no_data {
            self
        } else {
            AggSlot { count: self.count, sum: self.sum, first: self.first, null: true }
        }
    }
}

/// The cell a slot yields under a method: null where the null flag is set
/// or no sample arrived, otherwise the aggregate.  Means are exact ratios.
pub open spec fn spec_output_cell(method: FeatureAggregationMethod, s: AggSlot) -> CellValue {
    match method {
        FeatureAggregationMethod::First => CellValue::Int(
            if s.null {
                None
            } else {
                s.first
            },
        ),
        FeatureAggregationMethod::Mean => CellValue::Ratio(
            if s.null || s.count == 0 {
                None
            } else {
                Some(Fraction { num: s.sum, den: s.count })
            },
        ),
        FeatureAggregationMethod::Sum => CellValue::Int(
            if s.null || s.count == 0 {
                None
            } else {
                Some(s.sum)
            },
        ),
        FeatureAggregationMethod::Count => CellValue::Int(
            if s.null {
                None
            } else {
                Some(s.count as i64)
            },
        ),
    }
}

/// Per-feature aggregation state for one time window of one join.
#[derive(Debug)]
pub struct FeatureAggregator {
    method: FeatureAggregationMethod,
    ignore_no_data: bool,
    slots: Vec<AggSlot>,
}

impl FeatureAggregator {
    pub closed spec fn spec_method(self) -> FeatureAggregationMethod {
        self.method
    }

    pub closed spec fn spec_ignore_no_data(self) -> bool {
        self.ignore_no_data
    }

    pub closed spec fn slots_seq(self) -> Seq<AggSlot> {
        self.slots@
    }

    /// Counts never leave `i64`, so every slot can be emitted.
    pub open spec fn wf(self) -> bool {
        forall|i: int| 0 <= i < self.slots_seq().len() ==> (#[trigger] self.slots_seq()[i]).count
            <= i64::MAX
    }

    pub fn num_features(&self) -> (r: usize)
        ensures
            r == self.slots_seq().len(),
    {
        self.slots.len()
    }

    /// Feeds one sampled value into a feature's slot; an accumulator that
    /// would leave the representable range is an error.
    pub fn add_value(&mut self, feature_index: usize, value: i64) -> (r: Result<(), Error>)
        requires
            feature_index < old(self).slots_seq().len(),
        ensures
            r is Ok <==> old(self).slots_seq()[feature_index as int].spec_value_fits(value),
            r is Err ==> r == Err::<(), Error>(Error::NumericOverflow) && *final(self) == *old(
                self,
            ),
            r is Ok ==> {
                &&& final(self).slots_seq() == old(self).slots_seq().update(
                    feature_index as int,
                    old(self).slots_seq()[feature_index as int].spec_with_value(value),
                )
                &&& final(self).spec_method() == old(self).spec_method()
                &&& final(self).spec_ignore_no_data() == old(self).spec_ignore_no_data()
            },
            old(self).wf() ==> final(self).wf(),
    {
        let slot = self.slots[feature_index];
        if slot.count >= i64::MAX as u64 {
            return Err(Error::NumericOverflow);
        }
        let new_sum = match slot.sum.checked_add(value) {
            Some(s) => s,
            None => {
                return Err(Error::NumericOverflow);
            },
        };
        let updated = AggSlot {
            count: slot.count + 1,
            sum: new_sum,
            first: match slot.first {
                None => Some(value),
                Some(f) => Some(f),
            },
            null: slot.null,
        };
        self.slots.set(feature_index, updated);
        proof {
            if old(self).wf() {
                assert(final(self).wf());
            }
        }
        Ok(())
    }

    /// Feeds a no-data sample into a feature's slot: under the skipping
    /// policy nothing changes, otherwise the feature becomes null.
    pub fn add_null(&mut self, feature_index: usize)
        requires
            feature_index < old(self).slots_seq().len(),
        ensures
            final(self).slots_seq() == old(self).slots_seq().update(
                feature_index as int,
                old(self).slots_seq()[feature_index as int].spec_with_null(
                    old(self).spec_ignore_no_data(),
                ),
            ),
            final(self).spec_method() == old(self).spec_method(),
            final(self).spec_ignore_no_data() == old(self).spec_ignore_no_data(),
            old(self).wf() ==> final(self).wf(),
    {
        if self.ignore_no_data {
            proof {
                assert(final(self).slots_seq() =~= old(self).slots_seq().update(
                    feature_index as int,
                    old(self).slots_seq()[feature_index as int],
                ));
            }
            return ;
        }
        let slot = self.slots[feature_index];
        let updated = AggSlot { count: slot.count, sum: slot.sum, first: slot.first, null: true };
        self.slots.set(feature_index, updated);
    }

    /// Flushes the slots into an attribute column under the method.
    pub fn into_data(self) -> (r: FeatureData)
        requires
            self.wf(),
        ensures
            r.spec_len() == self.slots_seq().len(),
            forall|i: int|
                0 <= i < self.slots_seq().len() ==> fd_cells(r)[i] == spec_output_cell(
                    self.spec_method(),
                    #[trigger] self.slots_seq()[i],
                ),
            r.spec_data_type() == spec_output_data_type(self.spec_method()),
            r.wf(),
    {
        match self.method {
            FeatureAggregationMethod::Mean => {
                let mut v: Vec<Option<Fraction>> = Vec::new();
                let mut i: usize = 0;
                while i < self.slots.len()
                    invariant
                        i <= self.slots_seq().len(),
                        self.wf(),
                        v@.len() == i,
                        forall|k: int|
                            0 <= k < i ==> CellValue::Ratio(#[trigger] v@[k]) == spec_output_cell(
                                FeatureAggregationMethod::Mean,
                                self.slots_seq()[k],
                            ),
                        forall|k: int|
                            0 <= k < i ==> (#[trigger] v@[k] matches Some(f) ==> f.wf()),
                    decreases self.slots_seq().len() - i,
                {
                    let s = self.slots[i];
                    let cell: Option<Fraction> = if s.null || s.count == 0 {
                        None
                    } else {
                        Some(Fraction { num: s.sum, den: s.count })
                    };
                    v.push(cell);
                    i += 1;
                }
                FeatureData::Ratio(v)
            },
            _ => {
                let mut v: Vec<Option<i64>> = Vec::new();
                let mut i: usize = 0;
                while i < self.slots.len()
                    invariant
                        i <= self.slots_seq().len(),
                        self.wf(),
                        v@.len() == i,
                        self.method != FeatureAggregationMethod::Mean,
                        forall|k: int|
                            0 <= k < i ==> CellValue::Int(#[trigger] v@[k]) == spec_output_cell(
                                self.spec_method(),
                                self.slots_seq()[k],
                            ),
                    decreases self.slots_seq().len() - i,
                {
                    let s = self.slots[i];
                    let cell: Option<i64> = match self.method {
                        FeatureAggregationMethod::First => if s.null {
                            None
                        } else {
                            s.first
                        },
                        FeatureAggregationMethod::Sum => if s.null || s.count == 0 {
                            None
                        } else {
                            Some(s.sum)
                        },
                        _ => if s.null {
                            None
                        } else {
                            Some(s.count as i64)
                        },
                    };
                    v.push(cell);
                    i += 1;
                }
                FeatureData::Int(v)
            },
        }
    }
}

/// The column type a method produces: means are ratios, the rest integers.
pub open spec fn spec_output_data_type(
    method: FeatureAggregationMethod,
) -> crate::collections::FeatureDataType {
    match method {
        FeatureAggregationMethod::Mean => crate::collections::FeatureDataType::Ratio,
        _ => crate::collections::FeatureDataType::Int,
    }
}

/// One fresh aggregator with a slot per feature, everything zeroed.
pub fn create_feature_aggregator(
    num_features: usize,
    aggregation_method: FeatureAggregationMethod,
    ignore_no_data: bool,
) -> (r: FeatureAggregator)
    ensures
        r.slots_seq().len() == num_features,
        forall|i: int| 0 <= i < num_features ==> #[trigger] r.slots_seq()[i] == AggSlot::spec_empty(),
        r.spec_method() == aggregation_method,
        r.spec_ignore_no_data() == ignore_no_data,
        r.wf(),
{
    let mut slots: Vec<AggSlot> = Vec::new();
    let mut i: usize = 0;
    while i < num_features
        invariant
            i <= num_features,
            slots@.len() == i,
            forall|k: int| 0 <= k < i ==> #[trigger] slots@[k] == AggSlot::spec_empty(),
        decreases num_features - i,
    {
        slots.push(AggSlot { count: 0, sum: 0, first: None, null: false });
        i += 1;
    }
    FeatureAggregator { method: aggregation_method, ignore_no_data, slots }
}

} // verus!
