//! Reading stored values back.

use vstd::prelude::*;

use crate::error::{outcome, StoreError, StoreErrorModel};
use crate::ids::Identifier;
use crate::moment::Moment;
use crate::outside::{parse_rfc3339, parse_uuid, rfc3339_parsed, uuid_parsed};
use crate::states::WireName;
use crate::text::concat2;

verus! {

/// The moment a stored text stands for.
pub open spec fn moment_of(raw: Seq<char>) -> Result<Moment, StoreErrorModel> {
    match rfc3339_parsed(raw) {
        Ok((seconds, nanos)) => Ok(Moment { seconds, nanos }),
        Err(reason) => Err(StoreErrorModel::Serialization(reason)),
    }
}

/// Reads a moment.
pub fn parse_timestamp(raw: &str) -> (r: Result<Moment, StoreError>)
    ensures
        outcome(r) == moment_of(raw@),
        r matches Ok(moment) ==> moment.valid(),
{
    match parse_rfc3339(raw) {
        Ok((seconds, nanos)) => Ok(Moment { seconds, nanos }),
        Err(reason) => Err(StoreError::Serialization(reason)),
    }
}

/// Reads an identifier.
pub fn parse_id<T: Identifier>(raw: &str) -> (r: Result<T, StoreError>)
    ensures
        match uuid_parsed(raw@) {
            Ok(number) => r matches Ok(id) && id.number() == number,
            Err(reason) => r matches Err(error) && error@ == StoreErrorModel::Serialization(
                reason,
            ),
        },
{
    match parse_uuid(raw) {
        Ok(number) => Ok(T::from_number(number)),
        Err(reason) => Err(StoreError::Serialization(reason)),
    }
}

/// Writes a state by its wire name.
pub fn enum_to_sql<T: WireName>(value: &T) -> (r: String)
    ensures
        r@ == value.wire(),
{
    value.to_wire().to_owned()
}

/// Reads a state from its wire name.
pub fn enum_from_sql<T: WireName>(raw: &str) -> (r: Result<T, StoreError>)
    ensures
        match r {
            Ok(state) => state.wire() == raw@,
            Err(error) => error@ == StoreErrorModel::Serialization("unknown variant: "@ + raw@)
                && forall|state: T| #[trigger] state.wire() != raw@,
        },
{
    match T::of_wire(raw) {
        Some(state) => Ok(state),
        None => Err(StoreError::Serialization(concat2("unknown variant: ", raw))),
    }
}

/// A state that was written down is read back as it was.
pub proof fn law_states_read_back<T: WireName>(written: T, read: T)
    requires
        read.wire() == written.wire(),
    ensures
        read == written,
{
    T::wire_names_differ(read, written);
}

/// What a list of readings comes to: every value, or the first failure.
pub open spec fn gathered<T>(readings: Seq<Result<T, StoreErrorModel>>) -> Result<
    Seq<T>,
    StoreErrorModel,
>
    decreases readings.len(),
{
    if readings.len() == 0 {
        Ok(Seq::empty())
    } else {
        match gathered(readings.drop_last()) {
            Err(error) => Err(error),
            Ok(values) => match readings.last() {
                Ok(value) => Ok(values.push(value)),
                Err(error) => Err(error),
            },
        }
    }
}

/// One more reading.
pub proof fn lemma_gathered_step<T>(readings: Seq<Result<T, StoreErrorModel>>, i: int)
    requires
        0 <= i < readings.len(),
    ensures
        gathered(readings.take(i + 1)) == match gathered(readings.take(i)) {
            Err(error) => Err(error),
            Ok(values) => match readings[i] {
                Ok(value) => Ok(values.push(value)),
                Err(error) => Err(error),
            },
        },
{
    assert(readings.take(i + 1).drop_last() =~= readings.take(i));
}

/// A failure stays one however many readings follow.
pub proof fn lemma_gathered_failed<T>(readings: Seq<Result<T, StoreErrorModel>>, i: int)
    requires
        0 <= i <= readings.len(),
        gathered(readings.take(i)) is Err,
    ensures
        gathered(readings) == gathered(readings.take(i)),
    decreases readings.len() - i,
{
    if i < readings.len() {
        lemma_gathered_step(readings, i);
        lemma_gathered_failed(readings, i + 1);
    } else {
        assert(readings.take(i) =~= readings);
    }
}

/// A list of readings that succeeded holds each of them.
pub proof fn lemma_gathered_each<T>(readings: Seq<Result<T, StoreErrorModel>>, k: int)
    requires
        gathered(readings) is Ok,
        0 <= k < readings.len(),
    ensures
        gathered(readings)->Ok_0.len() == readings.len(),
        readings[k] == Ok::<T, StoreErrorModel>(gathered(readings)->Ok_0[k]),
    decreases readings.len(),
{
    let n = readings.len() as int;
    assert(readings.take(n) =~= readings);
    lemma_gathered_step(readings, n - 1);
    assert(readings.take(n - 1) =~= readings.drop_last());
    if n > 1 {
        if k < n - 1 {
            lemma_gathered_each(readings.drop_last(), k);
        } else {
            lemma_gathered_each(readings.drop_last(), 0);
        }
    }
}

/// Readings that all succeed come to their values.
pub proof fn lemma_gathered_ok<T>(readings: Seq<Result<T, StoreErrorModel>>)
    requires
        forall|i: int| 0 <= i < readings.len() ==> (#[trigger] readings[i]) is Ok,
    ensures
        gathered(readings) is Ok,
    decreases readings.len(),
{
    if readings.len() > 0 {
        assert forall|i: int| 0 <= i < readings.drop_last().len() implies (
        #[trigger] readings.drop_last()[i]) is Ok by {
            assert(readings.drop_last()[i] == readings[i]);
        }
        lemma_gathered_ok(readings.drop_last());
    }
}

/// A list of readings that succeeded is as long as the readings are many.
pub proof fn lemma_gathered_len<T>(readings: Seq<Result<T, StoreErrorModel>>)
    ensures
        gathered(readings) matches Ok(values) ==> values.len() == readings.len(),
    decreases readings.len(),
{
    if readings.len() > 0 {
        lemma_gathered_len(readings.drop_last());
    }
}

} // verus!
