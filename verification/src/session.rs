//! What holds of the wire of a whole session: the records keep their order,
//! every data frame has its one subscription frame before it, and the
//! counter of dropped samples counts the samples that lacked a slot.

use crate::effect::{
    lemma_subscription_names_its_topic, names_its_topic, record_effect, same_limits,
};
use crate::machine::{ExportState, WireItem};
use crate::record::{RecordMeta, RecordView};
use crate::wire::slot_of;
use vstd::prelude::*;
use vstd::string::StringSliceAdditionalSpecFns;

verus! {

/// A session: the exporter and all that it has put on the wire.
pub struct Session {
    pub state: ExportState,
    pub wire: Seq<WireItem>,
}

/// The session after `records` were exported one after the other, in their
/// order, by a driver that goes on after an error.
pub open spec fn export_all<E>(s: ExportState, records: Seq<RecordView>) -> Session
    decreases records.len(),
{
    if records.len() == 0 {
        Session { state: s, wire: Seq::empty() }
    } else {
        let before = export_all::<E>(s, records.drop_last());
        let last = record_effect::<E>(before.state, records.last());
        Session { state: last.state, wire: before.wire + last.wire }
    }
}

/// The wire holds the records in the order in which they were exported:
/// what `first` puts on the wire comes before what `then` puts on it.
pub proof fn lemma_wire_keeps_order<E>(
    s: ExportState,
    first: Seq<RecordView>,
    then: Seq<RecordView>,
)
    ensures
        export_all::<E>(s, first + then).state == export_all::<E>(
            export_all::<E>(s, first).state,
            then,
        ).state,
        export_all::<E>(s, first + then).wire == export_all::<E>(s, first).wire + export_all::<E>(
            export_all::<E>(s, first).state,
            then,
        ).wire,
    decreases then.len(),
{
    let middle = export_all::<E>(s, first);
    if then.len() == 0 {
        assert(first + then =~= first);
        assert(middle.wire + Seq::<WireItem>::empty() =~= middle.wire);
    } else {
        lemma_wire_keeps_order::<E>(s, first, then.drop_last());
        assert((first + then).drop_last() =~= first + then.drop_last());
        assert((first + then).last() == then.last());
        let before = export_all::<E>(middle.state, then.drop_last());
        let last = record_effect::<E>(before.state, then.last());
        assert(middle.wire + (before.wire + last.wire) =~= (middle.wire + before.wire) + last.wire);
    }
}

/// Where on the wire the items of the record `k` begin: behind all that the
/// records before it put there.
pub open spec fn wire_offset<E>(s: ExportState, records: Seq<RecordView>, k: int) -> int {
    export_all::<E>(s, records.take(k)).wire.len() as int
}

/// The places of the records on the wire follow the order of the records:
/// a record begins no earlier than where the records before it end.
pub proof fn lemma_places_in_order<E>(s: ExportState, records: Seq<RecordView>, i: int, j: int)
    requires
        0 <= i <= j <= records.len(),
    ensures
        wire_offset::<E>(s, records, i) <= wire_offset::<E>(s, records, j),
        wire_offset::<E>(s, records, j) <= export_all::<E>(s, records).wire.len(),
        export_all::<E>(s, records).wire.take(wire_offset::<E>(s, records, j)) == export_all::<E>(
            s,
            records.take(j),
        ).wire,
{
    assert(records.take(j).take(i) =~= records.take(i));
    assert(records.take(i) + records.take(j).skip(i) =~= records.take(j));
    lemma_wire_keeps_order::<E>(s, records.take(i), records.take(j).skip(i));
    assert(records.take(j) + records.skip(j) =~= records);
    lemma_wire_keeps_order::<E>(s, records.take(j), records.skip(j));
    let front = export_all::<E>(s, records.take(j)).wire;
    let rest = export_all::<E>(export_all::<E>(s, records.take(j)).state, records.skip(j)).wire;
    assert((front + rest).take(front.len() as int) =~= front);
}

/// Each record has its own place on the wire: its items stand together, in
/// their order, where the items of the records before it end.
pub proof fn lemma_record_has_its_place<E>(s: ExportState, records: Seq<RecordView>, k: int)
    requires
        0 <= k < records.len(),
    ensures
        ({
            let before = export_all::<E>(s, records.take(k));
            let own = record_effect::<E>(before.state, records[k]).wire;
            &&& wire_offset::<E>(s, records, k + 1) == wire_offset::<E>(s, records, k) + own.len()
            &&& export_all::<E>(s, records).wire.subrange(
                wire_offset::<E>(s, records, k),
                wire_offset::<E>(s, records, k + 1),
            ) == own
        }),
{
    let before = export_all::<E>(s, records.take(k));
    let own = record_effect::<E>(before.state, records[k]).wire;
    let upto = records.take(k + 1);
    assert(upto.drop_last() =~= records.take(k));
    assert(upto.last() == records[k]);
    lemma_places_in_order::<E>(s, records, k + 1, k + 1);
    let whole = export_all::<E>(s, records).wire;
    let front = export_all::<E>(s, upto).wire;
    assert(front == before.wire + own);
    assert(whole.subrange(before.wire.len() as int, front.len() as int) =~= whole.take(
        front.len() as int,
    ).skip(before.wire.len() as int));
    assert((before.wire + own).skip(before.wire.len() as int) =~= own);
}

/// Whether `item` is the subscription frame of the message id `msg_id`.
pub open spec fn announces(item: WireItem, msg_id: u16) -> bool {
    item is AddSubscription && item->AddSubscription_msg_id == msg_id
}

/// Whether every slot that is marked has its subscription frame on the
/// wire, every data frame on the wire comes after the subscription frame of
/// its message id, every subscription frame is of a marked slot, and no
/// message id has two subscription frames.
pub open spec fn well_subscribed(state: ExportState, wire: Seq<WireItem>) -> bool {
    &&& forall|slot: nat| #[trigger]
        state.subscribed.contains(slot) ==> slot <= 0xffff && exists|j: int|
            0 <= j < wire.len() && announces(#[trigger] wire[j], slot as u16)
    &&& forall|k: int|
        0 <= k < wire.len() && (#[trigger] wire[k]) is Data ==> exists|j: int|
            0 <= j < k && announces(#[trigger] wire[j], wire[k]->Data_msg_id)
    &&& forall|j: int|
        0 <= j < wire.len() && (#[trigger] wire[j]) is AddSubscription
            ==> state.subscribed.contains(wire[j]->AddSubscription_msg_id as nat)
    &&& forall|i: int, j: int|
        0 <= i < j < wire.len() && (#[trigger] wire[i]) is AddSubscription && (#[trigger] wire[j])
            is AddSubscription ==> wire[i]->AddSubscription_msg_id
            != wire[j]->AddSubscription_msg_id
}

/// A record keeps the wire well subscribed.
proof fn lemma_record_keeps_subscriptions<E>(
    s: ExportState,
    wire: Seq<WireItem>,
    record: RecordView,
)
    requires
        well_subscribed(s, wire),
    ensures
        well_subscribed(
            record_effect::<E>(s, record).state,
            wire + record_effect::<E>(s, record).wire,
        ),
{
    let effect = record_effect::<E>(s, record);
    let after = wire + effect.wire;
    let n = wire.len() as int;
    assert forall|j: int| 0 <= j < n implies after[j] == wire[j] by {}
    if effect.wire.len() == 0 {
        assert(after =~= wire);
        assert(effect.state.subscribed == s.subscribed);
    } else if effect.wire[0] is AddSubscription {
        let slot = effect.wire[0]->AddSubscription_msg_id;
        assert(!s.subscribed.contains(slot as nat));
        assert(effect.state.subscribed == s.subscribed.insert(slot as nat));
        assert(after[n] == effect.wire[0]);
        assert(announces(after[n], slot));
        if effect.wire.len() == 2 {
            assert(after[n + 1] == effect.wire[1]);
            assert(after[n + 1]->Data_msg_id == slot);
        }
        assert forall|other: nat| #[trigger]
            effect.state.subscribed.contains(other) implies other <= 0xffff && exists|j: int|
            0 <= j < after.len() && announces(#[trigger] after[j], other as u16) by {
            if other == slot as nat {
                assert(announces(after[n], other as u16));
            } else {
                assert(s.subscribed.contains(other));
                let j = choose|j: int|
                    0 <= j < wire.len() && announces(#[trigger] wire[j], other as u16);
                assert(announces(after[j], other as u16));
            }
        }
        assert forall|k: int| 0 <= k < after.len() && (#[trigger] after[k]) is Data implies exists|
            j: int,
        |
            0 <= j < k && announces(#[trigger] after[j], after[k]->Data_msg_id) by {
            if k < n {
                assert(wire[k] is Data);
                let j = choose|j: int|
                    0 <= j < k && announces(#[trigger] wire[j], wire[k]->Data_msg_id);
                assert(announces(after[j], after[k]->Data_msg_id));
            } else {
                assert(k == n + 1);
                assert(announces(after[n], after[k]->Data_msg_id));
            }
        }
        assert forall|j: int|
            0 <= j < after.len() && (#[trigger] after[j])
                is AddSubscription implies effect.state.subscribed.contains(
            after[j]->AddSubscription_msg_id as nat,
        ) by {
            if j < n {
                assert(wire[j] is AddSubscription);
            }
        }
        assert forall|i: int, j: int|
            0 <= i < j < after.len() && (#[trigger] after[i]) is AddSubscription && (
            #[trigger] after[j]) is AddSubscription implies after[i]->AddSubscription_msg_id
            != after[j]->AddSubscription_msg_id by {
            if j < n {
                assert(wire[i] is AddSubscription && wire[j] is AddSubscription);
            } else {
                assert(j == n);
                assert(wire[i] is AddSubscription);
                assert(s.subscribed.contains(wire[i]->AddSubscription_msg_id as nat));
            }
        }
    } else {
        assert(effect.wire.len() == 1);
        assert(effect.state.subscribed == s.subscribed);
        assert(after[n] == effect.wire[0]);
        assert forall|other: nat| #[trigger]
            effect.state.subscribed.contains(other) implies other <= 0xffff && exists|j: int|
            0 <= j < after.len() && announces(#[trigger] after[j], other as u16) by {
            let j = choose|j: int|
                    0 <= j < wire.len() && announces(#[trigger] wire[j], other as u16);
            assert(announces(after[j], other as u16));
        }
        assert forall|k: int| 0 <= k < after.len() && (#[trigger] after[k]) is Data implies exists|
            j: int,
        |
            0 <= j < k && announces(#[trigger] after[j], after[k]->Data_msg_id) by {
            if k < n {
                assert(wire[k] is Data);
                let j = choose|j: int|
                    0 <= j < k && announces(#[trigger] wire[j], wire[k]->Data_msg_id);
                assert(announces(after[j], after[k]->Data_msg_id));
            } else {
                let slot = after[k]->Data_msg_id;
                assert(s.subscribed.contains(slot as nat));
                let j = choose|j: int| 0 <= j < wire.len() && announces(#[trigger] wire[j], slot);
                assert(announces(after[j], slot));
            }
        }
        assert forall|j: int|
            0 <= j < after.len() && (#[trigger] after[j])
                is AddSubscription implies effect.state.subscribed.contains(
            after[j]->AddSubscription_msg_id as nat,
        ) by {
            assert(j < n);
            assert(wire[j] is AddSubscription);
        }
        assert forall|i: int, j: int|
            0 <= i < j < after.len() && (#[trigger] after[i]) is AddSubscription && (
            #[trigger] after[j]) is AddSubscription implies after[i]->AddSubscription_msg_id
            != after[j]->AddSubscription_msg_id by {
            assert(j < n);
            assert(wire[i] is AddSubscription && wire[j] is AddSubscription);
        }
    }
}

/// A session that begins without a marked slot stays well subscribed.
proof fn lemma_session_well_subscribed<E>(s: ExportState, records: Seq<RecordView>)
    requires
        s.subscribed == Set::<nat>::empty(),
    ensures
        well_subscribed(export_all::<E>(s, records).state, export_all::<E>(s, records).wire),
    decreases records.len(),
{
    if records.len() > 0 {
        lemma_session_well_subscribed::<E>(s, records.drop_last());
        let before = export_all::<E>(s, records.drop_last());
        lemma_record_keeps_subscriptions::<E>(before.state, before.wire, records.last());
    }
}

/// In a session that begins without a marked slot, every data frame on the
/// wire comes after the subscription frame of its message id.
pub proof fn lemma_subscription_before_data<E>(s: ExportState, records: Seq<RecordView>, k: int)
    requires
        s.subscribed == Set::<nat>::empty(),
        0 <= k < export_all::<E>(s, records).wire.len(),
        export_all::<E>(s, records).wire[k] is Data,
    ensures
        exists|j: int|
            0 <= j < k && announces(
                #[trigger] export_all::<E>(s, records).wire[j],
                export_all::<E>(s, records).wire[k]->Data_msg_id,
            ),
{
    lemma_session_well_subscribed::<E>(s, records);
}

/// In a session that begins without a marked slot, no message id has two
/// subscription frames.
pub proof fn lemma_one_subscription_per_slot<E>(
    s: ExportState,
    records: Seq<RecordView>,
    i: int,
    j: int,
)
    requires
        s.subscribed == Set::<nat>::empty(),
        0 <= i < j < export_all::<E>(s, records).wire.len(),
        export_all::<E>(s, records).wire[i] is AddSubscription,
        export_all::<E>(s, records).wire[j] is AddSubscription,
    ensures
        export_all::<E>(s, records).wire[i]->AddSubscription_msg_id != export_all::<E>(
            s,
            records,
        ).wire[j]->AddSubscription_msg_id,
{
    lemma_session_well_subscribed::<E>(s, records);
}

/// Whether the item `j` of `wire` is the subscription frame of the message
/// id of the data frame `k`, and the only one on the wire.
pub open spec fn is_the_subscription_of(wire: Seq<WireItem>, j: int, k: int) -> bool {
    &&& announces(wire[j], wire[k]->Data_msg_id)
    &&& forall|other: int|
        0 <= other < wire.len() && announces(#[trigger] wire[other], wire[k]->Data_msg_id)
            ==> other == j
}

/// In a session that begins without a marked slot, exactly one subscription
/// frame comes before a data frame for the message id of that data frame,
/// and the wire holds no other subscription frame for it.
pub proof fn lemma_exactly_one_subscription<E>(s: ExportState, records: Seq<RecordView>, k: int)
    requires
        s.subscribed == Set::<nat>::empty(),
        0 <= k < export_all::<E>(s, records).wire.len(),
        export_all::<E>(s, records).wire[k] is Data,
    ensures
        exists|j: int|
            0 <= j < k && #[trigger] is_the_subscription_of(export_all::<E>(s, records).wire, j, k),
{
    let wire = export_all::<E>(s, records).wire;
    lemma_session_well_subscribed::<E>(s, records);
    let j = choose|j: int|
                    0 <= j < k && announces(#[trigger] wire[j], wire[k]->Data_msg_id);
    assert forall|other: int|
        0 <= other < wire.len() && announces(
            #[trigger] wire[other],
            wire[k]->Data_msg_id,
        ) implies other == j by {
        if other < j {
            assert(wire[other]->AddSubscription_msg_id != wire[j]->AddSubscription_msg_id);
        } else if j < other {
            assert(wire[j]->AddSubscription_msg_id != wire[other]->AddSubscription_msg_id);
        }
    }
    assert(is_the_subscription_of(wire, j, k));
}

/// Two instances of topics share a slot only where they are the same
/// instance of the same topic.
pub proof fn lemma_slot_names_one_instance(
    topic_a: nat,
    instance_a: nat,
    topic_b: nat,
    instance_b: nat,
    max_multi_ids: nat,
)
    requires
        instance_a < max_multi_ids,
        instance_b < max_multi_ids,
        slot_of(topic_a, instance_a, max_multi_ids) == slot_of(topic_b, instance_b, max_multi_ids),
    ensures
        topic_a == topic_b,
        instance_a == instance_b,
{
    if topic_a < topic_b {
        assert((topic_a + 1) * max_multi_ids <= topic_b * max_multi_ids) by (nonlinear_arith)
            requires
                topic_a < topic_b,
        ;
        assert((topic_a + 1) * max_multi_ids == topic_a * max_multi_ids + max_multi_ids)
            by (nonlinear_arith);
    } else if topic_b < topic_a {
        assert((topic_b + 1) * max_multi_ids <= topic_a * max_multi_ids) by (nonlinear_arith)
            requires
                topic_b < topic_a,
        ;
        assert((topic_b + 1) * max_multi_ids == topic_b * max_multi_ids + max_multi_ids)
            by (nonlinear_arith);
    }
}

/// A session changes neither the message set nor the limits.
pub proof fn lemma_session_keeps_limits<E>(s: ExportState, records: Seq<RecordView>)
    ensures
        same_limits(export_all::<E>(s, records).state, s),
        export_all::<E>(s, records).state.started == s.started,
    decreases records.len(),
{
    if records.len() > 0 {
        lemma_session_keeps_limits::<E>(s, records.drop_last());
    }
}

/// Every item that a session puts on the wire is a frame that can be
/// written, and every subscription frame among them names its topic.
pub proof fn lemma_session_writes_frames<E>(s: ExportState, records: Seq<RecordView>, k: int)
    requires
        0 <= k < export_all::<E>(s, records).wire.len(),
    ensures
        !(export_all::<E>(s, records).wire[k] is Header),
        export_all::<E>(s, records).wire[k].fits(),
        names_its_topic(export_all::<E>(s, records).wire[k], s),
    decreases records.len(),
{
    if records.len() > 0 {
        let before = export_all::<E>(s, records.drop_last());
        let last = record_effect::<E>(before.state, records.last());
        if k < before.wire.len() {
            lemma_session_writes_frames::<E>(s, records.drop_last(), k);
        } else {
            let at = k - before.wire.len();
            lemma_session_keeps_limits::<E>(s, records.drop_last());
            lemma_subscription_names_its_topic::<E>(before.state, records.last(), at);
            let item = last.wire[at];
            if item is AddSubscription {
                let topic = choose|topic: int|
                    0 <= topic < before.state.registry.len() && item->AddSubscription_msg_id
                        == slot_of(
                        topic as nat,
                        item->AddSubscription_multi_id as nat,
                        before.state.max_multi_ids,
                    ) && item->AddSubscription_name == (
                    #[trigger] before.state.registry[topic]).name.spec_bytes();
                assert(s.registry[topic] == before.state.registry[topic]);
            }
        }
    }
}

/// Whether `record` is a sample that is dropped for want of a slot: its
/// instance and topic are in range, but its slot is beyond the budget.
pub open spec fn lacks_slot(s: ExportState, record: RecordView) -> bool {
    record.meta matches RecordMeta::Data { topic_index, instance, .. } && instance
        < s.max_multi_ids && topic_index < s.registry.len() && slot_of(
        topic_index as nat,
        instance as nat,
        s.max_multi_ids,
    ) >= s.max_streams
}

/// How many of `records` are dropped for want of a slot.
pub open spec fn count_lacking_slot(s: ExportState, records: Seq<RecordView>) -> nat
    decreases records.len(),
{
    if records.len() == 0 {
        0
    } else {
        count_lacking_slot(s, records.drop_last()) + if lacks_slot(s, records.last()) {
            1nat
        } else {
            0nat
        }
    }
}

/// A session changes neither the message set nor the limits, and its
/// counter of dropped samples has grown by the number of the samples that
/// lacked a slot, as far as a `u32` can count.
pub proof fn lemma_dropped_streams_counts<E>(s: ExportState, records: Seq<RecordView>)
    requires
        s.dropped_streams <= u32::MAX,
    ensures
        same_limits(export_all::<E>(s, records).state, s),
        export_all::<E>(s, records).state.dropped_streams == (if s.dropped_streams
            + count_lacking_slot(s, records) <= u32::MAX {
            s.dropped_streams + count_lacking_slot(s, records)
        } else {
            u32::MAX as nat
        }),
    decreases records.len(),
{
    if records.len() > 0 {
        lemma_dropped_streams_counts::<E>(s, records.drop_last());
    }
}

} // verus!
