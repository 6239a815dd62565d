//! What the pages show of a seat: each step, its detail, and the stage.
use vstd::prelude::*;

use crate::clock::shown;
use crate::config::ConfigModel;
use crate::seat::SeatModel;
use crate::snapshot::{
    chain_of, first_sender, seat_view, sender_of, SnapshotModel, State,
};
use crate::text::{law_trimming_leaves_nothing_of_blanks, trimmed};
use crate::weave::{
    first_output, EndpointAddr, HopState, HopStatus, LinkCondition, NodeStatus, StreamStatus,
};

use super::texts::is_blank;

verus! {

/// A view tells the seat's own id, name and times, the link behind the public URL, and the chain.
pub proof fn law_what_a_view_tells(
    seat: SeatModel,
    snapshot: SnapshotModel,
    cfg: ConfigModel,
    now: i64,
)
    ensures
        ({
            let view = seat_view(seat, snapshot, cfg, now);
            &&& view.seat == seat.seat
            &&& view.display_name == seat.display_name
            &&& view.join_url == cfg.public_url + seq!['/', 'j', '/'] + seat.token
            &&& view.created_at == shown(seat.created_at)
            &&& view.expires_at == shown(seat.expires_at)
            &&& view.chain == chain_of(seat, snapshot, cfg, now)
        }),
{
    reveal_strlit("/j/");
    assert("/j/"@ =~= seq!['/', 'j', '/']);
}

/// The stage is the end that the seat came to, and else the furthest step that is done, counting
/// flowing before landed before routed before joined: whatever else the seat holds.
pub proof fn law_the_stage_is_the_furthest_step(
    seat: SeatModel,
    snapshot: SnapshotModel,
    cfg: ConfigModel,
    now: i64,
)
    ensures
        ({
            let view = seat_view(seat, snapshot, cfg, now);
            let chain = view.chain;
            let ended = seat.revoked || chain[1].state == State::Failed || (seat.joined_at is None
                && now >= seat.expires_at);
            &&& seat.revoked ==> view.stage == "revoked"@
            &&& !seat.revoked && chain[1].state == State::Failed ==> view.stage == "left"@
            &&& ended && !seat.revoked && chain[1].state != State::Failed ==> view.stage
                == "expired"@
            &&& !ended && chain[3].state == State::Done ==> view.stage == "flowing"@
            &&& !ended && chain[3].state != State::Done && chain[4].state == State::Done
                ==> view.stage == "open-live"@
            &&& !ended && chain[3].state != State::Done && chain[4].state != State::Done
                && chain[2].state == State::Done ==> view.stage == "routed"@
            &&& !ended && chain[3].state != State::Done && chain[4].state != State::Done
                && chain[2].state != State::Done && chain[1].state == State::Done ==> view.stage
                == "joined"@
            &&& !ended && chain[3].state != State::Done && chain[4].state != State::Done
                && chain[2].state != State::Done && chain[1].state != State::Done ==> view.stage
                == "invited"@
        }),
{
}

/// Five steps, by name; the first is done, and tells whether the link is revoked, ran out unused,
/// or stands.
pub proof fn law_the_invited_step(
    seat: SeatModel,
    snapshot: SnapshotModel,
    cfg: ConfigModel,
    now: i64,
)
    ensures
        ({
            let chain = chain_of(seat, snapshot, cfg, now);
            &&& chain.len() == 5
            &&& chain[0].step == "invited"@
            &&& chain[0].state == State::Done
            &&& chain[1].step == "joined"@
            &&& chain[2].step == "routed"@
            &&& chain[3].step == "flowing"@
            &&& chain[4].step == "open-live"@
            &&& seat.revoked ==> chain[0].detail == Some("link revoked"@)
            &&& !seat.revoked && seat.joined_at is None && now >= seat.expires_at
                ==> chain[0].detail == Some("link expired unused"@)
            &&& !seat.revoked && (seat.joined_at is Some || now < seat.expires_at)
                ==> chain[0].detail == Some("link created"@)
        }),
{
}

/// The joined step goes by the node that weave knows under the seat's id, and by whether the guest
/// was seen before.
pub proof fn law_the_joined_step(
    seat: SeatModel,
    snapshot: SnapshotModel,
    cfg: ConfigModel,
    now: i64,
)
    ensures
        ({
            let step = chain_of(seat, snapshot, cfg, now)[1];
            let node = snapshot.nodes[seat.seat];
            let heard = snapshot.nodes.contains_key(seat.seat);
            let up = heard && (node.status == NodeStatus::Ready || node.status
                == NodeStatus::Degraded);
            let stopped = heard && node.status == NodeStatus::Offline;
            &&& up ==> step.state == State::Done && step.detail == Some("browser node registered"@)
            &&& stopped ==> step.state == State::Failed && step.detail == Some(
                "browser node stopped heartbeating"@,
            )
            &&& !up && !stopped && seat.joined_at is Some ==> step.state == State::Failed
                && step.detail == Some("browser node is gone"@)
            &&& !up && !stopped && seat.joined_at is None && now >= seat.expires_at ==> step.state
                == State::Pending && step.detail == Some("never opened"@)
            &&& !up && !stopped && seat.joined_at is None && now < seat.expires_at ==> step.state
                == State::Pending && step.detail == Some("waiting for the guest to open the link"@)
        }),
{
}

/// The sender is the first hop of the page's report whose id ends in `-sender`.
pub proof fn law_the_first_sender_counts(hops: Seq<HopStatus>)
    ensures
        first_sender(hops) is None <==> forall|i: int|
            0 <= i < hops.len() ==> !"-sender"@.is_suffix_of((#[trigger] hops[i]).id@),
        first_sender(hops) matches Some(hop) ==> exists|i: int|
            0 <= i < hops.len() && #[trigger] hops[i] == hop && "-sender"@.is_suffix_of(hop.id@)
                && forall|j: int|
                0 <= j < i ==> !"-sender"@.is_suffix_of((#[trigger] hops[j]).id@),
    decreases hops.len(),
{
    if hops.len() > 0 {
        assert(hops[0] == hops.first());
        let rest = hops.drop_first();
        if !"-sender"@.is_suffix_of(hops.first().id@) {
            law_the_first_sender_counts(rest);
            if first_sender(hops) is None {
                assert forall|i: int| 0 <= i < hops.len() implies !"-sender"@.is_suffix_of(
                    (#[trigger] hops[i]).id@,
                ) by {
                    if i > 0 {
                        assert(hops[i] == rest[i - 1]);
                    }
                }
            } else {
                let hop = first_sender(hops)->0;
                let i = choose|i: int|
                    0 <= i < rest.len() && #[trigger] rest[i] == hop && "-sender"@.is_suffix_of(
                        hop.id@,
                    ) && forall|j: int|
                        0 <= j < i ==> !"-sender"@.is_suffix_of((#[trigger] rest[j]).id@);
                assert(hops[i + 1] == hop);
                assert forall|j: int| 0 <= j < i + 1 implies !"-sender"@.is_suffix_of(
                    (#[trigger] hops[j]).id@,
                ) by {
                    if j > 0 {
                        assert(hops[j] == rest[j - 1]);
                    }
                }
            }
        }
    }
}

/// It is sought in what was reported under the seat's id, and nowhere else.
pub proof fn law_reports_go_by_seat(snapshot: SnapshotModel, seat: Seq<char>)
    ensures
        snapshot.reported.contains_key(seat) ==> sender_of(snapshot, seat) == first_sender(
            snapshot.reported[seat]@,
        ),
        !snapshot.reported.contains_key(seat) ==> sender_of(snapshot, seat) is None,
{
}

/// The reason that is shown of a stream is the given one, trimmed, unless nothing is left of it.
pub proof fn law_blank_reasons_are_none(stream: StreamStatus)
    ensures
        stream.reason is None ==> stream.shown_reason() is None,
        stream.reason matches Some(text) ==> (is_blank(text@) ==> stream.shown_reason() is None)
            && (!is_blank(text@) ==> stream.shown_reason() == Some(trimmed(text@))),
{
    if let Some(text) = stream.reason {
        law_trimming_leaves_nothing_of_blanks(text@);
    }
}

/// The output that is dialled is the first that stands and names a node.
pub proof fn law_the_first_output_is_dialled(outputs: Seq<Option<EndpointAddr>>)
    ensures
        first_output(outputs) is None <==> forall|i: int|
            0 <= i < outputs.len() ==> !((#[trigger] outputs[i]) is Some && (
            outputs[i]->0).node@.len() > 0),
        first_output(outputs) is Some ==> exists|i: int|
            0 <= i < outputs.len() && #[trigger] outputs[i] == first_output(outputs) && (
            outputs[i]->0).node@.len() > 0 && forall|j: int|
                0 <= j < i ==> !((#[trigger] outputs[j]) is Some && (outputs[j]->0).node@.len()
                    > 0),
    decreases outputs.len(),
{
    if outputs.len() > 0 {
        assert(outputs[0] == outputs.first());
        let rest = outputs.drop_first();
        if !(outputs[0] is Some && (outputs[0]->0).node@.len() > 0) {
            law_the_first_output_is_dialled(rest);
            assert(first_output(outputs) == first_output(rest));
            if first_output(outputs) is None {
                assert forall|i: int| 0 <= i < outputs.len() implies !((#[trigger] outputs[i])
                    is Some && (outputs[i]->0).node@.len() > 0) by {
                    if i > 0 {
                        assert(outputs[i] == rest[i - 1]);
                    }
                }
            } else {
                let i = choose|i: int|
                    0 <= i < rest.len() && #[trigger] rest[i] == first_output(rest) && (
                    rest[i]->0).node@.len() > 0 && forall|j: int|
                        0 <= j < i ==> !((#[trigger] rest[j]) is Some && (rest[j]->0).node@.len()
                            > 0);
                assert(outputs[i + 1] == first_output(outputs));
                assert forall|j: int| 0 <= j < i + 1 implies !((#[trigger] outputs[j]) is Some && (
                outputs[j]->0).node@.len() > 0) by {
                    if j > 0 {
                        assert(outputs[j] == rest[j - 1]);
                    }
                }
            }
        }
    }
}

/// A stream without endpoints has nothing to dial, and one with endpoints what those hold.
pub proof fn law_endpoints_are_dialled(stream: StreamStatus)
    ensures
        stream.endpoints is None ==> stream.dialled() is None,
        stream.endpoints matches Some(endpoints) ==> stream.dialled() == first_output(
            endpoints.outputs@,
        ),
{
}

/// The routed step goes by the stream that weave knows under the seat's id: nothing without one,
/// active while it is pending, failed where it failed or the page's sender did, and else done.
pub proof fn law_the_routed_step(
    seat: SeatModel,
    snapshot: SnapshotModel,
    cfg: ConfigModel,
    now: i64,
)
    ensures
        ({
            let step = chain_of(seat, snapshot, cfg, now)[2];
            let known = snapshot.streams.contains_key(seat.seat);
            let stream = snapshot.streams[seat.seat];
            let sender = sender_of(snapshot, seat.seat);
            let broken = sender is Some && (sender->0).state == HopState::Failed;
            let placed = known && stream.status@ != "pending"@ && stream.status@ != "failed"@;
            &&& !known ==> step.state == State::Pending && step.detail is None
            &&& known && stream.status@ == "pending"@ ==> step.state == State::Active && step.detail
                == (if stream.shown_reason() is Some {
                stream.shown_reason()
            } else {
                Some("weave is placing the stream"@)
            })
            &&& known && stream.status@ == "failed"@ ==> step.state == State::Failed && step.detail
                == stream.shown_reason()
            &&& placed && broken ==> step.state == State::Failed && step.detail == Some(
                "the browser could not open the WHIP session"@,
            )
            &&& placed && !broken && stream.dialled() is None ==> step.state == State::Done
                && step.detail == Some("WHIP into "@ + cfg.target_node)
            &&& placed && !broken && stream.dialled() is Some ==> step.state == State::Done
                && step.detail == Some(
                "WHIP into "@ + cfg.target_node + ", out as "@ + (stream.dialled()->0).url@,
            )
        }),
{
    reveal_strlit("pending");
    reveal_strlit("failed");
    assert("pending"@.len() != "failed"@.len());
}

/// The flowing step goes by the stream's status and the page's sender: done where weave reads
/// media as flowing, failed where it reads a degraded path and nothing is sent, active where the
/// browser sends, and else pending.
pub proof fn law_the_flowing_step(
    seat: SeatModel,
    snapshot: SnapshotModel,
    cfg: ConfigModel,
    now: i64,
)
    ensures
        ({
            let step = chain_of(seat, snapshot, cfg, now)[3];
            let known = snapshot.streams.contains_key(seat.seat);
            let stream = snapshot.streams[seat.seat];
            let sender = sender_of(snapshot, seat.seat);
            let sending = sender is Some && ((sender->0).egress == LinkCondition::Flowing || (
            sender->0).egress == LinkCondition::Connected);
            let rated = sender is Some && (sender->0).rate is Some;
            let rate = Some(((sender->0).rate->0)@ + " Mb/s from the browser"@);
            let flows = known && stream.status@ == "flowing"@;
            let degraded = known && stream.status@ == "degraded"@;
            let waits = known && stream.status@ == "awaiting_input"@;
            &&& flows ==> step.state == State::Done && step.detail == (if rated {
                rate
            } else {
                Some("media is moving"@)
            })
            &&& degraded && !sending ==> step.state == State::Failed && step.detail
                == stream.shown_reason()
            &&& degraded && sending ==> step.state == State::Active && step.detail == (
            if stream.shown_reason() is Some {
                stream.shown_reason()
            } else if rated {
                rate
            } else {
                None
            })
            &&& waits && sending ==> step.state == State::Active && step.detail == (if rated {
                rate
            } else {
                Some("browser is sending; the gateway has no consumer yet"@)
            })
            &&& waits && !sending ==> step.state == State::Pending && step.detail == Some(
                "waiting for the browser to send"@,
            )
            &&& !flows && !degraded && !waits && sending ==> step.state == State::Active
                && step.detail == (if rated {
                rate
            } else {
                None
            })
            &&& !flows && !degraded && !waits && !sending ==> step.state == State::Pending
                && step.detail is None
        }),
{
    reveal_strlit("flowing");
    reveal_strlit("degraded");
    reveal_strlit("awaiting_input");
    assert("flowing"@.len() == 7);
    assert("degraded"@.len() == 8);
    assert("awaiting_input"@.len() == 14);
}

/// The open-live step goes by whether open-live is watched and a source is known under the seat's
/// id, and tells the source's id and status.
pub proof fn law_the_landed_step(
    seat: SeatModel,
    snapshot: SnapshotModel,
    cfg: ConfigModel,
    now: i64,
)
    ensures
        ({
            let step = chain_of(seat, snapshot, cfg, now)[4];
            let known = snapshot.sources.contains_key(seat.seat);
            let source = snapshot.sources[seat.seat];
            &&& cfg.open_live_url is None ==> step.state == State::Pending && step.detail == Some(
                "open-live is not being watched"@,
            )
            &&& cfg.open_live_url is Some && !known ==> step.state == State::Pending && step.detail
                == Some("open-live has not discovered the stream yet"@)
            &&& cfg.open_live_url is Some && known ==> step.state == State::Done && step.detail
                == Some(
                "source "@ + source.id@ + " is "@ + (if source.status is Some {
                    (source.status->0)@
                } else {
                    "unknown"@
                }),
            )
        }),
{
}

} // verus!
