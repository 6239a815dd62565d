//! What the operator, the guests and weave are answered, and what is asked of weave.
use vstd::prelude::*;

use crate::clock::{EARLIEST, LATEST};
use crate::config::ConfigModel;
use crate::decimal::decimal;
use crate::invite::{accepted, base64_text, hex_text, seat_id_of};
use crate::routes::{
    admitted, bearer_of, guest_part, internal_refusal, invited, issued, issued_now, may_deliver,
    opens_until_expiry, overview, recorded, revoked, terms_of, Answer, ApiError, InviteRequest,
    Refusal,
};
use crate::seat::{goes_before, lemma_list_order_exists, list_keys, listing, SeatModel};
use crate::snapshot::{seat_view, SeatView, SeatViewModel, SnapshotModel};
use crate::text::{precedes, trimmed};
use crate::weave::{
    browser_node, camera_stream, is_success, refusal, status_text, DeviceKind, HopStatus, Method,
    NodeStatus, Reachability, SocketRole, Transport, WeaveModel,
};

use super::links::{law_what_a_link_holds, vouching_bytes};

verus! {

// The operator.

/// The lifetime that a request asks for: its own, and else the configured one.
pub open spec fn asked_lifetime(request: InviteRequest, cfg: ConfigModel) -> i64 {
    match request.ttl_secs {
        Some(ttl) => ttl,
        None => cfg.invite_ttl_secs,
    }
}

/// A request that there is nothing against: a name of one to 64 characters and a lifetime of a
/// minute to a week.
pub open spec fn is_in_order(request: InviteRequest, cfg: ConfigModel) -> bool {
    1 <= trimmed(request.name@).len() <= 64 && 60 <= asked_lifetime(request, cfg) <= 604_800
}

/// The seat of a granted invite: under an id made of the trimmed name and the suffix, created now,
/// expiring after the lifetime that was asked for, with a token that vouches for both, and
/// otherwise fresh.
pub open spec fn is_fresh(
    seat: SeatModel,
    cfg: ConfigModel,
    request: InviteRequest,
    now: i64,
    suffix: Seq<char>,
) -> bool {
    let claim = seat.seat + seq!['.'] + decimal(seat.expires_at as int);
    &&& seat.seat == seat_id_of(trimmed(request.name@), suffix)
    &&& seat.display_name == trimmed(request.name@)
    &&& seat.created_at == now
    &&& request.ttl_secs is Some ==> seat.expires_at == now + request.ttl_secs->0
    &&& request.ttl_secs is None ==> seat.expires_at == now + cfg.invite_ttl_secs
    &&& !seat.revoked
    &&& seat.joined_at is None
    &&& seat.token == claim + seq!['.'] + base64_text(vouching_bytes(cfg.signing_key, claim))
}

/// The terms of a request that is in order are its trimmed name and the lifetime that it asks for;
/// any other request is told 400, and why.
pub proof fn law_what_a_request_asks_for(request: InviteRequest, cfg: ConfigModel)
    ensures
        ({
            let name = trimmed(request.name@);
            let verdict = terms_of(request, cfg);
            &&& verdict is Ok <==> is_in_order(request, cfg)
            &&& verdict is Ok ==> (verdict->Ok_0).0 == name
            &&& verdict is Ok && request.ttl_secs is Some ==> (verdict->Ok_0).1
                == request.ttl_secs->0
            &&& verdict is Ok && request.ttl_secs is None ==> (verdict->Ok_0).1
                == cfg.invite_ttl_secs
            &&& verdict is Err ==> (verdict->Err_0).status == 400
            &&& name.len() == 0 ==> (verdict->Err_0).message == "a guest needs a name"@
            &&& name.len() > 64 ==> (verdict->Err_0).message == "that name is too long"@
            &&& verdict is Err && 1 <= name.len() <= 64 ==> (verdict->Err_0).message
                == "a link lasts between a minute and a week"@
        }),
{
}

/// An invite is granted exactly where the request is in order. It then adds one fresh seat, lasting
/// as long as was asked for, and touches no other; the operator is told 201 and shown the seat, and
/// the loop is woken.
pub proof fn law_what_a_granted_invite_makes(
    cfg: ConfigModel,
    before: Map<Seq<char>, SeatModel>,
    snapshot: SnapshotModel,
    request: InviteRequest,
    now: i64,
    suffix: Seq<char>,
    after: Map<Seq<char>, SeatModel>,
    r: Result<(Answer, SeatView), ApiError>,
)
    requires
        now <= i64::MAX - 604_800,
        invited(cfg, before, snapshot, request, now, suffix, after, r),
    ensures
        r is Ok <==> is_in_order(request, cfg),
        r matches Ok((answer, view)) ==> ({
            let seat = after[view@.seat];
            &&& answer.status == 201
            &&& answer.nudge
            &&& after == before.insert(view@.seat, seat)
            &&& seat.seat == view@.seat
            &&& is_fresh(seat, cfg, request, now, suffix)
            &&& view@ == seat_view(seat, snapshot, cfg, now)
        }),
{
    if let Ok((answer, view)) = r {
        let seat = after[view@.seat];
        law_what_a_link_holds(cfg, cfg.signing_key, seat.seat, seat.expires_at);
        let claim = seat.seat + seq!['.'] + decimal(seat.expires_at as int);
        assert(seat.token =~= claim + seq!['.'] + base64_text(
            vouching_bytes(cfg.signing_key, claim),
        ));
    }
}

/// An invite that is not granted leaves the seats alone. The request is told 400, and of these the
/// first that holds: that it has no name, that the name is too long, or that the lifetime is not
/// between a minute and a week.
pub proof fn law_why_an_invite_is_refused(
    cfg: ConfigModel,
    before: Map<Seq<char>, SeatModel>,
    snapshot: SnapshotModel,
    request: InviteRequest,
    now: i64,
    suffix: Seq<char>,
    after: Map<Seq<char>, SeatModel>,
    r: Result<(Answer, SeatView), ApiError>,
)
    requires
        invited(cfg, before, snapshot, request, now, suffix, after, r),
        r is Err,
    ensures
        ({
            let error = r->Err_0;
            let name = trimmed(request.name@);
            &&& after == before
            &&& error@.status == 400
            &&& name.len() == 0 ==> error@.message == "a guest needs a name"@
            &&& name.len() > 64 ==> error@.message == "that name is too long"@
            &&& 1 <= name.len() <= 64 ==> error@.message
                == "a link lasts between a minute and a week"@
        }),
{
}

/// What an invite that was issued has made: the same, with a link that opens the seat until it
/// expires.
pub proof fn law_what_an_issued_invite_makes(
    cfg: ConfigModel,
    before: Map<Seq<char>, SeatModel>,
    snapshot: SnapshotModel,
    request: InviteRequest,
    now: i64,
    suffix: Seq<char>,
    after: Map<Seq<char>, SeatModel>,
    answer: Answer,
    view: SeatViewModel,
)
    requires
        now <= i64::MAX - 604_800,
        issued(cfg, before, snapshot, request, now, suffix, after, answer, view),
    ensures
        ({
            let seat = after[view.seat];
            &&& is_in_order(request, cfg)
            &&& answer.status == 201
            &&& answer.nudge
            &&& after == before.insert(view.seat, seat)
            &&& seat.seat == view.seat
            &&& is_fresh(seat, cfg, request, now, suffix)
            &&& view == seat_view(seat, snapshot, cfg, now)
            &&& forall|at: i64|
                at < seat.expires_at ==> #[trigger] admitted(
                    cfg.signing_key,
                    after,
                    seat.token,
                    at,
                ) == Ok::<SeatModel, Refusal>(seat)
            &&& forall|at: i64|
                at >= seat.expires_at ==> (#[trigger] admitted(
                    cfg.signing_key,
                    after,
                    seat.token,
                    at,
                )) is Err
        }),
{
    let seat = after[view.seat];
    law_what_a_link_holds(cfg, cfg.signing_key, seat.seat, seat.expires_at);
    let claim = seat.seat + seq!['.'] + decimal(seat.expires_at as int);
    assert(seat.token =~= claim + seq!['.'] + base64_text(vouching_bytes(cfg.signing_key, claim)));
}

/// An invite that was issued now was issued at some instant that has a date, with the hexadecimal
/// of some two bytes for its suffix.
pub proof fn law_what_an_invite_issued_now_makes(
    cfg: ConfigModel,
    before: Map<Seq<char>, SeatModel>,
    snapshot: SnapshotModel,
    request: InviteRequest,
    after: Map<Seq<char>, SeatModel>,
    answer: Answer,
    view: SeatViewModel,
)
    requires
        issued_now(cfg, before, snapshot, request, after, answer, view),
    ensures
        ({
            let seat = after[view.seat];
            &&& is_in_order(request, cfg)
            &&& answer.status == 201
            &&& answer.nudge
            &&& after == before.insert(view.seat, seat)
            &&& -377_705_116_800 <= seat.created_at <= 253_402_300_799
            &&& exists|bytes: Seq<u8>|
                bytes.len() == 2 && #[trigger] is_fresh(
                    seat,
                    cfg,
                    request,
                    seat.created_at,
                    hex_text(bytes),
                )
            &&& view == seat_view(seat, snapshot, cfg, seat.created_at)
            &&& forall|at: i64|
                at < seat.expires_at ==> #[trigger] admitted(
                    cfg.signing_key,
                    after,
                    seat.token,
                    at,
                ) == Ok::<SeatModel, Refusal>(seat)
        }),
{
    let (now, bytes) = choose|now: i64, bytes: Seq<u8>|
        EARLIEST <= now <= LATEST && bytes.len() == 2 && #[trigger] issued(
            cfg,
            before,
            snapshot,
            request,
            now,
            hex_text(bytes),
            after,
            answer,
            view,
        );
    law_what_an_issued_invite_makes(
        cfg,
        before,
        snapshot,
        request,
        now,
        hex_text(bytes),
        after,
        answer,
        view,
    );
    assert(is_fresh(after[view.seat], cfg, request, after[view.seat].created_at, hex_text(bytes)));
}

/// Revoking marks the seat and changes nothing else of it.
pub proof fn law_revoking_marks_the_seat_alone(seat: SeatModel)
    ensures
        revoked(seat).revoked,
        revoked(seat).seat == seat.seat,
        revoked(seat).display_name == seat.display_name,
        revoked(seat).token == seat.token,
        revoked(seat).created_at == seat.created_at,
        revoked(seat).expires_at == seat.expires_at,
        revoked(seat).joined_at == seat.joined_at,
{
}

/// The operator is shown each seat of the store once, as its view tells it: newest first, and
/// seats of one age by their keys.
pub proof fn law_the_operator_sees_every_seat(
    store: Map<Seq<char>, SeatModel>,
    snapshot: SnapshotModel,
    cfg: ConfigModel,
    now: i64,
)
    requires
        store.dom().finite(),
    ensures
        ({
            let keys = list_keys(store);
            let shown = overview(store, snapshot, cfg, now);
            &&& shown.len() == keys.len()
            &&& listing(store).len() == keys.len()
            &&& keys.no_duplicates()
            &&& forall|key: Seq<char>| #[trigger] store.contains_key(key) <==> keys.contains(key)
            &&& forall|i: int|
                0 <= i < keys.len() ==> #[trigger] shown[i] == seat_view(
                    store[keys[i]],
                    snapshot,
                    cfg,
                    now,
                )
            &&& forall|i: int|
                0 <= i < keys.len() ==> #[trigger] listing(store)[i] == store[keys[i]]
            &&& forall|i: int, j: int|
                0 <= i < j < keys.len() ==> store[#[trigger] keys[i]].created_at
                    >= store[#[trigger] keys[j]].created_at
            &&& forall|i: int, j: int|
                0 <= i < j < keys.len() && store[keys[i]].created_at == store[keys[j]].created_at
                    ==> precedes(#[trigger] keys[i], #[trigger] keys[j])
        }),
{
    lemma_list_order_exists(store);
    let keys = list_keys(store);
    assert forall|i: int, j: int|
        0 <= i < j < keys.len() implies store[#[trigger] keys[i]].created_at >= store[#[trigger] keys[j]].created_at && (store[keys[i]].created_at
        == store[keys[j]].created_at ==> precedes(keys[i], keys[j])) by {
        assert(goes_before(store, keys[i], keys[j]));
    }
}

// The guests.

/// A token that verifies to a seat of the store is admitted to it, as it stands, exactly while the
/// seat is neither revoked nor expired, whatever else the seat holds, and whether or not its guest
/// has joined. Otherwise it is told which of the two, the revoking first.
pub proof fn law_who_is_admitted(
    key: Seq<u8>,
    store: Map<Seq<char>, SeatModel>,
    token: Seq<char>,
    now: i64,
)
    requires
        accepted(key, token) is Ok,
        store.contains_key((accepted(key, token)->Ok_0).seat),
    ensures
        ({
            let seat = store[(accepted(key, token)->Ok_0).seat];
            let verdict = admitted(key, store, token, now);
            &&& verdict is Ok <==> !seat.revoked && now < seat.expires_at
            &&& verdict is Ok ==> verdict->Ok_0 == seat
            &&& seat.revoked ==> verdict is Err && (verdict->Err_0).status == 410 && (
            verdict->Err_0).message == "invite revoked"@
            &&& !seat.revoked && now >= seat.expires_at ==> verdict is Err && (
            verdict->Err_0).status == 410 && (verdict->Err_0).message == "invite expired"@
        }),
{
}

/// A token that does not verify, or verifies to a seat that is not there, is not admitted.
pub proof fn law_who_is_not_admitted(
    key: Seq<u8>,
    store: Map<Seq<char>, SeatModel>,
    token: Seq<char>,
    now: i64,
)
    requires
        accepted(key, token) is Ok ==> !store.contains_key((accepted(key, token)->Ok_0).seat),
    ensures
        ({
            let verdict = admitted(key, store, token, now);
            &&& verdict is Err
            &&& accepted(key, token) is Err ==> (verdict->Err_0).status == 404 && (
            verdict->Err_0).message == "unknown invite"@
            &&& accepted(key, token) is Ok ==> (verdict->Err_0).status == 410 && (
            verdict->Err_0).message == "invite revoked"@
        }),
{
}

/// That a guest has joined changes nothing of who is admitted.
pub proof fn law_joining_closes_no_link(
    key: Seq<u8>,
    store: Map<Seq<char>, SeatModel>,
    token: Seq<char>,
    now: i64,
    name: Seq<char>,
    at: i64,
)
    requires
        store.contains_key(name),
    ensures
        ({
            let joined = crate::reconcile::with_joined(store, name, at);
            &&& admitted(key, joined, token, now) is Ok <==> admitted(key, store, token, now) is Ok
            &&& admitted(key, store, token, now) is Err ==> admitted(key, joined, token, now)
                == admitted(key, store, token, now)
        }),
{
}

/// A seat opens by its token until it expires, and not after.
pub proof fn law_what_opens_until_expiry(
    key: Seq<u8>,
    store: Map<Seq<char>, SeatModel>,
    seat: SeatModel,
    at: i64,
)
    requires
        opens_until_expiry(key, store, seat),
    ensures
        at < seat.expires_at ==> admitted(key, store, seat.token, at) == Ok::<SeatModel, Refusal>(
            seat,
        ),
        at >= seat.expires_at ==> admitted(key, store, seat.token, at) is Err && (admitted(
            key,
            store,
            seat.token,
            at,
        )->Err_0).status == 410,
{
}

/// A guest is told of the view all but the link and when the seat was made.
pub proof fn law_what_a_guest_is_told(view: SeatViewModel)
    ensures
        guest_part(view).seat == view.seat,
        guest_part(view).display_name == view.display_name,
        guest_part(view).expires_at == view.expires_at,
        guest_part(view).stage == view.stage,
        guest_part(view).chain == view.chain,
{
}

/// A page's report takes the place of its last one, and changes nothing else.
pub proof fn law_reports_replace_reports(
    before: SnapshotModel,
    seat: Seq<char>,
    hop_status: Vec<HopStatus>,
    other: Seq<char>,
)
    ensures
        ({
            let after = recorded(before, seat, hop_status);
            &&& after.reported.contains_key(seat) && after.reported[seat] == hop_status
            &&& other != seat ==> (after.reported.contains_key(other)
                <==> before.reported.contains_key(other)) && (before.reported.contains_key(other)
                ==> after.reported[other] == before.reported[other])
            &&& after.reconciled_at == before.reconciled_at
            &&& after.nodes == before.nodes
            &&& after.streams == before.streams
            &&& after.sources == before.sources
            &&& after.errors == before.errors
        }),
{
}

/// What a failure of the gateway is told as.
pub proof fn law_failures_tell_no_cause()
    ensures
        internal_refusal().status == 500,
        internal_refusal().message == "the gateway failed"@,
{
}

// The webhook.

/// A delivery comes in where no token is set, and else exactly with the token behind `Bearer` and
/// a space. A set token is not empty.
pub proof fn law_which_deliveries_come_in(cfg: ConfigModel, authorization: Option<Seq<char>>)
    requires
        cfg.webhook_token matches Some(token) ==> token.len() > 0,
    ensures
        cfg.webhook_token is None ==> may_deliver(cfg, authorization),
        cfg.webhook_token matches Some(token) ==> (may_deliver(cfg, authorization)
            <==> authorization == Some(seq!['B', 'e', 'a', 'r', 'e', 'r', ' '] + token)),
{
    reveal_strlit("Bearer ");
    assert("Bearer "@ =~= seq!['B', 'e', 'a', 'r', 'e', 'r', ' ']);
    if let Some(token) = cfg.webhook_token {
        let whole = "Bearer "@ + token;
        assert(whole.skip(7) =~= token);
        assert("Bearer "@ =~= whole.subrange(0, 7));
        if may_deliver(cfg, authorization) {
            let value = authorization->0;
            assert(bearer_of(authorization).len() > 0);
            assert(value =~= "Bearer "@ + value.skip(7));
        }
    }
}

// weave.

/// Northbound requests go to the northbound URL under the operator's token, southbound requests to
/// the southbound URL under the nodes', and both to the first version of the API.
pub proof fn law_where_requests_go(weave: WeaveModel, method: Method, path: Seq<char>)
    ensures
        weave.northbound_call(method, path).method == method,
        weave.northbound_call(method, path).url == weave.northbound + seq!['/', 'v', '1'] + path,
        weave.northbound_call(method, path).bearer == weave.northbound_token,
        weave.southbound_call(method, path).method == method,
        weave.southbound_call(method, path).url == weave.southbound + seq!['/', 'v', '1'] + path,
        weave.southbound_call(method, path).bearer == weave.southbound_token,
{
    reveal_strlit("/v1");
    assert("/v1"@ =~= seq!['/', 'v', '1']);
}

/// A page registers under its seat's id, ready, with a camera that it sends over WHIP, connecting
/// outwards, and nothing else.
pub proof fn law_what_a_page_registers_as(seat: Seq<char>)
    ensures
        browser_node(seat).id == seat,
        browser_node(seat).endpoint == "browser://"@ + seat,
        browser_node(seat).status == NodeStatus::Ready,
        browser_node(seat).transports.len() == 1,
        browser_node(seat).transports[0] == (Transport::Whip, SocketRole::Connect),
        browser_node(seat).devices.len() == 1,
        browser_node(seat).devices[0] == DeviceKind::Capture,
        browser_node(seat).host == "browser"@,
        browser_node(seat).reachability == Reachability::OutboundOnly,
{
}

/// A camera's stream is named after the seat, is enabled, comes from the seat, and goes by SRT to
/// the node, network and latency that are given.
pub proof fn law_where_a_camera_goes(
    seat: Seq<char>,
    target_node: Seq<char>,
    network: Option<Seq<char>>,
    latency_ms: u32,
)
    ensures
        ({
            let stream = camera_stream(seat, target_node, network, latency_ms);
            &&& stream.name == seat
            &&& stream.enabled
            &&& stream.source is Device
            &&& stream.source->Device_node == seat
            &&& stream.source->Device_network is None
            &&& stream.destinations.len() == 1
            &&& stream.destinations[0] is Srt
            &&& stream.destinations[0]->Srt_node == target_node
            &&& stream.destinations[0]->Srt_network == network
            &&& stream.destinations[0]->latency == latency_ms
        }),
{
}

/// A status is a success where it is in the two hundreds.
pub proof fn law_successes_are_in_the_two_hundreds(status: u16)
    ensures
        is_success(status) <==> status / 100 == 2,
{
}

/// A refusal of weave's is told with what was refused, its name, the status and the trimmed body.
pub proof fn law_what_a_refusal_tells(
    what: Seq<char>,
    name: Seq<char>,
    status: u16,
    body: Seq<char>,
)
    ensures
        refusal(what, name, status, body) == what + name + seq![':', ' '] + status_text(status)
            + seq![' '] + trimmed(body),
{
    reveal_strlit(": ");
    reveal_strlit(" ");
    assert(": "@ =~= seq![':', ' ']);
    assert(" "@ =~= seq![' ']);
}

} // verus!
