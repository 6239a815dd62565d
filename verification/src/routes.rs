//! The operator's requests, the guest's session and weave's webhook: what each is answered.
use vstd::prelude::*;
use vstd::string::StrSliceExecFns;

use crate::clock::{now, EARLIEST, LATEST};
use crate::config::{Config, ConfigModel};
use crate::invite::{
    accepted, claim_of, constant_time_eq, hex_text, in_seat_alphabet,
    law_hex_keeps_to_the_alphabet, law_seat_ids_keep_to_the_alphabet, random_suffix, sealed,
    seat_id, seat_id_of, NoRandomness,
};
use crate::seat::{
    by_own_id, law_list_holds_every_seat, list_keys, listing, models, Seat, SeatModel, SeatStore,
};
use crate::snapshot::{
    found, seat_view, steps, SeatView, SeatViewModel, Snapshot, SnapshotModel, Step, StepModel,
};
use crate::text::{lemma_bytes_determine_text, strip_start, text_of, trim, trimmed};
use crate::weave::{
    browser_node, copied, is_success, str_of, succeeded, Call, HopStatus, Method, NodeHeartbeat, NodeRegistration,
    NodeStatus, Weave,
};

verus! {

pub const CREATED: u16 = 201;

pub const ACCEPTED: u16 = 202;

pub const NO_CONTENT: u16 = 204;

pub const BAD_REQUEST: u16 = 400;

pub const UNAUTHORIZED: u16 = 401;

pub const NOT_FOUND: u16 = 404;

pub const GONE: u16 = 410;

pub const INTERNAL_SERVER_ERROR: u16 = 500;

pub const BAD_GATEWAY: u16 = 502;

/// A guest's name has at most this many characters.
pub const NAME_CHARS: usize = 64;

/// A link lasts at least a minute.
pub const SHORTEST_TTL: i64 = 60;

/// A link lasts at most a week.
pub const LONGEST_TTL: i64 = 604_800;

/// A request that is refused, and what it is told.
#[derive(Debug)]
pub struct ApiError {
    pub status: u16,
    pub message: String,
}

/// A refusal as mathematics.
pub struct Refusal {
    pub status: u16,
    pub message: Seq<char>,
}

impl View for ApiError {
    type V = Refusal;

    open spec fn view(&self) -> Refusal {
        Refusal { status: self.status, message: self.message@ }
    }
}

impl ApiError {
    pub fn new(status: u16, message: &str) -> (r: Self)
        ensures
            r@ == (Refusal { status, message: message@ }),
    {
        ApiError { status, message: message.to_owned() }
    }

    /// The answer where the gateway itself failed; the cause is not for the caller.
    pub fn internal() -> (r: Self)
        ensures
            r@ == internal_refusal(),
    {
        ApiError::new(INTERNAL_SERVER_ERROR, "the gateway failed")
    }

    /// The answer where weave failed, with the cause.
    pub fn bad_gateway(cause: &str) -> (r: Self)
        ensures
            r@ == (Refusal { status: BAD_GATEWAY, message: cause@ }),
    {
        ApiError::new(BAD_GATEWAY, cause)
    }

    /// The answer to a request for a page that there is none of.
    pub fn no_such_page() -> (r: Self)
        ensures
            r@ == (Refusal { status: NOT_FOUND, message: "no such page"@ }),
    {
        ApiError::new(NOT_FOUND, "no such page")
    }
}

/// A request that is granted.
#[derive(Debug, Clone, Copy, PartialEq, Eq, Structural)]
pub struct Answer {
    pub status: u16,
    /// Whether the reconcile loop is to run now: something happened that desired state should
    /// follow.
    pub nudge: bool,
}

/// The answer to a request that changed the seats, once it was tried to save them. Where that
/// failed the gateway has failed, and the loop is not woken.
pub fn kept(answer: Answer, saved: bool) -> (r: Result<Answer, ApiError>)
    ensures
        match r {
            Ok(told) => saved && told == answer,
            Err(error) => !saved && error@ == internal_refusal(),
        },
{
    if saved {
        Ok(answer)
    } else {
        Err(ApiError::internal())
    }
}

pub open spec fn internal_refusal() -> Refusal {
    Refusal { status: INTERNAL_SERVER_ERROR, message: "the gateway failed"@ }
}

// The operator.

/// What the operator page is told.
#[derive(Debug)]
pub struct SeatsResponse {
    pub target_node: String,
    pub target_network: Option<String>,
    pub open_live: Option<String>,
    pub reconciled_at: String,
    pub errors: Vec<String>,
    pub seats: Vec<SeatView>,
}

/// The views of a list as mathematics.
pub open spec fn views(seats: Seq<SeatView>) -> Seq<SeatViewModel> {
    seats.map_values(|view: SeatView| view@)
}

fn copies(texts: &Vec<String>) -> (r: Vec<String>)
    ensures
        r@ == texts@,
{
    let mut out: Vec<String> = Vec::new();
    for i in 0..texts.len()
        invariant
            out@ == texts@.take(i as int),
    {
        out.push(texts[i].clone());
        assert(out@ =~= texts@.take(i + 1));
    }
    out
}

/// What the operator page shows of the seats, newest first.
pub open spec fn overview(
    store: Map<Seq<char>, SeatModel>,
    snapshot: SnapshotModel,
    cfg: ConfigModel,
    now: i64,
) -> Seq<SeatViewModel> {
    listing(store).map_values(|seat: SeatModel| seat_view(seat, snapshot, cfg, now))
}

/// Answers the operator page.
pub fn seats(cfg: &Config, store: &SeatStore, snapshot: &Snapshot, now: i64) -> (r: SeatsResponse)
    ensures
        r.target_node@ == cfg@.target_node,
        text_of(r.target_network) == cfg@.target_network,
        text_of(r.open_live) == cfg@.open_live_url,
        r.reconciled_at@ == snapshot@.reconciled_at,
        r.errors@ == snapshot@.errors,
        views(r.seats@) == overview(store@, snapshot@, cfg@, now),
{
    let list = store.list();
    let ghost wanted = overview(store@, snapshot@, cfg@, now);
    let mut seats: Vec<SeatView> = Vec::new();
    for i in 0..list.len()
        invariant
            models(list@) == listing(store@),
            wanted == overview(store@, snapshot@, cfg@, now),
            views(seats@) == wanted.take(i as int),
    {
        let ghost before = seats@;
        assert(models(list@)[i as int] == list@[i as int]@);
        seats.push(SeatView::build(&list[i], snapshot, cfg, now));
        assert(views(seats@) =~= views(before).push(seats@.last()@));
        assert(views(seats@) =~= wanted.take(i + 1));
    }
    assert(models(list@).len() == list@.len());
    assert(wanted.take(list@.len() as int) =~= wanted);
    SeatsResponse {
        target_node: cfg.target_node.clone(),
        target_network: copied(&cfg.target_network),
        open_live: copied(&cfg.open_live_url),
        reconciled_at: snapshot.reconciled_at.clone(),
        errors: copies(&snapshot.errors),
        seats,
    }
}

#[derive(Debug)]
pub struct InviteRequest {
    pub name: String,
    pub ttl_secs: Option<i64>,
}

/// The name and the lifetime that an invite is asked for, or why it is refused.
pub open spec fn terms(name: Seq<char>, ttl_secs: Option<i64>, default_ttl: i64) -> Result<
    (Seq<char>, i64),
    Refusal,
> {
    let display_name = trimmed(name);
    let ttl = match ttl_secs {
        Some(ttl) => ttl,
        None => default_ttl,
    };
    if display_name.len() == 0 {
        Err(Refusal { status: BAD_REQUEST, message: "a guest needs a name"@ })
    } else if display_name.len() > NAME_CHARS {
        Err(Refusal { status: BAD_REQUEST, message: "that name is too long"@ })
    } else if !(SHORTEST_TTL <= ttl <= LONGEST_TTL) {
        Err(Refusal { status: BAD_REQUEST, message: "a link lasts between a minute and a week"@ })
    } else {
        Ok((display_name, ttl))
    }
}

/// The seat of a fresh invite.
pub open spec fn fresh_seat(
    key: Seq<u8>,
    display_name: Seq<char>,
    ttl: i64,
    now: i64,
    suffix: Seq<char>,
) -> SeatModel {
    let seat = seat_id_of(display_name, suffix);
    let expires_at = (now + ttl) as i64;
    SeatModel {
        seat,
        display_name,
        token: sealed(key, claim_of(seat, expires_at)),
        created_at: now,
        expires_at,
        revoked: false,
        joined_at: None,
    }
}

/// The terms of a request.
pub open spec fn terms_of(request: InviteRequest, cfg: ConfigModel) -> Result<
    (Seq<char>, i64),
    Refusal,
> {
    terms(request.name@, request.ttl_secs, cfg.invite_ttl_secs)
}

/// What comes of an invite that is asked for at a time, with a suffix: a refusal that leaves the
/// seats as they were, or a fresh seat among them.
pub open spec fn invited(
    cfg: ConfigModel,
    before: Map<Seq<char>, SeatModel>,
    snapshot: SnapshotModel,
    request: InviteRequest,
    now: i64,
    suffix: Seq<char>,
    after: Map<Seq<char>, SeatModel>,
    r: Result<(Answer, SeatView), ApiError>,
) -> bool {
    match terms_of(request, cfg) {
        Err(refusal) => after == before && (r matches Err(error) && error@ == refusal),
        Ok((display_name, ttl)) => {
            let seat = fresh_seat(cfg.signing_key, display_name, ttl, now, suffix);
            &&& after == before.insert(seat.seat, seat)
            &&& r matches Ok((answer, view))
            &&& answer == (Answer { status: CREATED, nudge: true })
            &&& view@ == seat_view(seat, snapshot, cfg, now)
        },
    }
}

/// A seat's token opens it until it expires, and is then refused as expired.
pub open spec fn opens_until_expiry(
    key: Seq<u8>,
    store: Map<Seq<char>, SeatModel>,
    seat: SeatModel,
) -> bool {
    forall|at: i64| #[trigger]
        admitted(key, store, seat.token, at) == (if at < seat.expires_at {
            Ok::<SeatModel, Refusal>(seat)
        } else {
            Err(Refusal { status: GONE, message: "invite expired"@ })
        })
}

/// A text in the alphabet of seat ids.
pub open spec fn is_plain(text: Seq<char>) -> bool {
    forall|k: int| 0 <= k < text.len() ==> in_seat_alphabet(#[trigger] text[k])
}

/// Judges what an invite is asked for.
fn agreed<'a>(cfg: &Config, request: &'a InviteRequest) -> (r: Result<(&'a str, i64), ApiError>)
    ensures
        match r {
            Ok((display_name, ttl)) => terms_of(*request, cfg@) == Ok::<(Seq<char>, i64), Refusal>(
                (display_name@, ttl),
            ),
            Err(error) => terms_of(*request, cfg@) == Err::<(Seq<char>, i64), Refusal>(error@),
        },
{
    let display_name = trim(request.name.as_str());
    if display_name.is_empty() {
        return Err(ApiError::new(BAD_REQUEST, "a guest needs a name"));
    }
    if display_name.unicode_len() > NAME_CHARS {
        return Err(ApiError::new(BAD_REQUEST, "that name is too long"));
    }
    let ttl: i64 = match request.ttl_secs {
        Some(ttl) => ttl,
        None => cfg.invite_ttl_secs,
    };
    if ttl < SHORTEST_TTL || ttl > LONGEST_TTL {
        return Err(ApiError::new(BAD_REQUEST, "a link lasts between a minute and a week"));
    }
    Ok((display_name, ttl))
}

/// Creates an invite at a time, with a suffix. With a plain suffix the fresh seat's token opens
/// the seat until it expires.
pub fn create_invite_at(
    cfg: &Config,
    store: &mut SeatStore,
    snapshot: &Snapshot,
    request: &InviteRequest,
    now: i64,
    suffix: &str,
) -> (r: Result<(Answer, SeatView), ApiError>)
    requires
        now <= i64::MAX - LONGEST_TTL,
    ensures
        invited(
            cfg@,
            old(store)@,
            snapshot@,
            *request,
            now,
            suffix@,
            final(store)@,
            r,
        ),
        terms_of(*request, cfg@) matches Ok((display_name, ttl)) ==> is_plain(suffix@)
            ==> opens_until_expiry(
            cfg@.signing_key,
            final(store)@,
            fresh_seat(cfg@.signing_key, display_name, ttl, now, suffix@),
        ),
{
    let (display_name, ttl) = match agreed(cfg, request) {
        Ok(terms) => terms,
        Err(error) => return Err(error),
    };
    let id = seat_id(display_name, suffix);
    let expires_at: i64 = now + ttl;
    let token = cfg.signing_key.mint(id.as_str(), expires_at);
    proof {
        if is_plain(suffix@) {
            law_seat_ids_keep_to_the_alphabet(display_name@, suffix@);
        }
    }
    let seat = Seat {
        token,
        seat: id,
        display_name: display_name.to_owned(),
        created_at: now,
        expires_at,
        revoked: false,
        joined_at: None,
    };
    let view = SeatView::build(&seat, snapshot, cfg, now);
    store.insert(seat);
    Ok((Answer { status: CREATED, nudge: true }, view))
}

/// An invite that was made at a time, with a suffix, and whose link opens its seat until it
/// expires.
pub open spec fn issued(
    cfg: ConfigModel,
    before: Map<Seq<char>, SeatModel>,
    snapshot: SnapshotModel,
    request: InviteRequest,
    now: i64,
    suffix: Seq<char>,
    after: Map<Seq<char>, SeatModel>,
    answer: Answer,
    view: SeatViewModel,
) -> bool {
    terms_of(request, cfg) matches Ok((display_name, ttl)) && {
        let seat = fresh_seat(cfg.signing_key, display_name, ttl, now, suffix);
        &&& after == before.insert(seat.seat, seat)
        &&& answer == (Answer { status: CREATED, nudge: true })
        &&& view == seat_view(seat, snapshot, cfg, now)
        &&& opens_until_expiry(cfg.signing_key, after, seat)
    }
}

/// An invite that was made at whatever time the clock read, with whatever two bytes were drawn.
pub open spec fn issued_now(
    cfg: ConfigModel,
    before: Map<Seq<char>, SeatModel>,
    snapshot: SnapshotModel,
    request: InviteRequest,
    after: Map<Seq<char>, SeatModel>,
    answer: Answer,
    view: SeatViewModel,
) -> bool {
    exists|now: i64, bytes: Seq<u8>|
        EARLIEST <= now <= LATEST && bytes.len() == 2 && #[trigger] issued(
            cfg,
            before,
            snapshot,
            request,
            now,
            hex_text(bytes),
            after,
            answer,
            view,
        )
}

/// Why there is no invite.
#[derive(Debug)]
pub enum InviteFailure {
    Refused(ApiError),
    NoRandomness(NoRandomness),
}

impl InviteFailure {
    /// What the operator is told: a refusal as it stands, and of the system's failure only that
    /// there was one.
    pub fn answer(self) -> (r: ApiError)
        ensures
            r@ == (match self {
                InviteFailure::Refused(error) => error@,
                InviteFailure::NoRandomness(_) => internal_refusal(),
            }),
    {
        match self {
            InviteFailure::Refused(error) => error,
            InviteFailure::NoRandomness(_) => ApiError::internal(),
        }
    }
}

/// Creates an invite now, with a random suffix. The store is to be saved afterwards, and the loop
/// woken for the new invite.
pub fn create_invite(
    cfg: &Config,
    store: &mut SeatStore,
    snapshot: &Snapshot,
    request: &InviteRequest,
) -> (r: Result<(Answer, SeatView), InviteFailure>)
    ensures
        terms_of(*request, cfg@) matches Err(refusal) ==> final(store)@ == old(store)@ && (
        r matches Err(InviteFailure::Refused(error)) && error@ == refusal),
        terms_of(*request, cfg@) is Ok ==> match r {
            Ok((answer, view)) => issued_now(
                cfg@,
                old(store)@,
                snapshot@,
                *request,
                final(store)@,
                answer,
                view@,
            ),
            Err(InviteFailure::NoRandomness(_)) => final(store)@ == old(store)@,
            Err(InviteFailure::Refused(_)) => false,
        },
{
    if let Err(error) = agreed(cfg, request) {
        return Err(InviteFailure::Refused(error));
    }
    let at = now();
    match random_suffix() {
        Ok(suffix) => {
            let ghost bytes = choose|bytes: Seq<u8>|
                bytes.len() == 2 && suffix@ == hex_text(bytes);
            proof {
                law_hex_keeps_to_the_alphabet(bytes);
            }
            match create_invite_at(cfg, store, snapshot, request, at, suffix.as_str()) {
                Ok((answer, view)) => {
                    assert(issued(
                        cfg@,
                        old(store)@,
                        snapshot@,
                        *request,
                        at,
                        hex_text(bytes),
                        store@,
                        answer,
                        view@,
                    ));
                    Ok((answer, view))
                },
                Err(error) => Err(InviteFailure::Refused(error)),
            }
        },
        Err(error) => Err(InviteFailure::NoRandomness(error)),
    }
}

/// What comes of revoking a seat that there is.
#[derive(Debug)]
pub struct Revoked {
    pub answer: Answer,
    /// Whether the store is to be saved.
    pub changed: bool,
}

/// A seat that is revoked.
pub open spec fn revoked(seat: SeatModel) -> SeatModel {
    SeatModel { revoked: true, ..seat }
}

/// Revoking marks the seat rather than deleting it, so the reconcile loop is
/// still the one thing that withdraws the stream and the seat only disappears
/// once weave has confirmed it is gone. The loop is woken for a seat that there
/// is, revoked before or not.
pub fn revoke(store: &mut SeatStore, seat: &str) -> (r: Result<Revoked, ApiError>)
    ensures
        match r {
            Ok(outcome) => {
                &&& old(store)@.contains_key(seat@)
                &&& final(store)@ == old(store)@.insert(seat@, revoked(old(store)@[seat@]))
                &&& outcome.answer == (Answer { status: NO_CONTENT, nudge: true })
                &&& outcome.changed == !old(store)@[seat@].revoked
            },
            Err(error) => {
                &&& !old(store)@.contains_key(seat@)
                &&& final(store)@ == old(store)@
                &&& error@ == (Refusal { status: NOT_FOUND, message: "no such seat"@ })
            },
        },
{
    let edit = |found: &mut Seat| -> (r: bool)
        ensures
            final(found)@ == revoked(old(found)@) && r == !old(found)@.revoked,
        {
            let changed = !found.revoked;
            found.revoked = true;
            changed
        };
    let changed = store.update(seat, edit);
    if !changed && store.get(seat).is_none() {
        return Err(ApiError::new(NOT_FOUND, "no such seat"));
    }
    Ok(Revoked { answer: Answer { status: NO_CONTENT, nudge: true }, changed })
}

// The guest's session.

/// The seat that a token opens. A signed token proves which seat the holder was given; the store
/// decides whether that seat is still usable.
pub open spec fn admitted(
    key: Seq<u8>,
    store: Map<Seq<char>, SeatModel>,
    token: Seq<char>,
    now: i64,
) -> Result<SeatModel, Refusal> {
    match accepted(key, token) {
        Err(_) => Err(Refusal { status: NOT_FOUND, message: "unknown invite"@ }),
        Ok(invite) => match found(store, invite.seat) {
            None => Err(Refusal { status: GONE, message: "invite revoked"@ }),
            Some(seat) => if seat.revoked {
                Err(Refusal { status: GONE, message: "invite revoked"@ })
            } else if seat.expired(now) {
                Err(Refusal { status: GONE, message: "invite expired"@ })
            } else {
                Ok(seat)
            },
        },
    }
}

/// Finds the seat that a token opens.
pub fn seat_for(cfg: &Config, store: &SeatStore, token: &str, now: i64) -> (r: Result<
    Seat,
    ApiError,
>)
    ensures
        match r {
            Ok(seat) => admitted(cfg@.signing_key, store@, token@, now) == Ok::<SeatModel, Refusal>(
                seat@,
            ),
            Err(error) => admitted(cfg@.signing_key, store@, token@, now) == Err::<
                SeatModel,
                Refusal,
            >(error@),
        },
{
    let Ok(invite) = cfg.signing_key.verify(token) else {
        return Err(ApiError::new(NOT_FOUND, "unknown invite"));
    };
    let Some(seat) = store.get(invite.seat.as_str()) else {
        return Err(ApiError::new(GONE, "invite revoked"));
    };
    if seat.revoked {
        return Err(ApiError::new(GONE, "invite revoked"));
    }
    if seat.expired(now) {
        return Err(ApiError::new(GONE, "invite expired"));
    }
    Ok(seat.clone())
}

/// What a guest's page is told.
#[derive(Debug)]
pub struct SessionResponse {
    pub seat: String,
    pub display_name: String,
    pub expires_at: String,
    pub stage: &'static str,
    pub chain: Vec<Step>,
}

/// What a guest's page is told, as mathematics.
pub struct SessionModel {
    pub seat: Seq<char>,
    pub display_name: Seq<char>,
    pub expires_at: Seq<char>,
    pub stage: Seq<char>,
    pub chain: Seq<StepModel>,
}

impl View for SessionResponse {
    type V = SessionModel;

    open spec fn view(&self) -> SessionModel {
        SessionModel {
            seat: self.seat@,
            display_name: self.display_name@,
            expires_at: self.expires_at@,
            stage: self.stage@,
            chain: steps(self.chain@),
        }
    }
}

/// The part of a seat's view that its guest is told.
pub open spec fn guest_part(view: SeatViewModel) -> SessionModel {
    SessionModel {
        seat: view.seat,
        display_name: view.display_name,
        expires_at: view.expires_at,
        stage: view.stage,
        chain: view.chain,
    }
}

/// Answers a guest's page.
pub fn session(
    cfg: &Config,
    store: &SeatStore,
    snapshot: &Snapshot,
    token: &str,
    now: i64,
) -> (r: Result<SessionResponse, ApiError>)
    ensures
        match r {
            Ok(response) => admitted(cfg@.signing_key, store@, token@, now) matches Ok(seat)
                && response@ == guest_part(seat_view(seat, snapshot@, cfg@, now)),
            Err(error) => admitted(cfg@.signing_key, store@, token@, now) == Err::<
                SeatModel,
                Refusal,
            >(error@),
        },
{
    let seat = match seat_for(cfg, store, token, now) {
        Ok(seat) => seat,
        Err(error) => return Err(error),
    };
    let view = SeatView::build(&seat, snapshot, cfg, now);
    Ok(
        SessionResponse {
            seat: view.seat,
            display_name: view.display_name,
            expires_at: view.expires_at,
            stage: view.stage,
            chain: view.chain,
        },
    )
}

/// A snapshot with what a seat's page reports now.
pub open spec fn recorded(
    before: SnapshotModel,
    seat: Seq<char>,
    hop_status: Vec<HopStatus>,
) -> SnapshotModel {
    SnapshotModel { reported: before.reported.insert(seat, hop_status), ..before }
}

/// Keeps what a seat's page reports.
pub fn record(snapshot: &mut Snapshot, seat: &str, hop_status: Vec<HopStatus>)
    ensures
        final(snapshot)@ == recorded(old(snapshot)@, seat@, hop_status),
{
    snapshot.reported.insert(seat.to_owned(), hop_status);
}

/// The page says how its hops are doing; the gateway decides everything else
/// about the node, including its id. A guest holds no weave credential and
/// cannot register as another seat. `hop_status` is what the gateway reads of
/// the report, and `forwarded` the report as it came. The report is kept whatever
/// weave answers, and `registered` says what the page is told then.
pub fn register<H>(
    cfg: &Config,
    weave: &Weave,
    store: &SeatStore,
    snapshot: &mut Snapshot,
    token: &str,
    now: i64,
    hop_status: Vec<HopStatus>,
    forwarded: Vec<H>,
) -> (r: Result<(Call, NodeRegistration<H>), ApiError>)
    ensures
        match r {
            Ok((call, registration)) => {
                &&& admitted(cfg@.signing_key, store@, token@, now) matches Ok(seat)
                &&& final(snapshot)@ == recorded(old(snapshot)@, seat.seat, hop_status)
                &&& call@ == weave@.southbound_call(Method::Post, "/nodes/register"@)
                &&& registration.node@ == browser_node(seat.seat)
                &&& registration.hop_status@ == forwarded@
            },
            Err(error) => {
                &&& admitted(cfg@.signing_key, store@, token@, now) == Err::<SeatModel, Refusal>(
                    error@,
                )
                &&& final(snapshot)@ == old(snapshot)@
            },
        },
{
    let seat = match seat_for(cfg, store, token, now) {
        Ok(seat) => seat,
        Err(error) => return Err(error),
    };
    record(snapshot, seat.seat.as_str(), hop_status);
    Ok(weave.register(seat.seat.as_str(), forwarded))
}

/// Passes a page's heartbeat on for its seat.
pub fn heartbeat<H>(
    cfg: &Config,
    weave: &Weave,
    store: &SeatStore,
    snapshot: &mut Snapshot,
    token: &str,
    now: i64,
    hop_status: Vec<HopStatus>,
    forwarded: Vec<H>,
) -> (r: Result<(Call, NodeHeartbeat<H>), ApiError>)
    ensures
        match r {
            Ok((call, beat)) => {
                &&& admitted(cfg@.signing_key, store@, token@, now) matches Ok(seat)
                &&& final(snapshot)@ == recorded(old(snapshot)@, seat.seat, hop_status)
                &&& call@ == weave@.southbound_call(
                    Method::Post,
                    "/nodes/"@ + seat.seat + "/heartbeat"@,
                )
                &&& beat.node_id@ == seat.seat
                &&& beat.status == NodeStatus::Ready
                &&& beat.hop_status@ == forwarded@
            },
            Err(error) => {
                &&& admitted(cfg@.signing_key, store@, token@, now) == Err::<SeatModel, Refusal>(
                    error@,
                )
                &&& final(snapshot)@ == old(snapshot)@
            },
        },
{
    let seat = match seat_for(cfg, store, token, now) {
        Ok(seat) => seat,
        Err(error) => return Err(error),
    };
    record(snapshot, seat.seat.as_str(), hop_status);
    Ok(weave.heartbeat(seat.seat.as_str(), forwarded))
}

/// Passes a page's question on for its seat.
pub fn desired(cfg: &Config, weave: &Weave, store: &SeatStore, token: &str, now: i64) -> (r: Result<
    Call,
    ApiError,
>)
    ensures
        match r {
            Ok(call) => admitted(cfg@.signing_key, store@, token@, now) matches Ok(seat) && call@
                == weave@.southbound_call(Method::Get, "/nodes/"@ + seat.seat + "/desired"@),
            Err(error) => admitted(cfg@.signing_key, store@, token@, now) == Err::<
                SeatModel,
                Refusal,
            >(error@),
        },
{
    match seat_for(cfg, store, token, now) {
        Ok(seat) => Ok(weave.desired(seat.seat.as_str())),
        Err(error) => Err(error),
    }
}

/// What a page is answered once weave has answered its registration, or has not been reached.
/// Weave's answer goes back with its status. A success wakes the loop: the webhook normally beats
/// this, but a gateway with no webhook configured still routes the guest.
pub fn registered(reply: Result<u16, String>) -> (r: Result<Answer, ApiError>)
    ensures
        match reply {
            Ok(status) => r == Ok::<Answer, ApiError>(Answer { status, nudge: is_success(status) }),
            Err(cause) => r matches Err(error) && error@ == (Refusal {
                status: BAD_GATEWAY,
                message: cause@,
            }),
        },
{
    match reply {
        Ok(status) => Ok(Answer { status, nudge: succeeded(status) }),
        Err(cause) => Err(ApiError::bad_gateway(cause.as_str())),
    }
}

/// What a page is answered once weave has answered its heartbeat or its question, or has not been
/// reached. Neither is anything for the loop to follow.
pub fn passed_on(reply: Result<u16, String>) -> (r: Result<Answer, ApiError>)
    ensures
        match reply {
            Ok(status) => r == Ok::<Answer, ApiError>(Answer { status, nudge: false }),
            Err(cause) => r matches Err(error) && error@ == (Refusal {
                status: BAD_GATEWAY,
                message: cause@,
            }),
        },
{
    match reply {
        Ok(status) => Ok(Answer { status, nudge: false }),
        Err(cause) => Err(ApiError::bad_gateway(cause.as_str())),
    }
}

// The webhook.

/// The token of an `Authorization` header, empty where it bears none.
pub open spec fn bearer_of(authorization: Option<Seq<char>>) -> Seq<char> {
    match authorization {
        Some(value) => if "Bearer "@.is_prefix_of(value) {
            value.skip("Bearer "@.len() as int)
        } else {
            Seq::empty()
        },
        None => Seq::empty(),
    }
}

/// Whether a delivery may come in.
pub open spec fn may_deliver(cfg: ConfigModel, authorization: Option<Seq<char>>) -> bool {
    match cfg.webhook_token {
        Some(expected) => bearer_of(authorization) == expected,
        None => true,
    }
}

/// Deliveries are hints. Acting on one means nudging the reconcile loop, which
/// reads the real state itself, so a duplicate, a stale or a lost event all
/// converge to the same place. Another node's event is not this gateway's
/// business, and answering 4xx would make the controller stop retrying a
/// delivery it got right.
pub fn weave_event(cfg: &Config, store: &SeatStore, authorization: Option<&str>, node: &str) -> (r:
    Result<Answer, ApiError>)
    ensures
        match r {
            Ok(answer) => {
                &&& may_deliver(cfg@, str_of(authorization))
                &&& answer == (Answer {
                    status: ACCEPTED,
                    nudge: store@.contains_key(node@),
                })
            },
            Err(error) => {
                &&& !may_deliver(cfg@, str_of(authorization))
                &&& error@ == (Refusal {
                    status: UNAUTHORIZED,
                    message: "missing or invalid bearer token"@,
                })
            },
        },
{
    if let Some(expected) = &cfg.webhook_token {
        let presented: &str = match authorization {
            Some(value) => match strip_start(value, "Bearer ") {
                Some(token) => token,
                None => "",
            },
            None => "",
        };
        proof {
            reveal_strlit("");
            assert(""@ =~= Seq::<char>::empty());
            if authorization is Some && "Bearer "@.is_prefix_of((authorization->0)@) {
                assert(presented@ =~= (authorization->0)@.skip("Bearer "@.len() as int));
            }
            assert(presented@ == bearer_of(str_of(authorization)));
            lemma_bytes_determine_text(presented@, expected@);
        }
        if !constant_time_eq(presented.as_bytes(), expected.as_str().as_bytes()) {
            return Err(ApiError::new(UNAUTHORIZED, "missing or invalid bearer token"));
        }
    }
    Ok(Answer { status: ACCEPTED, nudge: store.get(node).is_some() })
}

/// A token that does not verify is told the same whatever the seats.
pub proof fn law_unknown_tokens_learn_nothing(
    key: Seq<u8>,
    store: Map<Seq<char>, SeatModel>,
    token: Seq<char>,
    now: i64,
)
    requires
        accepted(key, token) is Err,
    ensures
        admitted(key, store, token, now) == Err::<SeatModel, Refusal>(
            Refusal { status: NOT_FOUND, message: "unknown invite"@ },
        ),
{
}

/// A guest is admitted to no seat but the one that the signed token names, and so, where seats are
/// kept under their ids, acts under no other id.
pub proof fn law_guests_are_pinned_to_their_seat(
    key: Seq<u8>,
    store: Map<Seq<char>, SeatModel>,
    token: Seq<char>,
    now: i64,
)
    requires
        admitted(key, store, token, now) is Ok,
    ensures
        accepted(key, token) matches Ok(invite) && store.contains_key(invite.seat) && admitted(
            key,
            store,
            token,
            now,
        ) == Ok::<SeatModel, Refusal>(store[invite.seat]) && !store[invite.seat].revoked && now
            < store[invite.seat].expires_at && (by_own_id(store) ==> store[invite.seat].seat
            == invite.seat),
{
}

/// A link to a revoked seat, or to one that is gone, is told that it is revoked, at any time.
pub proof fn law_revoked_links_stay_refused(
    key: Seq<u8>,
    store: Map<Seq<char>, SeatModel>,
    token: Seq<char>,
    now: i64,
)
    requires
        accepted(key, token) matches Ok(invite) && (store.contains_key(invite.seat)
            ==> store[invite.seat].revoked),
    ensures
        admitted(key, store, token, now) == Err::<SeatModel, Refusal>(
            Refusal { status: GONE, message: "invite revoked"@ },
        ),
{
}

/// Revoking a seat closes every link to it, and leaves the links to other seats as they were.
pub proof fn law_revoking_closes_every_link(
    key: Seq<u8>,
    store: Map<Seq<char>, SeatModel>,
    seat: Seq<char>,
    token: Seq<char>,
    now: i64,
)
    requires
        store.contains_key(seat),
    ensures
        ({
            let after = admitted(key, store.insert(seat, revoked(store[seat])), token, now);
            match accepted(key, token) {
                Ok(invite) => if invite.seat == seat {
                    after == Err::<SeatModel, Refusal>(
                        Refusal { status: GONE, message: "invite revoked"@ },
                    )
                } else {
                    after == admitted(key, store, token, now)
                },
                Err(_) => after == admitted(key, store, token, now),
            }
        }),
{
}

/// Inviting, revoking and forgetting keep every seat under its id.
pub proof fn law_seats_stay_under_their_ids(
    store: Map<Seq<char>, SeatModel>,
    fresh: SeatModel,
    name: Seq<char>,
)
    requires
        by_own_id(store),
    ensures
        by_own_id(store.insert(fresh.seat, fresh)),
        store.contains_key(name) ==> by_own_id(store.insert(name, revoked(store[name]))),
        by_own_id(store.remove(name)),
{
    assert forall|key: Seq<char>| #[trigger]
        store.insert(fresh.seat, fresh).contains_key(key) implies store.insert(
        fresh.seat,
        fresh,
    )[key].seat == key by {
        assert(key != fresh.seat ==> store.contains_key(key));
    }
    if store.contains_key(name) {
        let after = store.insert(name, revoked(store[name]));
        assert forall|key: Seq<char>| #[trigger] after.contains_key(key) implies after[key].seat
            == key by {
            assert(store.contains_key(key));
        }
    }
    assert forall|key: Seq<char>| #[trigger] store.remove(name).contains_key(key) implies (
    store.remove(name)[key]).seat == key by {
        assert(store.contains_key(key));
    }
}

/// An invite admits at a time only if it admits at every earlier one.
pub proof fn law_expiry_is_final(
    key: Seq<u8>,
    store: Map<Seq<char>, SeatModel>,
    token: Seq<char>,
    earlier: i64,
    later: i64,
)
    requires
        earlier <= later,
        admitted(key, store, token, later) is Ok,
    ensures
        admitted(key, store, token, earlier) == admitted(key, store, token, later),
{
}

/// The guest's page and the operator's show the same of a seat: they cannot disagree.
pub proof fn law_pages_agree(
    cfg: ConfigModel,
    store: Map<Seq<char>, SeatModel>,
    snapshot: SnapshotModel,
    token: Seq<char>,
    now: i64,
)
    requires
        store.dom().finite(),
        admitted(cfg.signing_key, store, token, now) is Ok,
    ensures
        ({
            let seat = admitted(cfg.signing_key, store, token, now)->Ok_0;
            exists|i: int|
                0 <= i < overview(store, snapshot, cfg, now).len() && guest_part(
                    #[trigger] overview(store, snapshot, cfg, now)[i],
                ) == guest_part(seat_view(seat, snapshot, cfg, now))
        }),
{
    let invite = accepted(cfg.signing_key, token)->Ok_0;
    law_list_holds_every_seat(store);
    assert(store.contains_key(invite.seat));
    let i = list_keys(store).index_of(invite.seat);
    assert(listing(store)[i] == store[invite.seat]);
    assert(overview(store, snapshot, cfg, now)[i] == seat_view(
        store[invite.seat],
        snapshot,
        cfg,
        now,
    ));
}

/// Where a webhook token is set, a delivery without it is refused.
pub proof fn law_webhooks_need_their_token(cfg: ConfigModel, authorization: Option<Seq<char>>)
    requires
        cfg.webhook_token matches Some(token) && token.len() > 0,
        may_deliver(cfg, authorization),
    ensures
        authorization == Some("Bearer "@ + cfg.webhook_token->0),
{
    let value = authorization->0;
    assert("Bearer "@.is_prefix_of(value));
    assert(value =~= "Bearer "@ + value.skip("Bearer "@.len() as int));
}

} // verus!
