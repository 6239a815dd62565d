# greenroom

A guest-invite service for a live broadcast. An operator creates an invite and
gets a private link; the guest opens it, and the page becomes an open-weave
media node; greenroom declares a stream from that camera to a gateway node;
open-live discovers the output and makes a source of it.

The rules of the gateway are a library in Verus, proved against their
contracts. The HTTP server, the HTTP client and the file that the seats are
kept in are ordinary Rust around it.

## Layout

```
src/invite.rs      HMAC-signed links and seat ids
src/seat.rs        the seats, their store and its list order
src/config.rs      what flags and environment are made of
src/weave.rs       what is asked of weave, and what its answers mean
src/live.rs        open-live, read-only
src/reconcile.rs   the one thing that changes anything: what a tick does
src/snapshot.rs    the five steps, derived once per tick
src/routes.rs      operator API, guest session proxy, webhook receiver
src/assets.rs      the pages, by name
src/clock.rs       instants
src/names.rs       maps by name
src/text.rs        text
src/decimal.rs     whole numbers in decimal
tests/             the library, run
app/               the program
```

## What is stated

Each function says in its contract what it returns, over a mathematical model
of its arguments. What relates several functions is a `law_` proof function
beside them. Among these:

- a minted token verifies to its claim, and an accepted token is the one that
  its claim seals to (`invite::SigningKey`);
- a fresh invite opens its seat until it expires (`routes::create_invite`), and
  a revoked one is refused from then on (`routes::law_revoking_closes_every_link`);
- nothing changes unless weave answered for its nodes and its streams
  (`reconcile::law_silence_changes_nothing`), and while the nodes stay as they
  are two ticks leave nothing to do (`reconcile::law_ticks_converge`);
- the guest's page and the operator's show the same of a seat
  (`routes::law_pages_agree`).

## What is believed

The items marked `external_body`, and the one `assume_specification`, are not
proved: HMAC-SHA256, base64, the system's randomness, the clock and its dates,
the text of an HTTP status and `String::push`. The comment above
each names the function it calls and what is claimed of it.
