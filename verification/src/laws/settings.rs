//! What the given values come to, what an instant is shown as, and which pages there are.
use vstd::prelude::*;
use vstd::utf8::encode_utf8;

use crate::assets::{is_page, page, Embedded};
use crate::clock::{rfc3339_of, shown};
use crate::config::{settled, Args, Config, ConfigError};
use crate::invite::{NoRandomness, SigningKey};
use crate::text::{
    law_dropped_run_is_gone, law_trimming_leaves_nothing_of_blanks, text_of, trimmed,
};

use super::texts::is_blank;

verus! {

/// A value that is given and more than white space.
pub open spec fn is_set(value: Option<String>) -> bool {
    match value {
        Some(text) => !is_blank(text@),
        None => false,
    }
}

/// Webhooks without a token were asked for, by `1` or `true`.
pub open spec fn is_waived(args: Args) -> bool {
    match args.auth_disabled {
        Some(text) => trimmed(text@) == seq!['1'] || trimmed(text@) == seq!['t', 'r', 'u', 'e'],
        None => false,
    }
}

proof fn lemma_set(value: Option<String>)
    ensures
        is_set(value) <==> crate::config::present_of(text_of(value)) is Some,
        is_set(value) ==> crate::config::present_of(text_of(value)) == Some((value->0)@),
{
    if let Some(text) = value {
        law_trimming_leaves_nothing_of_blanks(text@);
    }
}

proof fn lemma_waived(args: Args)
    ensures
        is_waived(args) <==> args.auth_is_disabled(),
{
    reveal_strlit("1");
    reveal_strlit("true");
    assert("1"@ =~= seq!['1']);
    assert("true"@ =~= seq!['t', 'r', 'u', 'e']);
}

/// Which values make no configuration, and why: without a webhook token, unless that is waived;
/// without a signing key where none could be generated; with no interval; with no lifetime. The
/// first of these that holds is told.
pub proof fn law_which_values_are_refused(
    args: Args,
    generated: Option<Result<SigningKey, NoRandomness>>,
    r: Result<Config, ConfigError>,
)
    requires
        settled(args, generated, r),
        (is_set(args.webhook_token) || is_waived(args)) && !is_set(args.signing_key) ==> generated
            is Some,
    ensures
        ({
            let open = !is_set(args.webhook_token) && !is_waived(args);
            let keyless = !is_set(args.signing_key) && generated->0 is Err;
            &&& open <==> r is Err && r->Err_0 is WebhookTokenUnset
            &&& !open && keyless <==> r is Err && r->Err_0 is SigningKey
            &&& !open && keyless ==> r->Err_0->SigningKey_0 == generated->0->Err_0
            &&& !open && !keyless && args.reconcile_secs == 0 <==> r is Err && r->Err_0
                is ReconcileSecs
            &&& !open && !keyless && args.reconcile_secs > 0 && args.invite_ttl_secs <= 0 <==> r
                is Err && r->Err_0 is InviteTtlSecs
        }),
{
    lemma_set(args.webhook_token);
    lemma_set(args.signing_key);
    lemma_waived(args);
}

/// A value is kept as it was given where it is set, and dropped where it is not.
pub open spec fn is_kept(given: Option<String>, kept: Option<String>) -> bool {
    if is_set(given) {
        kept is Some && (kept->0)@ == (given->0)@
    } else {
        kept is None
    }
}

/// A base URL is the given one but for slashes at its end, and ends in none.
pub open spec fn is_base_of(given: Seq<char>, base: Seq<char>) -> bool {
    &&& base.is_prefix_of(given)
    &&& base.len() > 0 ==> base.last() != '/'
    &&& forall|i: int| base.len() <= i < given.len() ==> #[trigger] given[i] == '/'
}

/// What a configuration holds of the values it was made from.
pub proof fn law_what_a_configuration_holds(
    args: Args,
    generated: Option<Result<SigningKey, NoRandomness>>,
    r: Result<Config, ConfigError>,
)
    requires
        settled(args, generated, r),
        (is_set(args.webhook_token) || is_waived(args)) && !is_set(args.signing_key) ==> generated
            is Some,
        r is Ok,
    ensures
        ({
            let cfg = r->Ok_0;
            &&& is_base_of(args.public_url@, cfg.public_url@)
            &&& is_base_of(args.northbound_url@, cfg.northbound_url@)
            &&& is_base_of(args.southbound_url@, cfg.southbound_url@)
            &&& is_blank(args.open_live_url@) <==> cfg.open_live_url is None
            &&& cfg.open_live_url is Some ==> is_base_of(
                args.open_live_url@,
                (cfg.open_live_url->0)@,
            )
            &&& is_kept(args.webhook_token, cfg.webhook_token)
            &&& is_kept(args.northbound_token, cfg.northbound_token)
            &&& is_kept(args.southbound_token, cfg.southbound_token)
            &&& is_kept(args.open_live_api_key, cfg.open_live_api_key)
            &&& is_kept(Some(args.target_network), cfg.target_network)
            &&& cfg.target_node@ == args.target_node@
            &&& cfg.target_latency_ms == args.target_latency_ms
            &&& cfg.reconcile_secs == args.reconcile_secs
            &&& cfg.invite_ttl_secs == args.invite_ttl_secs
            &&& is_set(args.signing_key) ==> cfg.signing_key@ == encode_utf8(
                (args.signing_key->0)@,
            )
            &&& !is_set(args.signing_key) ==> generated->0 is Ok && cfg.signing_key@ == (
            generated->0->Ok_0)@
        }),
{
    lemma_set(args.webhook_token);
    lemma_set(args.signing_key);
    lemma_set(args.northbound_token);
    lemma_set(args.southbound_token);
    lemma_set(args.open_live_api_key);
    lemma_set(Some(args.target_network));
    lemma_set(Some(args.open_live_url));
    lemma_waived(args);
    let cfg = r->Ok_0;
    assert(cfg@.public_url == cfg.public_url@);
    lemma_base(args.public_url@);
    lemma_base(args.northbound_url@);
    lemma_base(args.southbound_url@);
    lemma_base(args.open_live_url@);
}

proof fn lemma_base(url: Seq<char>)
    ensures
        is_base_of(url, crate::config::base_of(url)),
{
    law_dropped_run_is_gone(url, '/');
}

/// A timestamp of the years 0 to 9999 is shown in RFC 3339, one of the years -9999 to -1 as
/// nothing, and any other as the epoch.
pub proof fn law_what_an_instant_is_shown_as(seconds: i64)
    ensures
        -62_167_219_200 <= seconds <= 253_402_300_799 ==> shown(seconds) == rfc3339_of(seconds),
        -377_705_116_800 <= seconds < -62_167_219_200 ==> shown(seconds).len() == 0,
        seconds < -377_705_116_800 || seconds > 253_402_300_799 ==> shown(seconds) == rfc3339_of(
            0,
        ),
{
}

/// There is a page exactly under a page's name; its type is that of the name's ending.
pub proof fn law_pages_go_by_their_names(name: Seq<char>, embedded: Embedded)
    ensures
        page(name, embedded) is Some <==> is_page(name),
        is_page(name) ==> ({
            let kind = (page(name, embedded)->0).0;
            &&& ".css"@.is_suffix_of(name) ==> kind == "text/css; charset=utf-8"@
            &&& ".html"@.is_suffix_of(name) ==> kind == "text/html; charset=utf-8"@
            &&& ".js"@.is_suffix_of(name) ==> kind == "text/javascript; charset=utf-8"@
        }),
        page("base.css"@, embedded) matches Some((_, body)) && body == embedded.base_css@,
        page("guest.html"@, embedded) matches Some((_, body)) && body == embedded.guest_html@,
        page("guest.js"@, embedded) matches Some((_, body)) && body == embedded.guest_js@,
        page("operator.html"@, embedded) matches Some((_, body)) && body == embedded.operator_html@,
        page("operator.js"@, embedded) matches Some((_, body)) && body == embedded.operator_js@,
{
    reveal_strlit("base.css");
    reveal_strlit("guest.html");
    reveal_strlit("guest.js");
    reveal_strlit("operator.html");
    reveal_strlit("operator.js");
    reveal_strlit(".css");
    reveal_strlit(".html");
    reveal_strlit(".js");
    assert("base.css"@.len() == 8 && "base.css"@[0] == 'b');
    assert("guest.html"@.len() == 10);
    assert("guest.js"@.len() == 8 && "guest.js"@[0] == 'g');
    assert("operator.html"@.len() == 13);
    assert("operator.js"@.len() == 11);
    if is_page(name) {
        let end = name[name.len() - 1];
        if ".css"@.is_suffix_of(name) {
            assert(name.subrange(name.len() - 4, name.len() as int)[3] == ".css"@[3]);
            assert(name.subrange(name.len() - 4, name.len() as int)[1] == ".css"@[1]);
        }
        if ".html"@.is_suffix_of(name) {
            assert(name.subrange(name.len() - 5, name.len() as int)[4] == ".html"@[4]);
        }
        if ".js"@.is_suffix_of(name) {
            assert(name.subrange(name.len() - 3, name.len() as int)[1] == ".js"@[1]);
            assert(name.subrange(name.len() - 3, name.len() as int)[2] == ".js"@[2]);
        }
        assert(end == 's' || end == 'l');
    }
}

} // verus!
