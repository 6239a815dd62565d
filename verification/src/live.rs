//! open-live, read-only.
use vstd::prelude::*;

use crate::text::{joined, lemma_parted_at_first, part_at_first, parted_at_first, same, text_of};
use crate::weave::{copied, str_of, Call, CallModel, Method};

verus! {

/// A read-only view of open-live. The gateway never writes there: open-live
/// discovers a guest's feed by itself, by polling weave's northbound API, and
/// this only asks whether that has happened yet.
#[derive(Debug)]
pub struct OpenLive {
    base: String,
    api_key: Option<String>,
}

#[derive(Debug, Clone)]
pub struct Source {
    pub id: String,
    pub status: Option<String>,
    pub provider: Option<Provider>,
}

#[derive(Debug, Clone)]
pub struct Provider {
    pub id: String,
    pub external_id: String,
}

impl OpenLive {
    pub closed spec fn base_url(self) -> Seq<char> {
        self.base@
    }

    pub closed spec fn key(self) -> Option<Seq<char>> {
        text_of(self.api_key)
    }

    pub fn new(base: String, api_key: Option<String>) -> (r: Self)
        ensures
            r.base_url() == base@,
            r.key() == text_of(api_key),
    {
        OpenLive { base, api_key }
    }

    pub fn sources(&self) -> (r: Call)
        ensures
            r@ == (CallModel {
                method: Method::Get,
                url: self.base_url() + "/api/v1/sources"@,
                bearer: self.key(),
            }),
    {
        Call {
            method: Method::Get,
            url: joined(self.base.as_str(), "/api/v1/sources"),
            bearer: copied(&self.api_key),
        }
    }
}

impl Source {
    /// The seat that a source of weave's shows.
    pub open spec fn seat_name(self) -> Option<Seq<char>> {
        match self.provider {
            Some(provider) => if provider.id@ == "weave"@ {
                match parted_at_first(provider.external_id@, '/') {
                    Some((stream, _)) => Some(stream),
                    None => Some(provider.external_id@),
                }
            } else {
                None
            },
            None => None,
        }
    }

    /// open-live's weave provider sets `externalId` to `<stream>/<index>`, and
    /// the gateway names each stream after its seat.
    pub fn seat(&self) -> (r: Option<&str>)
        ensures
            str_of(r) == self.seat_name(),
    {
        let Some(provider) = &self.provider else {
            return None;
        };
        if !same(provider.id.as_str(), "weave") {
            return None;
        }
        let external_id = provider.external_id.as_str();
        match part_at_first(external_id, '/') {
            Some((stream, _)) => Some(stream),
            None => Some(external_id),
        }
    }
}

/// A source of weave's shows the seat whose stream it was made from, whichever of the stream's
/// outputs it is.
pub proof fn law_sources_show_their_seat(source: Source, seat: Seq<char>, index: Seq<char>)
    requires
        source.provider matches Some(provider) && provider.id@ == "weave"@
            && provider.external_id@ == seat + seq!['/'] + index,
        !seat.contains('/'),
    ensures
        source.seat_name() == Some(seat),
{
    let external_id = source.provider->0.external_id@;
    lemma_parted_at_first(external_id, '/');
    assert(parted_at_first(external_id, '/') == Some((seat, index)));
}

} // verus!
