//! HMAC-signed invite links and seat ids.
use base64::Engine;
use hmac::Mac;
use vstd::prelude::*;
use vstd::string::StringExecFns;
use vstd::utf8::encode_utf8;

use crate::decimal::{
    decimal, format_i64, is_digit, law_decimal_reads_back, lemma_decimal_has_no_dot, parse_i64,
    parsed,
};
use crate::text::{
    drop_leading, drop_trailing, joined, lemma_parted_at_first, lemma_parted_at_last,
    part_at_first, part_at_last, parted_at_first, parted_at_last, string_of, without_leading,
    without_trailing,
};

verus! {

/// Truncating HMAC-SHA256 to 128 bits keeps a link short enough to read out
/// loud while leaving forgery out of reach.
pub const TAG_BYTES: usize = 16;

/// A slug is cut at this many characters.
pub const SLUG_CHARS: usize = 24;

/// HMAC-SHA256 of a message under a key.
pub uninterp spec fn hmac_sha256(key: Seq<u8>, message: Seq<u8>) -> Seq<u8>;

/// The `hmac` crate's `Hmac<Sha256>`, fed the whole message at once: a key of any length is
/// accepted, and the result is a function of key and message, of 32 bytes.
#[verifier::external_body]
fn hmac_of(key: &[u8], message: &[u8]) -> (r: Vec<u8>)
    ensures
        r@ == hmac_sha256(key@, message@),
        r@.len() == 32,
{
    let mut mac = hmac::Hmac::<sha2::Sha256>::new_from_slice(key)
        .expect("hmac accepts any key length");
    mac.update(message);
    mac.finalize().into_bytes().to_vec()
}

/// Bytes in URL-safe base64 without padding.
pub uninterp spec fn base64_text(bytes: Seq<u8>) -> Seq<char>;

/// The bytes that a text in URL-safe base64 without padding stands for.
pub uninterp spec fn base64_bytes(text: Seq<char>) -> Option<Seq<u8>>;

/// The `base64` crate's `URL_SAFE_NO_PAD.encode`. Its text decodes to the bytes again. It is made
/// of the letters, the digits, `-` and `_`, so it holds no dot, and it has one character for each
/// six bits, the last of which may be filled up.
#[verifier::external_body]
fn base64_encode(bytes: &[u8]) -> (r: String)
    ensures
        r@ == base64_text(bytes@),
        base64_bytes(r@) == Some(bytes@),
        !r@.contains('.'),
        r@.len() == (4 * bytes@.len() + 2) / 3,
{
    base64::engine::general_purpose::URL_SAFE_NO_PAD.encode(bytes)
}

/// The `base64` crate's `URL_SAFE_NO_PAD.decode`. Padding and stray trailing bits are refused, so
/// a text that decodes is the one that its bytes encode to.
#[verifier::external_body]
fn base64_decode(text: &str) -> (r: Option<Vec<u8>>)
    ensures
        match r {
            Some(bytes) => base64_bytes(text@) == Some(bytes@) && base64_text(bytes@) == text@,
            None => base64_bytes(text@) is None,
        },
{
    base64::engine::general_purpose::URL_SAFE_NO_PAD.decode(text).ok()
}

/// What the system's randomness source answers where it fails.
#[verifier::external_type_specification]
#[verifier::external_body]
pub struct ExRandomError(getrandom::Error);

/// `getrandom::fill` on a buffer of `n` bytes. What it writes there is the system's choice; the
/// buffer keeps its length, and nothing more is promised of a result that rests on chance.
#[verifier::external_body]
fn random_bytes(n: usize) -> (r: Result<Vec<u8>, getrandom::Error>)
    ensures
        r is Ok ==> (r->Ok_0)@.len() == n,
{
    let mut bytes = vec![0u8; n];
    getrandom::fill(&mut bytes)?;
    Ok(bytes)
}

/// The system has no randomness to give.
#[derive(Debug)]
pub struct NoRandomness(pub getrandom::Error);

/// Why a token is no invite.
#[derive(Debug, PartialEq, Eq, Structural, Clone, Copy)]
pub enum InviteError {
    Malformed,
    Signature,
}

impl InviteError {
    pub fn message(&self) -> (r: &'static str)
        ensures
            r@ == (match self {
                InviteError::Malformed => "malformed invite"@,
                InviteError::Signature => "invite signature does not verify"@,
            }),
    {
        match self {
            InviteError::Malformed => "malformed invite",
            InviteError::Signature => "invite signature does not verify",
        }
    }
}

/// What an invite claims.
#[derive(Debug, PartialEq, Eq)]
pub struct Invite {
    pub seat: String,
    pub expires_at: i64,
}

/// What an invite claims, as mathematics.
pub struct InviteModel {
    pub seat: Seq<char>,
    pub expires_at: i64,
}

impl View for Invite {
    type V = InviteModel;

    open spec fn view(&self) -> InviteModel {
        InviteModel { seat: self.seat@, expires_at: self.expires_at }
    }
}

/// `<seat>.<expiry>`, which is what the tag signs.
pub open spec fn claim_of(seat: Seq<char>, expires_at: i64) -> Seq<char> {
    seat + seq!['.'] + decimal(expires_at as int)
}

/// The leading bytes of the claim's HMAC.
pub open spec fn tag_of(key: Seq<u8>, claim: Seq<char>) -> Seq<u8> {
    hmac_sha256(key, encode_utf8(claim)).take(TAG_BYTES as int)
}

/// A claim with its tag behind it.
pub open spec fn sealed(key: Seq<u8>, claim: Seq<char>) -> Seq<char> {
    claim + seq!['.'] + base64_text(tag_of(key, claim))
}

/// What a token is accepted as. The tag stands behind the last dot, the seat before the first,
/// and the tag is judged before the expiry is read.
pub open spec fn accepted(key: Seq<u8>, token: Seq<char>) -> Result<InviteModel, InviteError> {
    match parted_at_last(token, '.') {
        None => Err(InviteError::Malformed),
        Some((claim, tag)) => match parted_at_first(claim, '.') {
            None => Err(InviteError::Malformed),
            Some((seat, expires_at)) => match base64_bytes(tag) {
                None => Err(InviteError::Malformed),
                Some(presented) => if presented != tag_of(key, claim) {
                    Err(InviteError::Signature)
                } else {
                    match parsed(expires_at) {
                        None => Err(InviteError::Malformed),
                        Some(expires_at) => Ok(InviteModel { seat, expires_at }),
                    }
                },
            },
        },
    }
}

/// What comes of drawing random bytes for a key: a key of just those bytes, or the failure.
pub open spec fn key_of_drawn(
    drawn: Result<Vec<u8>, getrandom::Error>,
    r: Result<SigningKey, NoRandomness>,
) -> bool {
    match drawn {
        Ok(bytes) => r matches Ok(key) && key@ == bytes@,
        Err(error) => r == Err::<SigningKey, NoRandomness>(NoRandomness(error)),
    }
}

/// Signs invites and judges them.
#[derive(Debug)]
pub struct SigningKey(Vec<u8>);

impl View for SigningKey {
    type V = Seq<u8>;

    closed spec fn view(&self) -> Seq<u8> {
        self.0@
    }
}

impl SigningKey {
    pub fn from_secret(secret: &[u8]) -> (r: Self)
        ensures
            r@ == secret@,
    {
        let mut bytes: Vec<u8> = Vec::new();
        for i in 0..secret.len()
            invariant
                bytes@ == secret@.take(i as int),
        {
            bytes.push(secret[i]);
        }
        Self(bytes)
    }

    /// A fresh key of 32 random bytes: what `from_random` makes of them, whatever comes.
    pub fn generate() -> (r: Result<Self, NoRandomness>)
        ensures
            exists|drawn: Result<Vec<u8>, getrandom::Error>| #[trigger]
                key_of_drawn(drawn, r) && (drawn is Ok ==> (drawn->Ok_0)@.len() == 32),
            r is Ok ==> (r->Ok_0)@.len() == 32,
    {
        let drawn = random_bytes(32);
        Self::from_random(drawn)
    }

    /// The key that random bytes make, or the failure to draw any.
    pub fn from_random(drawn: Result<Vec<u8>, getrandom::Error>) -> (r: Result<Self, NoRandomness>)
        ensures
            key_of_drawn(drawn, r),
    {
        match drawn {
            Ok(bytes) => Ok(Self(bytes)),
            Err(error) => Err(NoRandomness(error)),
        }
    }

    /// `<seat>.<expiry>.<tag>`: the seat is readable so an operator can tell
    /// two links apart, and the tag is what makes a guessed seat useless.
    /// The token verifies to its claim, unless the seat itself holds a dot.
    pub fn mint(&self, seat: &str, expires_at: i64) -> (r: String)
        ensures
            r@ == sealed(self@, claim_of(seat@, expires_at)),
            !base64_text(tag_of(self@, claim_of(seat@, expires_at))).contains('.'),
            base64_text(tag_of(self@, claim_of(seat@, expires_at))).len() == 22,
            !seat@.contains('.') ==> accepted(self@, r@) == Ok::<InviteModel, InviteError>(
                (InviteModel { seat: seat@, expires_at }),
            ),
    {
        let mut claim = seat.to_owned();
        claim.push('.');
        claim.append(format_i64(expires_at).as_str());
        assert(claim@ =~= claim_of(seat@, expires_at));
        let tag = base64_encode(self.tag(claim.as_str()).as_slice());
        let mut token = claim.clone();
        token.push('.');
        token.append(tag.as_str());
        proof {
            assert(token@ =~= sealed(self@, claim@));
            lemma_parted_at_last(token@, '.');
            assert(parted_at_last(token@, '.') == Some((claim@, tag@)));
            if !seat@.contains('.') {
                lemma_parted_at_first(claim@, '.');
                assert(parted_at_first(claim@, '.') == Some((seat@, decimal(expires_at as int))));
                law_decimal_reads_back(expires_at);
            }
        }
        token
    }

    /// The claim of a token whose tag is this key's tag of it. An accepted token is its claim
    /// with the tag's one text behind it, and so the token that sealing the claim gives.
    pub fn verify(&self, token: &str) -> (r: Result<Invite, InviteError>)
        ensures
            match r {
                Ok(invite) => accepted(self@, token@) == Ok::<InviteModel, InviteError>(invite@),
                Err(error) => accepted(self@, token@) == Err::<InviteModel, InviteError>(error),
            },
            r is Ok ==> token@ == sealed(self@, (parted_at_last(token@, '.')->0).0),
            r is Ok ==> tag_of(self@, (parted_at_last(token@, '.')->0).0).len() == TAG_BYTES,
    {
        let Some((claim, tag)) = part_at_last(token, '.') else {
            return Err(InviteError::Malformed);
        };
        let Some((seat, expires_at)) = part_at_first(claim, '.') else {
            return Err(InviteError::Malformed);
        };
        let Some(presented) = base64_decode(tag) else {
            return Err(InviteError::Malformed);
        };
        let expected = self.tag(claim);
        if presented.len() != TAG_BYTES || !constant_time_eq(
            presented.as_slice(),
            expected.as_slice(),
        ) {
            return Err(InviteError::Signature);
        }
        let Some(expires_at) = parse_i64(expires_at) else {
            return Err(InviteError::Malformed);
        };
        proof {
            lemma_parted_at_last(token@, '.');
        }
        Ok(Invite { seat: seat.to_owned(), expires_at })
    }

    fn tag(&self, claim: &str) -> (r: Vec<u8>)
        ensures
            r@ == tag_of(self@, claim@),
            r@.len() == TAG_BYTES,
    {
        let mut tag = hmac_of(self.0.as_slice(), claim.as_bytes());
        tag.truncate(TAG_BYTES);
        assert(tag@ =~= tag_of(self@, claim@));
        tag
    }
}

/// Whether two byte strings are the same, looking at every byte whatever the outcome.
pub fn constant_time_eq(a: &[u8], b: &[u8]) -> (r: bool)
    ensures
        r == (a@ == b@),
{
    if a.len() != b.len() {
        return false;
    }
    let mut difference: u8 = 0;
    assert(a@.take(0) =~= b@.take(0));
    for i in 0..a.len()
        invariant
            a@.len() == b@.len(),
            difference == 0 <==> a@.take(i as int) == b@.take(i as int),
    {
        let x = a[i];
        let y = b[i];
        let before = difference;
        difference = before | (x ^ y);
        proof {
            assert((before | (x ^ y)) == 0 <==> before == 0 && x == y) by (bit_vector);
            assert(a@.take(i + 1) =~= a@.take(i as int).push(x));
            assert(b@.take(i + 1) =~= b@.take(i as int).push(y));
            if difference == 0 {
                assert(a@.take(i + 1) == b@.take(i + 1));
            } else if a@.take(i + 1) == b@.take(i + 1) {
                assert(a@.take(i + 1).drop_last() =~= a@.take(i as int));
                assert(b@.take(i + 1).drop_last() =~= b@.take(i as int));
                assert(a@.take(i + 1).last() == x);
                assert(b@.take(i + 1).last() == y);
            }
        }
    }
    assert(a@.take(a@.len() as int) =~= a@);
    assert(b@.take(b@.len() as int) =~= b@);
    difference == 0
}

/// `a` to `z`, `0` to `9` and `-`.
pub open spec fn in_seat_alphabet(c: char) -> bool {
    'a' <= c <= 'z' || is_digit(c) || c == '-'
}

pub open spec fn is_alphanumeric(c: char) -> bool {
    'a' <= c <= 'z' || 'A' <= c <= 'Z' || is_digit(c)
}

pub open spec fn lowercase(c: char) -> char {
    if 'A' <= c <= 'Z' {
        (c as u32 + 32) as char
    } else {
        c
    }
}

/// A name in lower case, with a single hyphen for each run of anything but ASCII letters and digits.
pub open spec fn hyphenated(name: Seq<char>) -> Seq<char>
    decreases name.len(),
{
    if name.len() == 0 {
        Seq::empty()
    } else {
        let before = hyphenated(name.drop_last());
        if is_alphanumeric(name.last()) {
            before.push(lowercase(name.last()))
        } else if before.len() > 0 && before.last() == '-' {
            before
        } else {
            before.push('-')
        }
    }
}

/// The leading characters of the hyphenated name, without hyphens at either end.
pub open spec fn slug_of(name: Seq<char>) -> Seq<char> {
    let full = hyphenated(name);
    let cut = if full.len() > SLUG_CHARS {
        full.take(SLUG_CHARS as int)
    } else {
        full
    };
    without_leading(without_trailing(cut, '-'), '-')
}

/// `<slug>-<suffix>`, or `guest-<suffix>` where the name leaves no slug.
pub open spec fn seat_id_of(display_name: Seq<char>, suffix: Seq<char>) -> Seq<char> {
    let slug = slug_of(display_name);
    if slug.len() == 0 {
        "guest-"@ + suffix
    } else {
        slug + seq!['-'] + suffix
    }
}

proof fn lemma_hyphenated_grows(name: Seq<char>, k: int)
    requires
        0 <= k <= name.len(),
    ensures
        hyphenated(name.take(k)).is_prefix_of(hyphenated(name)),
    decreases name.len(),
{
    if k == name.len() {
        assert(name.take(k) =~= name);
    } else {
        lemma_hyphenated_grows(name.drop_last(), k);
        assert(name.drop_last().take(k) =~= name.take(k));
    }
}

/// A seat id travels into a weave node id, a weave stream name and, through
/// open-live's provider, a CouchDB document id, so it is held to the narrowest
/// of those alphabets.
pub fn seat_id(display_name: &str, suffix: &str) -> (r: String)
    ensures
        r@ == seat_id_of(display_name@, suffix@),
{
    let name = crate::text::chars_of(display_name);
    let mut slug: Vec<char> = Vec::new();
    let mut k: usize = 0;
    assert(name@.take(0) =~= Seq::<char>::empty());
    while k < name.len() && slug.len() < SLUG_CHARS
        invariant
            k <= name@.len(),
            slug@ == hyphenated(name@.take(k as int)),
            slug@.len() <= SLUG_CHARS,
        decreases name@.len() - k,
    {
        let c = name[k];
        assert(name@.take(k + 1).drop_last() =~= name@.take(k as int));
        if ('a' <= c && c <= 'z') || ('0' <= c && c <= '9') {
            slug.push(c);
        } else if 'A' <= c && c <= 'Z' {
            slug.push((c as u8 + 32) as char);
        } else if slug.len() == 0 || slug[slug.len() - 1] != '-' {
            slug.push('-');
        }
        k = k + 1;
    }
    proof {
        lemma_hyphenated_grows(name@, k as int);
        if k < name@.len() {
            assert(slug@ =~= hyphenated(name@).take(SLUG_CHARS as int));
        } else {
            assert(name@.take(k as int) =~= name@);
        }
        if hyphenated(name@).len() <= SLUG_CHARS {
            assert(slug@ =~= hyphenated(name@));
        } else {
            assert(slug@ =~= hyphenated(name@).take(SLUG_CHARS as int));
        }
    }
    let text = string_of(slug.as_slice());
    let trimmed = drop_leading(drop_trailing(text.as_str(), '-'), '-');
    if trimmed.is_empty() {
        joined("guest-", suffix)
    } else {
        let mut id = trimmed.to_owned();
        id.push('-');
        id.append(suffix);
        assert(id@ =~= slug_of(display_name@) + seq!['-'] + suffix@);
        id
    }
}

pub open spec fn hex_digit(d: int) -> char {
    if d < 10 {
        (d + '0' as int) as char
    } else {
        (d - 10 + 'a' as int) as char
    }
}

/// Bytes in lower-case hexadecimal, two digits each.
pub open spec fn hex_text(bytes: Seq<u8>) -> Seq<char>
    decreases bytes.len(),
{
    if bytes.len() == 0 {
        Seq::empty()
    } else {
        hex_text(bytes.drop_last()).push(hex_digit(bytes.last() as int / 16)).push(
            hex_digit(bytes.last() as int % 16),
        )
    }
}

fn hex_char(d: u8) -> (r: char)
    requires
        d < 16,
    ensures
        r == hex_digit(d as int),
{
    if d < 10 {
        (d + 48) as char
    } else {
        (d - 10 + 97) as char
    }
}

/// Writes bytes in lower-case hexadecimal.
pub fn hex(bytes: &[u8]) -> (r: String)
    ensures
        r@ == hex_text(bytes@),
{
    let mut out = String::new();
    assert(bytes@.take(0) =~= Seq::<u8>::empty());
    for i in 0..bytes.len()
        invariant
            out@ == hex_text(bytes@.take(i as int)),
    {
        let b = bytes[i];
        assert(bytes@.take(i + 1).drop_last() =~= bytes@.take(i as int));
        out.push(hex_char(b / 16));
        out.push(hex_char(b % 16));
    }
    assert(bytes@.take(bytes@.len() as int) =~= bytes@);
    out
}

/// What comes of drawing random bytes for a suffix: those bytes in hexadecimal, or the failure.
pub open spec fn suffix_of_drawn(
    drawn: Result<Vec<u8>, getrandom::Error>,
    r: Result<String, NoRandomness>,
) -> bool {
    match drawn {
        Ok(bytes) => r matches Ok(suffix) && suffix@ == hex_text(bytes@),
        Err(error) => r == Err::<String, NoRandomness>(NoRandomness(error)),
    }
}

/// Two random bytes in hexadecimal: what `suffix_from` makes of them, whatever comes.
pub fn random_suffix() -> (r: Result<String, NoRandomness>)
    ensures
        exists|drawn: Result<Vec<u8>, getrandom::Error>| #[trigger]
            suffix_of_drawn(drawn, r) && (drawn is Ok ==> (drawn->Ok_0)@.len() == 2),
        r is Ok ==> exists|bytes: Seq<u8>| bytes.len() == 2 && (r->Ok_0)@ == hex_text(bytes),
{
    let drawn = random_bytes(2);
    suffix_from(drawn)
}

/// The suffix that random bytes make, or the failure to draw any.
pub fn suffix_from(drawn: Result<Vec<u8>, getrandom::Error>) -> (r: Result<String, NoRandomness>)
    ensures
        suffix_of_drawn(drawn, r),
{
    match drawn {
        Ok(bytes) => Ok(hex(bytes.as_slice())),
        Err(error) => Err(NoRandomness(error)),
    }
}

proof fn lemma_trim_keeps(s: Seq<char>, c: char)
    ensures
        without_trailing(s, c).len() <= s.len(),
        without_leading(s, c).len() <= s.len(),
        forall|x: char| #[trigger] without_trailing(s, c).contains(x) ==> s.contains(x),
        forall|x: char| #[trigger] without_leading(s, c).contains(x) ==> s.contains(x),
    decreases s.len(),
{
    if s.len() > 0 {
        lemma_trim_keeps(s.drop_last(), c);
        lemma_trim_keeps(s.drop_first(), c);
        assert forall|x: char| #[trigger] without_trailing(s, c).contains(x) implies s.contains(
            x,
        ) by {
            if s.last() == c {
                let i = choose|i: int| 0 <= i < s.drop_last().len() && s.drop_last()[i] == x;
                assert(s[i] == x);
            }
        }
        assert forall|x: char| #[trigger] without_leading(s, c).contains(x) implies s.contains(
            x,
        ) by {
            if s.first() == c {
                let i = choose|i: int| 0 <= i < s.drop_first().len() && s.drop_first()[i] == x;
                assert(s[i + 1] == x);
            }
        }
    }
}

proof fn lemma_hyphenated_alphabet(name: Seq<char>)
    ensures
        forall|k: int|
            0 <= k < hyphenated(name).len() ==> in_seat_alphabet(#[trigger] hyphenated(name)[k]),
    decreases name.len(),
{
    if name.len() > 0 {
        lemma_hyphenated_alphabet(name.drop_last());
        let before = hyphenated(name.drop_last());
        assert(is_alphanumeric(name.last()) ==> in_seat_alphabet(lowercase(name.last())));
        assert forall|k: int| 0 <= k < hyphenated(name).len() implies in_seat_alphabet(
            #[trigger] hyphenated(name)[k],
        ) by {
            if k < before.len() {
                assert(hyphenated(name)[k] == before[k]);
            }
        }
    }
}

proof fn lemma_slug(name: Seq<char>)
    ensures
        slug_of(name).len() <= SLUG_CHARS,
        forall|k: int| 0 <= k < slug_of(name).len() ==> in_seat_alphabet(#[trigger] slug_of(name)[k]),
{
    let full = hyphenated(name);
    let cut = if full.len() > SLUG_CHARS {
        full.take(SLUG_CHARS as int)
    } else {
        full
    };
    lemma_hyphenated_alphabet(name);
    lemma_trim_keeps(cut, '-');
    lemma_trim_keeps(without_trailing(cut, '-'), '-');
    assert forall|k: int| 0 <= k < slug_of(name).len() implies in_seat_alphabet(
        #[trigger] slug_of(name)[k],
    ) by {
        let c = slug_of(name)[k];
        assert(slug_of(name).contains(c));
        assert(without_trailing(cut, '-').contains(c));
        assert(cut.contains(c));
        let i = choose|i: int| 0 <= i < cut.len() && cut[i] == c;
        assert(full[i] == c);
    }
}

/// Whatever the name, a seat id keeps to the seat alphabet where its suffix does. So it holds no
/// dot, and a token minted for it verifies to it.
pub proof fn law_seat_ids_keep_to_the_alphabet(name: Seq<char>, suffix: Seq<char>)
    requires
        forall|k: int| 0 <= k < suffix.len() ==> in_seat_alphabet(#[trigger] suffix[k]),
    ensures
        forall|k: int|
            0 <= k < seat_id_of(name, suffix).len() ==> in_seat_alphabet(
                #[trigger] seat_id_of(name, suffix)[k],
            ),
        !seat_id_of(name, suffix).contains('.'),
{
    reveal_strlit("guest-");
    lemma_slug(name);
    let slug = slug_of(name);
    let id = seat_id_of(name, suffix);
    assert forall|k: int| 0 <= k < id.len() implies in_seat_alphabet(#[trigger] id[k]) by {
        if slug.len() == 0 {
            if k >= 6 {
                assert(id[k] == suffix[k - 6]);
            }
        } else if k < slug.len() {
            assert(id[k] == slug[k]);
        } else if k > slug.len() {
            assert(id[k] == suffix[k - slug.len() - 1]);
        }
    }
}

/// However long the name, a seat id is at most one slug and one hyphen longer than its suffix.
pub proof fn law_seat_ids_are_short(name: Seq<char>, suffix: Seq<char>)
    ensures
        suffix.len() < seat_id_of(name, suffix).len() <= SLUG_CHARS + 1 + suffix.len(),
        suffix.is_suffix_of(seat_id_of(name, suffix)),
{
    reveal_strlit("guest-");
    lemma_slug(name);
    let id = seat_id_of(name, suffix);
    assert(id.subrange(id.len() - suffix.len(), id.len() as int) =~= suffix);
}

/// A random suffix is lower-case hexadecimal, which the seat alphabet holds.
pub proof fn law_hex_keeps_to_the_alphabet(bytes: Seq<u8>)
    ensures
        hex_text(bytes).len() == 2 * bytes.len(),
        forall|k: int|
            0 <= k < hex_text(bytes).len() ==> in_seat_alphabet(#[trigger] hex_text(bytes)[k]),
    decreases bytes.len(),
{
    if bytes.len() > 0 {
        law_hex_keeps_to_the_alphabet(bytes.drop_last());
    }
}

/// A token is accepted only where its tag is the key's tag of everything before it.
pub proof fn law_tag_vouches_for_the_claim(key: Seq<u8>, claim: Seq<char>, tag: Seq<char>)
    requires
        !tag.contains('.'),
        accepted(key, claim + seq!['.'] + tag) is Ok,
    ensures
        base64_bytes(tag) == Some(tag_of(key, claim)),
{
    lemma_parted_at_last(claim + seq!['.'] + tag, '.');
    assert(parted_at_last(claim + seq!['.'] + tag, '.') == Some((claim, tag)));
}

/// Equal tokens have equal seats and expiries, whatever the seats hold. No tag's text holds a dot,
/// as `mint` says of each.
pub proof fn law_tokens_tell_claims_apart(
    key: Seq<u8>,
    seat: Seq<char>,
    expires_at: i64,
    other_key: Seq<u8>,
    other_seat: Seq<char>,
    other_expires_at: i64,
)
    requires
        sealed(key, claim_of(seat, expires_at)) == sealed(
            other_key,
            claim_of(other_seat, other_expires_at),
        ),
        !base64_text(tag_of(key, claim_of(seat, expires_at))).contains('.'),
        !base64_text(tag_of(other_key, claim_of(other_seat, other_expires_at))).contains('.'),
    ensures
        seat == other_seat,
        expires_at == other_expires_at,
{
    let claim = claim_of(seat, expires_at);
    let other = claim_of(other_seat, other_expires_at);
    let token = sealed(key, claim);
    lemma_parted_at_last(token, '.');
    assert(parted_at_last(token, '.') == Some((claim, base64_text(tag_of(key, claim)))));
    assert(parted_at_last(token, '.') == Some((other, base64_text(tag_of(other_key, other)))));
    lemma_decimal_has_no_dot(expires_at);
    lemma_decimal_has_no_dot(other_expires_at);
    lemma_parted_at_last(claim, '.');
    assert(parted_at_last(claim, '.') == Some((seat, decimal(expires_at as int))));
    assert(parted_at_last(claim, '.') == Some((other_seat, decimal(other_expires_at as int))));
    law_decimal_reads_back(expires_at);
    law_decimal_reads_back(other_expires_at);
}

/// A tag lifted from one token is accepted behind another claim, or under another key, only
/// where the two tags coincide.
pub proof fn law_lifted_tags_do_not_verify(
    key: Seq<u8>,
    claim: Seq<char>,
    other_key: Seq<u8>,
    other_claim: Seq<char>,
    tag: Seq<char>,
)
    requires
        !tag.contains('.'),
        accepted(key, claim + seq!['.'] + tag) is Ok,
        tag_of(key, claim) != tag_of(other_key, other_claim),
    ensures
        accepted(other_key, other_claim + seq!['.'] + tag) is Err,
{
    law_tag_vouches_for_the_claim(key, claim, tag);
    if accepted(other_key, other_claim + seq!['.'] + tag) is Ok {
        law_tag_vouches_for_the_claim(other_key, other_claim, tag);
    }
}

/// A token that is no claim, tag and two dots is refused as malformed, whatever the key.
pub proof fn law_tokens_need_two_dots(key: Seq<u8>, token: Seq<char>)
    requires
        forall|a: Seq<char>, b: Seq<char>, c: Seq<char>|
            token != #[trigger] (a + seq!['.'] + b + seq!['.'] + c),
    ensures
        accepted(key, token) == Err::<InviteModel, InviteError>(InviteError::Malformed),
{
    lemma_parted_at_last(token, '.');
    if let Some((claim, tag)) = parted_at_last(token, '.') {
        lemma_parted_at_first(claim, '.');
        if let Some((seat, expires_at)) = parted_at_first(claim, '.') {
            assert(token =~= seat + seq!['.'] + expires_at + seq!['.'] + tag);
        }
    }
}

} // verus!
