//! What a link holds, which links are accepted, and how a seat gets its id.
use vstd::prelude::*;
use vstd::utf8::encode_utf8;

use crate::config::{link, ConfigModel};
use crate::decimal::{decimal, parsed};
use crate::invite::{
    accepted, base64_bytes, base64_text, claim_of, hex_digit, hex_text, hmac_sha256, hyphenated,
    in_seat_alphabet, is_alphanumeric, key_of_drawn, law_hex_keeps_to_the_alphabet, lowercase,
    sealed, seat_id_of, slug_of, suffix_of_drawn, InviteError, InviteModel, NoRandomness,
    SigningKey,
};
use crate::text::{
    law_dropped_run_is_gone, lemma_parted_at_first, lemma_parted_at_last, parted_at_first,
    parted_at_last, without_leading, without_trailing,
};

use super::texts::law_dropped_start_is_gone;

verus! {

/// The 128 bits that vouch for a claim: the first half of its HMAC-SHA256.
pub open spec fn vouching_bytes(key: Seq<u8>, claim: Seq<char>) -> Seq<u8> {
    hmac_sha256(key, encode_utf8(claim)).take(16)
}

/// A token is the seat, the expiry in decimal, and the base64 of the first 128 bits of the HMAC of
/// the two, with dots between; a link is the token behind the public URL.
pub proof fn law_what_a_link_holds(cfg: ConfigModel, key: Seq<u8>, seat: Seq<char>, expires_at: i64)
    ensures
        sealed(key, claim_of(seat, expires_at)) == seat + seq!['.'] + decimal(expires_at as int)
            + seq!['.'] + base64_text(
            vouching_bytes(key, seat + seq!['.'] + decimal(expires_at as int)),
        ),
        forall|token: Seq<char>| #[trigger]
            link(cfg, token) == cfg.public_url + seq!['/', 'j', '/'] + token,
{
    reveal_strlit("/j/");
    assert("/j/"@ =~= seq!['/', 'j', '/']);
    assert(sealed(key, claim_of(seat, expires_at)) =~= seat + seq!['.'] + decimal(
        expires_at as int,
    ) + seq!['.'] + base64_text(
        vouching_bytes(key, seat + seq!['.'] + decimal(expires_at as int)),
    ));
}

/// A text with three parts between dots is accepted, as its first part until the number that its
/// second is, exactly where the third decodes to the bytes that vouch for the other two and the
/// second is a number. The first part holds no dot, nor does the third.
pub proof fn law_which_links_are_accepted(
    key: Seq<u8>,
    seat: Seq<char>,
    expiry: Seq<char>,
    tag: Seq<char>,
)
    requires
        !seat.contains('.'),
        !tag.contains('.'),
    ensures
        ({
            let claim = seat + seq!['.'] + expiry;
            let verdict = accepted(key, claim + seq!['.'] + tag);
            let vouched = base64_bytes(tag) == Some(vouching_bytes(key, claim));
            &&& vouched && parsed(expiry) is Some ==> verdict == Ok::<InviteModel, InviteError>(
                InviteModel { seat, expires_at: parsed(expiry)->0 },
            )
            &&& vouched && parsed(expiry) is None ==> verdict == Err::<InviteModel, InviteError>(
                InviteError::Malformed,
            )
            &&& base64_bytes(tag) is Some && !vouched ==> verdict == Err::<
                InviteModel,
                InviteError,
            >(InviteError::Signature)
            &&& base64_bytes(tag) is None ==> verdict == Err::<InviteModel, InviteError>(
                InviteError::Malformed,
            )
        }),
{
    let claim = seat + seq!['.'] + expiry;
    let token = claim + seq!['.'] + tag;
    lemma_parted_at_last(token, '.');
    assert(parted_at_last(token, '.') == Some((claim, tag)));
    lemma_parted_at_first(claim, '.');
    assert(parted_at_first(claim, '.') == Some((seat, expiry)));
}

/// An accepted token has those three parts.
pub proof fn law_accepted_links_have_three_parts(key: Seq<u8>, token: Seq<char>)
    requires
        accepted(key, token) is Ok,
    ensures
        exists|expiry: Seq<char>, tag: Seq<char>|
            token == #[trigger] ((accepted(key, token)->Ok_0).seat + seq!['.'] + expiry + seq!['.']
                + tag) && !(accepted(key, token)->Ok_0).seat.contains('.') && !tag.contains('.')
                && parsed(expiry) == Some((accepted(key, token)->Ok_0).expires_at),
{
    lemma_parted_at_last(token, '.');
    let (claim, tag) = parted_at_last(token, '.')->0;
    lemma_parted_at_first(claim, '.');
    let (seat, expiry) = parted_at_first(claim, '.')->0;
    assert((accepted(key, token)->Ok_0).seat == seat);
    assert(token =~= (accepted(key, token)->Ok_0).seat + seq!['.'] + expiry + seq!['.'] + tag);
}

/// What is drawn is what a key is made of, and a suffix its hexadecimal; a failure is handed on.
pub proof fn law_what_is_drawn_is_used(
    bytes: Vec<u8>,
    error: getrandom::Error,
    key: Result<SigningKey, NoRandomness>,
    suffix: Result<String, NoRandomness>,
)
    ensures
        key_of_drawn(Ok(bytes), key) <==> key is Ok && (key->Ok_0)@ == bytes@,
        key_of_drawn(Err(error), key) <==> key is Err && (key->Err_0).0 == error,
        suffix_of_drawn(Ok(bytes), suffix) <==> suffix is Ok && (suffix->Ok_0)@ == hex_text(bytes@),
        suffix_of_drawn(Err(error), suffix) <==> suffix is Err && (suffix->Err_0).0 == error,
{
}

/// Each byte is written as two of the sixteen digits, the high one first.
pub proof fn law_bytes_are_written_as_two_digits(bytes: Seq<u8>, i: int)
    requires
        0 <= i < bytes.len(),
    ensures
        hex_text(bytes).len() == 2 * bytes.len(),
        hex_text(bytes)[2 * i] == "0123456789abcdef"@[bytes[i] as int / 16],
        hex_text(bytes)[2 * i + 1] == "0123456789abcdef"@[bytes[i] as int % 16],
    decreases bytes.len(),
{
    law_hex_keeps_to_the_alphabet(bytes);
    law_hex_keeps_to_the_alphabet(bytes.drop_last());
    lemma_digit(bytes[i] as int / 16);
    lemma_digit(bytes[i] as int % 16);
    if i < bytes.len() - 1 {
        law_bytes_are_written_as_two_digits(bytes.drop_last(), i);
    }
}

proof fn lemma_digit(d: int)
    requires
        0 <= d < 16,
    ensures
        hex_digit(d) == "0123456789abcdef"@[d],
{
    reveal_strlit("0123456789abcdef");
}

/// ASCII letters and digits count, and a capital becomes the small letter of its place.
pub proof fn law_letters_and_digits(c: char)
    ensures
        is_alphanumeric(c) <==> 0x30 <= c as u32 <= 0x39 || 0x41 <= c as u32 <= 0x5a || 0x61
            <= c as u32 <= 0x7a,
        0x41 <= c as u32 <= 0x5a ==> lowercase(c) as u32 == c as u32 + 0x20,
        !(0x41 <= c as u32 <= 0x5a) ==> lowercase(c) == c,
        in_seat_alphabet(c) <==> 0x30 <= c as u32 <= 0x39 || 0x61 <= c as u32 <= 0x7a || c as u32
            == 0x2d,
{
}

/// A name is hyphenated from its start on: a letter or digit more stands behind what was there, in
/// lower case, and anything else is one hyphen, unless one stands there already.
pub proof fn law_names_are_hyphenated_one_by_one(name: Seq<char>, c: char)
    ensures
        hyphenated(Seq::<char>::empty()).len() == 0,
        is_alphanumeric(c) ==> hyphenated(name.push(c)) == hyphenated(name) + seq![lowercase(c)],
        !is_alphanumeric(c) && seq!['-'].is_suffix_of(hyphenated(name)) ==> hyphenated(name.push(c))
            == hyphenated(name),
        !is_alphanumeric(c) && !seq!['-'].is_suffix_of(hyphenated(name)) ==> hyphenated(
            name.push(c),
        ) == hyphenated(name) + seq!['-'],
{
    assert(name.push(c).drop_last() =~= name);
    let before = hyphenated(name);
    assert(before.push(lowercase(c)) =~= before + seq![lowercase(c)]);
    assert(before.push('-') =~= before + seq!['-']);
    if before.len() > 0 {
        assert(before.subrange(before.len() - 1, before.len() as int) =~= seq![before.last()]);
        assert(seq!['-'][0] == '-');
        if before.last() == '-' {
            assert(seq!['-'] =~= before.subrange(before.len() - 1, before.len() as int));
        } else {
            assert(seq![before.last()][0] == before.last());
        }
    }
}

/// A slug is the first 24 characters of the hyphenated name without the hyphens at their ends.
pub proof fn law_slugs_are_cut_from_the_hyphenated_name(name: Seq<char>)
    ensures
        exists|before: Seq<char>, after: Seq<char>|
            #[trigger] (before + slug_of(name) + after) == (if hyphenated(name).len() > 24 {
                hyphenated(name).take(24)
            } else {
                hyphenated(name)
            }) && (forall|i: int| 0 <= i < before.len() ==> #[trigger] before[i] == '-') && (
            forall|i: int| 0 <= i < after.len() ==> #[trigger] after[i] == '-'),
        slug_of(name).len() > 0 ==> slug_of(name).first() != '-' && slug_of(name).last() != '-',
{
    let full = hyphenated(name);
    let cut = if full.len() > 24 {
        full.take(24)
    } else {
        full
    };
    let part = without_trailing(cut, '-');
    let slug = without_leading(part, '-');
    law_dropped_run_is_gone(cut, '-');
    law_dropped_start_is_gone(part, '-');
    let before = part.take(part.len() - slug.len());
    let after = cut.skip(part.len() as int);
    assert(slug == slug_of(name));
    assert(part =~= before + slug) by {
        assert(slug =~= part.subrange(part.len() - slug.len(), part.len() as int));
    }
    assert(cut =~= part + after) by {
        assert(part =~= cut.subrange(0, part.len() as int));
    }
    assert(before + slug + after =~= cut);
    if slug.len() > 0 {
        assert(slug.last() == part.last());
    }
}

/// A seat's id is its slug and its suffix with a hyphen between, and `guest` where there is no
/// slug.
pub proof fn law_what_a_seat_id_holds(name: Seq<char>, suffix: Seq<char>)
    ensures
        slug_of(name).len() > 0 ==> seat_id_of(name, suffix) == slug_of(name) + seq!['-'] + suffix,
        slug_of(name).len() == 0 ==> seat_id_of(name, suffix) == seq!['g', 'u', 'e', 's', 't', '-']
            + suffix,
{
    reveal_strlit("guest-");
    assert("guest-"@ =~= seq!['g', 'u', 'e', 's', 't', '-']);
}

} // verus!
