//! Invite links, seat ids and the numbers in them.
use greenroom::decimal::{format_i64, parse_i64};
use greenroom::invite::{
    constant_time_eq, hex, random_suffix, seat_id, suffix_from, Invite, InviteError, NoRandomness,
    SigningKey,
};

fn key() -> SigningKey {
    SigningKey::from_secret(b"test-key")
}

#[test]
fn a_minted_token_verifies_to_its_claim() {
    let token = key().mint("alice-1f2e", 1_757_000_000);
    assert_eq!(
        key().verify(&token).unwrap(),
        Invite {
            seat: "alice-1f2e".into(),
            expires_at: 1_757_000_000
        }
    );
}

#[test]
fn a_tampered_seat_or_expiry_does_not_verify() {
    let token = key().mint("alice-1f2e", 1_757_000_000);
    let (_, tag) = token.rsplit_once('.').unwrap();
    for forged in [
        format!("bob-1f2e.1757000000.{tag}"),
        format!("alice-1f2e.9757000000.{tag}"),
    ] {
        assert!(key().verify(&forged).is_err(), "{forged} verified");
    }
}

#[test]
fn another_key_does_not_verify() {
    let token = key().mint("alice-1f2e", 1_757_000_000);
    assert!(
        SigningKey::from_secret(b"other-key")
            .verify(&token)
            .is_err()
    );
}

#[test]
fn malformed_tokens_are_refused_rather_than_panicking() {
    for token in ["", ".", "alice", "alice.notanumber.AAAAAAAAAAAAAAAAAAAAAA", "a.1.!!"] {
        assert!(key().verify(token).is_err(), "{token:?} verified");
    }
}

#[test]
fn seat_ids_keep_only_what_every_downstream_id_accepts() {
    assert_eq!(seat_id("Alice", "1f2e"), "alice-1f2e");
    assert_eq!(seat_id("Ada Lovelace", "1f2e"), "ada-lovelace-1f2e");
    assert_eq!(seat_id("  Zoë!! ", "1f2e"), "zo-1f2e");
    assert_eq!(seat_id("", "1f2e"), "guest-1f2e");
    assert_eq!(seat_id("!!!", "1f2e"), "guest-1f2e");
    assert!(seat_id(&"x".repeat(200), "1f2e").len() <= 30);
}

#[test]
fn tokens_carry_the_truncated_hmac_in_url_safe_base64() {
    assert_eq!(
        key().mint("alice-1f2e", 1_757_000_000),
        "alice-1f2e.1757000000.mZB48welYkPkj8LQkt-MdQ"
    );
    assert_eq!(key().mint("alice-1f2e", -5), "alice-1f2e.-5.NjsByt4ErP4ixSOtGzxdRg");
    assert_eq!(key().mint("alice-1f2e", 1), "alice-1f2e.1.5_Qla8t_-Gh6TK8LsoLHSw");
}

#[test]
fn keys_of_any_length_sign() {
    assert_eq!(
        SigningKey::from_secret(b"").mint("alice-1f2e", 1_757_000_000),
        "alice-1f2e.1757000000.soJEy3aLbZR73hWkK4nTxg"
    );
    assert_eq!(
        SigningKey::from_secret(&[b'k'; 100]).mint("guest-00ff", 0),
        "guest-00ff.0.INfbkw6tXyYUoC2w5E4r5Q"
    );
}

#[test]
fn refusals_say_what_is_wrong() {
    assert_eq!(key().verify("alice"), Err(InviteError::Malformed));
    assert_eq!(key().verify("alice.AAAAAAAAAAAAAAAAAAAAAA"), Err(InviteError::Malformed));
    assert_eq!(key().verify("a.1.!!"), Err(InviteError::Malformed));
    // Padding is no part of a tag, nor are bits behind its last byte.
    assert_eq!(
        key().verify("alice-1f2e.1757000000.mZB48welYkPkj8LQkt-MdQ=="),
        Err(InviteError::Malformed)
    );
    assert_eq!(
        key().verify("alice-1f2e.1757000000.mZB48welYkPkj8LQkt-MdR"),
        Err(InviteError::Malformed)
    );
    assert_eq!(
        key().verify("alice.1.AAAAAAAAAAAAAAAAAAAAAA"),
        Err(InviteError::Signature)
    );
    // Too short a tag is no tag.
    assert_eq!(
        key().verify("alice-1f2e.1757000000.mZB4"),
        Err(InviteError::Signature)
    );
    // The tag is judged before the expiry is read.
    assert_eq!(
        key().verify("alice.notanumber.AAAAAAAAAAAAAAAAAAAAAA"),
        Err(InviteError::Signature)
    );
    assert_eq!(
        key().verify("alice.notanumber.7J2BmY1emqR_mbSe-ClGBA"),
        Err(InviteError::Malformed)
    );
    assert_eq!(key().verify("alice..cwMZAHg9rTvXEFHV4EDYRQ"), Err(InviteError::Malformed));
    assert_eq!(
        key().verify("alice.9223372036854775808.V4-25yPjqo-77q8xhYAJVQ"),
        Err(InviteError::Malformed)
    );
    assert_eq!(InviteError::Malformed.message(), "malformed invite");
    assert_eq!(InviteError::Signature.message(), "invite signature does not verify");
}

#[test]
fn expiries_are_read_as_whole_numbers() {
    for (token, expires_at) in [
        ("alice.+7.zGy7Ga4uDkuR3DFdr-WNsg", 7),
        ("alice.-0.KlKZFQGGYqd89hnzRk7-0w", 0),
        ("alice.9223372036854775807.O99Ol2akoYhOyjvP6DVwbQ", i64::MAX),
    ] {
        let invite = key().verify(token).unwrap();
        assert_eq!(invite.seat, "alice");
        assert_eq!(invite.expires_at, expires_at);
    }
}

#[test]
fn a_seat_with_a_dot_does_not_come_back() {
    let token = key().mint("a.b", 1);
    assert_eq!(token, "a.b.1.voHVa5-wd0nyHuJ3u8CwRQ");
    // The claim parts at its first dot, which leaves no expiry.
    assert_eq!(key().verify(&token), Err(InviteError::Malformed));
}

#[test]
fn tokens_of_different_claims_differ() {
    let claims = [("a", 1), ("a", 11), ("a.1", 1), ("a.1", -1), ("a.", 1), ("", 1), (".", 1)];
    for (i, (seat, expires_at)) in claims.iter().enumerate() {
        let token = key().mint(seat, *expires_at);
        let (claim, tag) = token.rsplit_once('.').unwrap();
        assert_eq!(claim, format!("{seat}.{expires_at}"));
        assert_eq!(tag.len(), 22);
        for (other_seat, other_expires_at) in &claims[i + 1..] {
            assert_ne!(token, key().mint(other_seat, *other_expires_at));
        }
    }
}

#[test]
fn tokens_are_signed_over_their_bytes() {
    let invite = key().verify("zoë.12.1cImcy5fnGihGmiGqHtbgw").unwrap();
    assert_eq!(invite.seat, "zoë");
    assert_eq!(invite.expires_at, 12);
}

#[test]
fn a_generated_key_signs_for_itself_alone() {
    let one = SigningKey::generate().unwrap();
    let other = SigningKey::generate().unwrap();
    let token = one.mint("alice-1f2e", 1);
    assert!(one.verify(&token).is_ok());
    assert!(other.verify(&token).is_err());
    assert!(SigningKey::from_secret(&[0u8; 32]).verify(&token).is_err());
}

#[test]
fn random_suffixes_are_four_hexadecimal_digits() {
    let mut seen = Vec::new();
    for _ in 0..64 {
        let suffix = random_suffix().unwrap();
        assert_eq!(suffix.len(), 4);
        assert!(suffix.chars().all(|c| matches!(c, '0'..='9' | 'a'..='f')), "{suffix}");
        seen.push(suffix);
    }
    assert!(seen.iter().any(|suffix| *suffix != seen[0]));
}

#[test]
fn what_is_drawn_is_what_a_key_or_a_suffix_is_made_of() {
    let key = SigningKey::from_random(Ok(b"test-key".to_vec())).unwrap();
    assert_eq!(
        key.mint("alice-1f2e", 1_757_000_000),
        "alice-1f2e.1757000000.mZB48welYkPkj8LQkt-MdQ"
    );
    assert_eq!(suffix_from(Ok(vec![0x1f, 0x2e])).unwrap(), "1f2e");
}

#[test]
fn a_failed_draw_is_handed_on() {
    let NoRandomness(error) =
        SigningKey::from_random(Err(getrandom::Error::UNSUPPORTED)).unwrap_err();
    assert_eq!(error, getrandom::Error::UNSUPPORTED);
    let NoRandomness(error) = suffix_from(Err(getrandom::Error::UNEXPECTED)).unwrap_err();
    assert_eq!(error, getrandom::Error::UNEXPECTED);
}

#[test]
fn hexadecimal_has_two_lower_case_digits_a_byte() {
    assert_eq!(hex(&[]), "");
    assert_eq!(hex(&[0x00, 0x0f, 0xa5, 0xff]), "000fa5ff");
}

#[test]
fn slugs_are_cut_and_keep_no_hyphen_at_their_ends() {
    assert_eq!(seat_id(&"x".repeat(200), "1f2e"), format!("{}-1f2e", "x".repeat(24)));
    assert_eq!(seat_id("  --A__b  C--  ", "0"), "a-b-c-0");
    // The cut can fall behind a hyphen, which then goes too.
    let name = format!("{} y", "x".repeat(23));
    assert_eq!(seat_id(&name, "1f2e"), format!("{}-1f2e", "x".repeat(23)));
    assert_eq!(seat_id("ÀÉÎ 7", "1f2e"), "7-1f2e");
    assert_eq!(seat_id("名前", ""), "guest-");
}

#[test]
fn bytes_are_compared_whole() {
    assert!(constant_time_eq(b"", b""));
    assert!(constant_time_eq(b"secret", b"secret"));
    assert!(!constant_time_eq(b"secret", b"secreT"));
    assert!(!constant_time_eq(b"secret", b"Secret"));
    assert!(!constant_time_eq(b"secret", b"secre"));
    assert!(!constant_time_eq(b"", b"s"));
}

#[test]
fn numbers_read_back_as_they_were_written() {
    for i in [0, 7, -7, 10, -10, 1_757_000_000, i64::MAX, i64::MIN, i64::MIN + 1] {
        assert_eq!(format_i64(i), i.to_string());
        assert_eq!(parse_i64(&format_i64(i)), Some(i));
    }
    for text in [
        "", "+", "-", "--1", "+-1", " 1", "1 ", "1_000", "٣", "0x10", "12a", "-9223372036854775809",
        "007", "+0", "-0", "9223372036854775807", "-9223372036854775808", "99999999999999999999",
    ] {
        assert_eq!(parse_i64(text), text.parse::<i64>().ok(), "{text:?}");
    }
}
