use vstd::prelude::*;

verus! {

/// The lowercase hexadecimal digit of a value below sixteen.
pub open spec fn hex_digit(n: int) -> char {
    if n < 10 {
        (n + 48) as char
    } else {
        (n + 87) as char
    }
}

/// The `count` lowest hexadecimal digits of `x`, most significant first.
pub open spec fn hex_digits(x: nat, count: nat) -> Seq<char>
    decreases count,
{
    if count == 0 {
        Seq::empty()
    } else {
        hex_digits(x / 16, (count - 1) as nat).push(hex_digit((x % 16) as int))
    }
}

/// The hyphenated lowercase text of a 128-bit identifier, grouped 8-4-4-4-12,
/// as in `67e55044-10b1-426f-9247-bb680e5fe0c8`.
pub open spec fn uuid_text(id: u128) -> Seq<char> {
    let d = hex_digits(id as nat, 32);
    d.subrange(0, 8) + seq!['-'] + d.subrange(8, 12) + seq!['-'] + d.subrange(12, 16) + seq!['-']
        + d.subrange(16, 20) + seq!['-'] + d.subrange(20, 32)
}

/// The value of a hexadecimal digit, of either case.
pub open spec fn hex_value(c: char) -> Option<nat> {
    let n = c as int;
    if 48 <= n <= 57 {
        Some((n - 48) as nat)
    } else if 97 <= n <= 102 {
        Some((n - 87) as nat)
    } else if 65 <= n <= 70 {
        Some((n - 55) as nat)
    } else {
        None
    }
}

/// The number that a run of hexadecimal digits spells, most significant
/// first; `None` where a character is no hexadecimal digit.
pub open spec fn hex_number(s: Seq<char>) -> Option<nat>
    decreases s.len(),
{
    if s.len() == 0 {
        Some(0)
    } else {
        match (hex_number(s.drop_last()), hex_value(s.last())) {
            (Some(high), Some(low)) => Some(high * 16 + low),
            _ => None,
        }
    }
}

/// The value of a hyphenated identifier text: 36 characters with hyphens at
/// positions 8, 13, 18 and 23 and hexadecimal digits elsewhere.
pub open spec fn hyphenated_value(s: Seq<char>) -> Option<nat> {
    if s.len() == 36 && s[8] == '-' && s[13] == '-' && s[18] == '-' && s[23] == '-' {
        hex_number(
            s.subrange(0, 8) + s.subrange(9, 13) + s.subrange(14, 18) + s.subrange(19, 23)
                + s.subrange(24, 36),
        )
    } else {
        None
    }
}

/// A character with ASCII upper case letters taken to lower case.
pub open spec fn ascii_lower(c: char) -> char {
    if 65 <= c as int <= 90 {
        ((c as int) + 32) as char
    } else {
        c
    }
}

/// The identifier that a text spells: 32 hexadecimal digits; or the
/// hyphenated form; or the hyphenated form in braces; or the hyphenated form
/// after `urn:uuid:` in any case. Digits may be of either case.
pub open spec fn parsed_uuid(text: Seq<char>) -> Option<u128> {
    let value = if text.len() == 32 {
        hex_number(text)
    } else if text.len() == 36 {
        hyphenated_value(text)
    } else if text.len() == 38 && text[0] == '{' && text[37] == '}' {
        hyphenated_value(text.subrange(1, 37))
    } else if text.len() == 45 && forall|i: int|
        0 <= i < 9 ==> #[trigger] ascii_lower(text[i]) == "urn:uuid:"@[i] {
        hyphenated_value(text.subrange(9, 45))
    } else {
        None
    };
    match value {
        Some(n) => Some(n as u128),
        None => None,
    }
}

/// Sixteen to the power `n`.
pub open spec fn pow16(n: nat) -> nat
    decreases n,
{
    if n == 0 {
        1
    } else {
        16 * pow16((n - 1) as nat)
    }
}

proof fn lemma_hex_digit_value(n: int)
    requires
        0 <= n < 16,
    ensures
        hex_value(hex_digit(n)) == Some(n as nat),
{
}

proof fn lemma_pow16_positive(n: nat)
    ensures
        pow16(n) > 0,
    decreases n,
{
    if n > 0 {
        lemma_pow16_positive((n - 1) as nat);
    }
}

proof fn lemma_hex_digits_len(x: nat, count: nat)
    ensures
        hex_digits(x, count).len() == count,
    decreases count,
{
    if count > 0 {
        lemma_hex_digits_len(x / 16, (count - 1) as nat);
    }
}

proof fn lemma_hex_number_of_digits(x: nat, count: nat)
    ensures
        hex_number(hex_digits(x, count)) == Some(x % pow16(count)),
    decreases count,
{
    if count == 0 {
        assert(hex_digits(x, 0) =~= Seq::<char>::empty());
    } else {
        let p = pow16((count - 1) as nat);
        lemma_pow16_positive((count - 1) as nat);
        lemma_hex_number_of_digits(x / 16, (count - 1) as nat);
        let d = hex_digits(x, count);
        assert(d.drop_last() =~= hex_digits(x / 16, (count - 1) as nat));
        lemma_hex_digit_value((x % 16) as int);
        vstd::arithmetic::div_mod::lemma_mod_breakdown(x as int, 16, p as int);
        assert((x as int) % (16 * (p as int)) == 16 * (((x as int) / 16) % (p as int)) + (x as int) % 16);
    }
}

/// The text of an identifier has 36 characters.
pub proof fn lemma_uuid_text_len(x: u128)
    ensures
        uuid_text(x).len() == 36,
{
    lemma_hex_digits_len(x as nat, 32);
}

proof fn lemma_hex_digits_lowercase(x: nat, count: nat)
    ensures
        forall|i: int|
            0 <= i < hex_digits(x, count).len() ==> ('0' <= #[trigger] hex_digits(x, count)[i]
                <= '9' || 'a' <= hex_digits(x, count)[i] <= 'f'),
    decreases count,
{
    if count > 0 {
        lemma_hex_digits_lowercase(x / 16, (count - 1) as nat);
        let d = hex_digits(x, count);
        let k = (x % 16) as int;
        assert(hex_digit(k) as int == if k < 10 { k + 48 } else { k + 87 });
        assert forall|i: int| 0 <= i < d.len() implies ('0' <= #[trigger] d[i] <= '9' || 'a' <= d[i]
            <= 'f') by {
            if i < d.len() - 1 {
                assert(d[i] == hex_digits(x / 16, (count - 1) as nat)[i]);
            }
        }
    }
}

/// Every identifier's text is 36 characters: hyphens at positions 8, 13, 18
/// and 23, and lowercase hexadecimal digits everywhere else.
pub proof fn law_uuid_text_is_lowercase_hyphenated(x: u128)
    ensures
        uuid_text(x).len() == 36,
        forall|i: int|
            0 <= i < 36 ==> (#[trigger] uuid_text(x)[i] == '-' <==> (i == 8 || i == 13 || i == 18
                || i == 23)),
        forall|i: int|
            0 <= i < 36 && i != 8 && i != 13 && i != 18 && i != 23 ==> ('0' <= #[trigger] uuid_text(
                x,
            )[i] <= '9' || 'a' <= uuid_text(x)[i] <= 'f'),
{
    let d = hex_digits(x as nat, 32);
    lemma_hex_digits_len(x as nat, 32);
    lemma_hex_digits_lowercase(x as nat, 32);
    let t = uuid_text(x);
    assert forall|i: int| 0 <= i < 36 && i != 8 && i != 13 && i != 18 && i != 23 implies ('0'
        <= #[trigger] t[i] <= '9' || 'a' <= t[i] <= 'f') && t[i] != '-' by {
        if i < 8 {
            assert(t[i] == d[i]);
        } else if i < 13 {
            assert(t[i] == d[i - 1]);
        } else if i < 18 {
            assert(t[i] == d[i - 2]);
        } else if i < 23 {
            assert(t[i] == d[i - 3]);
        } else {
            assert(t[i] == d[i - 4]);
        }
    }
}

/// The text of an identifier parses back to it.
pub proof fn lemma_uuid_text_parses(x: u128)
    ensures
        parsed_uuid(uuid_text(x)) == Some(x),
{
    let d = hex_digits(x as nat, 32);
    lemma_hex_digits_len(x as nat, 32);
    let t = uuid_text(x);
    assert(t.len() == 36);
    assert(t[8] == '-' && t[13] == '-' && t[18] == '-' && t[23] == '-');
    assert(t.subrange(0, 8) + t.subrange(9, 13) + t.subrange(14, 18) + t.subrange(19, 23)
        + t.subrange(24, 36) =~= d);
    lemma_hex_number_of_digits(x as nat, 32);
    assert(pow16(32) == 0x1_0000_0000_0000_0000_0000_0000_0000_0000) by {
        reveal_with_fuel(pow16, 33);
    }
}

/// Whether an identifier carries the version and variant bits of a random
/// (version 4, RFC 4122) identifier.
pub open spec fn is_random_id(id: u128) -> bool {
    &&& (id >> 76u128) & 0xfu128 == 4
    &&& (id >> 62u128) & 0x3u128 == 2
}

/// The text of an identifier, by `uuid::Uuid`'s `Display`, which writes the
/// hyphenated lowercase form of the big-endian bytes.
#[verifier::external_body]
pub fn format_id(id: u128) -> (text: String)
    ensures
        text@ == uuid_text(id),
{
    uuid::Uuid::from_u128(id).to_string()
}

/// Parses an identifier with `uuid::Uuid::parse_str`, which is also what
/// `str::parse::<Uuid>` calls. Claimed: the result is `parsed_uuid` of the
/// text: the simple, hyphenated, braced and URN forms with hexadecimal digits
/// of either case, and nothing else.
#[verifier::external_body]
pub fn parse_id(text: &str) -> (id: Option<u128>)
    ensures
        id == parsed_uuid(text@),
{
    match uuid::Uuid::parse_str(text) {
        Ok(u) => Some(u.as_u128()),
        Err(_) => None,
    }
}

/// A fresh random identifier from `uuid::Uuid::new_v4`. Claimed: only that
/// its version nibble is 4 and its variant bits are `10`, which the source
/// sets after drawing the random bits; the rest is chance.
#[verifier::external_body]
pub fn random_id() -> (id: u128)
    ensures
        is_random_id(id),
{
    uuid::Uuid::new_v4().as_u128()
}

} // verus!
