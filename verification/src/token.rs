//! Routing tokens: the rotating names under which the relay holds messages.
use vstd::prelude::*;

use crate::crypto::{hmac_sha256, hmac_sha256_of};
use crate::encoding::{hex_encode, hex_text, hex_value, law_hex_has_two_digits_per_byte};

verus! {

/// A token is in use for this many seconds.
pub const TOKEN_PERIOD: u64 = 300;

/// The number of bytes of the code that a token shows.
pub const TOKEN_BYTES: usize = 8;

/// The eight bytes of a number below 2^64, the highest first.
pub open spec fn be64(n: int) -> Seq<u8> {
    seq![
        (n / 0x100_0000_0000_0000 % 0x100) as u8,
        (n / 0x1_0000_0000_0000 % 0x100) as u8,
        (n / 0x100_0000_0000 % 0x100) as u8,
        (n / 0x1_0000_0000 % 0x100) as u8,
        (n / 0x100_0000 % 0x100) as u8,
        (n / 0x1_0000 % 0x100) as u8,
        (n / 0x100 % 0x100) as u8,
        (n % 0x100) as u8,
    ]
}

/// The eight bytes of `n`, the highest first.
fn to_be64(n: u64) -> (r: [u8; 8])
    ensures
        r@ == be64(n as int),
{
    let r = [
        (n / 0x100_0000_0000_0000) as u8,
        (n / 0x1_0000_0000_0000 % 0x100) as u8,
        (n / 0x100_0000_0000 % 0x100) as u8,
        (n / 0x1_0000_0000 % 0x100) as u8,
        (n / 0x100_0000 % 0x100) as u8,
        (n / 0x1_0000 % 0x100) as u8,
        (n / 0x100 % 0x100) as u8,
        (n % 0x100) as u8,
    ];
    assert(r@ =~= be64(n as int));
    r
}

/// The number of the period that a time in seconds falls into.
pub open spec fn period_of(unix_secs: int) -> int {
    unix_secs / TOKEN_PERIOD as int
}

/// The token of a public key during the period with the given number.
pub open spec fn token_in_period(public_key: Seq<u8>, period: int) -> Seq<char> {
    hex_text(hmac_sha256_of(public_key, be64(period)).take(TOKEN_BYTES as int))
}

/// The token of a public key at a time in seconds.
pub open spec fn routing_token(public_key: Seq<u8>, unix_secs: int) -> Seq<char> {
    token_in_period(public_key, period_of(unix_secs))
}

/// The token of a public key at the given time: the beginning of the HMAC-SHA256, under the key, of
/// the number of the period. Sender and receiver both compute it for themselves.
pub fn derive_routing_token(public_key_bytes: &[u8], unix_secs: u64) -> (r: String)
    ensures
        r@ == routing_token(public_key_bytes@, unix_secs as int),
        r@.len() == 16,
{
    let period_index: u64 = unix_secs / TOKEN_PERIOD;
    let code = hmac_sha256(public_key_bytes, &to_be64(period_index));
    let shown = vstd::slice::slice_subrange(code.as_slice(), 0, TOKEN_BYTES);
    assert(shown@ =~= code@.take(TOKEN_BYTES as int));
    hex_encode(shown)
}

/// The number of seconds until the token changes.
pub fn secs_until_rotation(unix_secs: u64) -> (r: u64)
    ensures
        r == TOKEN_PERIOD - unix_secs % TOKEN_PERIOD,
        1 <= r <= TOKEN_PERIOD,
{
    TOKEN_PERIOD - unix_secs % TOKEN_PERIOD
}

/// A token stays the same throughout its period.
pub proof fn law_token_is_stable(public_key: Seq<u8>, earlier: int, later: int)
    requires
        period_of(earlier) == period_of(later),
    ensures
        routing_token(public_key, earlier) == routing_token(public_key, later),
{
}

/// The number that eight bytes stand for, the highest first.
pub open spec fn be64_value(b: Seq<u8>) -> int {
    ((((((b[0] * 0x100 + b[1]) * 0x100 + b[2]) * 0x100 + b[3]) * 0x100 + b[4]) * 0x100 + b[5]) * 0x100 + b[6]) * 0x100
        + b[7]
}

proof fn lemma_be64_value(n: int)
    requires
        0 <= n < 0x1_0000_0000_0000_0000,
    ensures
        be64_value(be64(n)) == n,
{
    let q1 = n / 0x100;
    let q2 = q1 / 0x100;
    let q3 = q2 / 0x100;
    let q4 = q3 / 0x100;
    let q5 = q4 / 0x100;
    let q6 = q5 / 0x100;
    let q7 = q6 / 0x100;
    assert(n / 0x1_0000 == q2);
    assert(n / 0x100_0000 == q3);
    assert(n / 0x1_0000_0000 == q4);
    assert(n / 0x100_0000_0000 == q5);
    assert(n / 0x1_0000_0000_0000 == q6);
    assert(n / 0x100_0000_0000_0000 == q7);
    assert(0 <= q7 < 0x100);
}

/// Each period has a message of its own for the code that makes its token.
pub proof fn law_periods_are_told_apart(p: int, q: int)
    requires
        0 <= p < 0x1_0000_0000_0000_0000,
        0 <= q < 0x1_0000_0000_0000_0000,
        p != q,
    ensures
        be64(p) != be64(q),
{
    lemma_be64_value(p);
    lemma_be64_value(q);
}

/// The token changes when the time until rotation has passed, and not before.
pub proof fn law_rotation_ends_the_period(unix_secs: int, wait: int, sooner: int)
    requires
        0 <= unix_secs,
        wait == TOKEN_PERIOD - unix_secs % TOKEN_PERIOD as int,
        0 <= sooner < wait,
    ensures
        period_of(unix_secs + wait) == period_of(unix_secs) + 1,
        period_of(unix_secs + sooner) == period_of(unix_secs),
{
}

/// One period back from any time stands the token of the period before.
pub proof fn law_previous_token(public_key: Seq<u8>, sent: int, read: int)
    requires
        0 <= sent,
        period_of(read) == period_of(sent) + 1,
    ensures
        routing_token(public_key, read - TOKEN_PERIOD) == routing_token(public_key, sent),
{
}

/// A token is the beginning of the code that the key makes of the number of the period: its sixteen
/// hexadecimal digits are the first eight bytes of the HMAC-SHA256, under the key, of the eight bytes,
/// highest first, of the time in units of five minutes.
pub proof fn law_token_is_the_code_of_the_period(public_key: Seq<u8>, unix_secs: int, message: Seq<u8>, i: int)
    requires
        0 <= unix_secs < 0x1_0000_0000_0000_0000,
        message.len() == 8,
        message[0] * 0x100_0000_0000_0000 + message[1] * 0x1_0000_0000_0000 + message[2] * 0x100_0000_0000 + message[3]
            * 0x1_0000_0000 + message[4] * 0x100_0000 + message[5] * 0x1_0000 + message[6] * 0x100 + message[7]
            == unix_secs / 300,
        hmac_sha256_of(public_key, message).len() == 32,
        0 <= i < 8,
    ensures
        routing_token(public_key, unix_secs).len() == 16,
        hex_value(routing_token(public_key, unix_secs)[2 * i]) == Some(
            hmac_sha256_of(public_key, message)[i] as int / 16,
        ),
        hex_value(routing_token(public_key, unix_secs)[2 * i + 1]) == Some(
            hmac_sha256_of(public_key, message)[i] as int % 16,
        ),
{
    let n = unix_secs / 300;
    let b = be64(n);
    lemma_be64_value(n);
    lemma_same_be64(b, message);
    law_hex_has_two_digits_per_byte(hmac_sha256_of(public_key, message).take(8), i);
}

proof fn lemma_same_digits(a: int, x: int, b: int, y: int)
    requires
        0 <= x < 0x100,
        0 <= y < 0x100,
        a * 0x100 + x == b * 0x100 + y,
    ensures
        a == b,
        x == y,
{
}

proof fn lemma_same_be64(a: Seq<u8>, b: Seq<u8>)
    requires
        a.len() == 8,
        b.len() == 8,
        be64_value(a) == be64_value(b),
    ensures
        a == b,
{
    let a1 = a[0] * 0x100 + a[1];
    let a2 = a1 * 0x100 + a[2];
    let a3 = a2 * 0x100 + a[3];
    let a4 = a3 * 0x100 + a[4];
    let a5 = a4 * 0x100 + a[5];
    let a6 = a5 * 0x100 + a[6];
    let b1 = b[0] * 0x100 + b[1];
    let b2 = b1 * 0x100 + b[2];
    let b3 = b2 * 0x100 + b[3];
    let b4 = b3 * 0x100 + b[4];
    let b5 = b4 * 0x100 + b[5];
    let b6 = b5 * 0x100 + b[6];
    lemma_same_digits(a6, a[7] as int, b6, b[7] as int);
    lemma_same_digits(a5, a[6] as int, b5, b[6] as int);
    lemma_same_digits(a4, a[5] as int, b4, b[5] as int);
    lemma_same_digits(a3, a[4] as int, b3, b[4] as int);
    lemma_same_digits(a2, a[3] as int, b2, b[3] as int);
    lemma_same_digits(a1, a[2] as int, b1, b[2] as int);
    lemma_same_digits(a[0] as int, a[1] as int, b[0] as int, b[1] as int);
    assert(a =~= b);
}

/// A token is in use for five minutes, from one whole multiple of them to the next: two times have the
/// same token if no multiple of 300 seconds lies between them.
pub proof fn law_token_lasts_five_minutes(public_key: Seq<u8>, period: int, earlier: int, later: int)
    requires
        0 <= period,
        300 * period <= earlier < 300 * (period + 1),
        300 * period <= later < 300 * (period + 1),
    ensures
        routing_token(public_key, earlier) == routing_token(public_key, later),
{
}

/// Sender and receiver come to the same token whenever they ask within the same five minutes, and how long
/// it lasts is how long it is until the next multiple of them.
pub proof fn law_deriving_tokens(
    public_key: &[u8],
    earlier: u64,
    later: u64,
    sent: String,
    read: String,
    wait: u64,
)
    requires
        call_ensures(derive_routing_token, (public_key, earlier), sent),
        call_ensures(derive_routing_token, (public_key, later), read),
        call_ensures(secs_until_rotation, (earlier,), wait),
    ensures
        earlier as int / 300 == later as int / 300 ==> sent@ == read@,
        earlier <= later < earlier + wait ==> sent@ == read@,
        earlier + wait == 300 * (earlier as int / 300 + 1),
        sent@ == routing_token(public_key@, earlier as int),
        sent@.len() == 16,
{
    if earlier <= later < earlier + wait {
        law_token_lasts_five_minutes(public_key@, earlier as int / 300, earlier as int, later as int);
    }
}

} // verus!
