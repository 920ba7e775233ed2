//! Fresh connection tokens and request tags drawn from the system's secure
//! random source.
use vstd::prelude::*;
use ring::rand::SecureRandom;
use crate::text::{hex_of_bytes, hex_token, push_char};

verus! {

#[verifier::external_type_specification]
#[verifier::external_body]
pub struct ExSystemRandom(ring::rand::SystemRandom);

pub assume_specification[ ring::rand::SystemRandom::new ]() -> ring::rand::SystemRandom;

/// Relies on ring's `SecureRandom::fill` for `SystemRandom`: it writes random
/// bytes into the buffer in place, and reports whether it could.
#[verifier::external_body]
fn fill_bytes(rng: &ring::rand::SystemRandom, buf: &mut Vec<u8>) -> (ok: bool)
    ensures
        final(buf)@.len() == old(buf)@.len(),
{
    rng.fill(buf.as_mut_slice()).is_ok()
}

/// Bytes in a request tag.
pub const TAG_BYTES: usize = 16;

/// Bytes in a connection token.
pub const STATE_BYTES: usize = 32;

/// Draws of the random source tried before giving up.
pub const DRAW_ATTEMPTS: usize = 8;

/// Whether `t` is some string of `n` random bytes written by `hex_token`.
pub open spec fn is_token(t: Seq<char>, n: nat) -> bool {
    exists|bs: Seq<u8>| bs.len() == n && t == hex_of_bytes(bs)
}

/// `n` zero bytes, filled in place by the random source: whether the draw
/// succeeded, and the buffer.
pub fn draw_bytes(rng: &ring::rand::SystemRandom, n: usize) -> (r: (bool, Vec<u8>))
    ensures
        r.1@.len() == n,
{
    let mut buf: Vec<u8> = Vec::new();
    let mut i: usize = 0;
    while i < n
        invariant
            i <= n,
            buf@.len() == i,
        decreases n - i,
    {
        buf.push(0u8);
        i = i + 1;
    }
    let ok = fill_bytes(rng, &mut buf);
    (ok, buf)
}

/// The token a draw gives: the bytes in hexadecimal when the draw
/// succeeded, `None` when it failed.
pub fn token_from_fill(filled: bool, bytes: &Vec<u8>) -> (r: Option<String>)
    ensures
        filled ==> (r matches Some(t) && t@ == hex_of_bytes(bytes@)),
        !filled ==> r is None,
{
    if filled {
        Some(hex_token(bytes))
    } else {
        None
    }
}

/// A fresh token of `n_bytes` random bytes in hexadecimal, from a single
/// draw; `None` when that draw failed.
pub fn random_token(rng: &ring::rand::SystemRandom, n_bytes: usize) -> (r: Option<String>)
    ensures
        r matches Some(t) ==> is_token(t@, n_bytes as nat),
{
    let (ok, bytes) = draw_bytes(rng, n_bytes);
    let r = token_from_fill(ok, &bytes);
    proof {
        if r is Some {
            assert(bytes@.len() == n_bytes && r.unwrap()@ == hex_of_bytes(bytes@));
        }
    }
    r
}

/// A fresh token of `n_bytes` random bytes in hexadecimal, drawing again
/// after a failed draw, up to `attempts` draws; `None` only once every one
/// of them failed.
pub fn random_token_retrying(rng: &ring::rand::SystemRandom, n_bytes: usize, attempts: usize) -> (r: Option<String>)
    ensures
        attempts == 0 ==> r is None,
        r matches Some(t) ==> is_token(t@, n_bytes as nat),
{
    let mut tries: usize = 0;
    while tries < attempts
        invariant
            tries <= attempts,
        decreases attempts - tries,
    {
        match random_token(rng, n_bytes) {
            Some(t) => return Some(t),
            None => {},
        }
        tries = tries + 1;
    }
    None
}

/// The upper-case hexadecimal digit of `d`.
pub open spec fn upper_digit(d: nat) -> char {
    if d < 10 {
        ((d + 48) as u8) as char
    } else {
        ((d + 55) as u8) as char
    }
}

/// A colour `#RRGGBB` from three bytes.
pub open spec fn color_of(b: Seq<u8>) -> Seq<char> {
    seq!['#', upper_digit((b[0] / 16) as nat), upper_digit((b[0] % 16) as nat),
        upper_digit((b[1] / 16) as nat), upper_digit((b[1] % 16) as nat),
        upper_digit((b[2] / 16) as nat), upper_digit((b[2] % 16) as nat)]
}

fn upper_char(d: u8) -> (c: char)
    requires
        d < 16,
    ensures
        c == upper_digit(d as nat),
{
    if d < 10 {
        ((d + 48) as u8) as char
    } else {
        ((d + 55) as u8) as char
    }
}

/// Writes three bytes as a colour: see `color_of`.
pub fn color_from_bytes(b: &Vec<u8>) -> (r: String)
    requires
        b@.len() == 3,
    ensures
        r@ == color_of(b@),
{
    let mut r = String::new();
    push_char(&mut r, '#');
    let mut i: usize = 0;
    while i < 3
        invariant
            b@.len() == 3,
            i <= 3,
            r@ == color_of(b@).subrange(0, 1 + 2 * i),
        decreases 3 - i,
    {
        push_char(&mut r, upper_char(b[i] / 16));
        push_char(&mut r, upper_char(b[i] % 16));
        assert(r@ =~= color_of(b@).subrange(0, 1 + 2 * (i + 1)));
        i = i + 1;
    }
    assert(color_of(b@).subrange(0, 7) =~= color_of(b@));
    r
}

/// A random chat colour `#RRGGBB`; `None` when the random source kept
/// failing.
pub fn random_chatter_color(rng: &ring::rand::SystemRandom) -> (r: Option<String>)
    ensures
        r matches Some(c) ==> exists|b: Seq<u8>| b.len() == 3 && c@ == color_of(b),
{
    let mut tries: usize = 0;
    while tries < DRAW_ATTEMPTS
        invariant
            tries <= DRAW_ATTEMPTS,
        decreases DRAW_ATTEMPTS - tries,
    {
        let (ok, buf) = draw_bytes(rng, 3);
        if ok {
            let c = color_from_bytes(&buf);
            assert(buf@.len() == 3 && c@ == color_of(buf@));
            return Some(c);
        }
        tries = tries + 1;
    }
    None
}

} // verus!
