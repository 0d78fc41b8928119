//! Login codes: six-digit time-based one-time passwords checked against the
//! configured secrets, and random bot user names.
use vstd::prelude::*;
use vstd::utf8::encode_utf8;
use crate::number::{parse_u32_spec, parse_u32_text};
use crate::text::{chars_of, has_at, starts_with, string_of};

verus! {

broadcast use vstd::string::group_string_axioms;

/// `first` put in front of the first piece of `pieces`.
pub open spec fn prepend_first(first: Seq<char>, pieces: Seq<Seq<char>>) -> Seq<Seq<char>> {
    pieces.update(0, first + pieces[0])
}

/// The pieces of `s` between the occurrences of `sep`, found left to right
/// without overlap (what `str::split` yields for a text separator).
pub open spec fn split_on(s: Seq<char>, sep: Seq<char>) -> Seq<Seq<char>>
    decreases s.len(),
{
    if s.len() == 0 {
        seq![seq![]]
    } else if sep.len() > 0 && starts_with(s, sep) {
        seq![seq![]] + split_on(s.skip(sep.len() as int), sep)
    } else {
        prepend_first(seq![s[0]], split_on(s.drop_first(), sep))
    }
}

/// Splitting always gives at least one piece.
pub proof fn lemma_split_nonempty(s: Seq<char>, sep: Seq<char>)
    ensures
        split_on(s, sep).len() >= 1,
    decreases s.len(),
{
    if s.len() > 0 {
        if sep.len() > 0 && starts_with(s, sep) {
            lemma_split_nonempty(s.skip(sep.len() as int), sep);
        } else {
            lemma_split_nonempty(s.drop_first(), sep);
        }
    }
}

/// The pieces of `s` between the occurrences of the non-empty `sep`.
pub fn split_text(s: &Vec<char>, sep: &Vec<char>) -> (r: Vec<Vec<char>>)
    requires
        sep.len() > 0,
    ensures
        r.deep_view() == split_on(s@, sep@),
{
    let mut done: Vec<Vec<char>> = Vec::new();
    let mut cur: Vec<char> = Vec::new();
    let mut i: usize = 0;
    proof {
        assert(s@.skip(0) == s@);
        lemma_split_nonempty(s@, sep@);
        assert(prepend_first(Seq::<char>::empty(), split_on(s@, sep@)) =~= split_on(s@, sep@));
        assert(done.deep_view() =~= Seq::<Seq<char>>::empty());
    }
    while i < s.len()
        invariant
            sep.len() > 0,
            i <= s.len(),
            split_on(s@, sep@) == done.deep_view() + prepend_first(cur@, split_on(s@.skip(i as int), sep@)),
        decreases s.len() - i,
    {
        let ghost rest = s@.skip(i as int);
        let ghost old_done = done.deep_view();
        if has_at(s, i, sep) {
            proof {
                assert(rest.take(sep@.len() as int) == s@.subrange(i as int, i + sep@.len()));
                assert(starts_with(rest, sep@));
                assert(rest.skip(sep@.len() as int) == s@.skip(i + sep@.len()));
                let y = split_on(s@.skip(i + sep@.len()), sep@);
                assert(split_on(rest, sep@) == seq![Seq::<char>::empty()] + y);
                lemma_split_nonempty(s@.skip(i + sep@.len()), sep@);
                assert(prepend_first(cur@, seq![Seq::<char>::empty()] + y) =~= seq![cur@] + y);
                assert(prepend_first(Seq::<char>::empty(), y) =~= y);
            }
            let ghost cv = cur@;
            assert(cur.deep_view() =~= cv);
            done.push(cur);
            proof {
                let y = split_on(s@.skip(i + sep@.len()), sep@);
                assert(done.deep_view() =~= old_done.push(cv));
                assert(old_done + (seq![cv] + y) =~= old_done.push(cv) + y);
            }
            cur = Vec::new();
            i = i + sep.len();
        } else {
            let c = s[i];
            proof {
                if sep@.len() <= rest.len() {
                    assert(rest.take(sep@.len() as int) == s@.subrange(i as int, i + sep@.len()));
                }
                assert(!starts_with(rest, sep@));
                assert(rest.drop_first() == s@.skip(i + 1));
                assert(rest[0] == c);
                let z = split_on(s@.skip(i + 1), sep@);
                assert(split_on(rest, sep@) == prepend_first(seq![c], z));
                lemma_split_nonempty(s@.skip(i + 1), sep@);
                assert(cur@ + (seq![c] + z[0]) =~= cur@.push(c) + z[0]);
                assert(prepend_first(cur@, prepend_first(seq![c], z)) =~= prepend_first(
                    cur@.push(c),
                    z,
                ));
            }
            cur.push(c);
            i = i + 1;
        }
    }
    proof {
        assert(s@.skip(i as int) =~= Seq::<char>::empty());
        assert(prepend_first(cur@, seq![Seq::<char>::empty()]) =~= seq![cur@]);
    }
    let ghost old_done = done.deep_view();
    let ghost cv = cur@;
    assert(cur.deep_view() =~= cv);
    done.push(cur);
    assert(done.deep_view() =~= old_done + seq![cv]);
    done
}

/// Whether `guess` is the `digits`-digit HOTP code of `secret` at `counter`
/// (what `otp::hotp_validate` answers).
pub uninterp spec fn hotp_matches(secret: Seq<u8>, counter: u64, guess: u32, digits: u32) -> bool;

/// The number of digits of a login code.
pub open spec fn code_digits() -> u32 {
    6
}

/// `otp::hotp_validate`: whether `guess` equals the HMAC-SHA1 code of
/// `secret` at `counter` taken modulo 10^`digits` (`10u32.pow(digits)`
/// overflows from 10 digits on).
#[verifier::external_body]
fn hotp_check(secret: &[u8], counter: u64, guess: u32, digits: u32) -> (r: bool)
    requires
        digits <= 9,
    ensures
        r == hotp_matches(secret@, counter, guess, digits),
{
    otp::hotp_validate(secret, counter, guess, digits)
}

/// Whether `guess` is the six-digit HOTP code of `secret` at `counter`.
pub open spec fn hotp_six_digits(secret: Seq<u8>, counter: u64, guess: u32) -> bool {
    hotp_matches(secret, counter, guess, code_digits())
}

/// The 30-second time step of `now` (seconds since the Unix epoch).
pub open spec fn time_step(now: u64) -> u64 {
    (now / 30) as u64
}

/// `code` is the TOTP code of `secret` for the time step of `now` or for one
/// step either side of it.
pub open spec fn totp_accepts(secret: Seq<u8>, now: u64, code: u32) -> bool {
    let c = time_step(now);
    ||| (c >= 1 && hotp_six_digits(secret, (c - 1) as u64, code))
    ||| hotp_six_digits(secret, c, code)
    ||| hotp_six_digits(secret, (c + 1) as u64, code)
}

/// The secrets of a configuration value: its pieces between `", "`.
pub open spec fn secret_list(secrets: Seq<char>) -> Seq<Seq<char>> {
    split_on(secrets, ", "@)
}

/// `code` names a number that a TOTP code can be.
pub open spec fn code_readable(code: Seq<char>) -> bool {
    parse_u32_spec(code) is Some
}

/// Some configured secret (its UTF-8 bytes as the key) accepts `code` at `now`.
pub open spec fn code_accepted(code: Seq<char>, secrets: Seq<char>, now: u64) -> bool
    recommends
        code_readable(code),
{
    let keys = secret_list(secrets);
    let value = parse_u32_spec(code)->0;
    exists|i: int| 0 <= i < keys.len() && totp_accepts(encode_utf8(#[trigger] keys[i]), now, value)
}

/// Whether the TOTP code of one secret, at `now` or one step either side,
/// is `code`.
fn totp_verify(secret: &[u8], now: u64, code: u32) -> (r: bool)
    ensures
        r == totp_accepts(secret@, now, code),
{
    let digits: u32 = 6;
    let step = now / 30;
    let earlier = step >= 1 && hotp_check(secret, step - 1, code, digits);
    let current = hotp_check(secret, step, code, digits);
    let later = hotp_check(secret, step + 1, code, digits);
    earlier || current || later
}

/// Whether `code` is a valid login code at time `now` (seconds since the
/// Unix epoch) for one of the secrets in `secrets`, which are separated by
/// `", "`.
pub fn validate(code: &String, secrets: &str, now: u64) -> (r: bool)
    requires
        code_readable(code@),
    ensures
        r == code_accepted(code@, secrets@, now),
{
    let value = parse_u32_text(code.as_str()).unwrap();
    let text = chars_of(secrets);
    let sep = chars_of(", ");
    proof {
        reveal_strlit(", ");
    }
    let keys = split_text(&text, &sep);
    let ghost ks = keys.deep_view();
    let mut output = false;
    for i in 0..keys.len()
        invariant
            ks == keys.deep_view(),
            ks == secret_list(secrets@),
            value == parse_u32_spec(code@)->0,
            output == exists|j: int| 0 <= j < i && totp_accepts(encode_utf8(#[trigger] ks[j]), now, value),
    {
        let key = string_of(&keys[i]);
        let bytes = key.as_str().as_bytes();
        assert(ks[i as int] == keys[i as int]@);
        if totp_verify(bytes, now, value) {
            output = true;
        }
    }
    output
}

} // verus!
