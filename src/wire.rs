use vstd::prelude::*;

verus! {

/// What `String::from_utf8_lossy` makes of the bytes `b`.
pub uninterp spec fn lossy_utf8(b: Seq<u8>) -> Seq<char>;

/// What `str::trim_end` leaves of the characters `s`.
pub uninterp spec fn trim_end_of(s: Seq<char>) -> Seq<char>;

/// The text a peer sent in the bytes `b`: decoded with replacement of invalid
/// sequences, trailing whitespace removed.
pub open spec fn received(b: Seq<u8>) -> Seq<char> {
    trim_end_of(lossy_utf8(b))
}

/// Relies on `String::from_utf8_lossy`: the result depends on the bytes alone,
/// and valid UTF-8 is decoded as it stands.
#[verifier::external_body]
fn decode_lossy(b: &[u8]) -> (r: String)
    ensures
        r@ == lossy_utf8(b@),
        vstd::utf8::valid_utf8(b@) ==> r@ == vstd::utf8::decode_utf8(b@),
{
    String::from_utf8_lossy(b).into_owned()
}

/// Relies on `str::trim_end`: the result depends on the characters alone and
/// is a prefix of them.
#[verifier::external_body]
fn trim_trailing(s: &str) -> (r: String)
    ensures
        r@ == trim_end_of(s@),
        r@.len() <= s@.len(),
        r@ == s@.subrange(0, r@.len() as int),
{
    s.trim_end().to_owned()
}

/// The text carried by the bytes of one read.
pub fn received_text(b: &[u8]) -> (r: String)
    ensures
        r@ == received(b@),
{
    let decoded = decode_lossy(b);
    trim_trailing(decoded.as_str())
}

/// The challenge the server sends first on every new connection.
pub open spec fn challenge() -> Seq<char> {
    seq!['P', 'A', 'S', 'S', 'C', 'O', 'D', 'E', '\n']
}

/// The line that tells a client its passcode was accepted.
pub open spec fn auth_success() -> Seq<char> {
    seq!['A', 'U', 'T', 'H', '_', 'S', 'U', 'C', 'C', 'E', 'S', 'S', '\n']
}

/// `PASSCODE\n`.
pub fn challenge_line() -> (r: &'static str)
    ensures
        r@ == challenge(),
{
    let r = "PASSCODE\n";
    proof {
        reveal_strlit("PASSCODE\n");
        assert(r@ =~= challenge());
    }
    r
}

/// `AUTH_SUCCESS\n`.
pub fn success_line() -> (r: &'static str)
    ensures
        r@ == auth_success(),
{
    let r = "AUTH_SUCCESS\n";
    proof {
        reveal_strlit("AUTH_SUCCESS\n");
        assert(r@ =~= auth_success());
    }
    r
}

} // verus!
