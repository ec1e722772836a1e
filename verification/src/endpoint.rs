//! The address of the depth stream of one trading pair.
use vstd::prelude::*;
use vstd::string::*;

verus! {

/// The lower-case form that `str::to_lowercase` gives a text.
pub uninterp spec fn lowercase_of(text: Seq<char>) -> Seq<char>;

/// Calls `str::to_lowercase`.
///
/// Trusted: the result depends on the text alone.
#[verifier::external_body]
pub(crate) fn to_lowercase(text: &str) -> (r: String)
    ensures
        r@ == lowercase_of(text@),
{
    text.to_lowercase()
}

/// The character that writes a digit below ten.
pub open spec fn digit_char(d: nat) -> char {
    "0123456789"@[d as int]
}

/// A number in decimal digits, without leading zeros.
pub open spec fn decimal_text(n: nat) -> Seq<char>
    decreases n,
{
    if n < 10 {
        seq![digit_char(n)]
    } else {
        decimal_text(n / 10).push(digit_char(n % 10))
    }
}

/// Where the depth stream of `symbol` with `depth` levels a side is served.
pub open spec fn endpoint_text(symbol: Seq<char>, depth: nat) -> Seq<char> {
    "wss://stream.binance.com:9443/ws/"@ + symbol + "@depth"@ + decimal_text(depth) + "@100ms"@
}

/// Writes `n` in decimal digits at the end of `out`.
fn push_decimal(out: &mut String, n: usize)
    ensures
        final(out)@ == old(out)@ + decimal_text(n as nat),
    decreases n,
{
    if n >= 10 {
        push_decimal(out, n / 10);
    }
    let d: usize = n % 10;
    proof {
        reveal_strlit("0123456789");
        assert("0123456789"@.subrange(d as int, d + 1) =~= seq![digit_char(d as nat)]);
    }
    out.append("0123456789".substring_ascii(d, d + 1));
    assert(out@ =~= old(out)@ + decimal_text(n as nat));
}

/// The address of the depth stream of `symbol` with `depth` levels a side.
pub fn endpoint_url(symbol: &str, depth: usize) -> (r: String)
    ensures
        r@ == endpoint_text(symbol@, depth as nat),
{
    let mut url = String::new();
    url.append("wss://stream.binance.com:9443/ws/");
    url.append(symbol);
    url.append("@depth");
    push_decimal(&mut url, depth);
    url.append("@100ms");
    assert(url@ =~= endpoint_text(symbol@, depth as nat));
    url
}

} // verus!
