//! Text of the loopback endpoints on which agent sessions listen.
use vstd::prelude::*;
use vstd::string::StringExecFns;
use vstd::string::StrSliceExecFns;

verus! {

pub const DIGITS: &'static str = "0123456789";

/// The decimal digits of `n`, without leading zeros.
pub open spec fn decimal(n: nat) -> Seq<char>
    decreases n,
{
    if n < 10 {
        seq![DIGITS@[n as int]]
    } else {
        decimal(n / 10).push(DIGITS@[(n % 10) as int])
    }
}

/// `127.0.0.1:<port>`.
pub open spec fn endpoint_text(port: u16) -> Seq<char> {
    "127.0.0.1:"@ + decimal(port as nat)
}

/// `http://127.0.0.1:<port>`: where a public request for the session on `port` is sent.
pub open spec fn target_text(port: u16) -> Seq<char> {
    "http://"@ + endpoint_text(port)
}

fn push_decimal(n: u16, out: &mut String)
    ensures
        final(out)@ == old(out)@ + decimal(n as nat),
    decreases n,
{
    proof {
        reveal_strlit("0123456789");
    }
    let d: usize = (n % 10) as usize;
    if n >= 10 {
        push_decimal(n / 10, out);
    }
    let digit = DIGITS.substring_char(d, d + 1);
    out.append(digit);
    assert(digit@ =~= seq![DIGITS@[d as int]]);
    assert(final(out)@ =~= old(out)@ + decimal(n as nat));
}

/// The address of the loopback listener on `port`, as `127.0.0.1:<port>`.
pub fn loopback_endpoint(port: u16) -> (r: String)
    ensures
        r@ == endpoint_text(port),
{
    let mut r = String::from_str("127.0.0.1:");
    push_decimal(port, &mut r);
    r
}

/// The URL base to which requests for the session on `port` are forwarded.
pub fn forward_target(port: u16) -> (r: String)
    ensures
        r@ == target_text(port),
{
    let mut r = String::from_str("http://");
    let e = loopback_endpoint(port);
    r.append(e.as_str());
    assert(r@ =~= target_text(port));
    r
}

} // verus!
