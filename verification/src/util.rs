//! Small helpers: unique tags for logging, and the rewriting of workflow
//! URLs onto the management endpoint's domain.

use crate::wire::chars_string;
use vstd::prelude::*;
use vstd::string::StringExecFns;

verus! {

/// The character writing one decimal digit.
pub open spec fn digit_char(d: int) -> char {
    if d == 0 {
        '0'
    } else if d == 1 {
        '1'
    } else if d == 2 {
        '2'
    } else if d == 3 {
        '3'
    } else if d == 4 {
        '4'
    } else if d == 5 {
        '5'
    } else if d == 6 {
        '6'
    } else if d == 7 {
        '7'
    } else if d == 8 {
        '8'
    } else {
        '9'
    }
}

/// The decimal digits of `n`, most significant first.
pub open spec fn dec_digits(n: int) -> Seq<char>
    decreases n,
{
    if n < 10 {
        seq![digit_char(n)]
    } else {
        dec_digits(n / 10).push(digit_char(n % 10))
    }
}

/// Append the decimal digits of `n` to `out`.
fn push_dec_digits(n: u32, out: &mut Vec<char>)
    ensures
        final(out)@ == old(out)@ + dec_digits(n as int),
    decreases n,
{
    if n < 10 {
        let c: char = match n {
            0 => '0',
            1 => '1',
            2 => '2',
            3 => '3',
            4 => '4',
            5 => '5',
            6 => '6',
            7 => '7',
            8 => '8',
            _ => '9',
        };
        out.push(c);
        proof {
            assert(final(out)@ =~= old(out)@ + dec_digits(n as int));
        }
    } else {
        push_dec_digits(n / 10, out);
        let d = n % 10;
        let c: char = match d {
            0 => '0',
            1 => '1',
            2 => '2',
            3 => '3',
            4 => '4',
            5 => '5',
            6 => '6',
            7 => '7',
            8 => '8',
            _ => '9',
        };
        out.push(c);
        proof {
            assert(final(out)@ =~= old(out)@ + dec_digits(n as int));
        }
    }
}

/// Write `n` in decimal.
pub fn u32_to_decimal(n: u32) -> (r: String)
    ensures
        r@ == dec_digits(n as int),
{
    let mut out: Vec<char> = Vec::new();
    push_dec_digits(n, &mut out);
    proof {
        assert(out@ =~= dec_digits(n as int));
    }
    chars_string(&out)
}

/// Relies on rand's thread-local generator: some unsigned value; nothing is
/// assumed of which one.
#[verifier::external_body]
fn random_u32() -> u32 {
    rand::random::<u32>()
}

/// A short tag for log lines: a bracketed number of at most eight digits,
/// drawn fresh on each call.
pub fn get_unique_id() -> (r: String)
    ensures
        exists|n: int|
            0 <= n < 100000000 && r@ == "["@ + dec_digits(n) + "]"@,
{
    let raw = random_u32();
    let n = raw % 100000000;
    let digits = u32_to_decimal(n);
    let mut out = "[".to_owned();
    out.append(digits.as_str());
    out.append("]");
    proof {
        assert(0 <= n < 100000000 && out@ == "["@ + dec_digits(n as int) + "]"@);
    }
    out
}

/// What the fixed domain pattern reads out of a URL: the first label after
/// the scheme separator, and everything after the dot that follows it; a
/// function of the URL alone.
pub uninterp spec fn url_domain_parts(s: Seq<char>) -> Option<(Seq<char>, Seq<char>)>;

/// Relies on regex::Regex::captures with the fixed anchored pattern
/// `^.+://([^\.]+)\.(.*)`: whether the URL matches, and its two capture
/// groups, are functions of the URL alone.
#[verifier::external_body]
fn domain_parts(url: &str) -> (r: Option<(String, String)>)
    ensures
        r is Some <==> url_domain_parts(url@) is Some,
        r matches Some(p) ==> url_domain_parts(url@) == Some((p.0@, p.1@)),
{
    let re = regex::Regex::new(r"^.+://([^\.]+)\.(.*)").unwrap();
    re.captures(url).map(
        |caps| {
            (
                caps.get(1).map_or(String::new(), |m| m.as_str().to_string()),
                caps.get(2).map_or(String::new(), |m| m.as_str().to_string()),
            )
        },
    )
}

/// The domain suffix of a URL: what follows the first dot after the scheme,
/// or nothing when the URL does not match the pattern.
pub fn get_domain_suffix(url: &str) -> (r: String)
    ensures
        r@ == (match url_domain_parts(url@) {
            Some(p) => p.1,
            None => Seq::<char>::empty(),
        }),
{
    match domain_parts(url) {
        Some((_, suffix)) => suffix,
        None => {
            let r = String::new();
            proof {
                assert(r@ =~= Seq::<char>::empty());
            }
            r
        },
    }
}

/// Rebase a workflow URL onto the management URL's domain: plain `http`, the
/// workflow's first label, and the management URL's suffix. A workflow URL
/// that does not match the pattern yields the empty string.
pub fn get_internal_workflow_url(workflow_url: &str, management_url: &str) -> (r: String)
    ensures
        r@ == (match url_domain_parts(workflow_url@) {
            Some(p) => "http://"@ + p.0 + "."@ + (match url_domain_parts(management_url@) {
                Some(q) => q.1,
                None => Seq::<char>::empty(),
            }),
            None => Seq::<char>::empty(),
        }),
{
    let suffix = get_domain_suffix(management_url);
    match domain_parts(workflow_url) {
        Some((label, _)) => {
            let mut out = "http://".to_owned();
            out.append(label.as_str());
            out.append(".");
            out.append(suffix.as_str());
            out
        },
        None => {
            let r = String::new();
            proof {
                assert(r@ =~= Seq::<char>::empty());
            }
            r
        },
    }
}

} // verus!
