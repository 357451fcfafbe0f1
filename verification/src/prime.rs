//! The primality service: what to answer to one request.
//!
//! A request names a method and carries a number. Only the method
//! `isPrime` is known; only a whole number that is zero or more can be
//! prime. Reading lines and turning them into requests is the caller's
//! part.

use vstd::prelude::*;

verus! {

/// A number as a JSON parser hands it over, by the three shapes it tells
/// apart.
#[derive(Debug, Clone, Copy, PartialEq, Eq, Structural)]
pub enum Number {
    /// A whole number that is zero or more.
    PosInt(u64),
    /// A whole number below zero.
    NegInt(i64),
    /// A number written with a fraction or an exponent.
    Float,
}

impl Number {
    /// The number as a `u64`, if it is a whole number that is zero or more.
    pub open spec fn spec_as_u64(self) -> Option<u64> {
        match self {
            Number::PosInt(n) => Some(n),
            _ => None,
        }
    }

    /// The number as a `u64`, if it is a whole number that is zero or more.
    #[verifier::when_used_as_spec(spec_as_u64)]
    pub fn as_u64(self) -> (n: Option<u64>)
        ensures
            n == self.spec_as_u64(),
    {
        match self {
            Number::PosInt(n) => Some(n),
            _ => None,
        }
    }
}

/// A question put to the service.
#[derive(Debug)]
pub struct Request {
    pub method: String,
    pub number: Number,
}

/// The answer to a well-formed question.
#[derive(Debug)]
pub struct Response {
    pub method: String,
    pub prime: bool,
}

/// `n` has exactly two divisors, `1` and itself.
pub open spec fn is_prime(n: nat) -> bool {
    n >= 2 && forall|d: nat| 2 <= d < n ==> #[trigger] (n % d) != 0
}

/// The largest number up to which every input can be tested: the square of
/// `2^32 - 1`. Past it, squaring the next odd candidate divisor leaves
/// 64 bits.
pub const TRIAL_DIVISION_MAX: u64 = 0xFFFF_FFFE_0000_0001;

/// Whether trial division settles `n` within 64-bit arithmetic: every
/// number up to [`TRIAL_DIVISION_MAX`] and every composite number.
pub open spec fn in_reach(n: u64) -> bool {
    n <= TRIAL_DIVISION_MAX || !is_prime(n as nat)
}

/// Whether `request` can be answered: its number, where it is one that
/// could be prime and the method asks for it, is [`in_reach`].
pub open spec fn answerable(request: &Request) -> bool {
    request.method@ == "isPrime"@ ==> match request.number {
        Number::PosInt(n) => in_reach(n),
        _ => true,
    }
}

/// Whether `result` is the right outcome for `request`: an error for any
/// method but `isPrime`, else whether the number is prime, which is `false`
/// for every number that is negative or not whole.
pub open spec fn answers(request: &Request, result: Result<Response, String>) -> bool {
    if request.method@ == "isPrime"@ {
        &&& result matches Ok(response)
        &&& response.method@ == "isPrime"@
        &&& response.prime == match request.number {
            Number::PosInt(n) => is_prime(n as nat),
            _ => false,
        }
    } else {
        &&& result matches Err(message)
        &&& message@ == "Method is not isPrime"@
    }
}

/// Calls `primes::is_prime`, which tries `2` and then every odd number
/// whose square does not exceed `n` as a divisor. The contract claims that
/// the result is primality in the usual sense. It leaves out the primes
/// above [`TRIAL_DIVISION_MAX`]: for them the search squares `2^32 + 1`,
/// which overflows.
#[verifier::external_body]
fn trial_division(n: u64) -> (prime: bool)
    requires
        in_reach(n),
    ensures
        prime == is_prime(n as nat),
{
    primes::is_prime(n)
}

/// Answers one request.
///
/// Any method but `isPrime` is an error. A number that is negative or not
/// whole is not prime.
pub fn process_request(request: &Request) -> (result: Result<Response, String>)
    requires
        answerable(request),
    ensures
        answers(request, result),
{
    if request.method != "isPrime".to_owned() {
        Err("Method is not isPrime".to_owned())
    } else if let Some(number) = request.number.as_u64() {
        let result = trial_division(number);
        Ok(Response { method: "isPrime".to_owned(), prime: result })
    } else {
        Ok(Response { method: "isPrime".to_owned(), prime: false })
    }
}

/// Whether [`try_process_request`] answers `request`: it does unless the
/// method is `isPrime` and the number is a whole one above
/// [`TRIAL_DIVISION_MAX`].
pub open spec fn try_answerable(request: &Request) -> bool {
    request.method@ == "isPrime"@ ==> match request.number {
        Number::PosInt(n) => n <= TRIAL_DIVISION_MAX,
        _ => true,
    }
}

/// Answers one request where that can be done without leaving 64 bits, and
/// says so where it cannot.
///
/// `None` comes back exactly for a request with the method `isPrime` and a
/// whole number above [`TRIAL_DIVISION_MAX`], of which nothing is decided
/// here.
pub fn try_process_request(request: &Request) -> (result: Option<Result<Response, String>>)
    ensures
        result is None <==> !try_answerable(request),
        result matches Some(outcome) ==> answers(request, outcome),
{
    if request.method == "isPrime".to_owned() {
        if let Some(number) = request.number.as_u64() {
            if number > TRIAL_DIVISION_MAX {
                return None;
            }
        }
    }
    Some(process_request(request))
}

/// What a connection does with one line of input.
#[derive(Debug)]
pub enum Reply {
    /// Send this response and read the next line.
    Answer(Response),
    /// Send the notice of a malformed request and shut the connection down.
    Malformed,
}

/// Whether `reply` is the right one for a line that parsed to `parsed`:
/// the answer where there is a request and it has one, else the notice.
pub open spec fn replies(parsed: Option<Request>, reply: Reply) -> bool {
    match parsed {
        Some(request) => match reply {
            Reply::Answer(response) => answers(&request, Ok(response)),
            Reply::Malformed => request.method@ != "isPrime"@,
        },
        None => reply is Malformed,
    }
}

/// Decides what to do with one line, given what parsing it gave: `None`
/// for a line that is no request.
///
/// A line that does not parse and a request with an unknown method are
/// both malformed, and a malformed line ends the connection. The result
/// is `None` exactly where [`try_process_request`] has no answer.
pub fn process_line(parsed: Option<Request>) -> (reply: Option<Reply>)
    ensures
        reply is None <==> (parsed matches Some(request) && !(try_answerable(&request))),
        reply matches Some(r) ==> replies(parsed, r),
{
    match parsed {
        None => Some(Reply::Malformed),
        Some(request) => match try_process_request(&request) {
            None => None,
            Some(Ok(response)) => Some(Reply::Answer(response)),
            Some(Err(_)) => Some(Reply::Malformed),
        },
    }
}

} // verus!
