//! The test double for the network side of a fetch: a mock HTTP responder.
//!
//! A `Server` value describes where the responder listens; `mock` starts a
//! `Builder` that records which request is expected and what the response
//! carries, and `create` freezes that into a `Mock`.  Serving connections is
//! I/O and lives with the caller; what stands here is the recorded
//! expectation and the server's address arithmetic, `url` included.

use vstd::prelude::*;
use vstd::string::StringExecFns;

verus! {

/// A frozen expectation: the request the responder answers and the
/// response it gives.
#[derive(Clone, Debug, PartialEq)]
pub struct Mock {
    pub method: String,
    pub path: String,
    pub status: u16,
    pub body: Vec<u8>,
}

impl Mock {
    /// Report whether the expectation was met.  This responder answers
    /// every connection it accepts with the recorded response, so the
    /// expectation always holds once the mock exists.
    pub fn assert_hit(&self) -> (r: bool)
        ensures
            r,
    {
        true
    }
}

/// A mock under construction: the expected request, and the response being
/// filled in.  A fresh builder answers with status 200 and an empty body.
#[derive(Clone, Debug, PartialEq)]
pub struct Builder {
    pub method: String,
    pub path: String,
    pub status: u16,
    pub body: Vec<u8>,
}

impl Builder {
    /// Set the status code of the recorded response.
    pub fn with_status(self, status: u16) -> (r: Builder)
        ensures
            r == (Builder { status, ..self }),
    {
        Builder { status, ..self }
    }

    /// Set the body of the recorded response.
    pub fn with_body(self, body: Vec<u8>) -> (r: Builder)
        ensures
            r == (Builder { body, ..self }),
    {
        Builder { body, ..self }
    }

    /// Freeze the expectation: the mock answers exactly what was recorded.
    pub fn create(self) -> (m: Mock)
        ensures
            m == (Mock {
                method: self.method,
                path: self.path,
                status: self.status,
                body: self.body,
            }),
    {
        Mock { method: self.method, path: self.path, status: self.status, body: self.body }
    }
}

/// The responder's listening address.
#[derive(Clone, Debug, PartialEq)]
pub struct Server {
    pub host: String,
    pub port: u16,
}

impl Server {
    /// Begin recording an expectation for one request.
    pub fn mock(&self, method: &str, path: &str) -> (b: Builder)
        ensures
            b.method@ == method@,
            b.path@ == path@,
            b.status == 200,
            b.body@ == Seq::<u8>::empty(),
    {
        Builder { method: method.to_owned(), path: path.to_owned(), status: 200, body: Vec::new() }
    }

    /// The base URL of the responder: scheme, host and decimal port.
    pub fn url(&self) -> (r: String)
        ensures
            r@ == "http://"@ + self.host@ + ":"@ + spec_decimal(self.port as nat),
    {
        let mut s = "http://".to_owned();
        s.append(self.host.as_str());
        s.append(":");
        let p = u16_decimal(self.port);
        s.append(p.as_str());
        proof {
            assert(s@ =~= "http://"@ + self.host@ + ":"@ + spec_decimal(self.port as nat));
        }
        s
    }
}

/// The responder's bookkeeping: every mock created so far.
pub struct State {
    pub mocks: Vec<Mock>,
}

impl State {
    /// Fresh bookkeeping: no mock has been created yet.
    pub fn new() -> (s: State)
        ensures
            s.mocks@.len() == 0,
    {
        State { mocks: Vec::new() }
    }
}

impl Default for State {
    /// Same as `new`: bookkeeping with no mocks.
    fn default() -> (s: State)
        ensures
            s.mocks@.len() == 0,
    {
        State::new()
    }
}

/// The decimal digit for one value below ten.
pub open spec fn digit_char(d: nat) -> char {
    if d == 0 {
        '0'
    } else if d == 1 {
        '1'
    } else if d == 2 {
        '2'
    } else if d == 3 {
        '3'
    } else if d == 4 {
        '4'
    } else if d == 5 {
        '5'
    } else if d == 6 {
        '6'
    } else if d == 7 {
        '7'
    } else if d == 8 {
        '8'
    } else {
        '9'
    }
}

/// The decimal rendering of a number: most significant digit first, no
/// leading zero except for the number zero itself.
pub open spec fn spec_decimal(n: nat) -> Seq<char>
    decreases n,
{
    if n < 10 {
        seq![digit_char(n)]
    } else {
        spec_decimal(n / 10).push(digit_char(n % 10))
    }
}

/// The one-character string for one decimal digit.
fn digit_str(d: u16) -> (s: &'static str)
    requires
        d < 10,
    ensures
        s@ == seq![digit_char(d as nat)],
{
    if d == 0 {
        proof {
            reveal_strlit("0");
            assert("0"@ =~= seq![digit_char(0nat)]);
        }
        "0"
    } else if d == 1 {
        proof {
            reveal_strlit("1");
            assert("1"@ =~= seq![digit_char(1nat)]);
        }
        "1"
    } else if d == 2 {
        proof {
            reveal_strlit("2");
            assert("2"@ =~= seq![digit_char(2nat)]);
        }
        "2"
    } else if d == 3 {
        proof {
            reveal_strlit("3");
            assert("3"@ =~= seq![digit_char(3nat)]);
        }
        "3"
    } else if d == 4 {
        proof {
            reveal_strlit("4");
            assert("4"@ =~= seq![digit_char(4nat)]);
        }
        "4"
    } else if d == 5 {
        proof {
            reveal_strlit("5");
            assert("5"@ =~= seq![digit_char(5nat)]);
        }
        "5"
    } else if d == 6 {
        proof {
            reveal_strlit("6");
            assert("6"@ =~= seq![digit_char(6nat)]);
        }
        "6"
    } else if d == 7 {
        proof {
            reveal_strlit("7");
            assert("7"@ =~= seq![digit_char(7nat)]);
        }
        "7"
    } else if d == 8 {
        proof {
            reveal_strlit("8");
            assert("8"@ =~= seq![digit_char(8nat)]);
        }
        "8"
    } else {
        proof {
            reveal_strlit("9");
            assert("9"@ =~= seq![digit_char(9nat)]);
        }
        "9"
    }
}

/// Render a port number in decimal.
fn u16_decimal(n: u16) -> (s: String)
    ensures
        s@ == spec_decimal(n as nat),
    decreases n,
{
    if n < 10 {
        digit_str(n).to_owned()
    } else {
        let mut s = u16_decimal(n / 10);
        s.append(digit_str(n % 10));
        proof {
            assert(s@ =~= spec_decimal((n / 10) as nat).push(digit_char((n % 10) as nat)));
        }
        s
    }
}

} // verus!
