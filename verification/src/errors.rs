use vstd::prelude::*;
use vstd::string::StringExecFns;

verus! {

/// One decimal digit as a character.
pub open spec fn digit_char(d: nat) -> char {
    if d == 0 {
        '0'
    } else if d == 1 {
        '1'
    } else if d == 2 {
        '2'
    } else if d == 3 {
        '3'
    } else if d == 4 {
        '4'
    } else if d == 5 {
        '5'
    } else if d == 6 {
        '6'
    } else if d == 7 {
        '7'
    } else if d == 8 {
        '8'
    } else {
        '9'
    }
}

/// The decimal notation of a number, most significant digit first.
pub open spec fn decimal_digits(n: nat) -> Seq<char>
    decreases n,
{
    if n < 10 {
        seq![digit_char(n)]
    } else {
        decimal_digits(n / 10).push(digit_char(n % 10))
    }
}

fn digit_str(d: u64) -> (r: &'static str)
    requires
        d < 10,
    ensures
        r@ == seq![digit_char(d as nat)],
{
    proof {
        reveal_strlit("0");
        reveal_strlit("1");
        reveal_strlit("2");
        reveal_strlit("3");
        reveal_strlit("4");
        reveal_strlit("5");
        reveal_strlit("6");
        reveal_strlit("7");
        reveal_strlit("8");
        reveal_strlit("9");
    }
    let r = match d {
        0 => "0",
        1 => "1",
        2 => "2",
        3 => "3",
        4 => "4",
        5 => "5",
        6 => "6",
        7 => "7",
        8 => "8",
        _ => "9",
    };
    proof {
        assert(r@ =~= seq![digit_char(d as nat)]);
    }
    r
}

/// Writes a number in decimal notation.
pub fn decimal_string(n: u64) -> (r: String)
    ensures
        r@ == decimal_digits(n as nat),
    decreases n,
{
    if n < 10 {
        String::from_str(digit_str(n))
    } else {
        let mut s = decimal_string(n / 10);
        s.append(digit_str(n % 10));
        proof {
            assert(s@ =~= decimal_digits(n as nat));
        }
        s
    }
}

/// A malformed webhook payload, naming the offending field.
#[derive(Debug, PartialEq, Eq)]
pub enum ParseError {
    /// The payload lacks an object field of this name.
    MissingKey(String),
    /// The payload lacks an array element at this position.
    MissingIndex(u64),
    /// The field of this name is present but is not a string.
    NotString(String),
}

impl ParseError {
    /// The text this error prints as.
    pub open spec fn spec_message(&self) -> Seq<char> {
        match self {
            ParseError::MissingKey(k) => "No \""@ + k@ + "\" in json"@,
            ParseError::MissingIndex(i) => "No \""@ + decimal_digits(*i as nat) + "\" in json"@,
            ParseError::NotString(k) => "\""@ + k@ + "\" is not string"@,
        }
    }

    pub fn message(&self) -> (r: String)
        ensures
            r@ == self.spec_message(),
    {
        match self {
            ParseError::MissingKey(k) => {
                let mut s = String::from_str("No \"");
                s.append(k.as_str());
                s.append("\" in json");
                s
            },
            ParseError::MissingIndex(i) => {
                let mut s = String::from_str("No \"");
                let d = decimal_string(*i);
                s.append(d.as_str());
                s.append("\" in json");
                s
            },
            ParseError::NotString(k) => {
                let mut s = String::from_str("\"");
                s.append(k.as_str());
                s.append("\" is not string");
                s
            },
        }
    }
}

/// A failure while bringing the local checkout to the requested commit.
#[derive(Debug, PartialEq, Eq)]
pub enum SyncError {
    /// Neither opening nor cloning the repository worked; holds the clone failure's text.
    CloneFailed(String),
    /// Fetching from the origin remote failed; holds the failure's text.
    FetchFailed(String),
    /// The requested commit is not a valid revision reference.
    BadReference(String),
    /// Setting the working tree to the commit failed; holds the failure's text.
    CheckoutFailed(String),
}

impl SyncError {
    /// The text this error prints as.
    pub open spec fn spec_message(&self) -> Seq<char> {
        match self {
            SyncError::CloneFailed(d) => "Failed clone_recurse: "@ + d@,
            SyncError::FetchFailed(d) => "Failed fetching: "@ + d@,
            SyncError::BadReference(c) => "Not a valid Oid: \""@ + c@ + "\""@,
            SyncError::CheckoutFailed(d) => "failed checkout: "@ + d@,
        }
    }

    pub fn message(&self) -> (r: String)
        ensures
            r@ == self.spec_message(),
    {
        match self {
            SyncError::CloneFailed(d) => {
                let mut s = String::from_str("Failed clone_recurse: ");
                s.append(d.as_str());
                s
            },
            SyncError::FetchFailed(d) => {
                let mut s = String::from_str("Failed fetching: ");
                s.append(d.as_str());
                s
            },
            SyncError::BadReference(c) => {
                let mut s = String::from_str("Not a valid Oid: \"");
                s.append(c.as_str());
                s.append("\"");
                s
            },
            SyncError::CheckoutFailed(d) => {
                let mut s = String::from_str("failed checkout: ");
                s.append(d.as_str());
                s
            },
        }
    }
}

} // verus!
