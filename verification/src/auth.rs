//! The bearer-token check: reads the `Authorization` header bytes, validates
//! the `Bearer <token>` shape against the one accepted token, and produces
//! the authenticated user or a classified failure.

use vstd::prelude::*;

verus! {

/// The user injected by a successful bearer-token check.
#[derive(Debug, Clone, PartialEq)]
pub struct User {
    pub id: u64,
    pub name: String,
}

/// The mathematical value of a [`User`].
pub struct UserView {
    pub id: u64,
    pub name: Seq<char>,
}

impl View for User {
    type V = UserView;

    open spec fn view(&self) -> UserView {
        UserView { id: self.id, name: self.name@ }
    }
}

/// Why the bearer-token check turned a request away. An unreadable or absent
/// header counts as absent; a header of the wrong shape or with the wrong
/// token is invalid.
#[derive(Debug, Clone, PartialEq, Eq, Structural)]
pub enum Error {
    NoAuthHeaderError,
    InvalidAuthHeaderError,
}

/// The bytes of `"Bearer "`, the required scheme prefix.
pub open spec fn spec_bearer_prefix() -> Seq<u8> {
    seq![66u8, 101u8, 97u8, 114u8, 101u8, 114u8, 32u8]
}

/// The bytes of `"hogehoge"`, the one accepted token.
pub open spec fn spec_accepted_token() -> Seq<u8> {
    seq![104u8, 111u8, 103u8, 101u8, 104u8, 111u8, 103u8, 101u8]
}

/// What extracting the token from the `Authorization` header value gives:
/// no header, or bytes that are not UTF-8, fail as a missing header; text
/// without the `Bearer ` prefix fails as invalid; otherwise the token is
/// whatever follows the prefix.
pub open spec fn spec_token_from_header(header: Option<Seq<u8>>) -> Result<Seq<u8>, Error> {
    match header {
        None => Err(Error::NoAuthHeaderError),
        Some(b) => if !vstd::utf8::valid_utf8(b) {
            Err(Error::NoAuthHeaderError)
        } else if b.len() < 7 || b.take(7) != spec_bearer_prefix() {
            Err(Error::InvalidAuthHeaderError)
        } else {
            Ok(b.skip(7))
        },
    }
}

/// What the whole check gives: the extracted token must equal the accepted
/// one, and then the fixed user stands in for a credential lookup.
pub open spec fn spec_authorize(header: Option<Seq<u8>>) -> Result<UserView, Error> {
    match spec_token_from_header(header) {
        Err(e) => Err(e),
        Ok(t) => if t == spec_accepted_token() {
            Ok(UserView { id: 0, name: "hoge"@ })
        } else {
            Err(Error::InvalidAuthHeaderError)
        },
    }
}

/// The header bytes as a mathematical value.
pub open spec fn spec_header_view(header: Option<Vec<u8>>) -> Option<Seq<u8>> {
    match header {
        None => None,
        Some(b) => Some(b@),
    }
}

/// Relies on `std::str::from_utf8`: it succeeds exactly on UTF-8 byte
/// strings, the encoding that `vstd::utf8::valid_utf8` models.
#[verifier::external_body]
fn is_valid_utf8(bytes: &Vec<u8>) -> (r: bool)
    ensures
        r == vstd::utf8::valid_utf8(bytes@),
{
    std::str::from_utf8(bytes.as_slice()).is_ok()
}

/// Extracts the bearer token from the `Authorization` header value, as the
/// bytes after the `Bearer ` prefix.
pub fn token_from_header(header: &Option<Vec<u8>>) -> (r: Result<Vec<u8>, Error>)
    ensures
        match (r, spec_token_from_header(spec_header_view(*header))) {
            (Ok(t), Ok(st)) => t@ == st,
            (Err(e), Err(se)) => e == se,
            _ => false,
        },
{
    match header {
        None => Err(Error::NoAuthHeaderError),
        Some(b) => {
            if !is_valid_utf8(b) {
                Err(Error::NoAuthHeaderError)
            } else if b.len() < 7 {
                Err(Error::InvalidAuthHeaderError)
            } else if b[0] == 66 && b[1] == 101 && b[2] == 97 && b[3] == 114 && b[4] == 101 && b[5]
                == 114 && b[6] == 32 {
                proof {
                    assert(b@.take(7) =~= spec_bearer_prefix());
                }
                let mut t: Vec<u8> = Vec::new();
                let mut i: usize = 7;
                while i < b.len()
                    invariant
                        7 <= i <= b.len(),
                        t@ == b@.subrange(7, i as int),
                    decreases b.len() - i,
                {
                    t.push(b[i]);
                    i = i + 1;
                    proof {
                        assert(t@ =~= b@.subrange(7, i as int));
                    }
                }
                proof {
                    assert(t@ =~= b@.skip(7));
                }
                Ok(t)
            } else {
                proof {
                    assert(b@.take(7) != spec_bearer_prefix()) by {
                        if b@.take(7) == spec_bearer_prefix() {
                            assert(b@.take(7)[0] == 66u8);
                            assert(b@.take(7)[1] == 101u8);
                            assert(b@.take(7)[2] == 97u8);
                            assert(b@.take(7)[3] == 114u8);
                            assert(b@.take(7)[4] == 101u8);
                            assert(b@.take(7)[5] == 114u8);
                            assert(b@.take(7)[6] == 32u8);
                        }
                    }
                }
                Err(Error::InvalidAuthHeaderError)
            }
        },
    }
}

/// Runs the bearer-token check on the `Authorization` header value and
/// produces the authenticated user or the classified failure.
pub fn authorize(header: &Option<Vec<u8>>) -> (r: Result<User, Error>)
    ensures
        match (r, spec_authorize(spec_header_view(*header))) {
            (Ok(u), Ok(su)) => u@ == su,
            (Err(e), Err(se)) => e == se,
            _ => false,
        },
{
    match token_from_header(header) {
        Err(e) => Err(e),
        Ok(t) => {
            if t.len() == 8 && t[0] == 104 && t[1] == 111 && t[2] == 103 && t[3] == 101 && t[4]
                == 104 && t[5] == 111 && t[6] == 103 && t[7] == 101 {
                proof {
                    assert(t@ =~= spec_accepted_token());
                }
                let u = User { id: 0, name: String::from_str("hoge") };
                proof {
                    assert(u@ == UserView { id: 0, name: "hoge"@ });
                }
                Ok(u)
            } else {
                proof {
                    assert(t@ != spec_accepted_token()) by {
                        if t@ == spec_accepted_token() {
                            assert(t@.len() == 8);
                            assert(t@[0] == 104u8);
                            assert(t@[1] == 111u8);
                            assert(t@[2] == 103u8);
                            assert(t@[3] == 101u8);
                            assert(t@[4] == 104u8);
                            assert(t@[5] == 111u8);
                            assert(t@[6] == 103u8);
                            assert(t@[7] == 101u8);
                        }
                    }
                }
                Err(Error::InvalidAuthHeaderError)
            }
        },
    }
}

} // verus!
