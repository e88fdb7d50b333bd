//! The secrets handler: the bytes of a build-time secret, by its
//! identifier.

use crate::error::Error;
use crate::messages::{decode_secret_request, encode_secret, parse_secret_request, secret_bytes};
use vstd::prelude::*;

verus! {

/// One secret of the table.
#[derive(Debug, Clone, PartialEq, Eq)]
pub struct Secret {
    pub id: String,
    pub data: Vec<u8>,
}

/// The secret table. An identifier that was added twice stands for what
/// was added last.
#[derive(Debug, Clone, PartialEq, Eq)]
pub struct SecretsServer {
    pub secrets: Vec<Secret>,
}

/// The mapping that a list of secrets stands for.
pub open spec fn secret_map(secrets: Seq<Secret>) -> Map<Seq<char>, Seq<u8>>
    decreases secrets.len(),
{
    if secrets.len() == 0 {
        Map::empty()
    } else {
        secret_map(secrets.drop_last()).insert(secrets.last().id@, secrets.last().data@)
    }
}

impl View for SecretsServer {
    type V = Map<Seq<char>, Seq<u8>>;

    open spec fn view(&self) -> Map<Seq<char>, Seq<u8>> {
        secret_map(self.secrets@)
    }
}

impl SecretsServer {
    /// An empty secret table.
    pub fn new() -> (r: Self)
        ensures
            r@ == Map::<Seq<char>, Seq<u8>>::empty(),
    {
        SecretsServer { secrets: Vec::new() }
    }

    /// Stores a secret under an identifier, in place of what was stored
    /// under it before.
    pub fn add_secret(&mut self, id: &str, data: Vec<u8>)
        ensures
            final(self)@ == old(self)@.insert(id@, data@),
    {
        let ghost before = self.secrets@;
        self.secrets.push(Secret { id: String::from_str(id), data });
        assert(self.secrets@.drop_last() =~= before);
    }

    /// The bytes stored under an identifier. Fails with a missing secret
    /// exactly where nothing is stored under it.
    pub fn get_secret(&self, id: &str) -> (r: Result<Vec<u8>, Error>)
        ensures
            self@.contains_key(id@) ==> r is Ok && r.unwrap()@ == self@[id@],
            !self@.contains_key(id@) ==> (r matches Err(Error::SecretNotFound(s)) && s@ == id@),
    {
        let wanted = String::from_str(id);
        let mut i: usize = self.secrets.len();
        assert(self.secrets@.take(i as int) =~= self.secrets@);
        while i > 0
            invariant
                i <= self.secrets.len(),
                wanted@ == id@,
                self@.contains_key(id@) == secret_map(self.secrets@.take(i as int)).contains_key(
                    id@,
                ),
                self@.contains_key(id@) ==> self@[id@] == secret_map(
                    self.secrets@.take(i as int),
                )[id@],
            decreases i,
        {
            let ghost upto = self.secrets@.take(i as int);
            assert(upto.drop_last() =~= self.secrets@.take(i - 1));
            assert(upto.last() == self.secrets@[i - 1]);
            if self.secrets[i - 1].id == wanted {
                return Ok(vstd::slice::slice_to_vec(self.secrets[i - 1].data.as_slice()));
            }
            i -= 1;
        }
        Err(Error::SecretNotFound(wanted))
    }
}

/// The identifier that the bytes of a request for a secret ask for.
pub open spec fn requested_secret(payload: Seq<u8>) -> Option<Seq<char>> {
    parse_secret_request(payload)
}

/// The answer to a request for a secret, given the table if one is
/// configured: the bytes of the secret. Fails with a decode error where
/// the request is malformed, else without a table because secrets are not
/// configured, else with a missing secret where nothing is stored under
/// the identifier.
pub fn handle_secrets_get_secret(secrets: Option<&SecretsServer>, payload: &[u8]) -> (r: Result<
    Vec<u8>,
    Error,
>)
    ensures
        match requested_secret(payload@) {
            None => r matches Err(Error::Decode { message_type }) && message_type@
                == "GetSecretRequest"@,
            Some(id) => match secrets {
                None => r matches Err(Error::SecretsNotConfigured),
                Some(table) => if table@.contains_key(id) {
                    r is Ok && r.unwrap()@ == secret_bytes(table@[id])
                } else {
                    r matches Err(Error::SecretNotFound(s)) && s@ == id
                },
            },
        },
{
    let id = match decode_secret_request(payload) {
        Some(id) => id,
        None => {
            return Err(Error::decode("GetSecretRequest"));
        },
    };
    match secrets {
        None => Err(Error::SecretsNotConfigured),
        Some(table) => match table.get_secret(id.as_str()) {
            Ok(data) => Ok(encode_secret(data.as_slice())),
            Err(e) => Err(e),
        },
    }
}

} // verus!
