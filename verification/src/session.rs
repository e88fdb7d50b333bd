//! The session: its identity, the metadata that carries the identity on
//! the build request, the context that it serves, and the services that
//! it attaches.

use crate::auth::AuthServer;
use crate::error::Error;
use crate::solve::{attr_views, Attr, AttrPair};
use crate::text::{concat2, decimal, decimal_text, is_prefix};
use crate::tunnel::FileSyncServer;
use vstd::prelude::*;

verus! {

/// A small hexadecimal digit.
pub open spec fn is_lower_hex(c: char) -> bool {
    ('0' <= c && c <= '9') || ('a' <= c && c <= 'f')
}

/// The text form of a random identifier: 36 characters, hyphens at the
/// places 8, 13, 18 and 23, the version digit `4` at place 14, one of the
/// variant digits `8`, `9`, `a`, `b` at place 19, and small hexadecimal
/// digits everywhere else.
pub open spec fn is_uuid_text(s: Seq<char>) -> bool {
    s.len() == 36 && forall|i: int|
        0 <= i < 36 ==> if i == 8 || i == 13 || i == 18 || i == 23 {
            #[trigger] s[i] == '-'
        } else if i == 14 {
            s[i] == '4'
        } else if i == 19 {
            s[i] == '8' || s[i] == '9' || s[i] == 'a' || s[i] == 'b'
        } else {
            is_lower_hex(s[i])
        }
}

/// A text that is the given prefix followed by a random identifier.
pub open spec fn is_prefixed_uuid(prefix: Seq<char>, s: Seq<char>) -> bool {
    is_prefix(prefix, s) && is_uuid_text(s.skip(prefix.len() as int))
}

/// `Uuid::new_v4` of the uuid crate, in the text form that its `Display`
/// gives. Which identifier comes out is left to chance; believed of every
/// outcome is only its shape: the hyphenated small-letter form of 36
/// characters that `Display` writes, with the version and variant bits
/// that `new_v4` sets.
#[verifier::external_body]
fn fresh_uuid() -> (r: String)
    ensures
        is_uuid_text(r@),
{
    uuid::Uuid::new_v4().to_string()
}

/// `rand::random` of the rand crate, for a 16-bit number. The number is
/// drawn at random: nothing is claimed of it.
#[verifier::external_body]
fn random_u16() -> (r: u16) {
    rand::random::<u16>()
}

/// The identity of a session.
#[derive(Debug, Clone, PartialEq, Eq)]
pub struct Session {
    /// The identifier of the session.
    pub id: String,
    /// The name of the session, which is also its shared key.
    pub shared_key: String,
    /// Whether the session stream is open.
    pub started: bool,
}

/// A prefix followed by a random identifier is a prefixed identifier.
pub proof fn lemma_prefixed_uuid(prefix: Seq<char>, id: Seq<char>)
    requires
        is_uuid_text(id),
    ensures
        is_prefixed_uuid(prefix, prefix + id),
{
    assert((prefix + id).subrange(0, prefix.len() as int) =~= prefix);
    assert((prefix + id).skip(prefix.len() as int) =~= id);
}

/// The metadata that carries an identity on the build request.
pub open spec fn metadata_of(id: Seq<char>, shared_key: Seq<char>) -> Seq<AttrPair> {
    seq![
        ("X-Docker-Expose-Session-Uuid"@, id),
        ("X-Docker-Expose-Session-Name"@, shared_key),
        ("X-Docker-Expose-Session-Sharedkey"@, shared_key),
    ]
}

/// The metadata that carries an identity on the build request.
fn identity_metadata(id: &str, shared_key: &str) -> (r: Vec<Attr>)
    ensures
        attr_views(r@) == metadata_of(id@, shared_key@),
{
    let mut meta: Vec<Attr> = Vec::new();
    meta.push(
        Attr {
            key: String::from_str("X-Docker-Expose-Session-Uuid"),
            value: String::from_str(id),
        },
    );
    meta.push(
        Attr {
            key: String::from_str("X-Docker-Expose-Session-Name"),
            value: String::from_str(shared_key),
        },
    );
    meta.push(
        Attr {
            key: String::from_str("X-Docker-Expose-Session-Sharedkey"),
            value: String::from_str(shared_key),
        },
    );
    assert(attr_views(meta@) =~= metadata_of(id@, shared_key@));
    meta
}

impl Session {
    /// The session with the given identifier, named `session-` and then
    /// the given key.
    pub fn with_identity(id: &str, key: &str) -> (r: Self)
        ensures
            r.id@ == id@,
            r.shared_key@ == "session-"@ + key@,
            !r.started,
    {
        Session {
            id: String::from_str(id),
            shared_key: concat2("session-", key),
            started: false,
        }
    }

    /// A session with a fresh identity, not started yet: a random
    /// identifier for the session, and `session-` with a second random
    /// identifier for its name.
    pub fn new() -> (r: Self)
        ensures
            is_uuid_text(r.id@),
            is_prefixed_uuid("session-"@, r.shared_key@),
            !r.started,
    {
        let id = fresh_uuid();
        let key = fresh_uuid();
        let r = Session::with_identity(id.as_str(), key.as_str());
        proof {
            lemma_prefixed_uuid("session-"@, key@);
        }
        r
    }

    /// Notes that the session stream is open.
    pub fn mark_started(&mut self)
        ensures
            final(self).started,
            final(self).id == old(self).id,
            final(self).shared_key == old(self).shared_key,
    {
        self.started = true;
    }

    /// Hands a message on to the session stream: the message itself, for
    /// the caller to put on the stream. Fails exactly where the session was
    /// not started.
    pub fn send(&self, message: Vec<u8>) -> (r: Result<Vec<u8>, Error>)
        ensures
            self.started ==> r == Ok::<Vec<u8>, Error>(message),
            !self.started ==> (r matches Err(Error::SessionNotStarted)),
    {
        if self.started {
            Ok(message)
        } else {
            Err(Error::SessionNotStarted)
        }
    }

    /// The metadata to attach to the build request.
    pub fn metadata(&self) -> (r: Vec<Attr>)
        ensures
            attr_views(r@) == metadata_of(self.id@, self.shared_key@),
    {
        identity_metadata(self.id.as_str(), self.shared_key.as_str())
    }
}

impl Default for Session {
    /// A session with a fresh identity.
    fn default() -> (r: Self)
        ensures
            is_uuid_text(r.id@),
            is_prefixed_uuid("session-"@, r.shared_key@),
            !r.started,
    {
        Session::new()
    }
}

/// What the file system says of a path.
#[derive(Debug, Clone, Copy, PartialEq, Eq, Structural)]
pub enum PathStatus {
    /// Nothing is there.
    Missing,
    /// Something is there that is no directory.
    NotADirectory,
    /// A directory is there.
    Directory,
}

/// The local context that a session serves.
#[derive(Debug, Clone, PartialEq, Eq)]
pub struct FileSync {
    pub context_path: String,
}

impl FileSync {
    /// The context at the given path.
    pub fn new(context_path: &str) -> (r: Self)
        ensures
            r.context_path@ == context_path@,
    {
        FileSync { context_path: String::from_str(context_path) }
    }

    /// Judges what the file system says of the context path: a context
    /// must exist and be a directory.
    pub fn validate(&self, status: PathStatus) -> (r: Result<(), Error>)
        ensures
            status == PathStatus::Directory ==> r is Ok,
            status == PathStatus::Missing ==> (r matches Err(Error::PathNotFound(p)) && p@
                == self.context_path@),
            status == PathStatus::NotADirectory ==> (r matches Err(Error::NotADirectory(p)) && p@
                == self.context_path@),
    {
        match status {
            PathStatus::Directory => Ok(()),
            PathStatus::Missing => Err(Error::PathNotFound(self.context_path.clone())),
            PathStatus::NotADirectory => Err(Error::NotADirectory(self.context_path.clone())),
        }
    }
}

/// The services that a session exposes on a port.
#[derive(Debug, Clone, PartialEq, Eq)]
pub struct SessionAttachable {
    pub file_sync: Option<FileSyncServer>,
    pub auth: Option<AuthServer>,
    pub port: u16,
}

impl SessionAttachable {
    /// No services yet, on the given port.
    pub fn new(port: u16) -> (r: Self)
        ensures
            r.file_sync is None,
            r.auth is None,
            r.port == port,
    {
        SessionAttachable { file_sync: None, auth: None, port }
    }

    /// The same with file sync for the context at `root_path`.
    pub fn with_file_sync(self, root_path: &str) -> (r: Self)
        ensures
            r.file_sync matches Some(fs) && fs.root_path@ == root_path@,
            r.auth == self.auth,
            r.port == self.port,
    {
        SessionAttachable {
            file_sync: Some(FileSyncServer::new(root_path)),
            auth: self.auth,
            port: self.port,
        }
    }

    /// The same with the given credential table.
    pub fn with_auth(self, auth: AuthServer) -> (r: Self)
        ensures
            r.auth == Some(auth),
            r.file_sync == self.file_sync,
            r.port == self.port,
    {
        SessionAttachable { file_sync: self.file_sync, auth: Some(auth), port: self.port }
    }

    /// Whether there is anything to serve. Fails with a session error
    /// exactly where no service is attached.
    pub fn check_services(&self) -> (r: Result<(), Error>)
        ensures
            self.file_sync is Some || self.auth is Some ==> r is Ok,
            self.file_sync is None && self.auth is None ==> (r matches Err(Error::Session(m))
                && m@ == "No services registered"@),
    {
        if self.file_sync.is_some() || self.auth.is_some() {
            Ok(())
        } else {
            Err(Error::session("No services registered"))
        }
    }

    /// The address on which the services listen.
    pub fn listen_address(&self) -> (r: String)
        ensures
            r@ == "0.0.0.0:"@ + decimal_text(self.port as nat),
    {
        let port = decimal(self.port as u64);
        concat2("0.0.0.0:", port.as_str())
    }

    /// The address at which the daemon reaches the services.
    pub fn advertised_address(&self) -> (r: String)
        ensures
            r@ == "host.docker.internal:"@ + decimal_text(self.port as nat),
    {
        let port = decimal(self.port as u64);
        concat2("host.docker.internal:", port.as_str())
    }
}

/// The services that a session serves on the loopback address.
#[derive(Debug, Clone, PartialEq, Eq)]
pub struct SessionServer {
    pub port: u16,
    pub file_sync: Option<FileSyncServer>,
    pub auth: Option<AuthServer>,
}

impl SessionServer {
    /// No services yet, on the given port.
    pub fn new(port: u16) -> (r: Self)
        ensures
            r.port == port,
            r.file_sync is None,
            r.auth is None,
    {
        SessionServer { port, file_sync: None, auth: None }
    }

    /// The same with file sync for the context at `root_path`.
    pub fn with_file_sync(self, root_path: &str) -> (r: Self)
        ensures
            r.file_sync matches Some(fs) && fs.root_path@ == root_path@,
            r.auth == self.auth,
            r.port == self.port,
    {
        SessionServer {
            port: self.port,
            file_sync: Some(FileSyncServer::new(root_path)),
            auth: self.auth,
        }
    }

    /// The same with the given credential table.
    pub fn with_auth(self, auth: AuthServer) -> (r: Self)
        ensures
            r.auth == Some(auth),
            r.file_sync == self.file_sync,
            r.port == self.port,
    {
        SessionServer { port: self.port, file_sync: self.file_sync, auth: Some(auth) }
    }

    /// Whether there is anything to serve. Fails with a session error
    /// exactly where no service is attached.
    pub fn check_services(&self) -> (r: Result<(), Error>)
        ensures
            self.file_sync is Some || self.auth is Some ==> r is Ok,
            self.file_sync is None && self.auth is None ==> (r matches Err(Error::Session(m))
                && m@ == "No services registered"@),
    {
        if self.file_sync.is_some() || self.auth.is_some() {
            Ok(())
        } else {
            Err(Error::session("No services registered"))
        }
    }

    /// The address on which the server listens.
    pub fn addr(&self) -> (r: String)
        ensures
            r@ == "127.0.0.1:"@ + decimal_text(self.port as nat),
    {
        let port = decimal(self.port as u64);
        concat2("127.0.0.1:", port.as_str())
    }
}

/// The port that a random number stands for: one of the ten thousand ports
/// from 50000 on.
pub open spec fn ephemeral_port_of(seed: u16) -> u16 {
    (50000 + seed % 10000) as u16
}

/// The port that a random number stands for.
pub fn ephemeral_port(seed: u16) -> (r: u16)
    ensures
        r == ephemeral_port_of(seed),
        50000 <= r < 60000,
{
    50000 + seed % 10000
}

/// A session that attaches its services on a port of its own.
#[derive(Debug, Clone, PartialEq, Eq)]
pub struct SimpleSession {
    pub id: String,
    pub shared_key: String,
    pub attachable: Option<SessionAttachable>,
}

impl SimpleSession {
    /// The session with the given identifier, named `session-` and then
    /// the given key, with no services.
    pub fn with_identity(id: &str, key: &str) -> (r: Self)
        ensures
            r.id@ == id@,
            r.shared_key@ == "session-"@ + key@,
            r.attachable is None,
    {
        SimpleSession {
            id: String::from_str(id),
            shared_key: concat2("session-", key),
            attachable: None,
        }
    }

    /// A session with a fresh identity and no services: a random
    /// identifier for the session, and `session-` with a second random
    /// identifier for its name.
    pub fn new() -> (r: Self)
        ensures
            is_uuid_text(r.id@),
            is_prefixed_uuid("session-"@, r.shared_key@),
            r.attachable is None,
    {
        let id = fresh_uuid();
        let key = fresh_uuid();
        let r = SimpleSession::with_identity(id.as_str(), key.as_str());
        proof {
            lemma_prefixed_uuid("session-"@, key@);
        }
        r
    }

    /// Adds file sync for the context at `root_path`. Where no service
    /// was attached yet, the services get the port that `seed` stands
    /// for.
    pub fn add_file_sync_on(&mut self, root_path: &str, seed: u16)
        ensures
            final(self).id == old(self).id,
            final(self).shared_key == old(self).shared_key,
            final(self).attachable matches Some(a) && (a.file_sync matches Some(fs)
                && fs.root_path@ == root_path@) && (match old(self).attachable {
                Some(b) => a.port == b.port && a.auth == b.auth,
                None => a.port == ephemeral_port_of(seed) && a.auth is None,
            }),
    {
        let attachable = match self.attachable.take() {
            Some(a) => a.with_file_sync(root_path),
            None => SessionAttachable::new(ephemeral_port(seed)).with_file_sync(root_path),
        };
        self.attachable = Some(attachable);
    }

    /// Adds file sync for the context at `root_path`. Where no service
    /// was attached yet, the services get a port drawn at random from the
    /// ten thousand from 50000 on.
    pub fn add_file_sync(&mut self, root_path: &str)
        ensures
            final(self).id == old(self).id,
            final(self).shared_key == old(self).shared_key,
            final(self).attachable matches Some(a) && (a.file_sync matches Some(fs)
                && fs.root_path@ == root_path@) && (match old(self).attachable {
                Some(b) => a.port == b.port && a.auth == b.auth,
                None => 50000 <= a.port < 60000 && a.auth is None,
            }),
    {
        let seed = random_u16();
        self.add_file_sync_on(root_path, seed);
    }

    /// Adds a credential table. Where no service was attached yet, the
    /// services get the port that `seed` stands for.
    pub fn add_auth_on(&mut self, auth: AuthServer, seed: u16)
        ensures
            final(self).id == old(self).id,
            final(self).shared_key == old(self).shared_key,
            final(self).attachable matches Some(a) && a.auth == Some(auth) && (match old(
                self,
            ).attachable {
                Some(b) => a.port == b.port && a.file_sync == b.file_sync,
                None => a.port == ephemeral_port_of(seed) && a.file_sync is None,
            }),
    {
        let attachable = match self.attachable.take() {
            Some(a) => a.with_auth(auth),
            None => SessionAttachable::new(ephemeral_port(seed)).with_auth(auth),
        };
        self.attachable = Some(attachable);
    }

    /// Adds a credential table. Where no service was attached yet, the
    /// services get a port drawn at random from the ten thousand from
    /// 50000 on.
    pub fn add_auth(&mut self, auth: AuthServer)
        ensures
            final(self).id == old(self).id,
            final(self).shared_key == old(self).shared_key,
            final(self).attachable matches Some(a) && a.auth == Some(auth) && (match old(
                self,
            ).attachable {
                Some(b) => a.port == b.port && a.file_sync == b.file_sync,
                None => 50000 <= a.port < 60000 && a.file_sync is None,
            }),
    {
        let seed = random_u16();
        self.add_auth_on(auth, seed);
    }

    /// The identifier of the session.
    pub fn get_id(&self) -> (r: String)
        ensures
            r@ == self.id@,
    {
        self.id.clone()
    }

    /// The metadata to attach to the build request.
    pub fn metadata(&self) -> (r: Vec<Attr>)
        ensures
            attr_views(r@) == metadata_of(self.id@, self.shared_key@),
    {
        identity_metadata(self.id.as_str(), self.shared_key.as_str())
    }
}

impl Default for SimpleSession {
    /// A session with a fresh identity and no services.
    fn default() -> (r: Self)
        ensures
            is_uuid_text(r.id@),
            is_prefixed_uuid("session-"@, r.shared_key@),
            r.attachable is None,
    {
        SimpleSession::new()
    }
}

/// The reference of a build: `build-` and then an identifier.
pub fn build_reference(identifier: &str) -> (r: String)
    ensures
        r@ == "build-"@ + identifier@,
{
    concat2("build-", identifier)
}

/// A fresh reference for a build: `build-` and then an identifier drawn
/// at random.
pub fn fresh_build_reference() -> (r: String)
    ensures
        is_prefixed_uuid("build-"@, r@),
{
    let id = fresh_uuid();
    let r = build_reference(id.as_str());
    proof {
        lemma_prefixed_uuid("build-"@, id@);
    }
    r
}

} // verus!
