//! Collections of albums, which an owner can share by a token, optionally
//! behind a password.

use vstd::prelude::*;
use vstd::string::*;
use crate::error::Error;
use crate::library::copy_strings;
use crate::models::opt_text;
use crate::passwords::{hash_password, pbkdf2_phc_verifies, spec_hash_password, verify_password_hash};
use crate::server::session::Session;
use crate::text::{same_text, string_views};

verus! {

/// How a collection is shared: the token it is reached by and, where it is
/// protected by a password, the password's hash.
#[derive(Debug, Clone, PartialEq, Eq)]
pub struct CollectionSharing {
    pub token: String,
    pub password_hash: Option<String>,
}

/// A collection of albums.
#[derive(Debug, Clone, PartialEq, Eq)]
pub struct Collection {
    pub id: String,
    pub user_id: String,
    pub title: String,
    pub albums: Vec<String>,
    pub sharing: CollectionSharing,
}

/// An album as the server stores it.
#[derive(Debug, Clone, PartialEq, Eq)]
pub struct AlbumRecord {
    pub id: String,
    pub user_id: String,
    pub title: String,
    pub public: bool,
    pub thumb_photo_id: Option<String>,
    pub photos: Vec<String>,
    pub tags: Vec<String>,
}

/// A request to create a collection.
#[derive(Debug, Clone, PartialEq, Eq)]
pub struct CreateCollection {
    pub title: String,
}

/// New sharing options of a collection.
#[derive(Debug, Clone, PartialEq, Eq)]
pub struct UpdateCollectionSharingOptions {
    pub shared: bool,
    pub require_password: bool,
    pub password: Option<String>,
}

/// A request to update a collection; absent fields stay as they are.
#[derive(Debug, Clone, PartialEq, Eq)]
pub struct UpdateCollection {
    pub title: Option<String>,
    pub public: Option<bool>,
    pub albums: Option<Vec<String>>,
    pub sharing: Option<UpdateCollectionSharingOptions>,
}

/// A request to be granted a password-protected collection.
#[derive(Debug, Clone, PartialEq, Eq)]
pub struct AuthenticateToCollection {
    pub password: Option<String>,
}

/// An album of a collection as a client sees it.
#[derive(Debug, Clone, PartialEq, Eq)]
pub struct ClientCollectionAlbum {
    pub id: String,
    pub title: String,
    pub thumb_photo_id: Option<String>,
}

/// How a collection is shared, as a client sees it.
#[derive(Debug, Clone, PartialEq, Eq)]
pub struct ClientCollectionSharingOptions {
    pub require_password: bool,
    pub token: String,
}

/// A collection as a client sees it.
#[derive(Debug, Clone, PartialEq, Eq)]
pub struct ClientCollection {
    pub id: String,
    pub title: String,
    pub albums: Vec<ClientCollectionAlbum>,
    pub sharing: ClientCollectionSharingOptions,
}

/// The password hash a collection has after an update of its sharing
/// options, or the error the update is refused with.
pub open spec fn updated_password_hash(collection_id: Seq<char>, current: Option<Seq<char>>, sharing: UpdateCollectionSharingOptions) -> Result<Option<Seq<char>>, Error> {
    if sharing.require_password {
        match sharing.password {
            Some(p) => if p@.len() == 0 {
                Err(Error::PasswordEmpty)
            } else {
                match spec_hash_password(p@, collection_id) {
                    Ok(h) => Ok(Some(h)),
                    Err(e) => Err(e),
                }
            },
            None => match current {
                Some(h) => Ok(Some(h)),
                None => Err(Error::MissingPassword),
            },
        }
    } else {
        Ok(None)
    }
}

/// Applies an update to a collection: its title and albums where the update
/// sets them, and its sharing options. A password that is required is
/// hashed, salted with the collection's id; an empty one is refused; where
/// none is given the current hash stays, and where there is none the update
/// is refused with [`Error::MissingPassword`]; where none is required the
/// hash is removed. A refused update changes nothing. Whether the collection
/// is public is not changed.
pub fn apply_collection_update(collection: &mut Collection, update: &UpdateCollection) -> (r: Result<(), Error>)
    ensures
        r is Err ==> *final(collection) == *old(collection),
        r is Ok ==> {
            &&& final(collection).id == old(collection).id
            &&& final(collection).user_id == old(collection).user_id
            &&& final(collection).sharing.token == old(collection).sharing.token
            &&& final(collection).title@ == (match update.title { Some(t) => t@, None => old(collection).title@ })
            &&& string_views(final(collection).albums@) == (match update.albums { Some(a) => string_views(a@), None => string_views(old(collection).albums@) })
        },
        match update.sharing {
            Some(sharing) => match updated_password_hash(old(collection).id@, opt_text(old(collection).sharing.password_hash), sharing) {
                Ok(h) => r is Ok && opt_text(final(collection).sharing.password_hash) == h,
                Err(e) => r == Err::<(), Error>(e),
            },
            None => r is Ok && final(collection).sharing.password_hash == old(collection).sharing.password_hash,
        },
        r is Ok ==> (update.sharing matches Some(sh) ==> (sh.require_password ==> (sh.password matches Some(p) ==>
            (final(collection).sharing.password_hash matches Some(h) && pbkdf2_phc_verifies(p@, h@))))),
{
    let mut new_hash: Option<Option<String>> = None;
    if let Some(sharing) = &update.sharing {
        if sharing.require_password {
            match &sharing.password {
                Some(password) => {
                    if password.as_str().is_empty() {
                        return Err(Error::PasswordEmpty);
                    }
                    match hash_password(password.as_str(), collection.id.as_str()) {
                        Ok(hash) => new_hash = Some(Some(hash)),
                        Err(e) => return Err(e),
                    }
                },
                None => {
                    if collection.sharing.password_hash.is_none() {
                        return Err(Error::MissingPassword);
                    }
                },
            }
        } else {
            new_hash = Some(None);
        }
    }
    if let Some(title) = &update.title {
        collection.title = title.clone();
    }
    if let Some(albums) = &update.albums {
        collection.albums = copy_strings(albums);
    }
    if let Some(hash) = new_hash {
        collection.sharing.password_hash = hash;
    }
    Ok(())
}

impl Collection {
    /// Whether a password opens the collection: it verifies against the
    /// collection's password hash; a collection without one is open.
    pub fn password_correct(&self, password: &str) -> (r: bool)
        ensures
            r == (match self.sharing.password_hash {
                Some(h) => pbkdf2_phc_verifies(password@, h@),
                None => true,
            }),
    {
        match &self.sharing.password_hash {
            Some(h) => verify_password_hash(password, h.as_str()),
            None => true,
        }
    }
}

/// What a request to be granted a collection is answered.
#[derive(Debug, Clone, Copy, PartialEq, Eq, Structural)]
pub enum AuthenticateOutcome {
    /// The request holds no password.
    NoPassword,
    /// No collection is shared by the token.
    NotFound,
    /// The password does not open the collection.
    Unauthorized,
    /// The session was granted the collection; `session_changed` tells
    /// whether it needs saving, `set_cookie` whether the response must hand
    /// the client the session's cookie (the request came without one).
    Authenticated { session_changed: bool, set_cookie: bool },
}

/// Answers a request to be granted the collection shared by a token: the
/// collection found by the token (if any), the session the grant goes to,
/// and whether the request came with that session.
pub fn authenticate_to_collection(
    request: &AuthenticateToCollection,
    collection: Option<&Collection>,
    session: &mut Session,
    request_has_session: bool,
) -> (r: AuthenticateOutcome)
    ensures
        request.password is None ==> r == AuthenticateOutcome::NoPassword && *final(session) == *old(session),
        request.password is Some && collection is None ==> r == AuthenticateOutcome::NotFound && *final(session) == *old(session),
        (request.password matches Some(p) && collection matches Some(c) && {
            match c.sharing.password_hash {
                Some(h) => !pbkdf2_phc_verifies(p@, h@),
                None => false,
            }
        }) ==> r == AuthenticateOutcome::Unauthorized && *final(session) == *old(session),
        r matches AuthenticateOutcome::Authenticated { session_changed, set_cookie } ==> {
            &&& set_cookie == !request_has_session
            &&& collection matches Some(c)
            &&& string_views(final(session).authenticated_for_collection_tokens@).contains(c.sharing.token@)
            &&& session_changed == !string_views(old(session).authenticated_for_collection_tokens@).contains(c.sharing.token@)
            &&& final(session).id == old(session).id
            &&& final(session).user_id == old(session).user_id
        },
        (request.password matches Some(p) && collection matches Some(c) && {
            match c.sharing.password_hash {
                Some(h) => pbkdf2_phc_verifies(p@, h@),
                None => true,
            }
        }) ==> r is Authenticated,
{
    let password = match &request.password {
        Some(p) => p,
        None => return AuthenticateOutcome::NoPassword,
    };
    let collection = match collection {
        Some(c) => c,
        None => return AuthenticateOutcome::NotFound,
    };
    if !collection.password_correct(password.as_str()) {
        return AuthenticateOutcome::Unauthorized;
    }
    let session_changed = session.authenticate_for_collection(collection.sharing.token.as_str());
    AuthenticateOutcome::Authenticated { session_changed, set_cookie: !request_has_session }
}

/// The first album with the given id.
fn find_album(albums: &Vec<AlbumRecord>, id: &str) -> (r: Option<usize>)
    ensures
        match r {
            Some(i) => i < albums@.len() && albums@[i as int].id@ == id@
                && forall|j: int| 0 <= j < i ==> (#[trigger] albums@[j]).id@ != id@,
            None => forall|j: int| 0 <= j < albums@.len() ==> (#[trigger] albums@[j]).id@ != id@,
        },
{
    let mut i: usize = 0;
    while i < albums.len()
        invariant
            i <= albums@.len(),
            forall|j: int| 0 <= j < i ==> (#[trigger] albums@[j]).id@ != id@,
        decreases albums@.len() - i,
    {
        if same_text(albums[i].id.as_str(), id) {
            return Some(i);
        }
        i = i + 1;
    }
    None
}

/// The album a collection lists under an id, as a client sees it: the
/// first of the given albums with that id.
pub open spec fn listed_album(albums: Seq<AlbumRecord>, id: Seq<char>) -> Option<(Seq<char>, Seq<char>, Option<Seq<char>>)> {
    if exists|i: int| 0 <= i < albums.len() && (#[trigger] albums[i]).id@ == id {
        let i = choose|i: int|
            0 <= i < albums.len() && (#[trigger] albums[i]).id@ == id && forall|j: int| 0 <= j < i ==> albums[j].id@ != id;
        Some((albums[i].id@, albums[i].title@, opt_text(albums[i].thumb_photo_id)))
    } else {
        None
    }
}

/// The albums of a collection as a client sees them: for each album id the
/// collection lists, in its order, the album with that id among those found,
/// skipping ids with none.
pub open spec fn client_collection_albums(ids: Seq<Seq<char>>, albums: Seq<AlbumRecord>) -> Seq<(Seq<char>, Seq<char>, Option<Seq<char>>)>
    decreases ids.len(),
{
    if ids.len() == 0 {
        Seq::empty()
    } else {
        let prev = client_collection_albums(ids.drop_last(), albums);
        match listed_album(albums, ids.last()) {
            Some(a) => prev.push(a),
            None => prev,
        }
    }
}

/// The view of a client's collection album.
pub open spec fn client_album_view(a: ClientCollectionAlbum) -> (Seq<char>, Seq<char>, Option<Seq<char>>) {
    (a.id@, a.title@, opt_text(a.thumb_photo_id))
}

impl ClientCollection {
    /// A collection as a client sees it, from the collection and the albums
    /// found for its album ids.
    pub fn from(collection: &Collection, albums: &Vec<AlbumRecord>) -> (r: ClientCollection)
        ensures
            r.id@ == collection.id@,
            r.title@ == collection.title@,
            r.albums@.map_values(|a: ClientCollectionAlbum| client_album_view(a)) == client_collection_albums(string_views(collection.albums@), albums@),
            r.sharing.require_password == collection.sharing.password_hash is Some,
            r.sharing.token@ == collection.sharing.token@,
    {
        let ghost ids = string_views(collection.albums@);
        let mut listed: Vec<ClientCollectionAlbum> = Vec::new();
        let mut i: usize = 0;
        while i < collection.albums.len()
            invariant
                i <= collection.albums@.len(),
                ids == string_views(collection.albums@),
                listed@.map_values(|a: ClientCollectionAlbum| client_album_view(a)) == client_collection_albums(ids.take(i as int), albums@),
            decreases collection.albums@.len() - i,
        {
            let id = collection.albums[i].as_str();
            proof {
                assert(ids.take(i + 1).drop_last() =~= ids.take(i as int));
                assert(ids.take(i + 1).last() == id@);
            }
            match find_album(albums, id) {
                Some(k) => {
                    let album = &albums[k];
                    let thumb_photo_id = match &album.thumb_photo_id {
                        Some(t) => Some(t.clone()),
                        None => None,
                    };
                    let item = ClientCollectionAlbum { id: album.id.clone(), title: album.title.clone(), thumb_photo_id };
                    let ghost prev = listed@;
                    listed.push(item);
                    proof {
                        let c = choose|c: int|
                            0 <= c < albums@.len() && (#[trigger] albums@[c]).id@ == id@ && forall|j: int| 0 <= j < c ==> albums@[j].id@ != id@;
                        if c < k {
                            assert(albums@[c].id@ != id@);
                        } else if c > k {
                            assert(albums@[k as int].id@ != id@);
                        }
                        assert(listed@.map_values(|a: ClientCollectionAlbum| client_album_view(a)) =~= prev.map_values(|a: ClientCollectionAlbum| client_album_view(a)).push(client_album_view(item)));
                    }
                },
                None => {},
            }
            i = i + 1;
        }
        proof {
            assert(ids.take(ids.len() as int) =~= ids);
        }
        ClientCollection {
            id: collection.id.clone(),
            title: collection.title.clone(),
            albums: listed,
            sharing: ClientCollectionSharingOptions {
                require_password: collection.sharing.password_hash.is_some(),
                token: collection.sharing.token.clone(),
            },
        }
    }
}

} // verus!
