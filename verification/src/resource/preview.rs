//! Links under which the frontend can show a resource for a while.
use crate::bridge::PreviewHandle;
use crate::ids;
use crate::ordered_map::{Entry, OrderedMap};
use crate::ordered_map;
use crate::resource::error::ResourceBridgeError;
use crate::text;
use vstd::prelude::*;
use vstd::string::*;

verus! {

broadcast use vstd::string::group_string_axioms;

/// The nanoseconds of a second.
pub const NANOS_PER_SEC: u128 = 1_000_000_000;

/// What a link leads to, and until when. Times are in nanoseconds since 1970, and negative before.
#[derive(Debug, PartialEq, Eq)]
pub struct PreviewToken {
    ref_id: String,
    expires_at_ns: i128,
}

#[verifier::ext_equal]
pub struct TokenView {
    pub ref_id: Seq<char>,
    pub expires_at_ns: int,
}

impl View for PreviewToken {
    type V = TokenView;

    closed spec fn view(&self) -> TokenView {
        TokenView { ref_id: self.ref_id@, expires_at_ns: self.expires_at_ns as int }
    }
}

/// UI-only preview token / `mutsuki-resource://` URL store (not a runtime lease).
#[derive(Debug)]
pub struct TauriPreviewStore {
    tokens: OrderedMap<PreviewToken>,
}

/// The views of a map of tokens.
pub open spec fn token_views(tokens: Map<Seq<char>, PreviewToken>) -> Map<Seq<char>, TokenView> {
    tokens.map_values(|token: PreviewToken| token@)
}

impl View for TauriPreviewStore {
    type V = Map<Seq<char>, TokenView>;

    closed spec fn view(&self) -> Map<Seq<char>, TokenView> {
        token_views(self.tokens@)
    }
}

/// The tokens that have not expired by a time.
pub open spec fn live(tokens: Map<Seq<char>, TokenView>, now_ns: int) -> Map<Seq<char>, TokenView> {
    Map::new(
        |token: Seq<char>| tokens.contains_key(token) && tokens[token].expires_at_ns > now_ns,
        |token: Seq<char>| tokens[token],
    )
}

/// The seconds since 1970 at a time; none before.
pub open spec fn unix_secs(at_ns: int) -> int {
    if at_ns < 0 {
        0
    } else {
        at_ns / (NANOS_PER_SEC as int)
    }
}

/// The whole seconds of a time fit 64 bits.
pub open spec fn tellable(at_ns: int) -> bool {
    i128::MIN <= at_ns <= i128::MAX && unix_secs(at_ns) <= u64::MAX
}

/// A token that has not expired leads to its resource, and one that has expired leads nowhere.
pub proof fn law_token_lives_until_it_expires(
    tokens: Map<Seq<char>, TokenView>,
    token: Seq<char>,
    entry: TokenView,
    now_ns: int,
)
    ensures
        live(tokens.insert(token, entry), now_ns).contains_key(token) <==> entry.expires_at_ns
            > now_ns,
        entry.expires_at_ns > now_ns ==> live(tokens.insert(token, entry), now_ns)[token] == entry,
{
}

/// A token that was released leads nowhere, at any time.
pub proof fn law_released_token_leads_nowhere(
    tokens: Map<Seq<char>, TokenView>,
    token: Seq<char>,
    now_ns: int,
)
    ensures
        !live(tokens.remove(token), now_ns).contains_key(token),
{
}

impl TauriPreviewStore {
    pub fn new() -> (store: Self)
        ensures
            store@ == Map::<Seq<char>, TokenView>::empty(),
    {
        let store = TauriPreviewStore { tokens: OrderedMap::new() };
        assert(store@ =~= Map::<Seq<char>, TokenView>::empty());
        store
    }

    /// Makes a link to a resource that lasts for `ttl_ns` from `now_ns` on.
    pub fn create_preview_handle(&mut self, ref_id: &str, now_ns: i128, ttl_ns: u128) -> (handle:
        PreviewHandle)
        requires
            ttl_ns <= i128::MAX,
            tellable(now_ns + ttl_ns),
        ensures
            handle.ref_id@ == ref_id@,
            ids::id_shape(handle.token@),
            handle.url@ == "mutsuki-resource://"@ + handle.token@,
            handle.expires_at_unix_secs == unix_secs(now_ns + ttl_ns),
            final(self)@ == old(self)@.insert(
                handle.token@,
                TokenView { ref_id: ref_id@, expires_at_ns: now_ns + ttl_ns },
            ),
    {
        let token = ids::fresh_id();
        let expires_at_ns: i128 = now_ns + ttl_ns as i128;
        let expires_at_unix_secs: u64 = if expires_at_ns < 0 {
            0
        } else {
            (expires_at_ns as u128 / NANOS_PER_SEC) as u64
        };
        self.tokens.insert(
            token.clone(),
            PreviewToken { ref_id: ref_id.to_owned(), expires_at_ns },
        );
        assert(self@ =~= old(self)@.insert(
            token@,
            TokenView { ref_id: ref_id@, expires_at_ns: now_ns + ttl_ns },
        ));
        PreviewHandle {
            ref_id: ref_id.to_owned(),
            url: text::join2("mutsuki-resource://", token.as_str()),
            token,
            expires_at_unix_secs,
        }
    }

    /// Forgets the links that have expired.
    fn purge(&mut self, now_ns: i128)
        ensures
            final(self)@ == live(old(self)@, now_ns as int),
    {
        let ghost before = self@;
        let mut tokens: OrderedMap<PreviewToken> = OrderedMap::new();
        std::mem::swap(&mut tokens, &mut self.tokens);
        let ghost all = tokens@;
        let entries = tokens.into_entries();
        let ghost rows = entries@;
        let mut kept: OrderedMap<PreviewToken> = OrderedMap::new();
        let ghost mut done: int = 0;
        for entry in it: entries
            invariant
                it.seq() == rows,
                done == it.index(),
                ordered_map::ascending(ordered_map::entry_keys(rows)),
                all == ordered_map::entries_map(rows),
                forall|k: Seq<char>| #[trigger]
                    kept@.contains_key(k) <==> exists|j: int|
                        0 <= j < done && (#[trigger] rows[j]).key@ == k && rows[j].value@.expires_at_ns
                            > now_ns,
                forall|k: Seq<char>| #[trigger] kept@.contains_key(k) ==> kept@[k] == all[k],
        {
            proof {
                ordered_map::lemma_entry_at(rows, done);
            }
            let ghost k0 = entry.key@;
            let ghost before_kept = kept@;
            let alive = entry.value.expires_at_ns > now_ns;
            if alive {
                kept.insert(entry.key, entry.value);
            }
            proof {
                assert forall|k: Seq<char>| #[trigger]
                    kept@.contains_key(k) <==> exists|j: int|
                        0 <= j < done + 1 && (#[trigger] rows[j]).key@ == k
                            && rows[j].value@.expires_at_ns > now_ns by {
                    if kept@.contains_key(k) {
                        if before_kept.contains_key(k) {
                            let j = choose|j: int|
                                0 <= j < done && (#[trigger] rows[j]).key@ == k
                                    && rows[j].value@.expires_at_ns > now_ns;
                            assert(rows[j].key@ == k);
                        } else {
                            assert(rows[done].key@ == k);
                        }
                    }
                }
                done = done + 1;
            }
        }
        self.tokens = kept;
        proof {
            let after = live(before, now_ns as int);
            assert forall|k: Seq<char>| #[trigger] self@.contains_key(k) == after.contains_key(k) by {
                if self@.contains_key(k) {
                    let j = choose|j: int|
                        0 <= j < done && (#[trigger] rows[j]).key@ == k
                            && rows[j].value@.expires_at_ns > now_ns;
                    ordered_map::lemma_entry_at(rows, j);
                }
                if after.contains_key(k) {
                    let j = ordered_map::index_of_key(rows, k);
                    ordered_map::lemma_entry_at(rows, j);
                    assert(rows[j].key@ == k);
                }
            }
            assert(self@ =~= after);
        }
    }

    /// The resource that a link leads to. Links that have expired are forgotten.
    pub fn resolve_preview_token(&mut self, token: &str, now_ns: i128) -> (found: Result<
        String,
        ResourceBridgeError,
    >)
        ensures
            final(self)@ == live(old(self)@, now_ns as int),
            match found {
                Ok(ref_id) => final(self)@.contains_key(token@) && ref_id@
                    == final(self)@[token@].ref_id,
                Err(error) => !final(self)@.contains_key(token@) && (error matches
                    ResourceBridgeError::InvalidToken(t) && t@ == token@),
            },
    {
        self.purge(now_ns);
        match self.tokens.get(token) {
            Some(preview) => Ok(preview.ref_id.clone()),
            None => Err(ResourceBridgeError::InvalidToken(token.to_owned())),
        }
    }

    /// Takes a link back.
    pub fn release_preview_token(&mut self, token: &str) -> (released: Result<
        (),
        ResourceBridgeError,
    >)
        ensures
            final(self)@ == old(self)@.remove(token@),
            match released {
                Ok(_) => old(self)@.contains_key(token@),
                Err(error) => !old(self)@.contains_key(token@) && (error matches
                    ResourceBridgeError::InvalidToken(t) && t@ == token@),
            },
    {
        match self.tokens.remove(token) {
            Some(_) => {
                assert(self@ =~= old(self)@.remove(token@));
                Ok(())
            },
            None => {
                assert(self@ =~= old(self)@.remove(token@));
                Err(ResourceBridgeError::InvalidToken(token.to_owned()))
            },
        }
    }
}

/// The name of the local host, or a name below it.
pub open spec fn names_local_host(host: Seq<char>) -> bool {
    host == "localhost"@ || text::ends_with(host, ".localhost"@)
}

/// How many slashes stand at the start of a path.
pub open spec fn slashes(path: Seq<char>) -> nat
    decreases path.len(),
{
    if path.len() > 0 && path[0] == '/' {
        1 + slashes(path.skip(1))
    } else {
        0
    }
}

/// The characters before the first slash.
pub open spec fn before_slash(path: Seq<char>) -> Seq<char>
    decreases path.len(),
{
    if path.len() == 0 || path[0] == '/' {
        Seq::empty()
    } else {
        seq![path[0]] + before_slash(path.skip(1))
    }
}

/// The token that an address holds: its host, or the first piece of its path where the host is
/// the local one or there is none.
pub open spec fn address_token(host: Option<Seq<char>>, path: Seq<char>) -> Seq<char> {
    if host is Some && !names_local_host(host->0) {
        host->0
    } else {
        before_slash(path.skip(slashes(path) as int))
    }
}

/// The first piece of a path.
fn first_piece(path: &str) -> (piece: String)
    ensures
        piece@ == before_slash(path@.skip(slashes(path@) as int)),
{
    let chars = text::chars_of(path);
    let mut at: usize = 0;
    assert(path@.skip(0) =~= path@);
    while at < chars.len() && chars[at] == '/'
        invariant
            chars@ == path@,
            at <= chars.len(),
            slashes(path@) == at + slashes(path@.skip(at as int)),
        decreases chars.len() - at,
    {
        assert(path@.skip(at as int).skip(1) =~= path@.skip(at + 1));
        at = at + 1;
    }
    let start: usize = at;
    assert(slashes(path@.skip(start as int)) == 0);
    let ghost rest = path@.skip(start as int);
    assert(rest.take(0) + before_slash(rest.skip(0)) =~= before_slash(rest)) by {
        assert(rest.skip(0) =~= rest);
    }
    while at < chars.len() && chars[at] != '/'
        invariant
            chars@ == path@,
            start <= at <= chars.len(),
            rest == path@.skip(start as int),
            rest.take(at - start) + before_slash(rest.skip(at - start)) == before_slash(rest),
        decreases chars.len() - at,
    {
        proof {
            let done = at - start;
            assert(rest.skip(done).skip(1) =~= rest.skip(done + 1));
            assert(rest.take(done + 1) + before_slash(rest.skip(done + 1)) =~= rest.take(done)
                + before_slash(rest.skip(done)));
        }
        at = at + 1;
    }
    assert(before_slash(rest.skip(at - start)) =~= Seq::<char>::empty());
    assert(path@.subrange(start as int, at as int) =~= before_slash(rest));
    path.substring_char(start, at).to_owned()
}

/// The token that an address of the frontend holds.
pub fn preview_token(host: Option<&str>, path: &str) -> (token: String)
    ensures
        token@ == address_token(
            match host {
                Some(h) => Some(h@),
                None => None,
            },
            path@,
        ),
{
    match host {
        Some(name) => {
            if text::text_eq(name, "localhost") || text::text_ends_with(name, ".localhost") {
                first_piece(path)
            } else {
                name.to_owned()
            }
        },
        None => first_piece(path),
    }
}

/// The token of a link is found again in its address, as the host or as the path of it.
pub proof fn law_link_holds_its_token(token: Seq<char>, path: Seq<char>)
    requires
        ids::id_shape(token),
    ensures
        address_token(Some(token), path) == token,
        address_token(Some("localhost"@), seq!['/'] + token) == token,
        address_token(None, seq!['/'] + token) == token,
{
    let whole = seq!['/'] + token;
    assert forall|i: int| 0 <= i < token.len() implies token[i] != '/' && token[i] != 't' by {
        assert(token[i] == '-' || ids::hex_digit(token[i]));
    }
    assert(!names_local_host(token)) by {
        reveal_strlit("localhost");
        reveal_strlit(".localhost");
        if token == "localhost"@ {
            assert(token[8] == 't');
        }
        if text::ends_with(token, ".localhost"@) {
            assert(token.skip(26)[9] == token[35]);
        }
    }
    assert(whole.skip(1) =~= token);
    assert(slashes(token) == 0);
    assert(slashes(whole) == 1);
    lemma_no_slash(token);
}

proof fn lemma_no_slash(piece: Seq<char>)
    requires
        forall|i: int| 0 <= i < piece.len() ==> piece[i] != '/',
    ensures
        before_slash(piece) == piece,
    decreases piece.len(),
{
    if piece.len() > 0 {
        lemma_no_slash(piece.skip(1));
        assert(seq![piece[0]] + piece.skip(1) =~= piece);
    } else {
        assert(before_slash(piece) =~= piece);
    }
}

/// The body that is shown under a link, with its media type where that is known.
#[derive(Debug, PartialEq, Eq)]
pub struct PreviewBody {
    pub bytes: Vec<u8>,
    pub media_type: Option<String>,
}

/// The answer to a request for a link. It is never to be stored.
#[derive(Debug, PartialEq, Eq)]
pub struct PreviewReply {
    pub status: u16,
    pub content_type: Option<String>,
    /// Every page may read the answer.
    pub any_origin: bool,
    pub body: Vec<u8>,
}

/// Answers a request for a link. `read` is absent while there is no host.
pub fn preview_reply(read: Option<Result<PreviewBody, ResourceBridgeError>>) -> (reply: PreviewReply)
    ensures
        match read {
            Some(Ok(shown)) => {
                &&& reply.status == 200
                &&& text::opt_text(reply.content_type) == Some(
                    match shown.media_type {
                        Some(media_type) => media_type@,
                        None => "application/octet-stream"@,
                    },
                )
                &&& reply.any_origin
                &&& reply.body == shown.bytes
            },
            Some(Err(_)) => {
                &&& reply.status == 404
                &&& reply.content_type is None
                &&& !reply.any_origin
                &&& reply.body@ == Seq::<u8>::empty()
            },
            None => {
                &&& reply.status == 503
                &&& reply.content_type is None
                &&& !reply.any_origin
                &&& reply.body@ == Seq::<u8>::empty()
            },
        },
{
    match read {
        Some(Ok(shown)) => {
            let content_type = match shown.media_type {
                Some(media_type) => media_type,
                None => "application/octet-stream".to_owned(),
            };
            PreviewReply {
                status: 200,
                content_type: Some(content_type),
                any_origin: true,
                body: shown.bytes,
            }
        },
        Some(Err(_)) => PreviewReply {
            status: 404,
            content_type: None,
            any_origin: false,
            body: Vec::new(),
        },
        None => PreviewReply {
            status: 503,
            content_type: None,
            any_origin: false,
            body: Vec::new(),
        },
    }
}

/// The time at which a link expires is told in whole seconds since 1970, and as none before.
pub proof fn law_expiry_is_told_in_seconds(at_ns: int)
    ensures
        at_ns >= 0 ==> unix_secs(at_ns) * 1_000_000_000 <= at_ns < (unix_secs(at_ns) + 1)
            * 1_000_000_000,
        at_ns < 0 ==> unix_secs(at_ns) == 0,
{
}

/// The passing of time leaves every link alone that has not expired, and takes the others.
pub proof fn law_time_takes_expired_links_only(
    tokens: Map<Seq<char>, TokenView>,
    token: Seq<char>,
    now_ns: int,
)
    ensures
        live(tokens, now_ns).contains_key(token) <==> tokens.contains_key(token)
            && tokens[token].expires_at_ns > now_ns,
        live(tokens, now_ns).contains_key(token) ==> live(tokens, now_ns)[token] == tokens[token],
{
}

proof fn lemma_slashes(n: nat, rest: Seq<char>)
    requires
        rest.len() == 0 || rest[0] != '/',
    ensures
        slashes(Seq::new(n, |i: int| '/') + rest) == n,
    decreases n,
{
    let whole = Seq::new(n, |i: int| '/') + rest;
    if n > 0 {
        lemma_slashes((n - 1) as nat, rest);
        assert(whole.skip(1) =~= Seq::new((n - 1) as nat, |i: int| '/') + rest);
    } else {
        assert(whole =~= rest);
    }
}

proof fn lemma_before_slash(piece: Seq<char>, rest: Seq<char>)
    requires
        forall|i: int| 0 <= i < piece.len() ==> piece[i] != '/',
        rest.len() == 0 || rest[0] == '/',
    ensures
        before_slash(piece + rest) == piece,
    decreases piece.len(),
{
    let whole = piece + rest;
    if piece.len() > 0 {
        lemma_before_slash(piece.skip(1), rest);
        assert(whole.skip(1) =~= piece.skip(1) + rest);
        assert(seq![piece[0]] + piece.skip(1) =~= piece);
    } else {
        assert(before_slash(whole) =~= piece);
    }
}

/// The token of an address is its host, unless the host is the local one or there is none; it is
/// then the first piece of the path, whatever slashes stand before it and whatever stands behind
/// it.
pub proof fn law_token_is_the_host_or_the_first_piece(
    host: Seq<char>,
    n: nat,
    piece: Seq<char>,
    rest: Seq<char>,
)
    requires
        forall|i: int| 0 <= i < piece.len() ==> piece[i] != '/',
        rest.len() == 0 || rest[0] == '/',
        piece.len() > 0 || rest.len() == 0,
    ensures
        ({
            let path = Seq::new(n, |i: int| '/') + (piece + rest);
            let local = host == "localhost"@ || text::ends_with(host, ".localhost"@);
            &&& local ==> address_token(Some(host), path) == piece
            &&& !local ==> address_token(Some(host), path) == host
            &&& address_token(None, path) == piece
        }),
{
    let path = Seq::new(n, |i: int| '/') + (piece + rest);
    lemma_slashes(n, piece + rest);
    assert(path.skip(n as int) =~= piece + rest);
    lemma_before_slash(piece, rest);
}

} // verus!
