use vstd::prelude::*;
use vstd::slice::slice_subrange;
use vstd::string::StringExecFns;
use crate::broker::{delivered, Broker, NotifyMessage};
use crate::digest::{constant_time_eq, hmac_sha256, hmac_sha256_of};
use crate::hexcode::{decode_hex, hex_decoded};
use crate::store::{first_named, has_id, GameRecord, GameStore};

verus! {

/// The fields of an issue-tracker webhook delivery that the service reads.
#[derive(Debug)]
pub struct WebhookPayload {
    pub action: String,
    pub issue_id: u64,
    pub title: String,
    /// Login of the account that triggered the event.
    pub sender: String,
    /// Login of the repository's owner, the one account allowed to act.
    pub owner: String,
}

/// The lifecycle event a delivery describes.
#[derive(Debug, Clone, Copy, PartialEq, Eq, Structural)]
pub enum WebhookAction {
    Closed,
    Reopened,
    Other,
}

/// What the service answers to a delivery.
#[derive(Debug, Clone, Copy, PartialEq, Eq, Structural)]
pub enum WebhookReply {
    /// Handled, whether or not anything changed: answered with the payload.
    Accepted,
    /// Bad signature or unauthorized sender: nothing changed.
    Unauthorized,
    /// The body is not a payload: nothing changed.
    MalformedPayload,
    /// The store could not create the game: nothing changed.
    StoreFailed,
}

/// The event an action string names.
pub open spec fn action_of(a: Seq<char>) -> WebhookAction {
    if a == "closed"@ {
        WebhookAction::Closed
    } else if a == "reopened"@ {
        WebhookAction::Reopened
    } else {
        WebhookAction::Other
    }
}

/// Classifies an action string.
pub fn classify_action(action: &String) -> (r: WebhookAction)
    ensures
        r == action_of(action@),
{
    let closed = String::from_str("closed");
    let reopened = String::from_str("reopened");
    if *action == closed {
        WebhookAction::Closed
    } else if *action == reopened {
        WebhookAction::Reopened
    } else {
        WebhookAction::Other
    }
}

/// The bytes `sha256=` that open a signature header.
pub open spec fn sig_prefix() -> Seq<u8> {
    seq![115u8, 104u8, 97u8, 50u8, 53u8, 54u8, 61u8]
}

/// Whether `header` is `sha256=` followed by the hexadecimal HMAC-SHA256 tag
/// of `body` under `secret`.
pub open spec fn signature_valid(secret: Seq<u8>, body: Seq<u8>, header: Seq<u8>) -> bool {
    &&& header.len() >= 7
    &&& header.subrange(0, 7) == sig_prefix()
    &&& hex_decoded(header.subrange(7, header.len() as int)) == Some(hmac_sha256_of(secret, body))
}

/// Checks the signature header of a delivery against its raw body; the tags
/// are compared in constant time.
pub fn verify_signature(secret: &[u8], body: &[u8], header: &[u8]) -> (r: bool)
    ensures
        r == signature_valid(secret@, body@, header@),
{
    let n = header.len();
    if n < 7 {
        return false;
    }
    let prefix_ok = header[0] == 115 && header[1] == 104 && header[2] == 97 && header[3] == 50
        && header[4] == 53 && header[5] == 54 && header[6] == 61;
    proof {
        if prefix_ok {
            assert(header@.subrange(0, 7) =~= sig_prefix());
        } else {
            assert(header@.subrange(0, 7) != sig_prefix()) by {
                if header@.subrange(0, 7) == sig_prefix() {
                    assert(header@.subrange(0, 7)[0] == header@[0]);
                    assert(header@.subrange(0, 7)[1] == header@[1]);
                    assert(header@.subrange(0, 7)[2] == header@[2]);
                    assert(header@.subrange(0, 7)[3] == header@[3]);
                    assert(header@.subrange(0, 7)[4] == header@[4]);
                    assert(header@.subrange(0, 7)[5] == header@[5]);
                    assert(header@.subrange(0, 7)[6] == header@[6]);
                }
            }
        }
    }
    let tag = hmac_sha256(secret, body);
    match decode_hex(slice_subrange(header, 7, n)) {
        Some(given) => prefix_ok && constant_time_eq(&given, &tag),
        None => false,
    }
}

/// Whether the delivery was triggered by the repository's owner.
pub open spec fn sender_authorized(p: WebhookPayload) -> bool {
    p.sender@ == p.owner@
}

impl WebhookPayload {
    /// Whether the sender is the repository's owner.
    pub fn is_owner(&self) -> (r: bool)
        ensures
            r == sender_authorized(*self),
    {
        self.sender == self.owner
    }
}

/// The mutation a verified delivery asks for.
#[derive(Debug, PartialEq, Eq, Clone, Copy, Structural)]
pub enum DomainAction {
    CreateGame,
    DeleteGame { id: u64 },
    NoOp,
}

/// What a verified delivery asks of a store holding `games`: a closed issue
/// creates a game; a reopened one deletes the first game named after it, if
/// there is one.
pub open spec fn action_for(p: WebhookPayload, games: Seq<GameRecord>) -> DomainAction {
    match action_of(p.action@) {
        WebhookAction::Closed => DomainAction::CreateGame,
        WebhookAction::Reopened => if exists|i: int| first_named(games, p.title@, i) {
            DomainAction::DeleteGame { id: games[choose|i: int| first_named(games, p.title@, i)].id }
        } else {
            DomainAction::NoOp
        },
        WebhookAction::Other => DomainAction::NoOp,
    }
}

proof fn lemma_first_named_unique(games: Seq<GameRecord>, name: Seq<char>, i: int, k: int)
    requires
        first_named(games, name, i),
        first_named(games, name, k),
    ensures
        i == k,
{
    if i < k {
        assert(games[i].name@ != name);
    } else if k < i {
        assert(games[k].name@ != name);
    }
}

/// Turns a verified delivery into the mutation it asks for.
pub fn translate(p: &WebhookPayload, store: &GameStore) -> (r: DomainAction)
    ensures
        r == action_for(*p, store.records()),
{
    match classify_action(&p.action) {
        WebhookAction::Closed => DomainAction::CreateGame,
        WebhookAction::Reopened => match store.find_by_name(&p.title) {
            Some(id) => {
                proof {
                    let i = choose|i: int|
                        first_named(store.records(), p.title@, i) && store.records()[i].id == id;
                    let k = choose|k: int| first_named(store.records(), p.title@, k);
                    lemma_first_named_unique(store.records(), p.title@, i, k);
                }
                DomainAction::DeleteGame { id }
            },
            None => {
                proof {
                    if exists|i: int| first_named(store.records(), p.title@, i) {
                        let i = choose|i: int| first_named(store.records(), p.title@, i);
                        assert(store.records()[i].name@ != p.title@);
                    }
                }
                DomainAction::NoOp
            },
        },
        WebhookAction::Other => DomainAction::NoOp,
    }
}

/// Handles one delivery: `body` is its raw bytes, `header` its signature
/// header and `payload` what the body parsed to (`None` when it did not).
///
/// Nothing changes unless the payload parsed, the signature is valid and the
/// sender is the owner. Then a closed issue creates one game named after the
/// issue and announces it; a reopened issue deletes the game named after it
/// and announces the deletion, or changes nothing if there is none; any other
/// action changes nothing.
pub fn webhook(
    store: &mut GameStore,
    broker: &mut Broker,
    secret: &[u8],
    body: &[u8],
    header: &[u8],
    payload: Option<WebhookPayload>,
) -> (r: WebhookReply)
    requires
        old(store).wf(),
        old(broker).wf(),
    ensures
        final(store).wf(),
        final(broker).wf(),
        match payload {
            None => {
                &&& r == WebhookReply::MalformedPayload
                &&& *final(store) == *old(store)
                &&& *final(broker) == *old(broker)
            },
            Some(p) => if !signature_valid(secret@, body@, header@) || !sender_authorized(p) {
                &&& r == WebhookReply::Unauthorized
                &&& *final(store) == *old(store)
                &&& *final(broker) == *old(broker)
            } else {
                match action_for(p, old(store).records()) {
                    DomainAction::CreateGame => if old(store).next_id() < u64::MAX {
                        let g = old(store).next_id();
                        &&& r == WebhookReply::Accepted
                        &&& final(store).next_id() == g + 1
                        &&& final(store).records().len() == old(store).records().len() + 1
                        &&& final(store).records().drop_last() == old(store).records()
                        &&& final(store).records().last().id == g
                        &&& final(store).records().last().name@ == p.title@
                        &&& delivered(
                            old(broker).subscribers(),
                            final(broker).subscribers(),
                            NotifyMessage::GameCreated { id: g, name: p.title },
                        )
                    } else {
                        &&& r == WebhookReply::StoreFailed
                        &&& *final(store) == *old(store)
                        &&& *final(broker) == *old(broker)
                    },
                    DomainAction::DeleteGame { id } => {
                        &&& r == WebhookReply::Accepted
                        &&& has_id(old(store).records(), id)
                        &&& !has_id(final(store).records(), id)
                        &&& exists|i: int|
                            0 <= i < old(store).records().len() && old(store).records()[i].id == id
                                && final(store).records() == old(store).records().remove(i)
                        &&& final(store).next_id() == old(store).next_id()
                        &&& delivered(
                            old(broker).subscribers(),
                            final(broker).subscribers(),
                            NotifyMessage::GameDeleted { id },
                        )
                    },
                    DomainAction::NoOp => {
                        &&& r == WebhookReply::Accepted
                        &&& *final(store) == *old(store)
                        &&& *final(broker) == *old(broker)
                    },
                }
            },
        },
{
    let p = match payload {
        Some(p) => p,
        None => return WebhookReply::MalformedPayload,
    };
    if !verify_signature(secret, body, header) || !p.is_owner() {
        return WebhookReply::Unauthorized;
    }
    match translate(&p, store) {
        DomainAction::CreateGame => match store.create(p.title) {
            Ok(game) => {
                broker.publish(&NotifyMessage::new_game(game.id, game.name));
                WebhookReply::Accepted
            },
            Err(_) => WebhookReply::StoreFailed,
        },
        DomainAction::DeleteGame { id } => {
            proof {
                let i = choose|i: int| first_named(store.records(), p.title@, i);
                assert(crate::store::id_at(store.records(), id, i));
            }
            store.delete(id);
            broker.publish(&NotifyMessage::delete_game(id));
            WebhookReply::Accepted
        },
        DomainAction::NoOp => WebhookReply::Accepted,
    }
}

} // verus!
