//! Chat and messaging state for a player: counters for sent and
//! received messages, the signature bookkeeping of secure chat, and the
//! optional signed session and message chain.

use vstd::prelude::*;

verus! {

/// Tracked message signatures, most recent last.
pub struct MessageCache {
    /// The signature bytes of tracked messages.
    pub signatures: Vec<Vec<u8>>,
}

impl MessageCache {
    /// An empty cache.
    pub fn new() -> (c: MessageCache)
        ensures
            c.signatures@.len() == 0,
    {
        MessageCache { signatures: Vec::new() }
    }
}

/// Validates the client's acknowledgements of messages the server sent.
pub struct LastSeenMessagesValidator {
    /// Signatures of messages awaiting acknowledgement.
    pub pending: Vec<Vec<u8>>,
}

impl LastSeenMessagesValidator {
    /// A validator with nothing awaiting acknowledgement.
    pub fn new() -> (v: LastSeenMessagesValidator)
        ensures
            v.pending@.len() == 0,
    {
        LastSeenMessagesValidator { pending: Vec::new() }
    }
}

/// A remote chat session: the session id with the client's public key.
pub struct RemoteChatSession {
    /// Session identifier bytes.
    pub session_id: Vec<u8>,
    /// The client's public key bytes.
    pub public_key: Vec<u8>,
}

/// The signed message chain: the index the next signed message links to.
pub struct SignedMessageChain {
    /// Index of the next link.
    pub next_index: u32,
}

/// All chat-related state for a player.
pub struct ChatState {
    /// Messages sent by this player.
    pub messages_sent: i32,
    /// Messages received by this player.
    pub messages_received: i32,
    /// Tracked message signatures.
    pub signature_cache: MessageCache,
    /// Validator for client acknowledgements.
    pub message_validator: LastSeenMessagesValidator,
    /// The signed chat session, once the client has one.
    pub chat_session: Option<RemoteChatSession>,
    /// The signed message chain, once established.
    pub message_chain: Option<SignedMessageChain>,
}

impl ChatState {
    /// A fresh player's chat state: zero counters, nothing tracked, no
    /// session and no chain.
    pub fn new() -> (s: ChatState)
        ensures
            s.messages_sent == 0,
            s.messages_received == 0,
            s.signature_cache.signatures@.len() == 0,
            s.message_validator.pending@.len() == 0,
            s.chat_session is None,
            s.message_chain is None,
    {
        ChatState {
            messages_sent: 0,
            messages_received: 0,
            signature_cache: MessageCache::new(),
            message_validator: LastSeenMessagesValidator::new(),
            chat_session: None,
            message_chain: None,
        }
    }
}

} // verus!
