use vstd::prelude::*;

use crate::error::StorageError;
use crate::key::{is_well_formed_key, KeyValidator, INVALID_KEY_PREFIX, KEY_PATTERN};
use crate::registry::{resolve_step, IdentityRegistry, IdentityView};

verus! {

/// What a message request gets back: the identifier of its identity, and
/// whether this request is the one that first stored it.
#[derive(Debug, Clone, Copy, PartialEq, Eq, Structural)]
pub struct MessageReply {
    pub id: u64,
    pub new: bool,
}

/// The message storage: a key validator compiled once, and the registry of
/// identities. Callers that share it must hold it exclusively for each
/// request, so that each resolution is one atomic step.
pub struct MessageStorageService {
    validator: KeyValidator,
    registry: IdentityRegistry,
}

impl View for MessageStorageService {
    type V = Seq<IdentityView>;

    /// The identities stored, in order of first sight.
    closed spec fn view(&self) -> Seq<IdentityView> {
        self.registry@
    }
}

impl MessageStorageService {
    /// The validator holds the key pattern and the registry is well formed.
    pub closed spec fn wf(&self) -> bool {
        &&& self.validator@ == KEY_PATTERN@
        &&& self.registry.wf()
    }

    /// A storage with no identities, its key pattern compiled.
    pub fn new() -> (r: MessageStorageService)
        ensures
            r.wf(),
            r@ == Seq::<IdentityView>::empty(),
    {
        MessageStorageService { validator: KeyValidator::new(), registry: IdentityRegistry::new() }
    }

    /// A well-formed storage holds each identity once.
    pub proof fn lemma_wf_no_duplicates(&self)
        requires
            self.wf(),
        ensures
            self@.no_duplicates(),
    {
    }

    /// The number of distinct identities stored.
    pub fn len(&self) -> (r: usize)
        ensures
            r == self@.len(),
    {
        self.registry.len()
    }

    /// Handles one message: a key of the wrong shape is rejected, naming the
    /// key, and the registry is left as it was; otherwise the identity
    /// (key, tenant) is resolved in the registry.
    pub fn send_message(&mut self, key: &str, tenant: &str) -> (r: Result<MessageReply, StorageError>)
        requires
            old(self).wf(),
            old(self)@.len() < u64::MAX,
        ensures
            final(self).wf(),
            final(self)@.no_duplicates(),
            is_well_formed_key(key@) ==> (r matches Ok(reply) && (final(self)@, reply.id as nat, reply.new)
                == resolve_step(old(self)@, (key@, tenant@))),
            !is_well_formed_key(key@) ==> final(self)@ == old(self)@,
            !is_well_formed_key(key@) ==> (r matches Err(StorageError::InvalidKey(m)) && m@
                == INVALID_KEY_PREFIX@ + key@),
    {
        let kt = self.validator.validate(key, tenant)?;
        let (id, is_new) = self.registry.resolve(kt);
        Ok(MessageReply { id: id.0, new: is_new })
    }
}

impl Default for MessageStorageService {
    /// The same as `MessageStorageService::new`.
    fn default() -> (r: MessageStorageService)
        ensures
            r.wf(),
            r@ == Seq::<IdentityView>::empty(),
    {
        MessageStorageService::new()
    }
}

} // verus!
