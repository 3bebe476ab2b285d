//! What the services share: cache keys, audit-trail entries, the outcome of
//! a mutation, and the cache-aside read.

use vstd::prelude::*;

use crate::errors::{AppError, AppErrorView};
use crate::text::{decimal, i64_to_string, lemma_decimal_injective};

verus! {

/// `prefix` followed by the decimal rendering of `n`.
pub open spec fn keyed(prefix: Seq<char>, n: int) -> Seq<char> {
    prefix + decimal(n)
}

/// Each entity has a cache entry of its own: under one prefix, two ids share
/// a key only when they are equal. So evicting one entity's entry never
/// drops another's, and a read never answers with another entity's value.
pub proof fn lemma_keys_distinct(prefix: Seq<char>, a: int, b: int)
    ensures
        keyed(prefix, a) == keyed(prefix, b) <==> a == b,
{
    if keyed(prefix, a) == keyed(prefix, b) {
        assert(decimal(a) =~= keyed(prefix, a).skip(prefix.len() as int));
        assert(decimal(b) =~= keyed(prefix, b).skip(prefix.len() as int));
        lemma_decimal_injective(a, b);
    }
}

/// `prefix` followed by the decimal rendering of `n` (`format!("{prefix}{n}")`).
pub fn key_for(prefix: &str, n: i64) -> (r: String)
    ensures
        r@ == keyed(prefix@, n as int),
{
    let digits = i64_to_string(n);
    String::from_str(prefix).concat(digits.as_str())
}

/// One entry of the entity-change audit trail, as far as the domain decides
/// it: who did what to which entity. The old and new values travel beside
/// it; the request context and time are added where the entry is written.
pub struct AuditEntry {
    pub actor_id: i32,
    pub action: String,
    pub entity_type: String,
    pub entity_id: String,
    pub description: String,
}

/// Model of an audit entry.
pub ghost struct AuditView {
    pub actor_id: i32,
    pub action: Seq<char>,
    pub entity_type: Seq<char>,
    pub entity_id: Seq<char>,
    pub description: Seq<char>,
}

impl View for AuditEntry {
    type V = AuditView;

    open spec fn view(&self) -> AuditView {
        AuditView {
            actor_id: self.actor_id,
            action: self.action@,
            entity_type: self.entity_type@,
            entity_id: self.entity_id@,
            description: self.description@,
        }
    }
}

/// The audit entry for `action` on the entity of type `entity_type` with
/// numeric id `id`, described as `what` followed by " id " and the id.
pub open spec fn audit_for_id(
    actor_id: i32,
    action: Seq<char>,
    entity_type: Seq<char>,
    what: Seq<char>,
    id: int,
) -> AuditView {
    AuditView {
        actor_id,
        action,
        entity_type,
        entity_id: decimal(id),
        description: what + " id "@ + decimal(id),
    }
}

/// Builds the audit entry for an entity with a numeric id.
pub fn audit_entry(actor_id: i32, action: &str, entity_type: &str, what: &str, id: i64) -> (e:
    AuditEntry)
    ensures
        e@ == audit_for_id(actor_id, action@, entity_type@, what@, id as int),
{
    let entity_id = i64_to_string(id);
    let description = String::from_str(what).concat(" id ").concat(entity_id.as_str());
    AuditEntry {
        actor_id,
        action: String::from_str(action),
        entity_type: String::from_str(entity_type),
        entity_id,
        description,
    }
}

/// What a finished operation leaves to do, in this order: record `audit`
/// (with `old_values`, and as new values the value replied, if any), delete
/// the cache keys in `evict`, refresh the authorization snapshot of each
/// user in `refresh_authz` (each on its own, failures only logged), then
/// answer `reply`.
pub struct Outcome<T, R> {
    pub audit: Option<AuditEntry>,
    pub old_values: Option<T>,
    pub evict: Vec<String>,
    pub refresh_authz: Vec<i32>,
    pub reply: Result<R, AppError>,
}

/// An outcome with nothing to record, evict or refresh.
pub open spec fn is_plain_reply<T, R>(o: Outcome<T, R>) -> bool {
    &&& o.audit is None
    &&& o.old_values is None
    &&& o.evict@.len() == 0
    &&& o.refresh_authz@.len() == 0
}

/// An outcome that only answers the error `e`.
pub open spec fn fails_with<T, R>(o: Outcome<T, R>, e: AppErrorView) -> bool {
    &&& is_plain_reply(o)
    &&& match o.reply {
        Err(x) => x@ == e,
        Ok(_) => false,
    }
}

/// The outcome that only answers `reply`.
pub fn just_reply<T, R>(reply: Result<R, AppError>) -> (o: Outcome<T, R>)
    ensures
        is_plain_reply(o),
        o.reply == reply,
{
    Outcome { audit: None, old_values: None, evict: Vec::new(), refresh_authz: Vec::new(), reply }
}

/// The outcome that only answers the error `e`.
pub fn fail<T, R>(e: AppError) -> (o: Outcome<T, R>)
    ensures
        is_plain_reply(o),
        o.reply == Err::<R, AppError>(e),
{
    just_reply(Err(e))
}

/// A vector holding the single key `k`.
pub fn one_key(k: String) -> (v: Vec<String>)
    ensures
        v@ == seq![k],
{
    let mut v = Vec::new();
    v.push(k);
    proof {
        assert(v@ =~= seq![k]);
    }
    v
}

/// The models of a sequence of strings.
pub open spec fn string_views(v: Seq<String>) -> Seq<Seq<char>> {
    v.map_values(|s: String| s@)
}

// ---------------------------------------------------------------------
// Cache-aside read
// ---------------------------------------------------------------------

/// The read, waiting for the cache's answer.
pub struct ReadAwaitCache {
    pub key: String,
    pub missing: AppError,
}

/// The read, waiting for the store's answer.
pub struct ReadAwaitStore {
    pub key: String,
    pub missing: AppError,
}

/// The next step of a cache-aside read.
pub enum ReadNext<T> {
    /// Look `key` up in the cache, then call `on_cached`.
    AskCache(ReadAwaitCache, String),
    /// Load the entity from the store, then call `on_loaded`.
    Load(ReadAwaitStore),
    /// Cache the value under the key (for the cache's lifetime), then answer
    /// it.
    Remember(String, T),
    /// Answer this.
    Reply(Result<T, AppError>),
}

/// Starts a cache-aside read of `key`, answering `missing` when the store
/// does not hold the entity either.
pub fn read_through<T>(key: String, missing: AppError) -> (n: ReadNext<T>)
    ensures
        n matches ReadNext::AskCache(st, k) && k@ == key@ && st.key@ == key@ && st.missing@
            == missing@,
{
    let k = key.clone();
    ReadNext::AskCache(ReadAwaitCache { key, missing }, k)
}

impl ReadAwaitCache {
    /// A cached value is answered as is; on a miss the store is asked.
    pub fn on_cached<T>(self, cached: Option<T>) -> (n: ReadNext<T>)
        ensures
            match cached {
                Some(v) => n == ReadNext::Reply(Ok::<T, AppError>(v)),
                None => n matches ReadNext::Load(st) && st.key@ == self.key@ && st.missing@
                    == self.missing@,
            },
    {
        match cached {
            Some(v) => ReadNext::Reply(Ok(v)),
            None => ReadNext::Load(ReadAwaitStore { key: self.key, missing: self.missing }),
        }
    }
}

impl ReadAwaitStore {
    /// A stored value is cached and answered; a missing one is answered with
    /// the not-found error.
    pub fn on_loaded<T>(self, stored: Option<T>) -> (n: ReadNext<T>)
        ensures
            match stored {
                Some(v) => n matches ReadNext::Remember(k, w) && k@ == self.key@ && w == v,
                None => n matches ReadNext::Reply(Err(e)) && e@ == self.missing@,
            },
    {
        match stored {
            Some(v) => ReadNext::Remember(self.key, v),
            None => ReadNext::Reply(Err(self.missing)),
        }
    }
}


// ---------------------------------------------------------------------
// Deleting an entity by id
// ---------------------------------------------------------------------

/// What a deletion decides up front: the entity, who deletes it, the audit
/// entry, the cache key to evict and the error when the entity is missing.
pub struct Deletion {
    pub id: i64,
    pub audit: AuditEntry,
    pub key: String,
    pub missing: AppError,
}

/// The deletion, waiting for the current entity.
pub struct DeleteAwaitExisting {
    pub plan: Deletion,
}

/// The deletion, waiting for the store to delete the entity.
pub struct DeleteAwaitRemoval<T> {
    pub plan: Deletion,
    pub existing: T,
}

/// The next step of a deletion.
pub enum DeleteNext<T> {
    /// Load the entity with this id, then call `on_existing`.
    FindExisting(DeleteAwaitExisting, i64),
    /// Delete the entity with this id, then call `on_removed`.
    Remove(DeleteAwaitRemoval<T>, i64),
    Finish(Outcome<T, ()>),
}

/// Starts deleting entity `plan.id`.
pub fn start_deletion<T>(plan: Deletion) -> (n: DeleteNext<T>)
    ensures
        n matches DeleteNext::FindExisting(st, id) && id == plan.id && st.plan == plan,
{
    let id = plan.id;
    DeleteNext::FindExisting(DeleteAwaitExisting { plan }, id)
}

impl DeleteAwaitExisting {
    /// A missing entity fails the deletion; an existing one is deleted.
    pub fn on_existing<T>(self, existing: Option<T>) -> (n: DeleteNext<T>)
        ensures
            match existing {
                Some(e) => n matches DeleteNext::Remove(st, id) && id == self.plan.id && st.plan
                    == self.plan && st.existing == e,
                None => n matches DeleteNext::Finish(o) && fails_with(o, self.plan.missing@),
            },
    {
        match existing {
            Some(e) => {
                let id = self.plan.id;
                DeleteNext::Remove(DeleteAwaitRemoval { plan: self.plan, existing: e }, id)
            },
            None => DeleteNext::Finish(fail(self.plan.missing)),
        }
    }
}

impl<T> DeleteAwaitRemoval<T> {
    /// Once deleted: record the audit entry with the old values, evict the
    /// entity's cache key, and answer success.
    pub fn on_removed(self) -> (o: Outcome<T, ()>)
        ensures
            o.audit == Some(self.plan.audit),
            o.old_values == Some(self.existing),
            string_views(o.evict@) == seq![self.plan.key@],
            o.refresh_authz@.len() == 0,
            o.reply == Ok::<(), AppError>(()),
    {
        let o = Outcome {
            audit: Some(self.plan.audit),
            old_values: Some(self.existing),
            evict: one_key(self.plan.key),
            refresh_authz: Vec::new(),
            reply: Ok(()),
        };
        proof {
            assert(string_views(o.evict@) =~= seq![self.plan.key@]);
        }
        o
    }
}

} // verus!
