//! Rules of the provider store: how a stored API key is shown, which
//! columns a provider update writes, which stored keys still need
//! encrypting.

use vstd::prelude::*;
use vstd::string::*;
use vstd::utf8::*;
use crate::llm::credentials::{encrypted_form, LlmCredentialCipher};
use crate::llm::models::LLMError;
use crate::text::{chars_of, i64_string, int_dec, trim, trim_exec};

verus! {

/// The displayed form of a stored API key: keys longer than 8 bytes show
/// their first and last 4 bytes around `...`, shorter ones `****`.
pub open spec fn masked_key(key: Seq<char>) -> Seq<char> {
    let b = encode_utf8(key);
    if b.len() > 8 {
        decode_utf8(b.take(4)) + "..."@ + decode_utf8(b.skip(b.len() - 4))
    } else {
        "****"@
    }
}

/// A key can be masked when it is short, or when its first and last 4 bytes
/// are whole characters (byte slicing elsewhere would split a character).
pub open spec fn maskable(key: Seq<char>) -> bool {
    let b = encode_utf8(key);
    b.len() <= 8 || (is_char_boundary(b, 4) && is_char_boundary(b, b.len() - 4))
}

/// Masks a stored API key for display (see `masked_key`).
pub fn mask_api_key(key: &str) -> (r: String)
    requires
        maskable(key@),
    ensures
        r@ == masked_key(key@),
{
    broadcast use vstd::utf8::encode_utf8_decode_utf8;

    let bytes = key.as_bytes();
    let n = bytes.len();
    assert(key.spec_bytes() == encode_utf8(key@));
    if n > 8 {
        let (head, _) = key.split_at(4);
        let (_, tail) = key.split_at(n - 4);
        proof {
            assert(head.spec_bytes() =~= key.spec_bytes().take(4));
            assert(tail.spec_bytes() =~= key.spec_bytes().skip(n - 4));
            assert(decode_utf8(encode_utf8(head@)) == head@);
            assert(decode_utf8(encode_utf8(tail@)) == tail@);
        }
        let mut r = String::from_str(head);
        r.append("...");
        r.append(tail);
        r
    } else {
        String::from_str("****")
    }
}

/// The masked key of a provider, if it has one.
pub fn masked_provider_key(key: &Option<String>) -> (r: Option<String>)
    requires
        key matches Some(k) ==> maskable(k@),
    ensures
        match key {
            Some(k) => r matches Some(m) && m@ == masked_key(k@),
            None => r is None,
        },
{
    match key {
        Some(k) => Some(mask_api_key(k.as_str())),
        None => None,
    }
}

/// Which fields a provider update sets (`enabled` with its new value).
#[derive(Debug, Clone, Copy)]
pub struct ProviderChanges {
    pub display_name: bool,
    pub api_base: bool,
    pub model_name: bool,
    pub api_key: bool,
    pub max_tokens: bool,
    pub temperature: bool,
    pub timeout_seconds: bool,
    pub priority: bool,
    pub enabled: Option<bool>,
}

/// A column assignment when the field is set.
#[verifier::opaque]
pub open spec fn assign_if(set: bool, col: Seq<char>) -> Seq<char> {
    if set {
        ", "@ + col + " = ?"@
    } else {
        Seq::empty()
    }
}

/// The update statement of a provider: the timestamp, then each set field
/// in a fixed order; disabling a provider also deactivates it.
pub open spec fn provider_update_sql_spec(c: ProviderChanges) -> Seq<char> {
    "UPDATE llm_providers SET updated_at = CURRENT_TIMESTAMP"@ + assign_if(
        c.display_name,
        "display_name"@,
    ) + assign_if(c.api_base, "api_base"@) + assign_if(c.model_name, "model_name"@) + assign_if(
        c.api_key,
        "api_key_encrypted"@,
    ) + assign_if(c.max_tokens, "max_tokens"@) + assign_if(c.temperature, "temperature"@)
        + assign_if(c.timeout_seconds, "timeout_seconds"@) + assign_if(c.priority, "priority"@)
        + assign_if(c.enabled is Some, "enabled"@) + deactivation(c.enabled) + " WHERE id = ?"@
}

/// The extra assignment of a disabling update.
pub open spec fn deactivation(enabled: Option<bool>) -> Seq<char> {
    if enabled == Some(false) {
        ", is_active = FALSE"@
    } else {
        Seq::empty()
    }
}

fn push_assign(sql: &mut String, set: bool, col: &str)
    ensures
        final(sql)@ == old(sql)@ + assign_if(set, col@),
{
    reveal(assign_if);
    if set {
        sql.append(", ");
        sql.append(col);
        sql.append(" = ?");
    } else {
        assert(old(sql)@ + assign_if(set, col@) =~= old(sql)@);
    }
}

/// Builds the update statement of a provider (see `provider_update_sql_spec`).
pub fn provider_update_sql(c: &ProviderChanges) -> (r: String)
    ensures
        r@ == provider_update_sql_spec(*c),
{
    let mut sql = String::from_str("UPDATE llm_providers SET updated_at = CURRENT_TIMESTAMP");
    push_assign(&mut sql, c.display_name, "display_name");
    push_assign(&mut sql, c.api_base, "api_base");
    push_assign(&mut sql, c.model_name, "model_name");
    push_assign(&mut sql, c.api_key, "api_key_encrypted");
    push_assign(&mut sql, c.max_tokens, "max_tokens");
    push_assign(&mut sql, c.temperature, "temperature");
    push_assign(&mut sql, c.timeout_seconds, "timeout_seconds");
    push_assign(&mut sql, c.priority, "priority");
    push_assign(&mut sql, c.enabled.is_some(), "enabled");
    let ghost before = sql@;
    match c.enabled {
        Some(false) => sql.append(", is_active = FALSE"),
        _ => {
            assert(sql@ =~= before + Seq::<char>::empty());
        },
    }
    assert(sql@ == before + deactivation(c.enabled));
    sql.append(" WHERE id = ?");
    sql
}

/// A provider update may not set a blank API key.
pub fn check_provider_key(api_key: &Option<String>) -> (r: Result<(), LLMError>)
    ensures
        match api_key {
            Some(k) => if trim(k@).len() == 0 {
                r matches Err(LLMError::ApiError(m)) && m@ == "API key cannot be empty"@
            } else {
                r is Ok
            },
            None => r is Ok,
        },
{
    match api_key {
        Some(k) => {
            let t = trim_exec(chars_of(k.as_str()).as_slice());
            if t.len() == 0 {
                Err(LLMError::ApiError(String::from_str("API key cannot be empty")))
            } else {
                Ok(())
            }
        },
        None => Ok(()),
    }
}

/// A stored key still needs encrypting when it is present and not in the
/// encrypted format.
pub fn needs_encryption(stored: &Option<String>) -> (r: bool)
    ensures
        r == (match stored {
            Some(k) => !encrypted_form(k@),
            None => false,
        }),
{
    match stored {
        Some(k) => !LlmCredentialCipher::is_encrypted(k.as_str()),
        None => false,
    }
}

/// A new provider needs a non-blank API key.
pub fn check_new_provider_key(api_key: &str) -> (r: Result<(), LLMError>)
    ensures
        trim(api_key@).len() == 0 ==> (r matches Err(LLMError::ApiError(m)) && m@
            == "API key is required"@),
        trim(api_key@).len() > 0 ==> r is Ok,
{
    let t = trim_exec(chars_of(api_key).as_slice());
    if t.len() == 0 {
        Err(LLMError::ApiError(String::from_str("API key is required")))
    } else {
        Ok(())
    }
}

/// A provider may be deleted only when it exists and is not active.
pub open spec fn deletion_permitted(stored_is_active: Option<bool>) -> bool {
    stored_is_active == Some(false)
}

/// The providers (id to whether active) after a deletion request: the row
/// goes only when `deletion_check` lets the deletion through.
pub open spec fn providers_after_delete(store: Map<i64, bool>, id: i64) -> Map<i64, bool> {
    let stored = if store.contains_key(id) {
        Some(store[id])
    } else {
        None
    };
    if deletion_permitted(stored) {
        store.remove(id)
    } else {
        store
    }
}

/// The active provider is never deleted: a deletion request for it leaves
/// every provider in place; an inactive one is removed and nothing else; a
/// request for an unknown id changes nothing.
pub proof fn law_active_provider_never_deleted(store: Map<i64, bool>, id: i64)
    ensures
        store.contains_key(id) && store[id] ==> providers_after_delete(store, id) == store,
        store.contains_key(id) && !store[id] ==> providers_after_delete(store, id) == store.remove(id),
        !store.contains_key(id) ==> providers_after_delete(store, id) == store,
{
}

/// Whether a provider may be deleted, from whether it exists and is active:
/// an unknown provider is not found, the active one must be deactivated
/// first.
pub fn deletion_check(id: i64, stored_is_active: Option<bool>) -> (r: Result<(), LLMError>)
    ensures
        r is Ok <==> deletion_permitted(stored_is_active),
        stored_is_active is None ==> (r matches Err(LLMError::ProviderNotFound(m)) && m@
            == int_dec(id as int)),
        stored_is_active == Some(true) ==> (r matches Err(LLMError::ApiError(m)) && m@
            == "Cannot delete active provider. Deactivate it first."@),
        stored_is_active == Some(false) ==> r is Ok,
{
    match stored_is_active {
        None => Err(LLMError::ProviderNotFound(i64_string(id))),
        Some(true) => Err(
            LLMError::ApiError(String::from_str("Cannot delete active provider. Deactivate it first.")),
        ),
        Some(false) => Ok(()),
    }
}

/// A write that changed no provider row means the provider does not exist
/// (or, on activation, is disabled).
pub fn require_provider_row(id: i64, rows_affected: u64) -> (r: Result<(), LLMError>)
    ensures
        rows_affected == 0 ==> (r matches Err(LLMError::ProviderNotFound(m)) && m@ == int_dec(
            id as int,
        )),
        rows_affected > 0 ==> r is Ok,
{
    if rows_affected == 0 {
        Err(LLMError::ProviderNotFound(i64_string(id)))
    } else {
        Ok(())
    }
}


/// The flags of a stored provider that activation reads and writes.
#[derive(Debug, Clone, Copy, PartialEq, Eq, Structural)]
pub struct ProviderFlags {
    pub id: i64,
    pub enabled: bool,
    pub is_active: bool,
}

/// Some enabled provider has this id.
pub open spec fn activatable(s: Seq<ProviderFlags>, id: i64) -> bool {
    exists|x: int| 0 <= x < s.len() && (#[trigger] s[x]).id == id && s[x].enabled
}

/// The providers after activating `id`: every provider is deactivated, then
/// the enabled ones with that id are activated.
pub open spec fn activated(s: Seq<ProviderFlags>, id: i64) -> Seq<ProviderFlags> {
    s.map_values(|p: ProviderFlags| ProviderFlags { is_active: p.id == id && p.enabled, ..p })
}

/// At most one provider is active.
pub open spec fn at_most_one_active(s: Seq<ProviderFlags>) -> bool {
    forall|x: int, y: int|
        0 <= x < s.len() && 0 <= y < s.len() && (#[trigger] s[x]).is_active && (#[trigger] s[y]).is_active
            ==> x == y
}

/// No two providers share an id (the store's key).
pub open spec fn ids_distinct(s: Seq<ProviderFlags>) -> bool {
    forall|x: int, y: int|
        0 <= x < s.len() && 0 <= y < s.len() && x != y ==> (#[trigger] s[x]).id != (#[trigger] s[y]).id
}

/// Activation of a provider, as one transaction over the stored providers:
/// all are deactivated and the enabled one with `id` is activated; when no
/// enabled provider has that id the transaction is rolled back and the
/// provider is not found.
pub fn activation(providers: &Vec<ProviderFlags>, id: i64) -> (r: Result<Vec<ProviderFlags>, LLMError>)
    ensures
        r is Ok <==> activatable(providers@, id),
        r matches Ok(v) ==> v@ == activated(providers@, id),
        r matches Err(e) ==> (e matches LLMError::ProviderNotFound(m) && m@ == int_dec(id as int)),
{
    let mut out: Vec<ProviderFlags> = Vec::new();
    let mut found = false;
    let mut i: usize = 0;
    while i < providers.len()
        invariant
            i <= providers@.len(),
            out@ == activated(providers@, id).take(i as int),
            found <==> exists|x: int| 0 <= x < i && (#[trigger] providers@[x]).id == id && providers@[x].enabled,
        decreases providers@.len() - i,
    {
        let p = providers[i];
        let on = p.id == id && p.enabled;
        if on {
            found = true;
        }
        out.push(ProviderFlags { id: p.id, enabled: p.enabled, is_active: on });
        assert(out@ =~= activated(providers@, id).take(i + 1));
        i += 1;
    }
    assert(activated(providers@, id).take(providers@.len() as int) =~= activated(providers@, id));
    if found {
        Ok(out)
    } else {
        Err(LLMError::ProviderNotFound(i64_string(id)))
    }
}

/// At most one provider is ever active: a successful activation leaves
/// exactly the provider with that id active, whatever was active before; a
/// refused one leaves the providers as they were.
pub proof fn law_one_active_provider(s: Seq<ProviderFlags>, id: i64)
    requires
        ids_distinct(s),
    ensures
        at_most_one_active(activated(s, id)),
        activatable(s, id) ==> exists|x: int|
            0 <= x < s.len() && (#[trigger] activated(s, id)[x]).is_active && activated(s, id)[x].id == id,
        forall|x: int| 0 <= x < s.len() ==> (#[trigger] activated(s, id)[x]).is_active ==> s[x].id == id,
{
    let a = activated(s, id);
    assert forall|x: int, y: int|
        0 <= x < a.len() && 0 <= y < a.len() && (#[trigger] a[x]).is_active && (#[trigger] a[y]).is_active
            implies x == y by {
        if x != y {
            assert(s[x].id != s[y].id);
        }
    }
    if activatable(s, id) {
        let x = choose|x: int| 0 <= x < s.len() && (#[trigger] s[x]).id == id && s[x].enabled;
        assert(a[x].is_active);
    }
}

} // verus!
