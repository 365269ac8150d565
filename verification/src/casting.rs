//! The encryptor used by `cast = "encrypted"` fields: registration (the first
//! one wins), encryption and decryption through it.

use vstd::prelude::*;
use crate::text::owned;

verus! {

/// Implement this trait and register it with [`set_encryptor`] to enable
/// `cast = "encrypted"` fields.
pub trait Encryptor {
    /// Encrypt `plaintext` and return the ciphertext stored in the DB.
    fn encrypt(&self, plaintext: &str) -> String;

    /// Decrypt `ciphertext` from the DB, returning the original plaintext.
    fn decrypt(&self, ciphertext: &str) -> Result<String, String>;
}

/// The slot after registering `enc`: unchanged when it already holds one.
pub open spec fn registered<E>(slot: Option<E>, enc: E) -> Option<E> {
    match slot {
        Some(e) => Some(e),
        None => Some(enc),
    }
}

/// Register `enc` in `slot`. Registering when one is already there is a
/// no-op: the first registration wins.
pub fn set_encryptor<E: Encryptor>(slot: &mut Option<E>, enc: E)
    ensures
        *final(slot) == registered(*old(slot), enc),
{
    if slot.is_none() {
        *slot = Some(enc);
    }
}

/// Encrypt `plaintext` with the registered encryptor; with none registered,
/// `plaintext` comes back unchanged.
pub fn encrypt<E: Encryptor>(slot: &Option<E>, plaintext: &str) -> (r: String)
    ensures
        slot is None ==> r@ == plaintext@,
        slot matches Some(e) ==> call_ensures(E::encrypt, (&e, plaintext), r),
{
    match slot {
        Some(e) => e.encrypt(plaintext),
        None => owned(plaintext),
    }
}

/// The error of [`decrypt`] when no encryptor is registered.
pub open spec fn no_encryptor_message() -> Seq<char> {
    "No encryptor registered — call set_encryptor() first"@
}

/// Decrypt `ciphertext` with the registered encryptor; with none registered,
/// an error says so.
pub fn decrypt<E: Encryptor>(slot: &Option<E>, ciphertext: &str) -> (r: Result<String, String>)
    ensures
        slot is None ==> (r matches Err(m) && m@ == no_encryptor_message()),
        slot matches Some(e) ==> call_ensures(E::decrypt, (&e, ciphertext), r),
{
    match slot {
        Some(e) => e.decrypt(ciphertext),
        None => Err(owned("No encryptor registered — call set_encryptor() first")),
    }
}

/// The first registration wins: registering again, with any encryptor,
/// leaves the first one in place.
pub proof fn lemma_first_registration_wins<E>(first: E, later: E)
    ensures
        registered(registered(None, first), later) == Some(first),
{
}

/// Once an encryptor is registered, the slot always holds one.
pub proof fn lemma_registered_is_some<E>(slot: Option<E>, enc: E)
    ensures
        registered(slot, enc).is_some(),
        slot.is_some() ==> registered(slot, enc) == slot,
{
}

} // verus!
