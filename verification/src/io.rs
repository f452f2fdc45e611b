//! The shared paste store and identifier generation.
//!
//! The store is one reader/writer lock around a [`BoundedStore`]: readers
//! share access, and an insert runs its whole evict-then-insert unit under
//! the exclusive write side, so no observer ever sees eviction and insert
//! apart. Identifiers come from a pronounceable-word generator, with a
//! uniform six-character alphanumeric fallback when that source yields
//! nothing.

use vstd::prelude::*;
use vstd::rwlock::{RwLock, RwLockPredicate};
use crate::store::BoundedStore;
use rand::Rng;

verus! {

/// What every state resting in the lock satisfies: the store is well
/// formed, and it keeps the capacity chosen at construction.
pub struct StorePred {
    pub capacity: usize,
}

impl RwLockPredicate<BoundedStore> for StorePred {
    open spec fn inv(self, s: BoundedStore) -> bool {
        s.wf() && s.cap() == self.capacity as int
    }
}

/// The shared store the request handlers touch: a reader/writer lock
/// guarding the bounded store as one unit.
pub type PasteStore = RwLock<BoundedStore, StorePred>;

/// A fresh shared store that will never hold more than `buffer_size`
/// pastes at rest.
pub fn new_paste_store(buffer_size: usize) -> (s: PasteStore)
    requires
        buffer_size >= 1,
    ensures
        s.pred() == (StorePred { capacity: buffer_size }),
{
    RwLock::new(BoundedStore::new(buffer_size), Ghost(StorePred { capacity: buffer_size }))
}

/// Stores a paste under the given id.
///
/// Holds the write lock for the whole evict-then-insert unit, so the
/// capacity bound of the lock's invariant holds again by the time any other
/// reader or writer can look.
pub fn store_paste(entries: &PasteStore, id: String, content: Vec<u8>) {
    let (mut store, handle) = entries.acquire_write();
    store.insert(id, content);
    handle.release_write(store);
}

/// Get a paste by id.
///
/// Returns a copy of the payload, or `None` if no paste is resident under
/// the id at the time of the read. What that moment's contents are depends
/// on the writers that ran before; the read itself alters nothing.
pub fn get_paste(entries: &PasteStore, id: &str) -> Option<Vec<u8>> {
    let handle = entries.acquire_read();
    let r = handle.borrow().lookup(id);
    handle.release_read();
    r
}

/// An ASCII digit, upper-case letter or lower-case letter.
pub open spec fn is_ascii_alnum_byte(b: u8) -> bool {
    (48 <= b && b <= 57) || (65 <= b && b <= 90) || (97 <= b && b <= 122)
}

/// A character whose code is an ASCII digit or letter.
pub open spec fn is_ascii_alnum_char(c: char) -> bool {
    (48 <= c as u32 && c as u32 <= 57) || (65 <= c as u32 && c as u32 <= 90) || (97 <= c as u32
        && c as u32 <= 122)
}

/// A lower-case ASCII letter.
pub open spec fn is_lower_alpha_char(c: char) -> bool {
    97 <= c as u32 && c as u32 <= 122
}

/// A usable public identifier: every character an ASCII letter or digit —
/// printable, with no separators.
pub open spec fn id_chars_ok(s: Seq<char>) -> bool {
    forall|i: int| 0 <= i < s.len() ==> is_ascii_alnum_char(s[i])
}

#[verifier::external_type_specification]
#[verifier::external_body]
pub struct ExPasswordGenerator(gpw::PasswordGenerator);

/// Relies on `gpw::PasswordGenerator::default`: a word generator over the
/// crate's built-in trigram table.
#[verifier::external_body]
fn new_keygen() -> gpw::PasswordGenerator {
    gpw::PasswordGenerator::default()
}

/// Relies on `Iterator::next` of `gpw::PasswordGenerator`: the draw is
/// random, so nothing relates one call to the next; every word it does
/// yield is built from lower-case ASCII letters, at most ten of them.
#[verifier::external_body]
fn next_password(keygen: &mut gpw::PasswordGenerator) -> (r: Option<String>)
    ensures
        r matches Some(s) ==> s@.len() <= 10 && (forall|i: int|
            0 <= i < s@.len() ==> is_lower_alpha_char(s@[i])),
{
    keygen.next()
}

/// Relies on rand's `Alphanumeric` distribution: every sample is one ASCII
/// letter or digit.
#[verifier::external_body]
fn sample_alphanumeric() -> (b: u8)
    ensures
        is_ascii_alnum_byte(b),
{
    rand::thread_rng().sample(rand::distributions::Alphanumeric)
}

/// Relies on `String::from_utf8`: bytes below 128 decode to exactly the
/// characters with the same codes.
#[verifier::external_body]
fn ascii_string(bytes: Vec<u8>) -> (s: String)
    requires
        forall|i: int| 0 <= i < bytes@.len() ==> bytes@[i] < 128,
    ensures
        s@.len() == bytes@.len(),
        forall|i: int| 0 <= i < bytes@.len() ==> s@[i] as u32 == bytes@[i] as u32,
{
    match String::from_utf8(bytes) {
        Ok(s) => s,
        Err(_) => String::new(),
    }
}

/// The fallback identifier: exactly six characters drawn uniformly from
/// the ASCII letters and digits.
fn fallback_id() -> (r: String)
    ensures
        r@.len() == 6,
        id_chars_ok(r@),
{
    let mut bytes: Vec<u8> = Vec::new();
    let mut i: usize = 0;
    while i < 6
        invariant
            i <= 6,
            bytes@.len() == i,
            forall|j: int| 0 <= j < bytes@.len() ==> is_ascii_alnum_byte(#[trigger] bytes@[j]),
        decreases 6 - i,
    {
        bytes.push(sample_alphanumeric());
        i = i + 1;
    }
    let ghost bv = bytes@;
    let s = ascii_string(bytes);
    proof {
        assert forall|j: int| 0 <= j < s@.len() implies is_ascii_alnum_char(s@[j]) by {
            assert(is_ascii_alnum_byte(bv[j]));
        }
    }
    s
}

/// Turns what the pronounceable generator produced into the identifier to
/// use: the drawn word as it stands, or, when the generator yielded
/// nothing, a fresh six-character alphanumeric fallback — so an identifier
/// comes out in every case.
pub fn id_from_candidate(candidate: Option<String>) -> (r: String)
    ensures
        candidate matches Some(s) ==> r@ == s@,
        candidate is None ==> r@.len() == 6 && id_chars_ok(r@),
{
    match candidate {
        Some(s) => s,
        None => fallback_id(),
    }
}

/// Generates a 'pronounceable' random ID using gpw, falling back to six
/// uniform alphanumeric characters when the word generator yields nothing.
/// Generation never fails; no uniqueness is promised — collision handling,
/// if any, is the inserting caller's affair.
pub fn generate_id() -> (r: String)
    ensures
        id_chars_ok(r@),
        r@.len() <= 10,
{
    let mut keygen = new_keygen();
    let candidate = next_password(&mut keygen);
    proof {
        if candidate is Some {
            let s = candidate->0;
            assert forall|i: int| 0 <= i < s@.len() implies is_ascii_alnum_char(s@[i]) by {
                assert(is_lower_alpha_char(s@[i]));
            }
        }
    }
    id_from_candidate(candidate)
}

/// Submits a payload: generates an identifier, stores the payload under
/// it, and returns the identifier. A collision with a live identifier
/// silently overwrites that entry — a deliberate, documented risk of the
/// short identifier space.
pub fn submit(entries: &PasteStore, payload: Vec<u8>) -> (id: String)
    ensures
        id_chars_ok(id@),
        id@.len() <= 10,
{
    let id = generate_id();
    store_paste(entries, id.clone(), payload);
    id
}

} // verus!
