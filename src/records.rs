use vstd::prelude::*;
use vstd::utf8::encode_utf8;
use crate::error::BestOfferErrorCode;

verus! {

/// The map that a list of `(key, value)` entries stands for.
pub open spec fn entries_map<T>(entries: Seq<(u64, T)>) -> Map<u64, T>
    decreases entries.len(),
{
    if entries.len() == 0 {
        Map::empty()
    } else {
        entries_map(entries.drop_last()).insert(entries.last().0, entries.last().1)
    }
}

/// No key occurs twice.
pub open spec fn keys_unique<T>(entries: Seq<(u64, T)>) -> bool {
    forall|i: int, j: int|
        0 <= i < j < entries.len() ==> (#[trigger] entries[i]).0 != (#[trigger] entries[j]).0
}

proof fn lemma_entries_keys<T>(entries: Seq<(u64, T)>, key: u64)
    ensures
        entries_map(entries).contains_key(key) <==> exists|i: int|
            0 <= i < entries.len() && (#[trigger] entries[i]).0 == key,
    decreases entries.len(),
{
    if entries.len() > 0 {
        let init = entries.drop_last();
        lemma_entries_keys(init, key);
        if entries_map(init).contains_key(key) {
            let i = choose|i: int| 0 <= i < init.len() && (#[trigger] init[i]).0 == key;
            assert(entries[i] == init[i]);
        }
        if exists|i: int| 0 <= i < entries.len() && (#[trigger] entries[i]).0 == key {
            let i = choose|i: int| 0 <= i < entries.len() && (#[trigger] entries[i]).0 == key;
            if i < entries.len() - 1 {
                assert(init[i] == entries[i]);
            }
        }
    }
}

proof fn lemma_entries_value<T>(entries: Seq<(u64, T)>, i: int)
    requires
        keys_unique(entries),
        0 <= i < entries.len(),
    ensures
        entries_map(entries).contains_key(entries[i].0),
        entries_map(entries)[entries[i].0] == entries[i].1,
    decreases entries.len(),
{
    let init = entries.drop_last();
    if i < entries.len() - 1 {
        assert(init[i] == entries[i]);
        assert(keys_unique(init)) by {
            assert forall|a: int, b: int| 0 <= a < b < init.len() implies (
            #[trigger] init[a]).0 != (#[trigger] init[b]).0 by {
                assert(init[a] == entries[a] && init[b] == entries[b]);
            }
        }
        lemma_entries_value(init, i);
        assert(entries[i].0 != entries[entries.len() - 1].0);
    }
}

/// Records written at most once per key, never changed afterwards.
pub struct RecordStore<T> {
    pub entries: Vec<(u64, T)>,
}

impl<T> View for RecordStore<T> {
    type V = Map<u64, T>;

    open spec fn view(&self) -> Map<u64, T> {
        entries_map(self.entries@)
    }
}

impl<T> RecordStore<T> {
    pub open spec fn wf(&self) -> bool {
        keys_unique(self.entries@)
    }

    pub fn new() -> (r: RecordStore<T>)
        ensures
            r.wf(),
            r@ == Map::<u64, T>::empty(),
    {
        RecordStore { entries: Vec::new() }
    }

    /// Where the record of `key` stands, if there is one.
    fn position(&self, key: u64) -> (r: Option<usize>)
        requires
            self.wf(),
        ensures
            r is Some <==> self@.contains_key(key),
            r is Some ==> r->Some_0 < self.entries@.len() && self.entries@[r->Some_0 as int].0
                == key && self@[key] == self.entries@[r->Some_0 as int].1,
    {
        proof {
            lemma_entries_keys(self.entries@, key);
        }
        let mut i: usize = 0;
        while i < self.entries.len()
            invariant
                self.wf(),
                0 <= i <= self.entries@.len(),
                forall|j: int| 0 <= j < i ==> (#[trigger] self.entries@[j]).0 != key,
            decreases self.entries@.len() - i,
        {
            if self.entries[i].0 == key {
                proof {
                    lemma_entries_value(self.entries@, i as int);
                }
                return Some(i);
            }
            i = i + 1;
        }
        None
    }

    pub fn contains(&self, key: u64) -> (r: bool)
        requires
            self.wf(),
        ensures
            r == self@.contains_key(key),
    {
        self.position(key).is_some()
    }

    pub fn get(&self, key: u64) -> (r: Option<&T>)
        requires
            self.wf(),
        ensures
            r is Some <==> self@.contains_key(key),
            r is Some ==> *r->Some_0 == self@[key],
    {
        match self.position(key) {
            Some(i) => Some(&self.entries[i].1),
            None => None,
        }
    }

    /// Writes the record of `key`, unless one is already there.
    pub fn record(&mut self, key: u64, value: T) -> (r: Result<(), BestOfferErrorCode>)
        requires
            old(self).wf(),
        ensures
            final(self).wf(),
            r is Err <==> old(self)@.contains_key(key),
            r is Err ==> r->Err_0 == BestOfferErrorCode::AlreadyExists,
            r is Err ==> final(self)@ == old(self)@,
            r is Ok ==> final(self)@ == old(self)@.insert(key, value),
    {
        if self.contains(key) {
            return Err(BestOfferErrorCode::AlreadyExists);
        }
        proof {
            lemma_entries_keys(self.entries@, key);
        }
        self.entries.push((key, value));
        proof {
            let s = self.entries@;
            assert(s.drop_last() =~= old(self).entries@);
            assert forall|a: int, b: int| 0 <= a < b < s.len() implies (#[trigger] s[a]).0 != (
            #[trigger] s[b]).0 by {
                if b == s.len() - 1 {
                    assert(s[a] == old(self).entries@[a]);
                } else {
                    assert(s[a] == old(self).entries@[a] && s[b] == old(self).entries@[b]);
                }
            }
        }
        Ok(())
    }
}

/// A record, once written, holds its key for good: after `record(key, first)`
/// succeeds, the store maps `key` to `first`, so a second `record(key, ..)`
/// fails with `AlreadyExists` and leaves `first` in place.
pub proof fn lemma_record_write_once<T>(before: &RecordStore<T>, after: &RecordStore<T>, key: u64, first: T)
    requires
        before.wf(),
        after@ == before@.insert(key, first),
    ensures
        after@.contains_key(key),
        after@[key] == first,
{
}

/// Number of bytes in the UTF-8 encoding of `s`, as `str::len` gives it.
pub open spec fn utf8_len(s: Seq<char>) -> usize {
    encode_utf8(s).len() as usize
}

pub fn byte_len(s: &String) -> (r: usize)
    ensures
        r == utf8_len(s@),
{
    s.as_str().len()
}

/// Largest encrypted first or last name: 100 characters of at most 4 bytes
/// each, plus a 16-byte authentication tag.
pub const MAX_ENCRYPTED_NAME_LEN: usize = 416;

/// Largest encrypted address line: 150 characters, 4 bytes each, plus the tag.
pub const MAX_ENCRYPTED_ADDRESS_LINE_LEN: usize = 616;

/// Largest encrypted city: 100 characters, 4 bytes each, plus the tag.
pub const MAX_ENCRYPTED_CITY_LEN: usize = 416;

/// Largest encrypted postal code: 50 characters, 4 bytes each, plus the tag.
pub const MAX_ENCRYPTED_POSTAL_CODE_LEN: usize = 216;

/// Largest encrypted country code: 2 characters, 4 bytes each, plus the tag.
pub const MAX_ENCRYPTED_COUNTRY_CODE_LEN: usize = 24;

/// Largest encrypted state code: 3 characters, 4 bytes each, plus the tag.
pub const MAX_ENCRYPTED_STATE_CODE_LEN: usize = 28;

/// The buyer's delivery address, each field encrypted end to end for the
/// seller. The library stores the ciphertexts and never reads them.
#[derive(Clone, Debug)]
pub struct EncryptedDeliveryInformation {
    pub nonce: [u8; 24],
    pub buyer_ephemeral_pubkey: [u8; 32],
    pub encrypted_delivery_lastname: Vec<u8>,
    pub encrypted_delivery_firstname: Vec<u8>,
    pub encrypted_delivery_address_line_1: Vec<u8>,
    pub encrypted_delivery_address_line_2: Option<Vec<u8>>,
    pub encrypted_delivery_city: Vec<u8>,
    pub encrypted_delivery_postal_code: Vec<u8>,
    pub encrypted_delivery_country_code: Vec<u8>,
    pub encrypted_delivery_state_code: Option<Vec<u8>>,
}

pub open spec fn optional_within(field: Option<Vec<u8>>, max: usize) -> bool {
    match field {
        Some(v) => v@.len() <= max,
        None => true,
    }
}

fn optional_fits(field: &Option<Vec<u8>>, max: usize) -> (r: bool)
    ensures
        r == optional_within(*field, max),
{
    match field {
        Some(v) => v.len() <= max,
        None => true,
    }
}

impl EncryptedDeliveryInformation {
    /// Every ciphertext is within its declared maximum length.
    pub open spec fn within_bounds(&self) -> bool {
        &&& self.encrypted_delivery_lastname@.len() <= MAX_ENCRYPTED_NAME_LEN
        &&& self.encrypted_delivery_firstname@.len() <= MAX_ENCRYPTED_NAME_LEN
        &&& self.encrypted_delivery_address_line_1@.len() <= MAX_ENCRYPTED_ADDRESS_LINE_LEN
        &&& optional_within(self.encrypted_delivery_address_line_2, MAX_ENCRYPTED_ADDRESS_LINE_LEN)
        &&& self.encrypted_delivery_city@.len() <= MAX_ENCRYPTED_CITY_LEN
        &&& self.encrypted_delivery_postal_code@.len() <= MAX_ENCRYPTED_POSTAL_CODE_LEN
        &&& self.encrypted_delivery_country_code@.len() <= MAX_ENCRYPTED_COUNTRY_CODE_LEN
        &&& optional_within(self.encrypted_delivery_state_code, MAX_ENCRYPTED_STATE_CODE_LEN)
    }

    pub fn fits(&self) -> (r: bool)
        ensures
            r == self.within_bounds(),
    {
        self.encrypted_delivery_lastname.len() <= MAX_ENCRYPTED_NAME_LEN
            && self.encrypted_delivery_firstname.len() <= MAX_ENCRYPTED_NAME_LEN
            && self.encrypted_delivery_address_line_1.len() <= MAX_ENCRYPTED_ADDRESS_LINE_LEN
            && optional_fits(&self.encrypted_delivery_address_line_2, MAX_ENCRYPTED_ADDRESS_LINE_LEN)
            && self.encrypted_delivery_city.len() <= MAX_ENCRYPTED_CITY_LEN
            && self.encrypted_delivery_postal_code.len() <= MAX_ENCRYPTED_POSTAL_CODE_LEN
            && self.encrypted_delivery_country_code.len() <= MAX_ENCRYPTED_COUNTRY_CODE_LEN
            && optional_fits(&self.encrypted_delivery_state_code, MAX_ENCRYPTED_STATE_CODE_LEN)
    }
}

/// Largest carrier name, in bytes.
pub const MAX_CARRIER_NAME_LEN: usize = 100;

/// Largest tracking URL, in bytes.
pub const MAX_TRACKING_URL_LEN: usize = 255;

/// Largest tracking code, in bytes.
pub const MAX_TRACKING_CODE_LEN: usize = 255;

/// Shipment metadata that the seller records for an intent.
#[derive(Clone, Debug)]
pub struct TrackingDetails {
    pub carrier_name: String,
    pub tracking_url: String,
    pub tracking_code: String,
}

impl TrackingDetails {
    pub open spec fn within_bounds(&self) -> bool {
        &&& utf8_len(self.carrier_name@) <= MAX_CARRIER_NAME_LEN
        &&& utf8_len(self.tracking_url@) <= MAX_TRACKING_URL_LEN
        &&& utf8_len(self.tracking_code@) <= MAX_TRACKING_CODE_LEN
    }

    pub fn fits(&self) -> (r: bool)
        ensures
            r == self.within_bounds(),
    {
        byte_len(&self.carrier_name) <= MAX_CARRIER_NAME_LEN && byte_len(&self.tracking_url)
            <= MAX_TRACKING_URL_LEN && byte_len(&self.tracking_code) <= MAX_TRACKING_CODE_LEN
    }
}

} // verus!
