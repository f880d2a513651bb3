//! The configuration-store slot codec.  Credentials are kept in flash as
//! fixed-size slots keyed by small integer identifiers; a stored value is
//! zero-padded to the slot length, and reading strips the padding again.
//! The flash device itself is a collaborator outside this crate: it is
//! handed exactly the slot bytes and offsets computed here.

use vstd::prelude::*;

verus! {

/// Size in bytes of one configuration slot.
pub const CONFIG_ENTRY_LEN: usize = 64;

/// Slot identifier of the stored network name.
pub const SSID_STORE_ID: u32 = 0;

/// Slot identifier of the stored passphrase.
pub const PW_STORE_ID: u32 = 1;

/// First flash address used by the configuration store.
pub const FLASH_BASE_ADDRESS: u32 = 0x9000;

/// Why a value cannot be stored.
#[derive(Clone, Copy, PartialEq, Eq, Structural, Debug)]
pub enum ConfigError {
    /// The value does not fit in one slot.
    ValueTooLong,
}

/// `s` with every leading zero byte removed.
pub open spec fn trim_leading_nuls(s: Seq<u8>) -> Seq<u8>
    decreases s.len(),
{
    if s.len() > 0 && s[0] == 0 {
        trim_leading_nuls(s.drop_first())
    } else {
        s
    }
}

/// `s` with every trailing zero byte removed.
pub open spec fn trim_trailing_nuls(s: Seq<u8>) -> Seq<u8>
    decreases s.len(),
{
    if s.len() > 0 && s[s.len() - 1] == 0 {
        trim_trailing_nuls(s.drop_last())
    } else {
        s
    }
}

/// Flash offset of slot `id`: slots sit back to back above the base
/// address.
pub fn offset_of_id(id: u32) -> (off: u32)
    requires
        FLASH_BASE_ADDRESS + id * CONFIG_ENTRY_LEN <= u32::MAX,
    ensures
        off == FLASH_BASE_ADDRESS + id * CONFIG_ENTRY_LEN,
{
    FLASH_BASE_ADDRESS + id * (CONFIG_ENTRY_LEN as u32)
}

/// Encodes a value as one slot: the value's bytes followed by zero
/// padding.  A value longer than the slot is refused.
pub fn encode_entry(value: &Vec<u8>) -> (r: Result<Vec<u8>, ConfigError>)
    ensures
        value@.len() <= CONFIG_ENTRY_LEN ==> (r matches Ok(buf) && buf@.len() == CONFIG_ENTRY_LEN
            && (forall|i: int| 0 <= i < value@.len() ==> buf@[i] == value@[i]) && (forall|i: int|
            value@.len() <= i < CONFIG_ENTRY_LEN ==> buf@[i] == 0)),
        value@.len() > CONFIG_ENTRY_LEN ==> (r matches Err(e) && e == ConfigError::ValueTooLong),
{
    if value.len() > CONFIG_ENTRY_LEN {
        return Err(ConfigError::ValueTooLong);
    }
    let mut buf: Vec<u8> = Vec::new();
    let mut i: usize = 0;
    while i < value.len()
        invariant
            i <= value@.len() <= CONFIG_ENTRY_LEN,
            buf@.len() == i,
            forall|j: int| 0 <= j < i ==> buf@[j] == value@[j],
        decreases value@.len() - i,
    {
        buf.push(value[i]);
        i += 1;
    }
    while i < CONFIG_ENTRY_LEN
        invariant
            value@.len() <= i <= CONFIG_ENTRY_LEN,
            buf@.len() == i,
            forall|j: int| 0 <= j < value@.len() ==> buf@[j] == value@[j],
            forall|j: int| value@.len() <= j < i ==> buf@[j] == 0,
        decreases CONFIG_ENTRY_LEN - i,
    {
        buf.push(0);
        i += 1;
    }
    Ok(buf)
}

/// Decodes one slot read back from flash: the stored value is the slot
/// with its zero padding stripped from both ends.
pub fn decode_entry(buf: &Vec<u8>) -> (value: Vec<u8>)
    ensures
        value@ == trim_trailing_nuls(trim_leading_nuls(buf@)),
{
    let n: usize = buf.len();
    let mut start: usize = 0;
    while start < n && buf[start] == 0
        invariant
            start <= n,
            n == buf@.len(),
            forall|i: int| 0 <= i < start ==> buf@[i] == 0,
        decreases n - start,
    {
        start += 1;
    }
    let mut end: usize = n;
    while end > start && buf[end - 1] == 0
        invariant
            start <= end <= n,
            n == buf@.len(),
            forall|i: int| end <= i < n ==> buf@[i] == 0,
        decreases end,
    {
        end -= 1;
    }
    let mut out: Vec<u8> = Vec::new();
    let mut i: usize = start;
    while i < end
        invariant
            start <= i <= end,
            out@.len() == i - start,
            n == buf@.len(),
            end <= n,
            forall|j: int| start <= j < i ==> out@[j - start] == buf@[j],
        decreases end - i,
    {
        out.push(buf[i]);
        i += 1;
    }
    proof {
        lemma_trim_leading_subrange(buf@, start as int);
        let mid: Seq<u8> = buf@.subrange(start as int, n as int);
        lemma_trim_trailing_subrange(mid, end - start as int);
        assert(mid.subrange(0, end - start as int) =~= out@);
    }
    out
}

/// The leading zero bytes of `s` end exactly at `k`, so trimming them is
/// the same as keeping the suffix that starts at `k`.
proof fn lemma_trim_leading_subrange(s: Seq<u8>, k: int)
    requires
        0 <= k <= s.len(),
        forall|i: int| 0 <= i < k ==> s[i] == 0,
        k == s.len() || s[k] != 0,
    ensures
        trim_leading_nuls(s) == s.subrange(k, s.len() as int),
    decreases k,
{
    if k == 0 {
        assert(s.subrange(0, s.len() as int) =~= s);
    } else {
        let rest = s.drop_first();
        assert(forall|i: int| 0 <= i < k - 1 ==> rest[i] == 0);
        lemma_trim_leading_subrange(rest, k - 1);
        assert(rest.subrange(k - 1, rest.len() as int) =~= s.subrange(k, s.len() as int));
    }
}

/// The trailing zero bytes of `s` begin exactly at `k`, so trimming them
/// is the same as keeping the prefix up to `k`.
proof fn lemma_trim_trailing_subrange(s: Seq<u8>, k: int)
    requires
        0 <= k <= s.len(),
        forall|i: int| k <= i < s.len() ==> s[i] == 0,
        k == 0 || s[k - 1] != 0,
    ensures
        trim_trailing_nuls(s) == s.subrange(0, k),
    decreases s.len(),
{
    if k < s.len() {
        let rest = s.drop_last();
        lemma_trim_trailing_subrange(rest, k);
        assert(rest.subrange(0, k) =~= s.subrange(0, k));
    } else {
        assert(s.subrange(0, k) =~= s);
    }
}

} // verus!
