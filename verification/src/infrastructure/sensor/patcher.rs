//! Firmware binary patching for the BLE device name.
use vstd::prelude::*;
use vstd::utf8::encode_utf8;
use crate::infrastructure::sensor::SensorError;

verus! {

/// The placeholder string that the firmware image carries where the BLE
/// device name goes ("PLACEHOLDER_BLE_NAME_HERE").
pub const DEFAULT_PLACEHOLDER: [u8; 25] = [
    80, 76, 65, 67, 69, 72, 79, 76, 68, 69, 82, 95, 66, 76, 69, 95, 78, 65, 77, 69, 95, 72, 69, 82,
    69,
];

/// The placeholder's bytes.
pub open spec fn placeholder_spec() -> Seq<u8> {
    seq![
        80u8, 76, 65, 67, 69, 72, 79, 76, 68, 69, 82, 95, 66, 76, 69, 95, 78, 65, 77, 69, 95, 72,
        69, 82, 69,
    ]
}

/// `needle` occurs in `hay` at offset `i`.
pub open spec fn occurs_at(hay: Seq<u8>, needle: Seq<u8>, i: int) -> bool {
    0 <= i && i + needle.len() <= hay.len() && hay.subrange(i, i + needle.len()) == needle
}

/// `i` is the first offset at which `needle` occurs in `hay`.
pub open spec fn first_occurrence_at(hay: Seq<u8>, needle: Seq<u8>, i: int) -> bool {
    occurs_at(hay, needle, i) && forall|j: int| 0 <= j < i ==> !occurs_at(hay, needle, j)
}

/// The firmware with the placeholder at `offset` overwritten by `name`,
/// padded with zero bytes to the placeholder's length.
pub open spec fn patched_spec(firmware: Seq<u8>, offset: int, name: Seq<u8>) -> Seq<u8> {
    firmware.subrange(0, offset) + name + Seq::new(
        (placeholder_spec().len() - name.len()) as nat,
        |i: int| 0u8,
    ) + firmware.subrange(offset + placeholder_spec().len(), firmware.len() as int)
}

/// Patches a firmware binary to set a custom BLE device name.
pub struct FirmwarePatcher;

impl FirmwarePatcher {
    /// Patch the device name in a firmware binary: the first occurrence of
    /// the placeholder is replaced by the name's UTF-8 bytes, padded with
    /// zero bytes to the same length.
    pub fn patch_device_name(firmware: &[u8], device_name: &str) -> (res: Result<
        Vec<u8>,
        SensorError,
    >)
        ensures
            encode_utf8(device_name@).len() > placeholder_spec().len() ==> res == Err::<
                Vec<u8>,
                SensorError,
            >(SensorError::NameTooLong { max: 25 }),
            encode_utf8(device_name@).len() <= placeholder_spec().len() && (forall|j: int|
                !occurs_at(firmware@, placeholder_spec(), j)) ==> res == Err::<
                Vec<u8>,
                SensorError,
            >(SensorError::PlaceholderNotFound),
            encode_utf8(device_name@).len() <= placeholder_spec().len() && (exists|j: int|
                occurs_at(firmware@, placeholder_spec(), j)) ==> res is Ok,
            res matches Ok(p) ==> exists|offset: int|
                first_occurrence_at(firmware@, placeholder_spec(), offset) && p@ == patched_spec(
                    firmware@,
                    offset,
                    encode_utf8(device_name@),
                ),
    {
        let name = device_name.as_bytes();
        let max_len: usize = 25;
        if name.len() > max_len {
            return Err(SensorError::NameTooLong { max: max_len });
        }
        let offset = match Self::find_placeholder(firmware, &DEFAULT_PLACEHOLDER) {
            Some(o) => o,
            None => {
                return Err(SensorError::PlaceholderNotFound);
            },
        };
        let mut patched: Vec<u8> = Vec::new();
        let mut i: usize = 0;
        while i < offset
            invariant
                offset + 25 <= firmware@.len(),
                i <= offset,
                patched@ == firmware@.subrange(0, i as int),
            decreases offset - i,
        {
            patched.push(firmware[i]);
            assert(patched@ =~= firmware@.subrange(0, i as int + 1));
            i = i + 1;
        }
        let mut k: usize = 0;
        while k < name.len()
            invariant
                name@ == encode_utf8(device_name@),
                name@.len() <= 25,
                offset + 25 <= firmware@.len(),
                k <= name@.len(),
                patched@ == firmware@.subrange(0, offset as int) + name@.subrange(0, k as int),
            decreases name@.len() - k,
        {
            patched.push(name[k]);
            assert(patched@ =~= firmware@.subrange(0, offset as int) + name@.subrange(
                0,
                k as int + 1,
            ));
            k = k + 1;
        }
        assert(name@.subrange(0, name@.len() as int) =~= name@);
        let ghost zeros_start = patched@;
        let mut z: usize = name.len();
        while z < max_len
            invariant
                max_len == 25,
                offset + 25 <= firmware@.len(),
                name@.len() <= z <= 25,
                patched@ == zeros_start + Seq::new((z - name@.len()) as nat, |i: int| 0u8),
            decreases 25 - z,
        {
            patched.push(0);
            assert(patched@ =~= zeros_start + Seq::new(
                (z + 1 - name@.len()) as nat,
                |i: int| 0u8,
            ));
            z = z + 1;
        }
        let ghost tail_start = patched@;
        let fw_len = firmware.len();
        assert(offset + 25 <= fw_len);
        let mut t: usize = offset + max_len;
        while t < firmware.len()
            invariant
                offset + 25 <= t <= firmware@.len(),
                patched@ == tail_start + firmware@.subrange(offset as int + 25, t as int),
            decreases firmware@.len() - t,
        {
            patched.push(firmware[t]);
            assert(patched@ =~= tail_start + firmware@.subrange(offset as int + 25, t as int + 1));
            t = t + 1;
        }
        assert(patched@ =~= patched_spec(firmware@, offset as int, name@));
        Ok(patched)
    }

    /// The first offset at which `placeholder` occurs in `firmware`.
    fn find_placeholder(firmware: &[u8], placeholder: &[u8; 25]) -> (res: Option<usize>)
        requires
            placeholder@ == placeholder_spec(),
        ensures
            res matches Some(i) ==> first_occurrence_at(firmware@, placeholder_spec(), i as int),
            res is None ==> forall|j: int| !occurs_at(firmware@, placeholder_spec(), j),
    {
        let n = firmware.len();
        if n < 25 {
            return None;
        }
        let mut i: usize = 0;
        while i <= n - 25
            invariant
                n == firmware@.len(),
                placeholder@ == placeholder_spec(),
                25 <= n,
                i <= n,
                forall|j: int| 0 <= j < i ==> !occurs_at(firmware@, placeholder_spec(), j),
            decreases n - i,
        {
            let mut k: usize = 0;
            let mut matched = true;
            while k < 25
                invariant
                    i + 25 <= n,
                    n == firmware@.len(),
                    placeholder@ == placeholder_spec(),
                    k <= 25,
                    matched <==> forall|m: int| 0 <= m < k ==> firmware@[i + m] == placeholder@[m],
                decreases 25 - k,
            {
                if firmware[i + k] != placeholder[k] {
                    matched = false;
                }
                k = k + 1;
            }
            if matched {
                assert(firmware@.subrange(i as int, i + 25) =~= placeholder_spec());
                return Some(i);
            }
            proof {
                let m = choose|m: int| 0 <= m < 25 && firmware@[i + m] != placeholder@[m];
                assert(firmware@.subrange(i as int, i + 25)[m] != placeholder_spec()[m]);
            }
            i = i + 1;
        }
        None
    }

    /// Whether the firmware contains the placeholder.
    pub fn has_placeholder(firmware: &[u8]) -> (b: bool)
        ensures
            b == exists|j: int| occurs_at(firmware@, placeholder_spec(), j),
    {
        proof {
            assert(DEFAULT_PLACEHOLDER@ =~= placeholder_spec());
        }
        Self::find_placeholder(firmware, &DEFAULT_PLACEHOLDER).is_some()
    }

    /// The maximum allowed device name length in bytes.
    pub fn max_name_length() -> (n: usize)
        ensures
            n == placeholder_spec().len(),
    {
        25
    }
}

/// Patching keeps the image's layout: the same length, the name at the
/// placeholder's offset followed by zero bytes up to the placeholder's
/// end, and every byte outside the placeholder unchanged.
pub proof fn law_patch_keeps_layout(firmware: Seq<u8>, offset: int, name: Seq<u8>)
    requires
        occurs_at(firmware, placeholder_spec(), offset),
        name.len() <= placeholder_spec().len(),
    ensures
        patched_spec(firmware, offset, name).len() == firmware.len(),
        patched_spec(firmware, offset, name).subrange(offset, offset + name.len()) == name,
        forall|i: int|
            offset + name.len() <= i < offset + placeholder_spec().len() ==> #[trigger] patched_spec(
                firmware,
                offset,
                name,
            )[i] == 0,
        forall|i: int|
            0 <= i < firmware.len() && (i < offset || i >= offset + placeholder_spec().len())
                ==> #[trigger] patched_spec(firmware, offset, name)[i] == firmware[i],
{
    let p = patched_spec(firmware, offset, name);
    assert(p.subrange(offset, offset + name.len()) =~= name);
}

} // verus!
