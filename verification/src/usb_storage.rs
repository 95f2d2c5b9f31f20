use vstd::prelude::*;

use crate::util::{bytes_eq, spec_trim, trim_bytes};
use crate::usb_monitor::{key_ext, starts_with};

verus! {

/// The bytes of `"usb-"`, the prefix of a USB entry under
/// `/dev/disk/by-id`.
pub open spec fn usb_id_prefix() -> Seq<u8> {
    seq![0x75u8, 0x73u8, 0x62u8, 0x2du8]
}

/// The bytes of `"-part1"`, the suffix of a first-partition entry under
/// `/dev/disk/by-id`.
pub open spec fn part1_suffix() -> Seq<u8> {
    seq![0x2du8, 0x70u8, 0x61u8, 0x72u8, 0x74u8, 0x31u8]
}

/// The bytes of `"TUFF_KEYS"`, the directory on the token that carries
/// key files.
pub open spec fn tuff_keys_dir() -> Seq<u8> {
    seq![0x54u8, 0x55u8, 0x46u8, 0x46u8, 0x5fu8, 0x4bu8, 0x45u8, 0x59u8, 0x53u8]
}

/// Whether a `/dev/disk/by-id` entry names the first partition of a USB
/// device: it starts with `"usb-"` and ends with `"-part1"`.
pub open spec fn spec_is_usb_part1(name: Seq<u8>) -> bool {
    &&& name.len() >= 6
    &&& name.take(4) == usb_id_prefix()
    &&& name.skip(name.len() - 6) == part1_suffix()
}

/// The `/dev/disk/by-id` entries the ceremony offers for selection, in
/// listing order.
pub open spec fn spec_usb_part1_entries(names: Seq<Seq<u8>>) -> Seq<Seq<u8>>
    decreases names.len(),
{
    if names.len() == 0 {
        Seq::empty()
    } else {
        let rest = spec_usb_part1_entries(names.drop_first());
        if spec_is_usb_part1(names[0]) {
            seq![names[0]] + rest
        } else {
            rest
        }
    }
}

/// The relative path of a key file on the token for a given host UUID:
/// `TUFF_KEYS/{uuid}.key`.
pub open spec fn spec_key_rel_path(uuid: Seq<u8>) -> Seq<u8> {
    tuff_keys_dir() + seq![0x2fu8] + uuid + key_ext()
}

/// The ceremony's view of the token: a place key files are written to
/// and read back from. The binaries do the mounting and writing; this
/// type holds the rules for names and verification.
pub struct UsbKeyStore;

impl UsbKeyStore {
    /// Whether a `/dev/disk/by-id` entry is a candidate token partition.
    pub fn is_usb_part1_name(name: &[u8]) -> (b: bool)
        ensures
            b == spec_is_usb_part1(name@),
    {
        if name.len() < 6 {
            return false;
        }
        let mut prefix: Vec<u8> = Vec::new();
        prefix.push(0x75);
        prefix.push(0x73);
        prefix.push(0x62);
        prefix.push(0x2d);
        proof {
            assert(prefix@ =~= usb_id_prefix());
        }
        if !starts_with(name, prefix.as_slice()) {
            return false;
        }
        let n = name.len();
        let b = name[n - 6] == 0x2d && name[n - 5] == 0x70 && name[n - 4] == 0x61 && name[n - 3]
            == 0x72 && name[n - 2] == 0x74 && name[n - 1] == 0x31;
        proof {
            let tail = name@.skip(name@.len() - 6);
            assert(tail[0] == name@[name@.len() - 6]);
            assert(tail[1] == name@[name@.len() - 5]);
            assert(tail[2] == name@[name@.len() - 4]);
            assert(tail[3] == name@[name@.len() - 3]);
            assert(tail[4] == name@[name@.len() - 2]);
            assert(tail[5] == name@[name@.len() - 1]);
            if b {
                assert(tail =~= part1_suffix());
            } else {
                assert(tail != part1_suffix());
            }
            assert(name@.take(4) =~= name@.take(prefix@.len() as int));
        }
        b
    }

    /// Filter a `/dev/disk/by-id` listing down to the candidate token
    /// partitions, keeping the listing order.
    #[verifier::loop_isolation(false)]
    pub fn find_usb_devices(names: &Vec<Vec<u8>>) -> (r: Vec<Vec<u8>>)
        ensures
            r.deep_view() == spec_usb_part1_entries(names.deep_view()),
    {
        let ghost nm = names.deep_view();
        let mut r: Vec<Vec<u8>> = Vec::new();
        let mut i: usize = 0;
        proof {
            assert(r.deep_view() =~~= Seq::<Seq<u8>>::empty());
            assert(nm.skip(0) =~= nm);
        }
        while i < names.len()
            invariant
                i <= names@.len(),
                r.deep_view() + spec_usb_part1_entries(nm.skip(i as int)) =~~=
                spec_usb_part1_entries(nm),
            decreases names.len() - i,
        {
            proof {
                assert(nm.skip(i as int)[0] == nm[i as int]);
                assert(nm.skip(i as int).drop_first() =~= nm.skip(i as int + 1));
                assert(names@[i as int]@ == nm[i as int]);
            }
            let name = &names[i];
            if Self::is_usb_part1_name(name.as_slice()) {
                let ghost rd = r.deep_view();
                let copy = crate::util::copy_bytes(name.as_slice());
                r.push(copy);
                proof {
                    assert(r.deep_view() =~~= rd + seq![nm[i as int]]);
                    assert(r.deep_view() + spec_usb_part1_entries(nm.skip(i as int + 1)) =~~= rd
                        + spec_usb_part1_entries(nm.skip(i as int)));
                }
            }
            i = i + 1;
        }
        proof {
            assert(nm.skip(nm.len() as int) =~= Seq::<Seq<u8>>::empty());
            assert(spec_usb_part1_entries(nm.skip(nm.len() as int)) =~~= Seq::<Seq<u8>>::empty());
            assert(r.deep_view() =~~= spec_usb_part1_entries(nm));
        }
        r
    }

    /// Normalize the raw bytes of the DMI product UUID file: strip
    /// surrounding whitespace, reject an empty result.
    pub fn normalize_uuid(raw: &[u8]) -> (r: Option<Vec<u8>>)
        ensures
            spec_trim(raw@).len() == 0 ==> r is None,
            spec_trim(raw@).len() > 0 ==> (r matches Some(u) && u@ == spec_trim(raw@)),
    {
        let trimmed = trim_bytes(raw);
        if trimmed.len() == 0 {
            Option::None
        } else {
            Option::Some(trimmed)
        }
    }

    /// The relative path `TUFF_KEYS/{uuid}.key` on the token.
    pub fn key_rel_path(uuid: &[u8]) -> (r: Vec<u8>)
        ensures
            r@ == spec_key_rel_path(uuid@),
    {
        let mut v: Vec<u8> = Vec::new();
        v.push(0x54);
        v.push(0x55);
        v.push(0x46);
        v.push(0x46);
        v.push(0x5f);
        v.push(0x4b);
        v.push(0x45);
        v.push(0x59);
        v.push(0x53);
        v.push(0x2f);
        let mut i: usize = 0;
        while i < uuid.len()
            invariant
                i <= uuid@.len(),
                v@ == tuff_keys_dir() + seq![0x2fu8] + uuid@.take(i as int),
            decreases uuid.len() - i,
        {
            v.push(uuid[i]);
            i = i + 1;
            proof {
                assert(v@ =~= tuff_keys_dir() + seq![0x2fu8] + uuid@.take(i as int));
            }
        }
        v.push(0x2e);
        v.push(0x6b);
        v.push(0x65);
        v.push(0x79);
        proof {
            assert(uuid@.take(uuid@.len() as int) =~= uuid@);
            assert(v@ =~= spec_key_rel_path(uuid@));
        }
        v
    }

    /// The byte-for-byte read-back verification after writing the key
    /// to the token.
    pub fn key_readback_ok(key: &[u8], readback: &[u8]) -> (b: bool)
        ensures
            b == (key@ == readback@),
    {
        bytes_eq(key, readback)
    }
}

} // verus!
