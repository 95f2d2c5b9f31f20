use vstd::prelude::*;

use crate::util::bytes_eq;

verus! {

/// The bytes of `"/usb"`, the marker a block device's `device` symlink
/// target must contain for the device to count as USB-attached.
pub open spec fn usb_marker() -> Seq<u8> {
    seq![0x2fu8, 0x75u8, 0x73u8, 0x62u8]
}

/// The bytes of `"device"`, the one subdirectory entry of a block
/// device that is never a partition.
pub open spec fn device_word() -> Seq<u8> {
    seq![0x64u8, 0x65u8, 0x76u8, 0x69u8, 0x63u8, 0x65u8]
}

/// The bytes of `"/dev/"`, the prefix under which a partition name
/// becomes a mountable device path.
pub open spec fn dev_prefix() -> Seq<u8> {
    seq![0x2fu8, 0x64u8, 0x65u8, 0x76u8, 0x2fu8]
}

/// The bytes of `".key"`, the extension a key file must carry.
pub open spec fn key_ext() -> Seq<u8> {
    seq![0x2eu8, 0x6bu8, 0x65u8, 0x79u8]
}

pub open spec fn contains_seq(hay: Seq<u8>, needle: Seq<u8>) -> bool {
    exists|i: int|
        0 <= i && i + needle.len() <= hay.len() && #[trigger] hay.subrange(i, i + needle.len())
            == needle
}

/// Whether a `device` symlink target marks a USB-attached device.
pub open spec fn spec_is_usb_link(link: Option<Seq<u8>>) -> bool {
    match link {
        Option::None => false,
        Option::Some(l) => contains_seq(l, usb_marker()),
    }
}

/// Whether a subdirectory entry of `/sys/block/{base}` names a partition
/// of that device: it starts with the device name, differs from it, and
/// is not the `device` link itself.
pub open spec fn spec_is_partition_entry(name: Seq<u8>, base: Seq<u8>) -> bool {
    &&& name != device_word()
    &&& name.len() >= base.len()
    &&& name.take(base.len() as int) == base
    &&& name != base
}

/// Whether a directory entry names a key file: a non-empty stem followed
/// by `".key"`.
pub open spec fn spec_is_key_file(name: Seq<u8>) -> bool {
    name.len() > 4 && name.skip(name.len() - 4) == key_ext()
}

/// The stem of a key file name, used as the key's UUID.
pub open spec fn spec_key_stem(name: Seq<u8>) -> Seq<u8> {
    name.take(name.len() - 4)
}

/// Whether a symlink target contains `"/usb"`.
pub fn contains_usb_marker(link: &[u8]) -> (b: bool)
    ensures
        b == contains_seq(link@, usb_marker()),
{
    if link.len() < 4 {
        assert(!contains_seq(link@, usb_marker()));
        return false;
    }
    let mut i: usize = 0;
    while i <= link.len() - 4
        invariant
            link@.len() >= 4,
            i <= link@.len(),
            forall|j: int| 0 <= j < i ==> #[trigger] link@.subrange(j, j + 4) != usb_marker(),
        decreases link.len() - i,
    {
        if link[i] == 0x2f && link[i + 1] == 0x75 && link[i + 2] == 0x73 && link[i + 3] == 0x62 {
            proof {
                assert(link@.subrange(i as int, i as int + 4) =~= usb_marker());
            }
            return true;
        }
        proof {
            let j = i as int;
            if link@.subrange(j, j + 4) == usb_marker() {
                assert(link@.subrange(j, j + 4)[0] == link@[j]);
                assert(link@.subrange(j, j + 4)[1] == link@[j + 1]);
                assert(link@.subrange(j, j + 4)[2] == link@[j + 2]);
                assert(link@.subrange(j, j + 4)[3] == link@[j + 3]);
                assert(false);
            }
        }
        i = i + 1;
    }
    proof {
        if contains_seq(link@, usb_marker()) {
            let j = choose|j: int|
                0 <= j && j + 4 <= link@.len() && #[trigger] link@.subrange(j, j + 4)
                    == usb_marker();
            assert(0 <= j < i);
            assert(false);
        }
    }
    false
}

fn device_word_bytes() -> (r: Vec<u8>)
    ensures
        r@ == device_word(),
{
    let mut v: Vec<u8> = Vec::new();
    v.push(0x64);
    v.push(0x65);
    v.push(0x76);
    v.push(0x69);
    v.push(0x63);
    v.push(0x65);
    proof {
        assert(v@ =~= device_word());
    }
    v
}

/// Whether `name` starts with `base`.
pub fn starts_with(name: &[u8], base: &[u8]) -> (b: bool)
    ensures
        b == (name@.len() >= base@.len() && name@.take(base@.len() as int) == base@),
{
    if name.len() < base.len() {
        return false;
    }
    let mut i: usize = 0;
    while i < base.len()
        invariant
            base@.len() <= name@.len(),
            i <= base@.len(),
            forall|j: int| 0 <= j < i ==> name@[j] == base@[j],
        decreases base.len() - i,
    {
        if name[i] != base[i] {
            proof {
                assert(name@.take(base@.len() as int)[i as int] != base@[i as int]);
            }
            return false;
        }
        i = i + 1;
    }
    proof {
        assert(name@.take(base@.len() as int) =~= base@);
    }
    true
}

/// Whether an entry of `/sys/block/{base}` names a partition of `base`.
pub fn is_partition_entry(name: &[u8], base: &[u8]) -> (b: bool)
    ensures
        b == spec_is_partition_entry(name@, base@),
{
    let device = device_word_bytes();
    if bytes_eq(name, device.as_slice()) {
        return false;
    }
    if !starts_with(name, base) {
        return false;
    }
    if bytes_eq(name, base) {
        return false;
    }
    true
}

/// One `/sys/block` entry, as the scanner reads it: the device name,
/// the target of its `device` symlink if that link exists and resolves,
/// and the names of its subdirectory entries in listing order.
pub struct BlockDeviceInfo {
    pub name: Vec<u8>,
    pub device_link: Option<Vec<u8>>,
    pub children: Vec<Vec<u8>>,
}

pub ghost struct BlockDeviceModel {
    pub name: Seq<u8>,
    pub device_link: Option<Seq<u8>>,
    pub children: Seq<Seq<u8>>,
}

impl View for BlockDeviceInfo {
    type V = BlockDeviceModel;

    open spec fn view(&self) -> BlockDeviceModel {
        BlockDeviceModel {
            name: self.name@,
            device_link: self.device_link.deep_view(),
            children: self.children.deep_view(),
        }
    }
}

/// The candidate device paths one block device contributes: nothing
/// unless its symlink marks it as USB, else `/dev/{child}` for each
/// partition entry, in listing order.
pub open spec fn spec_child_candidates(children: Seq<Seq<u8>>, base: Seq<u8>) -> Seq<Seq<u8>>
    decreases children.len(),
{
    if children.len() == 0 {
        Seq::empty()
    } else {
        let rest = spec_child_candidates(children.drop_first(), base);
        if spec_is_partition_entry(children[0], base) {
            seq![dev_prefix() + children[0]] + rest
        } else {
            rest
        }
    }
}

pub open spec fn spec_device_candidates(b: BlockDeviceModel) -> Seq<Seq<u8>> {
    if spec_is_usb_link(b.device_link) {
        spec_child_candidates(b.children, b.name)
    } else {
        Seq::empty()
    }
}

/// All candidate device paths of a `/sys/block` listing, devices in
/// listing order, partitions within each device in listing order.
pub open spec fn spec_scan_candidates(blocks: Seq<BlockDeviceModel>) -> Seq<Seq<u8>>
    decreases blocks.len(),
{
    if blocks.len() == 0 {
        Seq::empty()
    } else {
        spec_device_candidates(blocks[0]) + spec_scan_candidates(blocks.drop_first())
    }
}

fn make_dev_path(name: &[u8]) -> (r: Vec<u8>)
    ensures
        r@ == dev_prefix() + name@,
{
    let mut v: Vec<u8> = Vec::new();
    v.push(0x2f);
    v.push(0x64);
    v.push(0x65);
    v.push(0x76);
    v.push(0x2f);
    let mut i: usize = 0;
    while i < name.len()
        invariant
            i <= name@.len(),
            v@ == dev_prefix() + name@.take(i as int),
        decreases name.len() - i,
    {
        v.push(name[i]);
        i = i + 1;
        proof {
            assert(v@ =~= dev_prefix() + name@.take(i as int));
        }
    }
    proof {
        assert(dev_prefix() + name@.take(name@.len() as int) =~= dev_prefix() + name@);
    }
    v
}

/// Whether a block device's symlink state marks it as USB-attached.
pub fn link_is_usb(link: &Option<Vec<u8>>) -> (b: bool)
    ensures
        b == spec_is_usb_link(link.deep_view()),
{
    match link {
        Option::None => false,
        Option::Some(l) => {
            let b = contains_usb_marker(l.as_slice());
            proof {
                assert(l.deep_view() =~= l@);
            }
            b
        },
    }
}

/// Map a `/sys/block` listing to the mountable candidate paths, in the
/// order a scan probes them.
#[verifier::loop_isolation(false)]
pub fn scan_usb_candidates(blocks: &Vec<BlockDeviceInfo>) -> (r: Vec<Vec<u8>>)
    ensures
        r.deep_view() == spec_scan_candidates(blocks@.map_values(|b: BlockDeviceInfo| b@)),
{
    let ghost bm = blocks@.map_values(|b: BlockDeviceInfo| b@);
    let mut r: Vec<Vec<u8>> = Vec::new();
    let mut i: usize = 0;
    proof {
        assert(r.deep_view() =~~= Seq::<Seq<u8>>::empty());
        assert(bm.skip(0) =~= bm);
        assert(r.deep_view() + spec_scan_candidates(bm) =~~= spec_scan_candidates(bm));
    }
    while i < blocks.len()
        invariant
            i <= blocks@.len(),
            r.deep_view() + spec_scan_candidates(bm.skip(i as int)) =~~= spec_scan_candidates(bm),
        decreases blocks.len() - i,
    {
        let ghost r0 = r.deep_view();
        let block = &blocks[i];
        proof {
            assert(block@ == bm[i as int]);
            assert(bm.skip(i as int)[0] == bm[i as int]);
            assert(bm.skip(i as int).drop_first() =~= bm.skip(i as int + 1));
        }
        let usb = link_is_usb(&block.device_link);
        if usb {
            let ghost cs = block@.children;
            let ghost base = block@.name;
            let mut j: usize = 0;
            proof {
                assert(spec_is_usb_link(block@.device_link));
                assert(spec_device_candidates(bm[i as int]) == spec_child_candidates(cs, base));
                assert(cs.skip(0) =~= cs);
            }
            while j < block.children.len()
                invariant
                    j <= block.children@.len(),
                    r.deep_view() + spec_child_candidates(cs.skip(j as int), base) =~~= r0
                        + spec_device_candidates(bm[i as int]),
                decreases block.children.len() - j,
            {
                proof {
                    assert(cs.skip(j as int)[0] == cs[j as int]);
                    assert(cs.skip(j as int).drop_first() =~= cs.skip(j as int + 1));
                    assert(block.children@[j as int]@ == cs[j as int]);
                }
                let child = &block.children[j];
                if is_partition_entry(child.as_slice(), block.name.as_slice()) {
                    let ghost rd = r.deep_view();
                    let path = make_dev_path(child.as_slice());
                    r.push(path);
                    proof {
                        assert(r.deep_view() =~~= rd + seq![dev_prefix() + cs[j as int]]);
                        assert(r.deep_view() + spec_child_candidates(cs.skip(j as int + 1), base)
                            =~~= rd + spec_child_candidates(cs.skip(j as int), base));
                    }
                }
                j = j + 1;
            }
            proof {
                assert(cs.skip(cs.len() as int) =~= Seq::<Seq<u8>>::empty());
                assert(r.deep_view() =~~= r0 + spec_device_candidates(bm[i as int]));
            }
        } else {
            proof {
                assert(spec_device_candidates(bm[i as int]) =~= Seq::<Seq<u8>>::empty());
                assert(r.deep_view() =~~= r0 + spec_device_candidates(bm[i as int]));
            }
        }
        proof {
            assert(r.deep_view() + spec_scan_candidates(bm.skip(i as int + 1)) =~~= r0
                + spec_scan_candidates(bm.skip(i as int)));
        }
        i = i + 1;
    }
    proof {
        assert(bm.skip(bm.len() as int) =~= Seq::<BlockDeviceModel>::empty());
        assert(spec_scan_candidates(bm.skip(bm.len() as int)) =~~= Seq::<Seq<u8>>::empty());
        assert(r.deep_view() =~~= spec_scan_candidates(bm));
    }
    r
}

/// Whether a directory entry names a key file.
pub fn is_key_file_name(name: &[u8]) -> (b: bool)
    ensures
        b == spec_is_key_file(name@),
{
    if name.len() <= 4 {
        return false;
    }
    let n = name.len();
    let b = name[n - 4] == 0x2e && name[n - 3] == 0x6b && name[n - 2] == 0x65 && name[n - 1]
        == 0x79;
    proof {
        let tail = name@.skip(name@.len() - 4);
        assert(tail[0] == name@[name@.len() - 4]);
        assert(tail[1] == name@[name@.len() - 3]);
        assert(tail[2] == name@[name@.len() - 2]);
        assert(tail[3] == name@[name@.len() - 1]);
        if b {
            assert(tail =~= key_ext());
        } else {
            assert(tail != key_ext());
        }
    }
    b
}

/// The stem of a key file name: the UUID under which the key was bound.
pub fn key_file_stem(name: &[u8]) -> (r: Vec<u8>)
    requires
        spec_is_key_file(name@),
    ensures
        r@ == spec_key_stem(name@),
{
    crate::util::copy_range(name, 0, name.len() - 4)
}

/// Whether a key file's size admits it: exactly 32 bytes.
pub fn key_file_size_ok(size: u64) -> (b: bool)
    ensures
        b == (size == 32),
{
    size == 32
}

/// The first directory entry that is a key file of exactly 32 bytes, in
/// listing order: the first valid key wins, later entries are not
/// probed.
pub fn find_key_file(names: &Vec<Vec<u8>>, sizes: &Vec<u64>) -> (r: Option<usize>)
    requires
        names@.len() == sizes@.len(),
    ensures
        match r {
            Option::Some(i) => i < names@.len() && spec_is_key_file(names@[i as int]@)
                && sizes@[i as int] == 32 && forall|j: int|
                0 <= j < i ==> !(spec_is_key_file(names@[j]@) && sizes@[j] == 32),
            Option::None => forall|j: int|
                0 <= j < names@.len() ==> !(spec_is_key_file(names@[j]@) && sizes@[j] == 32),
        },
{
    let mut i: usize = 0;
    while i < names.len()
        invariant
            names@.len() == sizes@.len(),
            i <= names@.len(),
            forall|j: int| 0 <= j < i ==> !(spec_is_key_file(names@[j]@) && sizes@[j] == 32),
        decreases names.len() - i,
    {
        if is_key_file_name(names[i].as_slice()) && sizes[i] == 32 {
            return Option::Some(i);
        }
        i = i + 1;
    }
    Option::None
}

/// Admit key bytes only at exactly 32 bytes; the monitor never returns
/// a key of any other length.
pub fn accept_key_bytes(data: Vec<u8>) -> (r: Option<Vec<u8>>)
    ensures
        data@.len() == 32 ==> (r matches Some(k) && k@ == data@ && k@.len() == 32),
        data@.len() != 32 ==> r is None,
{
    if data.len() == 32 {
        Option::Some(data)
    } else {
        Option::None
    }
}

/// Whether a polling attempt emits the periodic `KeySearch` audit entry:
/// every 15th attempt, starting with the first.
pub fn should_log_search(attempt: u64) -> (b: bool)
    ensures
        b == (attempt % 15 == 0),
{
    attempt % 15 == 0
}

/// The fixed order in which the monitor tries filesystems when mounting
/// a candidate read-only.
pub fn mount_fs_type_order() -> (r: Vec<&'static str>)
    ensures
        r@.len() == 5,
        r@[0]@ == "vfat"@,
        r@[1]@ == "exfat"@,
        r@[2]@ == "ext4"@,
        r@[3]@ == "ext3"@,
        r@[4]@ == "ext2"@,
{
    let mut v: Vec<&'static str> = Vec::new();
    v.push("vfat");
    v.push("exfat");
    v.push("ext4");
    v.push("ext3");
    v.push("ext2");
    v
}

/// The polling interval between scans, in seconds.
pub fn poll_interval_secs() -> (r: u64)
    ensures
        r == 2,
{
    2
}

} // verus!
