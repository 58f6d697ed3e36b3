//! Network devices on the PCI bus, read from the files of sysfs.
use vstd::prelude::*;
use crate::model::EthernetDevice;

verus! {

/// Why a PCI device could not be described.
#[derive(Debug, PartialEq, Eq)]
pub enum DeviceError {
    /// A file of the device could not be read; the device and the file.
    Unreadable { pci_id: String, file: String },
    /// A file of the device does not hold a number in range; the device and the file.
    Malformed { pci_id: String, file: String },
}

/// The class file of an Ethernet controller holds `0x020000` and a line break.
pub open spec fn ethernet_class() -> Seq<u8> {
    seq![0x30u8, 0x78u8, 0x30u8, 0x32u8, 0x30u8, 0x30u8, 0x30u8, 0x30u8, 0x0au8]
}

pub open spec fn is_digit_byte(b: u8) -> bool {
    0x30 <= b && b <= 0x39
}

pub open spec fn digits_bytes(w: Seq<u8>) -> bool {
    w.len() > 0 && forall|i: int| 0 <= i < w.len() ==> is_digit_byte(#[trigger] w[i])
}

pub open spec fn bytes_value(w: Seq<u8>) -> nat
    decreases w.len(),
{
    if w.len() == 0 {
        0
    } else {
        bytes_value(w.drop_last()) * 10 + (w.last() - 0x30) as nat
    }
}

/// A decimal integer with an optional leading `-`.
pub open spec fn int_text(w: Seq<u8>) -> Option<int> {
    if w.len() > 0 && w[0] == 0x2d && digits_bytes(w.skip(1)) {
        Some(-bytes_value(w.skip(1)))
    } else if digits_bytes(w) {
        Some(bytes_value(w) as int)
    } else {
        None
    }
}

/// The integer a sysfs attribute file holds: its text without the final line break.
pub open spec fn sysfs_int(content: Seq<u8>) -> Option<int> {
    if content.len() == 0 {
        None
    } else {
        int_text(content.drop_last())
    }
}

pub open spec fn sysfs_i8(content: Seq<u8>) -> Option<i8> {
    match sysfs_int(content) {
        Some(v) => if i8::MIN <= v <= i8::MAX {
            Some(v as i8)
        } else {
            None
        },
        None => None,
    }
}

pub open spec fn sysfs_i32(content: Seq<u8>) -> Option<i32> {
    match sysfs_int(content) {
        Some(v) => if i32::MIN <= v <= i32::MAX {
            Some(v as i32)
        } else {
            None
        },
        None => None,
    }
}

proof fn lemma_bytes_value_prefix(w: Seq<u8>, i: int)
    requires
        0 <= i <= w.len(),
        forall|j: int| 0 <= j < w.len() ==> is_digit_byte(#[trigger] w[j]),
    ensures
        bytes_value(w.take(i)) <= bytes_value(w),
    decreases w.len() - i,
{
    if i < w.len() {
        lemma_bytes_value_prefix(w, i + 1);
        assert(w.take(i + 1).drop_last() =~= w.take(i));
    } else {
        assert(w.take(i) =~= w);
    }
}

/// The value of the digits `c[lo..hi]`, or `None` when it exceeds `2^31`.
fn digits_to_u64(c: &Vec<u8>, lo: usize, hi: usize) -> (r: Option<u64>)
    requires
        lo <= hi <= c.len(),
        digits_bytes(c@.subrange(lo as int, hi as int)),
    ensures
        match r {
            Some(v) => v == bytes_value(c@.subrange(lo as int, hi as int)) && v <= 0x8000_0000,
            None => bytes_value(c@.subrange(lo as int, hi as int)) > 0x8000_0000,
        },
{
    let ghost w = c@.subrange(lo as int, hi as int);
    let mut acc: u64 = 0;
    let mut k: usize = lo;
    while k < hi
        invariant
            lo <= k <= hi <= c.len(),
            w == c@.subrange(lo as int, hi as int),
            digits_bytes(w),
            acc == bytes_value(w.take(k - lo)),
            acc <= 0x8000_0000,
        decreases hi - k,
    {
        let b = c[k];
        let ghost j: int = k - lo;
        assert(w[j] == c@[k as int]);
        assert(is_digit_byte(w[j]));
        assert(b == w[j] && is_digit_byte(b));
        assert(w.take(k + 1 - lo).drop_last() =~= w.take(k - lo));
        acc = acc * 10 + (b - 0x30) as u64;
        if acc > 0x8000_0000 {
            proof {
                lemma_bytes_value_prefix(w, k + 1 - lo);
            }
            return None;
        }
        k = k + 1;
    }
    assert(w.take(hi - lo) =~= w);
    Some(acc)
}

fn all_digit_bytes(c: &Vec<u8>, lo: usize, hi: usize) -> (r: bool)
    requires
        lo <= hi <= c.len(),
    ensures
        r == digits_bytes(c@.subrange(lo as int, hi as int)),
{
    if lo == hi {
        return false;
    }
    let mut k: usize = lo;
    while k < hi
        invariant
            lo <= k <= hi <= c.len(),
            forall|j: int| lo <= j < k ==> is_digit_byte(#[trigger] c@[j]),
        decreases hi - k,
    {
        if !(0x30 <= c[k] && c[k] <= 0x39) {
            assert(!is_digit_byte(c@.subrange(lo as int, hi as int)[k - lo]));
            return false;
        }
        k = k + 1;
    }
    assert forall|j: int| 0 <= j < hi - lo implies is_digit_byte(
        #[trigger] c@.subrange(lo as int, hi as int)[j],
    ) by {
        assert(c@.subrange(lo as int, hi as int)[j] == c@[lo + j]);
    }
    true
}

/// The integer of a sysfs attribute file, when it lies within `-2^31 ..= 2^31`.
fn read_sysfs_int(content: &Vec<u8>) -> (r: Option<i64>)
    ensures
        match r {
            Some(v) => sysfs_int(content@) == Some(v as int),
            None => sysfs_int(content@) is None || sysfs_int(content@)->0 > 0x8000_0000
                || sysfs_int(content@)->0 < -0x8000_0000,
        },
{
    if content.len() == 0 {
        return None;
    }
    let end = content.len() - 1;
    let ghost w = content@.drop_last();
    assert(w =~= content@.subrange(0, end as int));
    if end > 0 && content[0] == 0x2d {
        assert(w.skip(1) =~= content@.subrange(1, end as int));
        assert(w[0] == 0x2d);
        if all_digit_bytes(content, 1, end) {
            return match digits_to_u64(content, 1, end) {
                Some(v) => Some(0 - (v as i64)),
                None => None,
            };
        }
    }
    if all_digit_bytes(content, 0, end) {
        return match digits_to_u64(content, 0, end) {
            Some(v) => Some(v as i64),
            None => None,
        };
    }
    proof {
        if w.len() > 0 && w[0] == 0x2d {
            assert(!is_digit_byte(w[0]));
        }
    }
    None
}

fn class_vec() -> (r: Vec<u8>)
    ensures
        r@ == ethernet_class(),
{
    vec![0x30u8, 0x78u8, 0x30u8, 0x32u8, 0x30u8, 0x30u8, 0x30u8, 0x30u8, 0x0au8]
}

/// Whether the class file of a PCI device marks an Ethernet controller.
pub fn is_ethernet_class(class: &Vec<u8>) -> (r: bool)
    ensures
        r == (class@ == ethernet_class()),
{
    let e = class_vec();
    if class.len() != e.len() {
        return false;
    }
    let mut k: usize = 0;
    while k < e.len()
        invariant
            class.len() == e.len(),
            e@ == ethernet_class(),
            k <= e.len(),
            forall|j: int| 0 <= j < k ==> class@[j] == e@[j],
        decreases e.len() - k,
    {
        if class[k] != e[k] {
            return false;
        }
        k = k + 1;
    }
    assert(class@ =~= e@);
    true
}

/// The entry that names the interface of a PCI device, and whether it was
/// found in the `net` directory: the first entry of its `net` directory, or
/// else of its `uio` directory. `None` stands for a directory that could not
/// be read.
pub fn pick_interface(net: Option<Vec<String>>, uio: Option<Vec<String>>) -> (r: Option<(String, bool)>)
    ensures
        r == (if net is Some && net->0@.len() > 0 {
            Some((net->0@[0], true))
        } else if uio is Some && uio->0@.len() > 0 {
            Some((uio->0@[0], false))
        } else {
            None
        }),
{
    match net {
        Some(mut v) => {
            if v.len() > 0 {
                return Some((v.remove(0), true));
            }
        },
        None => {},
    }
    match uio {
        Some(mut v) => {
            if v.len() > 0 {
                return Some((v.remove(0), false));
            }
        },
        None => {},
    }
    None
}

/// The device described by the files of one PCI device, as read: `numa_node`,
/// the name of the driver that the `driver` link points at, and the `ifindex`
/// of its interface. `None` stands for a file that could not be read.
pub open spec fn device_of(
    pci_id: String,
    name: String,
    numa_node: Option<Seq<u8>>,
    driver: Option<String>,
    ifindex: Option<Seq<u8>>,
) -> Option<EthernetDevice> {
    if numa_node is None || sysfs_i8(numa_node->0) is None || driver is None || ifindex is None
        || sysfs_i32(ifindex->0) is None {
        None
    } else {
        Some(
            EthernetDevice {
                name,
                index: sysfs_i32(ifindex->0)->0,
                driver: driver->0,
                pci_id,
                numa_node: sysfs_i8(numa_node->0)->0,
            },
        )
    }
}

pub open spec fn opt_bytes(o: Option<Vec<u8>>) -> Option<Seq<u8>> {
    match o {
        Some(v) => Some(v@),
        None => None,
    }
}

fn file_name(n: &str) -> (r: String)
    ensures
        r@ == n@,
{
    n.to_owned()
}

/// Describes a PCI device with an interface from its files; the first file that
/// is missing or malformed, in the order `numa_node`, `driver`, `ifindex`, is
/// the error.
pub fn eth_device_of(
    pci_id: String,
    name: String,
    numa_node: Option<Vec<u8>>,
    driver: Option<String>,
    ifindex: Option<Vec<u8>>,
) -> (r: Result<EthernetDevice, DeviceError>)
    ensures
        match device_of(pci_id, name, opt_bytes(numa_node), driver, opt_bytes(ifindex)) {
            Some(d) => r == Ok::<EthernetDevice, DeviceError>(d),
            None => r is Err,
        },
        numa_node is None ==> (r matches Err(DeviceError::Unreadable { pci_id: p, file: f }) && p
            == pci_id && f@ == "numa_node"@),
        numa_node matches Some(c) && sysfs_i8(c@) is None ==> (r matches Err(
            DeviceError::Malformed { pci_id: p, file: f },
        ) && p == pci_id && f@ == "numa_node"@),
        numa_node matches Some(c) && sysfs_i8(c@) is Some && driver is None ==> (r matches Err(
            DeviceError::Unreadable { pci_id: p, file: f },
        ) && p == pci_id && f@ == "driver"@),
        numa_node matches Some(c) && sysfs_i8(c@) is Some && driver is Some && ifindex is None ==> (
        r matches Err(DeviceError::Unreadable { pci_id: p, file: f }) && p == pci_id && f@
            == "ifindex"@),
        numa_node matches Some(c) && sysfs_i8(c@) is Some && driver is Some && (ifindex matches Some(
            x,
        ) && sysfs_i32(x@) is None) ==> (r matches Err(DeviceError::Malformed { pci_id: p, file: f })
            && p == pci_id && f@ == "ifindex"@),
{
    let numa = match numa_node {
        None => return Err(DeviceError::Unreadable { pci_id, file: file_name("numa_node") }),
        Some(c) => match read_sysfs_int(&c) {
            Some(v) => {
                if v < -128 || v > 127 {
                    return Err(DeviceError::Malformed { pci_id, file: file_name("numa_node") });
                }
                v as i8
            },
            None => return Err(DeviceError::Malformed { pci_id, file: file_name("numa_node") }),
        },
    };
    let driver = match driver {
        None => return Err(DeviceError::Unreadable { pci_id, file: file_name("driver") }),
        Some(d) => d,
    };
    let index = match ifindex {
        None => return Err(DeviceError::Unreadable { pci_id, file: file_name("ifindex") }),
        Some(c) => match read_sysfs_int(&c) {
            Some(v) => {
                if v < -2147483648 || v > 2147483647 {
                    return Err(DeviceError::Malformed { pci_id, file: file_name("ifindex") });
                }
                v as i32
            },
            None => return Err(DeviceError::Malformed { pci_id, file: file_name("ifindex") }),
        },
    };
    Ok(EthernetDevice { name, index, driver, pci_id, numa_node: numa })
}

/// Reading the files of a PCI device twice, while its interface and driver stay
/// bound, gives the same interface index and driver, whatever the NUMA node
/// file gave each time.
pub proof fn lemma_requery_same_device(
    pci_id: String,
    name: String,
    numa_first: Option<Seq<u8>>,
    numa_second: Option<Seq<u8>>,
    driver: Option<String>,
    ifindex: Option<Seq<u8>>,
)
    requires
        device_of(pci_id, name, numa_first, driver, ifindex) is Some,
        device_of(pci_id, name, numa_second, driver, ifindex) is Some,
    ensures
        device_of(pci_id, name, numa_first, driver, ifindex)->0.index == device_of(
            pci_id,
            name,
            numa_second,
            driver,
            ifindex,
        )->0.index,
        device_of(pci_id, name, numa_first, driver, ifindex)->0.driver == device_of(
            pci_id,
            name,
            numa_second,
            driver,
            ifindex,
        )->0.driver,
        numa_first == numa_second ==> device_of(pci_id, name, numa_first, driver, ifindex)
            == device_of(pci_id, name, numa_second, driver, ifindex),
{
}

} // verus!
