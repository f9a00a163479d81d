//! Selection of the LED device node among enumerated HID raw devices.
//!
//! The caller enumerates the HID raw subsystem and hands over, for each
//! device, the parent USB device's product id and the device node if one
//! exists.  The selector walks the known product ids in order and picks
//! the first device of the first id that matches and has a node.

use vstd::prelude::*;

use crate::error::RogError;

verus! {

/// One enumerated HID raw device: its parent's USB product id and its
/// device node, if it has one.
pub struct HidRawInfo {
    pub id_product: Vec<u8>,
    pub devnode: Option<String>,
}

/// A device is usable for `prod` when the product id matches and a
/// device node exists.
pub open spec fn spec_match_dev(d: HidRawInfo, prod: Seq<u8>) -> bool {
    d.id_product@ == prod && d.devnode is Some
}

/// The first device from `from` on that is usable for `prod`.
pub open spec fn spec_first_dev(prod: Seq<u8>, devices: Seq<HidRawInfo>, from: int) -> Option<
    int,
>
    decreases devices.len() - from,
{
    if from < 0 || from >= devices.len() {
        None
    } else if spec_match_dev(devices[from], prod) {
        Some(from)
    } else {
        spec_first_dev(prod, devices, from + 1)
    }
}

/// The first (product, device) pair that matches, walking the product
/// ids in order from `pi`.
pub open spec fn spec_find_node(
    products: Seq<Vec<u8>>,
    devices: Seq<HidRawInfo>,
    pi: int,
) -> Option<(int, int)>
    decreases products.len() - pi,
{
    if pi < 0 || pi >= products.len() {
        None
    } else {
        match spec_first_dev(products[pi]@, devices, 0) {
            Some(di) => Some((pi, di)),
            None => spec_find_node(products, devices, pi + 1),
        }
    }
}

/// Whether two byte strings hold the same bytes.
fn eq_bytes(a: &Vec<u8>, b: &Vec<u8>) -> (r: bool)
    ensures
        r == (a@ == b@),
{
    if a.len() != b.len() {
        return false;
    }
    let mut i: usize = 0;
    while i < a.len()
        invariant
            a@.len() == b@.len(),
            i <= a@.len(),
            forall|j: int| 0 <= j < i ==> a@[j] == b@[j],
        decreases a@.len() - i,
    {
        if a[i] != b[i] {
            return false;
        }
        i = i + 1;
    }
    proof {
        assert(a@ =~= b@);
    }
    true
}

/// The USB product ids of the keyboards this controller drives, in the
/// order they are probed.
pub fn asus_keyboard_products() -> (r: Vec<Vec<u8>>)
    ensures
        r@.len() == 4,
        r@[0]@ == seq!['1' as u8, '8' as u8, '6' as u8, '6' as u8],
        r@[1]@ == seq!['1' as u8, '9' as u8, 'b' as u8, '6' as u8],
        r@[2]@ == seq!['1' as u8, '8' as u8, '5' as u8, '4' as u8],
        r@[3]@ == seq!['1' as u8, '8' as u8, '6' as u8, '9' as u8],
{
    let mut r: Vec<Vec<u8>> = Vec::new();
    let mut a: Vec<u8> = Vec::new();
    a.push('1' as u8);
    a.push('8' as u8);
    a.push('6' as u8);
    a.push('6' as u8);
    proof {
        assert(a@ =~= seq!['1' as u8, '8' as u8, '6' as u8, '6' as u8]);
    }
    r.push(a);
    let mut b: Vec<u8> = Vec::new();
    b.push('1' as u8);
    b.push('9' as u8);
    b.push('b' as u8);
    b.push('6' as u8);
    proof {
        assert(b@ =~= seq!['1' as u8, '9' as u8, 'b' as u8, '6' as u8]);
    }
    r.push(b);
    let mut c: Vec<u8> = Vec::new();
    c.push('1' as u8);
    c.push('8' as u8);
    c.push('5' as u8);
    c.push('4' as u8);
    proof {
        assert(c@ =~= seq!['1' as u8, '8' as u8, '5' as u8, '4' as u8]);
    }
    r.push(c);
    let mut d: Vec<u8> = Vec::new();
    d.push('1' as u8);
    d.push('8' as u8);
    d.push('6' as u8);
    d.push('9' as u8);
    proof {
        assert(d@ =~= seq!['1' as u8, '8' as u8, '6' as u8, '9' as u8]);
    }
    r.push(d);
    r
}

/// The first usable device for `prod`, scanning in enumeration order.
fn first_dev(prod: &Vec<u8>, devices: &Vec<HidRawInfo>) -> (r: Option<usize>)
    ensures
        match r {
            Some(d) => d < devices@.len() && spec_first_dev(prod@, devices@, 0) == Some(
                d as int,
            ) && devices@[d as int].devnode is Some,
            None => spec_first_dev(prod@, devices@, 0) is None,
        },
{
    let mut di: usize = 0;
    while di < devices.len()
        invariant
            di <= devices@.len(),
            spec_first_dev(prod@, devices@, 0) == spec_first_dev(prod@, devices@, di as int),
        decreases devices@.len() - di,
    {
        let dev = &devices[di];
        if eq_bytes(&dev.id_product, prod) && dev.devnode.is_some() {
            return Some(di);
        }
        di = di + 1;
    }
    None
}

/// Picks the device to use for LED control: the first usable device of
/// the first product id that has one.  Reports a missing capability
/// when nothing matches.
pub fn find_led_node(products: &Vec<Vec<u8>>, devices: &Vec<HidRawInfo>) -> (r: Result<
    usize,
    RogError,
>)
    ensures
        match r {
            Ok(di) => {
                &&& spec_find_node(products@, devices@, 0) is Some
                &&& spec_find_node(products@, devices@, 0).unwrap().1 == di as int
                &&& di < devices@.len()
                &&& devices@[di as int].devnode is Some
            },
            Err(e) => spec_find_node(products@, devices@, 0) is None && e is MissingFunction,
        },
{
    let mut pi: usize = 0;
    while pi < products.len()
        invariant
            pi <= products@.len(),
            spec_find_node(products@, devices@, 0) == spec_find_node(
                products@,
                devices@,
                pi as int,
            ),
        decreases products@.len() - pi,
    {
        match first_dev(&products[pi], devices) {
            Some(d) => {
                return Ok(d);
            },
            None => {},
        }
        pi = pi + 1;
    }
    Err(RogError::MissingFunction("keyboard LED device node not found".to_owned()))
}

} // verus!
