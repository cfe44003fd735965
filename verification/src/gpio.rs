//! The GPIO output helper of the ROM: which write-1-to-set / write-1-to-clear
//! registers get which mask.

use vstd::prelude::*;

verus! {

/// Setting a bit here drives the matching output high.
pub const GPIO_OUT_W1TS: u32 = 0x6000_0304;
/// Setting a bit here drives the matching output low.
pub const GPIO_OUT_W1TC: u32 = 0x6000_0308;
/// Setting a bit here enables the matching output.
pub const GPIO_ENABLE_W1TS: u32 = 0x6000_0310;
/// Setting a bit here disables the matching output.
pub const GPIO_ENABLE_W1TC: u32 = 0x6000_0314;

/// One 32-bit write to a memory-mapped register.
#[derive(Clone, Copy, Debug, PartialEq, Eq, Structural)]
pub struct RegisterWrite {
    pub addr: u32,
    pub value: u32,
}

/// The write of `value` to `addr`, left out when `value` is 0.
pub open spec fn write_nonzero(addr: u32, value: u32) -> Seq<RegisterWrite> {
    if value != 0 {
        seq![RegisterWrite { addr, value }]
    } else {
        Seq::empty()
    }
}

/// The register writes of `gpio_output_set`, in the order they are made.
pub open spec fn gpio_writes(set_mask: u32, clear_mask: u32, enable_mask: u32, disable_mask: u32) -> Seq<RegisterWrite> {
    write_nonzero(GPIO_OUT_W1TS, set_mask) + write_nonzero(GPIO_OUT_W1TC, clear_mask)
        + write_nonzero(GPIO_ENABLE_W1TS, enable_mask) + write_nonzero(GPIO_ENABLE_W1TC, disable_mask)
}

fn push_nonzero(writes: &mut Vec<RegisterWrite>, addr: u32, value: u32)
    ensures
        final(writes)@ == old(writes)@ + write_nonzero(addr, value),
{
    if value != 0 {
        writes.push(RegisterWrite { addr, value });
    }
    proof {
        assert(writes@ =~= old(writes)@ + write_nonzero(addr, value));
    }
}

/// The writes that set, clear, enable and disable GPIO outputs: each nonzero
/// mask goes to its register, in that order, and a zero mask is not written.
pub fn gpio_output_set(set_mask: u32, clear_mask: u32, enable_mask: u32, disable_mask: u32) -> (r: Vec<RegisterWrite>)
    ensures
        r@ == gpio_writes(set_mask, clear_mask, enable_mask, disable_mask),
        disable_mask != 0 ==> r@.last() == (RegisterWrite { addr: 0x6000_0314, value: disable_mask }),
        set_mask != 0 ==> r@[0] == (RegisterWrite { addr: 0x6000_0304, value: set_mask }),
        (r@.contains(RegisterWrite { addr: 0x6000_0308, value: clear_mask }) <==> clear_mask != 0),
        (r@.contains(RegisterWrite { addr: 0x6000_0310, value: enable_mask }) <==> enable_mask != 0),
        (r@.contains(RegisterWrite { addr: 0x6000_0314, value: disable_mask }) <==> disable_mask != 0),
{
    let mut writes: Vec<RegisterWrite> = Vec::new();
    push_nonzero(&mut writes, GPIO_OUT_W1TS, set_mask);
    push_nonzero(&mut writes, GPIO_OUT_W1TC, clear_mask);
    push_nonzero(&mut writes, GPIO_ENABLE_W1TS, enable_mask);
    push_nonzero(&mut writes, GPIO_ENABLE_W1TC, disable_mask);
    proof {
        assert(writes@ =~= gpio_writes(set_mask, clear_mask, enable_mask, disable_mask));
        lemma_gpio_each_mask_alone(set_mask, clear_mask, enable_mask, disable_mask);
    }
    writes
}

/// Each mask is written, with its own value, to its own register exactly
/// when it is nonzero, whatever the other masks are; the writes come in the
/// order set, clear, enable, disable, so a nonzero set mask is written first
/// and a nonzero disable mask last.
pub proof fn lemma_gpio_each_mask_alone(set_mask: u32, clear_mask: u32, enable_mask: u32, disable_mask: u32)
    ensures
        ({
            let w = gpio_writes(set_mask, clear_mask, enable_mask, disable_mask);
            &&& w.len() == (if set_mask != 0 { 1int } else { 0 }) + (if clear_mask != 0 { 1int } else { 0 })
                + (if enable_mask != 0 { 1int } else { 0 }) + (if disable_mask != 0 { 1int } else { 0 })
            &&& set_mask != 0 ==> w[0] == RegisterWrite { addr: 0x6000_0304, value: set_mask }
            &&& disable_mask != 0 ==> w[w.len() - 1] == RegisterWrite { addr: 0x6000_0314, value: disable_mask }
            &&& (w.contains(RegisterWrite { addr: 0x6000_0304, value: set_mask }) <==> set_mask != 0)
            &&& (w.contains(RegisterWrite { addr: 0x6000_0308, value: clear_mask }) <==> clear_mask != 0)
            &&& (w.contains(RegisterWrite { addr: 0x6000_0310, value: enable_mask }) <==> enable_mask != 0)
            &&& (w.contains(RegisterWrite { addr: 0x6000_0314, value: disable_mask }) <==> disable_mask != 0)
            &&& forall|k: int| 0 <= k < w.len() ==> #[trigger] w[k].value != 0
        }),
{
    let a = write_nonzero(GPIO_OUT_W1TS, set_mask);
    let b = write_nonzero(GPIO_OUT_W1TC, clear_mask);
    let c = write_nonzero(GPIO_ENABLE_W1TS, enable_mask);
    let d = write_nonzero(GPIO_ENABLE_W1TC, disable_mask);
    let w = gpio_writes(set_mask, clear_mask, enable_mask, disable_mask);
    assert(w == a + b + c + d);
    let wa = RegisterWrite { addr: 0x6000_0304, value: set_mask };
    let wb = RegisterWrite { addr: 0x6000_0308, value: clear_mask };
    let wc = RegisterWrite { addr: 0x6000_0310, value: enable_mask };
    let wd = RegisterWrite { addr: 0x6000_0314, value: disable_mask };
    assert forall|k: int| 0 <= k < w.len() implies #[trigger] w[k].value != 0 && (w[k].addr == 0x6000_0304 ==> w[k] == wa)
        && (w[k].addr == 0x6000_0308 ==> w[k] == wb) && (w[k].addr == 0x6000_0310 ==> w[k] == wc)
        && (w[k].addr == 0x6000_0314 ==> w[k] == wd) by {
        if k < a.len() {
            assert(w[k] == a[k]);
        } else if k < a.len() + b.len() {
            assert(w[k] == b[k - a.len()]);
        } else if k < a.len() + b.len() + c.len() {
            assert(w[k] == c[k - a.len() - b.len()]);
        } else {
            assert(w[k] == d[k - a.len() - b.len() - c.len()]);
        }
    }
    if set_mask != 0 {
        assert(w[0] == wa);
    }
    if clear_mask != 0 {
        assert(w[a.len() as int] == wb);
    }
    if enable_mask != 0 {
        assert(w[(a.len() + b.len()) as int] == wc);
    }
    if disable_mask != 0 {
        assert(w[w.len() - 1] == wd);
    }
}

} // verus!
