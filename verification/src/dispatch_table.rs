//! The dispatch table: one byte for every half-word between the lowest and the highest
//! block address, which holds the dense index of the block that starts there.

use crate::ir::{addresses, WasmModule};
use vstd::prelude::*;

verus! {

/// Dispatch table metadata computed from block addresses. Generated code finds the case
/// of a program counter `pc` at `data[(pc - min_addr) / 2]`.
#[derive(Clone, Debug, PartialEq, Eq)]
pub struct DispatchTable {
    /// The lowest block address, cut to 32 bits.
    pub min_addr: u32,
    /// The slots: the dense index of the block at a slot, cut to a byte, or the sentinel
    /// where no block starts.
    pub data: Vec<u8>,
    /// The number of block functions.
    pub num_functions: u32,
}

/// An address as generated code sees it: cut to 32 bits.
pub open spec fn low32(addr: u64) -> u32 {
    (addr % 0x1_0000_0000) as u32
}

/// The lowest of a list of addresses, and 0 for the empty list.
pub open spec fn lowest(addrs: Seq<u64>) -> u64
    decreases addrs.len(),
{
    if addrs.len() == 0 {
        0
    } else if addrs.len() == 1 {
        addrs[0]
    } else if addrs.last() < lowest(addrs.drop_last()) {
        addrs.last()
    } else {
        lowest(addrs.drop_last())
    }
}

/// The highest of a list of addresses, and 0 for the empty list.
pub open spec fn highest(addrs: Seq<u64>) -> u64
    decreases addrs.len(),
{
    if addrs.len() == 0 {
        0
    } else if addrs.len() == 1 {
        addrs[0]
    } else if addrs.last() > highest(addrs.drop_last()) {
        addrs.last()
    } else {
        highest(addrs.drop_last())
    }
}

/// The address of slot 0.
pub open spec fn base(addrs: Seq<u64>) -> u32 {
    low32(lowest(addrs))
}

/// Whether every address has a slot at or after slot 0: cut to 32 bits, none lies below
/// the lowest.
pub open spec fn in_window(addrs: Seq<u64>) -> bool {
    forall|i: int| 0 <= i < addrs.len() ==> low32(#[trigger] addrs[i]) >= base(addrs)
}

/// The number of slots.
pub open spec fn table_len(addrs: Seq<u64>) -> nat {
    if addrs.len() == 0 {
        0
    } else {
        ((low32(highest(addrs)) - base(addrs)) / 2 + 1) as nat
    }
}

/// The slot of the `i`-th address.
pub open spec fn slot(addrs: Seq<u64>, i: int) -> int {
    (low32(addrs[i]) - base(addrs)) / 2
}

/// The value of a slot at which no block starts: the number of blocks, which is the
/// index of no block, as long as a byte can hold it. From 256 blocks on the byte 255 is
/// also the index of block 255, and the table no longer tells the two apart.
pub open spec fn sentinel(count: nat) -> u8 {
    if count < 255 {
        count as u8
    } else {
        255
    }
}

/// Among the first `k` blocks, the one that holds slot `s`: of those that fall on the
/// slot, the one with the highest address, and the later one of two with equal addresses.
pub open spec fn holder(addrs: Seq<u64>, s: int, k: nat) -> Option<int>
    decreases k,
{
    if k == 0 {
        None
    } else {
        let before = holder(addrs, s, (k - 1) as nat);
        if slot(addrs, k - 1) == s && (before is None || addrs[before.unwrap()] <= addrs[k - 1]) {
            Some(k - 1)
        } else {
            before
        }
    }
}

/// The byte of a slot, given who holds it: the dense index of the block, cut to a byte.
/// Only the first 256 blocks have an index that the byte holds whole.
pub open spec fn entry_of(holder: Option<int>, count: nat) -> u8 {
    match holder {
        Some(index) => (index % 256) as u8,
        None => sentinel(count),
    }
}

/// The slots of the table for a list of block addresses.
pub open spec fn entries(addrs: Seq<u64>) -> Seq<u8> {
    Seq::new(table_len(addrs), |s: int| entry_of(holder(addrs, s, addrs.len()), addrs.len()))
}

/// Whether block `i` comes at or before block `j` when the blocks are ordered by
/// address and blocks with equal addresses keep their order.
pub open spec fn comes_before(addrs: Seq<u64>, i: int, j: int) -> bool {
    addrs[i] < addrs[j] || (addrs[i] == addrs[j] && i <= j)
}

/// The lowest address is one of the addresses and none is lower; likewise the highest.
pub proof fn lemma_bounds(addrs: Seq<u64>)
    requires
        addrs.len() > 0,
    ensures
        exists|i: int| 0 <= i < addrs.len() && addrs[i] == lowest(addrs),
        exists|i: int| 0 <= i < addrs.len() && addrs[i] == highest(addrs),
        forall|i: int| 0 <= i < addrs.len() ==> lowest(addrs) <= #[trigger] addrs[i] <= highest(addrs),
    decreases addrs.len(),
{
    if addrs.len() == 1 {
        assert(addrs[0] == lowest(addrs));
        assert(addrs[0] == highest(addrs));
    } else {
        let rest = addrs.drop_last();
        lemma_bounds(rest);
        let lo = choose|i: int| 0 <= i < rest.len() && rest[i] == lowest(rest);
        let hi = choose|i: int| 0 <= i < rest.len() && rest[i] == highest(rest);
        let last = addrs.len() - 1;
        assert(addrs[lo] == rest[lo]);
        assert(addrs[hi] == rest[hi]);
        assert(addrs[if addrs.last() < lowest(rest) { last } else { lo }] == lowest(addrs));
        assert(addrs[if addrs.last() > highest(rest) { last } else { hi }] == highest(addrs));
        assert forall|i: int| 0 <= i < addrs.len() implies lowest(addrs) <= #[trigger] addrs[i]
            <= highest(addrs) by {
            if i < last {
                assert(addrs[i] == rest[i]);
            }
        }
    }
}

/// What `holder` finds among the first `k` blocks: a block on the slot that every other
/// block on the slot comes before, or nothing where no block falls on the slot.
pub proof fn lemma_holder(addrs: Seq<u64>, s: int, k: nat)
    requires
        k <= addrs.len(),
    ensures
        match holder(addrs, s, k) {
            Some(i) => 0 <= i < k && slot(addrs, i) == s && forall|j: int|
                0 <= j < k && slot(addrs, j) == s ==> comes_before(addrs, j, i),
            None => forall|j: int| 0 <= j < k ==> slot(addrs, j) != s,
        },
    decreases k,
{
    if k > 0 {
        lemma_holder(addrs, s, (k - 1) as nat);
    }
}

/// Whether no two blocks have the same address.
pub open spec fn distinct(addrs: Seq<u64>) -> bool {
    forall|i: int, j: int| 0 <= i < j < addrs.len() ==> addrs[i] != addrs[j]
}

/// Whether every address is 2-byte aligned.
pub open spec fn aligned(addrs: Seq<u64>) -> bool {
    forall|i: int| 0 <= i < addrs.len() ==> #[trigger] addrs[i] % 2 == 0
}

/// Whether every address fits in 32 bits, so that generated code sees it whole.
pub open spec fn fits32(addrs: Seq<u64>) -> bool {
    forall|i: int| 0 <= i < addrs.len() ==> #[trigger] addrs[i] <= u32::MAX
}

/// Every slot of the table is decided by the blocks that fall on it. Where some do, the
/// slot holds the index, cut to a byte, of the one that all others on the slot come
/// before; where none does, it holds the sentinel.
pub proof fn law_slot_holder(addrs: Seq<u64>, s: int)
    requires
        0 <= s < table_len(addrs),
    ensures
        entries(addrs).len() == table_len(addrs),
        forall|i: int|
            0 <= i < addrs.len() && slot(addrs, i) == s && (forall|j: int|
                0 <= j < addrs.len() && slot(addrs, j) == s ==> comes_before(addrs, j, i))
                ==> entries(addrs)[s] == (i % 256) as u8,
        (forall|j: int| 0 <= j < addrs.len() ==> slot(addrs, j) != s) ==> entries(addrs)[s]
            == sentinel(addrs.len()),
{
    lemma_holder(addrs, s, addrs.len());
    assert forall|i: int|
        0 <= i < addrs.len() && slot(addrs, i) == s && (forall|j: int|
            0 <= j < addrs.len() && slot(addrs, j) == s ==> comes_before(
                addrs,
                j,
                i,
            )) implies entries(addrs)[s] == (i % 256) as u8 by {
        let h = holder(addrs, s, addrs.len()).unwrap();
        assert(comes_before(addrs, h, i));
        assert(comes_before(addrs, i, h));
    }
}

/// Two even numbers on the same half-word are the same number.
proof fn lemma_same_slot(a: int, b: int, lo: int)
    requires
        a % 2 == 0,
        b % 2 == 0,
        lo % 2 == 0,
        lo <= a,
        lo <= b,
        (a - lo) / 2 == (b - lo) / 2,
    ensures
        a == b,
{
}

/// The slot of an address that fits in 32 bits, when all addresses do.
proof fn lemma_slot_fits32(addrs: Seq<u64>, i: int)
    requires
        fits32(addrs),
        0 <= i < addrs.len(),
    ensures
        base(addrs) == lowest(addrs),
        low32(addrs[i]) == addrs[i],
        low32(highest(addrs)) == highest(addrs),
        lowest(addrs) <= addrs[i] <= highest(addrs),
        slot(addrs, i) == (addrs[i] - lowest(addrs)) / 2,
        0 <= slot(addrs, i) < table_len(addrs),
        table_len(addrs) == (highest(addrs) - lowest(addrs)) / 2 + 1,
{
    lemma_bounds(addrs);
    let lo = choose|j: int| 0 <= j < addrs.len() && addrs[j] == lowest(addrs);
    let hi = choose|j: int| 0 <= j < addrs.len() && addrs[j] == highest(addrs);
    assert(addrs[lo] <= u32::MAX);
    assert(addrs[hi] <= u32::MAX);
    assert(addrs[i] <= u32::MAX);
}

/// For distinct, 2-byte-aligned block addresses that fit in 32 bits, at most 256 of
/// them: the table spans the half-words from the lowest address to the highest, and the
/// slot of every block address holds exactly the dense index of its block.
pub proof fn law_known_addresses(addrs: Seq<u64>)
    requires
        0 < addrs.len() <= 256,
        distinct(addrs),
        aligned(addrs),
        fits32(addrs),
    ensures
        in_window(addrs),
        base(addrs) == lowest(addrs),
        entries(addrs).len() == (highest(addrs) - lowest(addrs)) / 2 + 1,
        forall|i: int|
            0 <= i < addrs.len() ==> {
                &&& 0 <= (#[trigger] addrs[i] - lowest(addrs)) / 2 < entries(addrs).len()
                &&& entries(addrs)[(addrs[i] - lowest(addrs)) / 2] == i
            },
{
    lemma_slot_fits32(addrs, 0);
    assert forall|i: int| 0 <= i < addrs.len() implies low32(#[trigger] addrs[i]) >= base(
        addrs,
    ) by {
        lemma_slot_fits32(addrs, i);
    }
    assert forall|i: int| 0 <= i < addrs.len() implies {
        &&& 0 <= (#[trigger] addrs[i] - lowest(addrs)) / 2 < entries(addrs).len()
        &&& entries(addrs)[(addrs[i] - lowest(addrs)) / 2] == i
    } by {
        lemma_known_address(addrs, i);
    }
}

/// The slot of the address of block `i` holds `i`.
proof fn lemma_known_address(addrs: Seq<u64>, i: int)
    requires
        0 < addrs.len() <= 256,
        distinct(addrs),
        aligned(addrs),
        fits32(addrs),
        0 <= i < addrs.len(),
    ensures
        0 <= (addrs[i] - lowest(addrs)) / 2 < entries(addrs).len(),
        entries(addrs)[(addrs[i] - lowest(addrs)) / 2] == i,
{
    let s = slot(addrs, i);
    lemma_slot_fits32(addrs, i);
    lemma_holder(addrs, s, addrs.len());
    let h = holder(addrs, s, addrs.len()).unwrap();
    lemma_slot_fits32(addrs, h);
    lemma_bounds(addrs);
    let lo = choose|j: int| 0 <= j < addrs.len() && addrs[j] == lowest(addrs);
    assert(addrs[lo] % 2 == 0);
    assert(addrs[h] % 2 == 0);
    assert(addrs[i] % 2 == 0);
    lemma_same_slot(addrs[h] as int, addrs[i] as int, lowest(addrs) as int);
    assert(h == i);
    assert(entries(addrs)[s] == entry_of(Some(h), addrs.len()));
}

/// For block addresses that fit in 32 bits: a slot that stands for no block address
/// holds the sentinel. With at most 255 blocks the sentinel is the number of blocks, so
/// it is the index of no block.
pub proof fn law_unknown_slots(addrs: Seq<u64>, s: int)
    requires
        fits32(addrs),
        0 <= s < entries(addrs).len(),
        forall|i: int| 0 <= i < addrs.len() ==> (#[trigger] addrs[i] - lowest(addrs)) / 2 != s,
    ensures
        entries(addrs)[s] == sentinel(addrs.len()),
        addrs.len() <= 255 ==> sentinel(addrs.len()) == addrs.len(),
{
    lemma_bounds(addrs);
    lemma_holder(addrs, s, addrs.len());
    if holder(addrs, s, addrs.len()) is Some {
        let h = holder(addrs, s, addrs.len()).unwrap();
        assert((addrs[h] - lowest(addrs)) / 2 != s);
    }
}

/// Build the dispatch table mapping a program counter to a dense function index.
///
/// Block addresses are 2-byte aligned, so the table has one byte for every second
/// address from the lowest block address to the highest. The result is what writing
/// the blocks in the order of their addresses leaves: where several blocks fall on one
/// slot, the last of them in that order holds it.
pub fn build_dispatch_table(module: &WasmModule) -> (table: DispatchTable)
    requires
        module.functions.len() <= u32::MAX,
        in_window(addresses(module.functions@)),
    ensures
        table.num_functions == module.functions.len(),
        table.min_addr == base(addresses(module.functions@)),
        table.data@ == entries(addresses(module.functions@)),
{
    let n = module.functions.len();
    let ghost addrs = addresses(module.functions@);
    if n == 0 {
        let data: Vec<u8> = Vec::new();
        assert(data@ == entries(addrs));
        return DispatchTable { min_addr: 0, data, num_functions: 0 };
    }
    let mut lo: u64 = module.functions[0].block_addr;
    let mut hi: u64 = lo;
    let mut i: usize = 1;
    assert(addrs.take(1).len() == 1 && addrs.take(1)[0] == addrs[0]);
    while i < n
        invariant
            1 <= i <= n,
            n == module.functions.len(),
            addrs == addresses(module.functions@),
            lo == lowest(addrs.take(i as int)),
            hi == highest(addrs.take(i as int)),
        decreases n - i,
    {
        let addr = module.functions[i].block_addr;
        proof {
            assert(addrs.take(i + 1).drop_last() == addrs.take(i as int));
            assert(addrs.take(i + 1).last() == addr);
        }
        if addr < lo {
            lo = addr;
        }
        if addr > hi {
            hi = addr;
        }
        i = i + 1;
    }
    proof {
        assert(addrs.take(n as int) == addrs);
        lemma_bounds(addrs);
    }
    let min_addr: u32 = (lo % 0x1_0000_0000) as u32;
    let max_addr: u32 = (hi % 0x1_0000_0000) as u32;
    let table_size: usize = ((max_addr - min_addr) / 2 + 1) as usize;
    let default_idx: u8 = if n < 255 {
        n as u8
    } else {
        255
    };

    // `holders[s]` is the block that holds slot `s` so far, and `n` while none does.
    let mut data: Vec<u8> = Vec::new();
    let mut holders: Vec<usize> = Vec::new();
    while data.len() < table_size
        invariant
            data.len() == holders.len(),
            data.len() <= table_size,
            forall|s: int| 0 <= s < data.len() ==> data[s] == default_idx && holders[s] == n,
        decreases table_size - data.len(),
    {
        data.push(default_idx);
        holders.push(n);
    }

    let mut i: usize = 0;
    while i < n
        invariant
            i <= n,
            n == module.functions.len(),
            n <= u32::MAX,
            addrs == addresses(module.functions@),
            in_window(addrs),
            min_addr == base(addrs),
            default_idx == sentinel(n as nat),
            data.len() == table_size,
            holders.len() == table_size,
            table_size == table_len(addrs),
            forall|s: int|
                0 <= s < table_size ==> #[trigger] data[s] == entry_of(
                    holder(addrs, s, i as nat),
                    n as nat,
                ),
            forall|s: int|
                0 <= s < table_size ==> #[trigger] holders[s] == (match holder(addrs, s, i as nat) {
                    Some(index) => index,
                    None => n as int,
                }),
        decreases n - i,
    {
        let addr = module.functions[i].block_addr;
        assert(addr == addrs[i as int]);
        let slot: usize = ((((addr % 0x1_0000_0000) as u32) - min_addr) / 2) as usize;
        proof {
            lemma_holder(addrs, slot as int, i as nat);
        }
        if slot < data.len() {
            let held = holders[slot];
            if held == n || module.functions[held].block_addr <= addr {
                holders.set(slot, i);
                data.set(slot, (i % 256) as u8);
            }
        }
        i = i + 1;
    }
    DispatchTable { min_addr, data, num_functions: n as u32 }
}

/// Checks whether every block address has a slot at or after slot 0.
pub fn addresses_in_window(module: &WasmModule) -> (ok: bool)
    ensures
        ok == in_window(addresses(module.functions@)),
{
    let n = module.functions.len();
    let ghost addrs = addresses(module.functions@);
    if n == 0 {
        return true;
    }
    let mut lo: u64 = module.functions[0].block_addr;
    let mut i: usize = 1;
    assert(addrs.take(1).len() == 1 && addrs.take(1)[0] == addrs[0]);
    while i < n
        invariant
            1 <= i <= n,
            n == module.functions.len(),
            addrs == addresses(module.functions@),
            lo == lowest(addrs.take(i as int)),
        decreases n - i,
    {
        let addr = module.functions[i].block_addr;
        proof {
            assert(addrs.take(i + 1).drop_last() == addrs.take(i as int));
            assert(addrs.take(i + 1).last() == addr);
        }
        if addr < lo {
            lo = addr;
        }
        i = i + 1;
    }
    assert(addrs.take(n as int) == addrs);
    let min_addr: u32 = (lo % 0x1_0000_0000) as u32;
    let mut i: usize = 0;
    while i < n
        invariant
            i <= n,
            n == module.functions.len(),
            addrs == addresses(module.functions@),
            min_addr == base(addrs),
            forall|j: int| 0 <= j < i ==> low32(#[trigger] addrs[j]) >= min_addr,
        decreases n - i,
    {
        let addr = module.functions[i].block_addr;
        assert(addr == addrs[i as int]);
        if ((addr % 0x1_0000_0000) as u32) < min_addr {
            return false;
        }
        i = i + 1;
    }
    true
}

} // verus!
