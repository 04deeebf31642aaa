//! A simulated SDIO bus device with byte-addressed memory, a failure
//! injector and a transaction record.
use vstd::prelude::*;
use std::collections::HashMap;

verus! {

broadcast use vstd::std_specs::hash::group_hash_axioms;

/// SDIO errors.
#[derive(Debug, Clone, Copy, PartialEq, Eq, Structural)]
pub enum SdioError {
    InvalidAddress,
    InvalidLength,
    NotInitialized,
    TransferError,
    Timeout,
}

/// Result of an SDIO operation.
pub type SdioResult<T> = Result<T, SdioError>;

/// One recorded bus transaction.
#[derive(Debug, Clone)]
pub struct SdioTransaction {
    pub address: u32,
    pub data: Vec<u8>,
    pub is_write: bool,
    pub timestamp: u64,
}

/// Address of the byte `i` places after `base`, wrapping at 2^32.
pub open spec fn addr_at(base: u32, i: int) -> u32 {
    ((base as int + i) % 0x1_0000_0000) as u32
}

/// Byte at `address`: unwritten memory reads 0.
pub open spec fn byte_at(mem: Map<u32, u8>, address: u32) -> u8 {
    if mem.contains_key(address) {
        mem[address]
    } else {
        0
    }
}

/// Memory after writing `data` byte by byte from `base` upward.
pub open spec fn write_bytes(mem: Map<u32, u8>, base: u32, data: Seq<u8>) -> Map<u32, u8>
    decreases data.len(),
{
    if data.len() == 0 {
        mem
    } else {
        write_bytes(mem, base, data.drop_last()).insert(addr_at(base, data.len() - 1), data.last())
    }
}

/// The `length` bytes from `base` upward.
pub open spec fn read_bytes(mem: Map<u32, u8>, base: u32, length: nat) -> Seq<u8> {
    Seq::new(length, |i: int| byte_at(mem, addr_at(base, i)))
}

/// Block `k` of `data` in blocks of `bs` bytes (the last one may be short).
pub open spec fn block_of(data: Seq<u8>, bs: int, k: int) -> Seq<u8> {
    data.subrange(k * bs, if (k + 1) * bs <= data.len() { (k + 1) * bs } else { data.len() as int })
}

/// Transaction `t` wrote block `k` of `data` at its place from `base`.
pub open spec fn writes_block(t: SdioTransaction, base: u32, data: Seq<u8>, bs: int, k: int) -> bool {
    t.is_write && t.address == addr_at(base, k * bs) && t.data@ == block_of(data, bs, k)
}

/// Number of blocks of `block_size` bytes that hold `len` bytes.
pub open spec fn block_count(len: nat, block_size: nat) -> nat {
    if block_size == 0 {
        0
    } else {
        ((len + block_size - 1) / block_size as int) as nat
    }
}

proof fn lemma_addr_step(base: u32, i: int)
    requires
        0 <= i,
    ensures
        addr_at(base, i + 1) == (if addr_at(base, i) == 0xFFFF_FFFF {
            0u32
        } else {
            (addr_at(base, i) + 1) as u32
        }),
{
    let s = base as int + i;
    assert((s + 1) % 0x1_0000_0000 == (if s % 0x1_0000_0000 == 0xFFFF_FFFF {
        0
    } else {
        s % 0x1_0000_0000 + 1
    })) by (nonlinear_arith)
        requires
            s >= 0,
    ;
}

proof fn lemma_addr_compose(base: u32, a: int, b: int)
    requires
        0 <= a,
        0 <= b,
    ensures
        addr_at(addr_at(base, a), b) == addr_at(base, a + b),
{
    let s = base as int + a;
    assert(((s % 0x1_0000_0000) + b) % 0x1_0000_0000 == (s + b) % 0x1_0000_0000) by (nonlinear_arith)
        requires
            s >= 0,
            b >= 0,
    ;
}

proof fn lemma_write_bytes_append(mem: Map<u32, u8>, base: u32, a: Seq<u8>, b: Seq<u8>)
    ensures
        write_bytes(mem, base, a + b) == write_bytes(
            write_bytes(mem, base, a),
            addr_at(base, a.len() as int),
            b,
        ),
    decreases b.len(),
{
    if b.len() == 0 {
        assert(a + b =~= a);
    } else {
        assert((a + b).drop_last() =~= a + b.drop_last());
        lemma_write_bytes_append(mem, base, a, b.drop_last());
        lemma_addr_compose(base, a.len() as int, b.len() - 1);
    }
}

proof fn lemma_download_step(mem0: Map<u32, u8>, base: u32, fw: Seq<u8>, start: int, end: int)
    requires
        0 <= start <= end <= fw.len(),
    ensures
        write_bytes(write_bytes(mem0, base, fw.subrange(0, start)), addr_at(base, start), fw.subrange(start, end))
            == write_bytes(mem0, base, fw.subrange(0, end)),
{
    lemma_write_bytes_append(mem0, base, fw.subrange(0, start), fw.subrange(start, end));
    assert(fw.subrange(0, start) + fw.subrange(start, end) =~= fw.subrange(0, end));
}

proof fn lemma_wrap(base: u32, e: int)
    requires
        e >= 0,
    ensures
        addr_at(base, e) == (if base + e % 0x1_0000_0000 > u32::MAX {
            (base + e % 0x1_0000_0000 - 0x1_0000_0000) as u32
        } else {
            (base + e % 0x1_0000_0000) as u32
        }),
{
    let m = e % 0x1_0000_0000;
    assert((base + e) % 0x1_0000_0000 == (if base + m > u32::MAX {
        base + m - 0x1_0000_0000
    } else {
        base + m
    })) by (nonlinear_arith)
        requires
            e >= 0,
            m == e % 0x1_0000_0000,
            0 <= base <= u32::MAX,
    ;
}

proof fn lemma_block_step(start: int, end: int, len: int, idx: int, bs: int)
    requires
        bs > 0,
        0 <= start < len,
        idx >= 0,
        start == idx * bs,
        end == (if len - start < bs { len } else { start + bs }),
    ensures
        end < len ==> end == (idx + 1) * bs,
        end == len ==> idx * bs < len && len <= (idx + 1) * bs,
        idx + 1 <= end,
{
    assert((idx + 1) * bs == idx * bs + bs) by (nonlinear_arith);
    assert(idx <= idx * bs) by (nonlinear_arith)
        requires
            bs > 0,
            idx >= 0,
    ;
}

proof fn lemma_block_count(len: int, bs: int, k: int)
    requires
        bs > 0,
        (len == 0 && k == 0) || (k >= 1 && (k - 1) * bs < len && len <= k * bs),
    ensures
        block_count(len as nat, bs as nat) == k,
{
    if len > 0 {
        assert((len + bs - 1) / bs == k) by (nonlinear_arith)
            requires
                bs > 0,
                k >= 1,
                (k - 1) * bs < len,
                len <= k * bs,
        ;
    } else {
        assert((bs - 1) / bs == 0) by (nonlinear_arith)
            requires
                bs > 0,
        ;
    }
}

/// A simulated SDIO device.
pub struct MockSdioDevice {
    memory: HashMap<u32, u8>,
    transactions: Vec<SdioTransaction>,
    block_size: usize,
    initialized: bool,
    fail_next: bool,
    transaction_counter: u64,
}

impl MockSdioDevice {
    /// Device memory.
    pub closed spec fn mem(&self) -> Map<u32, u8> {
        self.memory@
    }

    /// Recorded transactions, oldest first.
    pub closed spec fn log(&self) -> Seq<SdioTransaction> {
        self.transactions@
    }

    pub closed spec fn spec_block_size(&self) -> usize {
        self.block_size
    }

    pub closed spec fn is_initialized(&self) -> bool {
        self.initialized
    }

    /// The next data operation fails once.
    pub closed spec fn will_fail(&self) -> bool {
        self.fail_next
    }

    /// Timestamp of the last recorded transaction.
    pub closed spec fn counter(&self) -> u64 {
        self.transaction_counter
    }

    /// `new` differs from `old` at most in memory, record and failure flag.
    pub open spec fn same_setup(new: &Self, old: &Self) -> bool {
        &&& new.spec_block_size() == old.spec_block_size()
        &&& new.is_initialized() == old.is_initialized()
    }

    /// An uninitialized device with empty memory and 512-byte blocks.
    pub fn new() -> (r: Self)
        ensures
            r.mem() == Map::<u32, u8>::empty(),
            r.log() == Seq::<SdioTransaction>::empty(),
            r.spec_block_size() == 512,
            !r.is_initialized(),
            !r.will_fail(),
            r.counter() == 0,
    {
        MockSdioDevice {
            memory: HashMap::new(),
            transactions: Vec::new(),
            block_size: 512,
            initialized: false,
            fail_next: false,
            transaction_counter: 0,
        }
    }

    /// Mark the device initialized; always succeeds.
    pub fn initialize(&mut self) -> (r: SdioResult<()>)
        ensures
            r is Ok,
            final(self).is_initialized(),
            final(self).mem() == old(self).mem(),
            final(self).log() == old(self).log(),
            final(self).spec_block_size() == old(self).spec_block_size(),
            final(self).will_fail() == old(self).will_fail(),
            final(self).counter() == old(self).counter(),
    {
        self.initialized = true;
        Ok(())
    }

    /// Set the transfer block size; the device must be initialized.
    pub fn set_block_size(&mut self, size: usize) -> (r: SdioResult<()>)
        ensures
            !old(self).is_initialized() ==> r == Err::<(), SdioError>(SdioError::NotInitialized)
                && final(self).spec_block_size() == old(self).spec_block_size(),
            old(self).is_initialized() ==> r is Ok && final(self).spec_block_size() == size,
            final(self).is_initialized() == old(self).is_initialized(),
            final(self).mem() == old(self).mem(),
            final(self).log() == old(self).log(),
            final(self).will_fail() == old(self).will_fail(),
            final(self).counter() == old(self).counter(),
    {
        if !self.initialized {
            return Err(SdioError::NotInitialized);
        }
        self.block_size = size;
        Ok(())
    }

    /// The transfer block size.
    pub fn get_block_size(&self) -> (r: usize)
        ensures
            r == self.spec_block_size(),
    {
        self.block_size
    }

    /// Append a transaction to the record, stamped with the next counter value.
    fn record_transaction(&mut self, address: u32, data: Vec<u8>, is_write: bool)
        ensures
            final(self).counter() == (if old(self).counter() < u64::MAX {
                old(self).counter() + 1
            } else {
                old(self).counter() as int
            }),
            final(self).log() == old(self).log().push(
                SdioTransaction { address, data, is_write, timestamp: final(self).counter() },
            ),
            final(self).mem() == old(self).mem(),
            Self::same_setup(final(self), old(self)),
            final(self).will_fail() == old(self).will_fail(),
    {
        if self.transaction_counter < u64::MAX {
            self.transaction_counter = self.transaction_counter + 1;
        }
        let timestamp = self.transaction_counter;
        self.transactions.push(SdioTransaction { address, data, is_write, timestamp });
    }

    /// The checks that start every data operation: the device must be
    /// initialized, and an injected failure is consumed here.
    fn begin_transfer(&mut self) -> (r: SdioResult<()>)
        ensures
            !old(self).is_initialized() ==> r == Err::<(), SdioError>(SdioError::NotInitialized)
                && final(self).will_fail() == old(self).will_fail(),
            old(self).is_initialized() && old(self).will_fail() ==> r == Err::<(), SdioError>(
                SdioError::TransferError,
            ) && !final(self).will_fail(),
            old(self).is_initialized() && !old(self).will_fail() ==> r is Ok && !final(self).will_fail(),
            final(self).mem() == old(self).mem(),
            final(self).log() == old(self).log(),
            Self::same_setup(final(self), old(self)),
            final(self).counter() == old(self).counter(),
    {
        if !self.initialized {
            return Err(SdioError::NotInitialized);
        }
        if self.fail_next {
            self.fail_next = false;
            return Err(SdioError::TransferError);
        }
        Ok(())
    }

    /// Read one byte; unwritten memory reads 0.
    pub fn read_byte(&mut self, address: u32) -> (r: SdioResult<u8>)
        ensures
            !old(self).is_initialized() ==> r == Err::<u8, SdioError>(SdioError::NotInitialized),
            old(self).is_initialized() && old(self).will_fail() ==> r == Err::<u8, SdioError>(
                SdioError::TransferError,
            ),
            old(self).is_initialized() && !old(self).will_fail() ==> r == Ok::<u8, SdioError>(
                byte_at(old(self).mem(), address),
            ) && final(self).log().len() == old(self).log().len() + 1 && final(self).log().last().address
                == address && !final(self).log().last().is_write && final(self).log().last().data@
                == seq![byte_at(old(self).mem(), address)],
            r is Err ==> final(self).log() == old(self).log(),
            old(self).is_initialized() ==> !final(self).will_fail(),
            final(self).mem() == old(self).mem(),
            Self::same_setup(final(self), old(self)),
    {
        self.begin_transfer()?;
        let value = match self.memory.get(&address) {
            Some(v) => *v,
            None => 0,
        };
        self.record_transaction(address, vec![value], false);
        Ok(value)
    }

    /// Write one byte.
    pub fn write_byte(&mut self, address: u32, value: u8) -> (r: SdioResult<()>)
        ensures
            !old(self).is_initialized() ==> r == Err::<(), SdioError>(SdioError::NotInitialized),
            old(self).is_initialized() && old(self).will_fail() ==> r == Err::<(), SdioError>(
                SdioError::TransferError,
            ),
            old(self).is_initialized() && !old(self).will_fail() ==> r is Ok && final(self).mem()
                == old(self).mem().insert(address, value) && final(self).log().len() == old(self).log().len() + 1 && final(self).log().last().address == address && final(self).log().last().is_write && final(self).log().last().data@ == seq![value],
            r is Err ==> final(self).log() == old(self).log() && final(self).mem() == old(self).mem(),
            old(self).is_initialized() ==> !final(self).will_fail(),
            Self::same_setup(final(self), old(self)),
    {
        self.begin_transfer()?;
        self.memory.insert(address, value);
        self.record_transaction(address, vec![value], true);
        Ok(())
    }

    /// Read `length` bytes from `address` upward, wrapping at 2^32.
    pub fn read_multi_block(&mut self, address: u32, length: usize) -> (r: SdioResult<Vec<u8>>)
        ensures
            !old(self).is_initialized() ==> r matches Err(SdioError::NotInitialized),
            old(self).is_initialized() && old(self).will_fail() ==> r matches Err(
                SdioError::TransferError,
            ),
            old(self).is_initialized() && !old(self).will_fail() ==> (r matches Ok(v) && v@
                == read_bytes(old(self).mem(), address, length as nat)),
            r matches Ok(v) ==> final(self).log() == old(self).log().push(final(self).log().last())
                && final(self).log().last().address == address && !final(self).log().last().is_write
                && final(self).log().last().data@ == v@,
            r is Err ==> final(self).log() == old(self).log(),
            old(self).is_initialized() ==> !final(self).will_fail(),
            final(self).mem() == old(self).mem(),
            Self::same_setup(final(self), old(self)),
    {
        self.begin_transfer()?;
        let mut data: Vec<u8> = Vec::new();
        let mut addr = address;
        let mut i: usize = 0;
        while i < length
            invariant
                i <= length,
                addr == addr_at(address, i as int),
                data@ == read_bytes(self.mem(), address, i as nat),
            decreases length - i,
        {
            let value = match self.memory.get(&addr) {
                Some(v) => *v,
                None => 0,
            };
            data.push(value);
            proof {
                lemma_addr_step(address, i as int);
                assert(data@ =~= read_bytes(self.mem(), address, (i + 1) as nat));
            }
            addr = addr.wrapping_add(1);
            i = i + 1;
        }
        let record = vstd::slice::slice_to_vec(data.as_slice());
        self.record_transaction(address, record, false);
        Ok(data)
    }

    /// Write `data` from `address` upward, wrapping at 2^32.
    pub fn write_multi_block(&mut self, address: u32, data: &[u8]) -> (r: SdioResult<()>)
        ensures
            !old(self).is_initialized() ==> r == Err::<(), SdioError>(SdioError::NotInitialized),
            old(self).is_initialized() && old(self).will_fail() ==> r == Err::<(), SdioError>(
                SdioError::TransferError,
            ),
            old(self).is_initialized() && !old(self).will_fail() ==> r is Ok && final(self).mem()
                == write_bytes(old(self).mem(), address, data@) && final(self).log() == old(self).log().push(
                final(self).log().last(),
            ) && final(self).log().last().address == address && final(self).log().last().is_write && final(self).log().last().data@ == data@,
            r is Err ==> final(self).log() == old(self).log() && final(self).mem() == old(self).mem(),
            old(self).is_initialized() ==> !final(self).will_fail(),
            Self::same_setup(final(self), old(self)),
    {
        self.begin_transfer()?;
        let ghost start = self.memory@;
        let mut addr = address;
        let mut i: usize = 0;
        while i < data.len()
            invariant
                i <= data@.len(),
                addr == addr_at(address, i as int),
                self.memory@ == write_bytes(start, address, data@.subrange(0, i as int)),
                self.is_initialized() == old(self).is_initialized(),
                self.spec_block_size() == old(self).spec_block_size(),
                self.log() == old(self).log(),
                !self.will_fail(),
                self.counter() == old(self).counter(),
            decreases data@.len() - i,
        {
            self.memory.insert(addr, data[i]);
            proof {
                lemma_addr_step(address, i as int);
                assert(data@.subrange(0, i + 1 as int).drop_last() =~= data@.subrange(0, i as int));
            }
            addr = addr.wrapping_add(1);
            i = i + 1;
        }
        assert(data@.subrange(0, data@.len() as int) =~= data@);
        let record = vstd::slice::slice_to_vec(data);
        self.record_transaction(address, record, true);
        Ok(())
    }
}


impl MockSdioDevice {
    /// Write `firmware_data` from `base_address` upward, one transaction per
    /// block of the current block size (the last block may be short).
    /// Addresses wrap at 2^32. A block size of 0 cannot split the image and
    /// is refused with `InvalidLength`.
    pub fn download_firmware(&mut self, base_address: u32, firmware_data: &[u8]) -> (r: SdioResult<()>)
        ensures
            !old(self).is_initialized() ==> r == Err::<(), SdioError>(SdioError::NotInitialized),
            old(self).is_initialized() && old(self).spec_block_size() == 0 ==> r == Err::<(), SdioError>(
                SdioError::InvalidLength,
            ),
            old(self).is_initialized() && old(self).spec_block_size() > 0 && firmware_data@.len() > 0
                && old(self).will_fail() ==> r == Err::<(), SdioError>(SdioError::TransferError)
                && !final(self).will_fail() && final(self).mem() == old(self).mem(),
            old(self).is_initialized() && old(self).spec_block_size() > 0 && (firmware_data@.len()
                == 0 || !old(self).will_fail()) ==> r is Ok && final(self).mem() == write_bytes(
                old(self).mem(),
                base_address,
                firmware_data@,
            ) && final(self).log().len() == old(self).log().len() + block_count(
                firmware_data@.len(),
                old(self).spec_block_size() as nat,
            ) && final(self).will_fail() == old(self).will_fail() && final(self).log().subrange(
                0,
                old(self).log().len() as int,
            ) == old(self).log() && forall|k: int|
                0 <= k < final(self).log().len() - old(self).log().len() ==> writes_block(
                    #[trigger] final(self).log()[old(self).log().len() + k],
                    base_address,
                    firmware_data@,
                    old(self).spec_block_size() as int,
                    k,
                ),
            Self::same_setup(final(self), old(self)),
    {
        if !self.initialized {
            return Err(SdioError::NotInitialized);
        }
        let block_size = self.block_size;
        if block_size == 0 {
            return Err(SdioError::InvalidLength);
        }
        let len = firmware_data.len();
        let ghost mem0 = self.memory@;
        let ghost log0 = self.transactions@;
        let mut start: usize = 0;
        let mut block_idx: usize = 0;
        let mut block_addr: u32 = base_address;
        let mut failure: Option<SdioError> = None;
        while start < len && failure.is_none()
            invariant
                block_size == self.spec_block_size(),
                block_size > 0,
                len == firmware_data@.len(),
                start <= len,
                block_idx <= start,
                start < len ==> start == block_idx * block_size,
                start == len ==> (len == 0 && block_idx == 0) || (block_idx >= 1 && (block_idx
                    - 1) * block_size < len && len <= block_idx * block_size),
                block_addr == addr_at(base_address, start as int),
                failure is None ==> self.memory@ == write_bytes(
                    mem0,
                    base_address,
                    firmware_data@.subrange(0, start as int),
                ),
                failure is None ==> self.transactions@.len() == log0.len() + block_idx,
                failure is None ==> self.transactions@.subrange(0, log0.len() as int) == log0,
                failure is None ==> forall|k: int|
                    0 <= k < block_idx ==> writes_block(
                        #[trigger] self.transactions@[log0.len() + k],
                        base_address,
                        firmware_data@,
                        block_size as int,
                        k,
                    ),
                failure is None ==> self.will_fail() == (old(self).will_fail() && start == 0),
                failure is None && start > 0 ==> !old(self).will_fail(),
                failure is Some ==> len > 0,
                failure is Some ==> failure == Some(SdioError::TransferError) && start == 0
                    && old(self).will_fail() && !self.will_fail() && self.memory@ == mem0,
                self.is_initialized(),
                Self::same_setup(self, old(self)),
            decreases len - start + (if failure is None { 1int } else { 0int }),
        {
            let end = if len - start < block_size {
                len
            } else {
                start + block_size
            };
            let block_data = vstd::slice::slice_subrange(firmware_data, start, end);
            match self.write_multi_block(block_addr, block_data) {
                Ok(_) => {
                    proof {
                        lemma_download_step(mem0, base_address, firmware_data@, start as int, end as int);
                        lemma_block_step(start as int, end as int, len as int, block_idx as int, block_size as int);
                        assert((block_idx + 1) * block_size == block_idx * block_size + block_size)
                            by (nonlinear_arith);
                        let t = self.transactions@;
                        assert(t.subrange(0, log0.len() as int) =~= log0) by {
                            assert(forall|k: int| 0 <= k < log0.len() ==> t[k] == t.drop_last()[k]);
                        }
                        assert(writes_block(t[log0.len() + block_idx], base_address, firmware_data@, block_size as int, block_idx as int));
                        assert forall|k: int| 0 <= k < block_idx + 1 implies writes_block(
                            #[trigger] t[log0.len() + k],
                            base_address,
                            firmware_data@,
                            block_size as int,
                            k,
                        ) by {
                            if k < block_idx {
                                assert(t[log0.len() + k] == t.drop_last()[log0.len() + k]);
                            }
                        }
                        lemma_wrap(base_address, end as int);
                    }
                    block_addr = base_address.wrapping_add(((end as u64) % 0x1_0000_0000) as u32);
                    start = end;
                    block_idx = block_idx + 1;
                },
                Err(e) => {
                    failure = Some(e);
                },
            }
        }
        proof {
            if failure is None {
                lemma_block_count(len as int, block_size as int, block_idx as int);
            }
        }
        if let Some(e) = failure {
            return Err(e);
        }
        assert(firmware_data@.subrange(0, len as int) =~= firmware_data@);
        Ok(())
    }

    /// Make the next data operation fail with `TransferError`.
    pub fn fail_next_operation(&mut self)
        ensures
            final(self).will_fail(),
            final(self).mem() == old(self).mem(),
            final(self).log() == old(self).log(),
            Self::same_setup(final(self), old(self)),
    {
        self.fail_next = true;
    }

    /// Forget all memory contents.
    pub fn clear_memory(&mut self)
        ensures
            final(self).mem() == Map::<u32, u8>::empty(),
            final(self).log() == old(self).log(),
            final(self).will_fail() == old(self).will_fail(),
            Self::same_setup(final(self), old(self)),
    {
        self.memory.clear();
    }

    /// A copy of the memory contents.
    pub fn get_memory_snapshot(&self) -> (r: HashMap<u32, u8>)
        ensures
            r@ == self.mem(),
    {
        self.memory.clone()
    }

    /// A copy of the transaction record, oldest first.
    pub fn get_transactions(&self) -> (r: Vec<SdioTransaction>)
        ensures
            r@.len() == self.log().len(),
            forall|i: int|
                0 <= i < r@.len() ==> (#[trigger] r@[i]).address == self.log()[i].address
                    && r@[i].is_write == self.log()[i].is_write && r@[i].timestamp
                    == self.log()[i].timestamp,
    {
        let mut out: Vec<SdioTransaction> = Vec::new();
        let mut i: usize = 0;
        while i < self.transactions.len()
            invariant
                i <= self.transactions@.len(),
                out@.len() == i,
                forall|k: int|
                    0 <= k < i ==> (#[trigger] out@[k]).address == self.log()[k].address
                        && out@[k].is_write == self.log()[k].is_write && out@[k].timestamp
                        == self.log()[k].timestamp,
            decreases self.transactions@.len() - i,
        {
            let t = &self.transactions[i];
            out.push(
                SdioTransaction {
                    address: t.address,
                    data: t.data.clone(),
                    is_write: t.is_write,
                    timestamp: t.timestamp,
                },
            );
            i = i + 1;
        }
        out
    }

    /// Forget the transaction record.
    pub fn clear_transactions(&mut self)
        ensures
            final(self).log() == Seq::<SdioTransaction>::empty(),
            final(self).mem() == old(self).mem(),
            final(self).will_fail() == old(self).will_fail(),
            Self::same_setup(final(self), old(self)),
    {
        self.transactions.clear();
    }

    /// Whether memory from `address` upward holds exactly `expected`.
    pub fn verify_firmware_at(&self, address: u32, expected: &[u8]) -> (r: bool)
        ensures
            r == (read_bytes(self.mem(), address, expected@.len()) == expected@),
    {
        let mut addr = address;
        let mut i: usize = 0;
        let mut matched = true;
        while i < expected.len() && matched
            invariant
                i <= expected@.len(),
                addr == addr_at(address, i as int),
                matched ==> forall|k: int| 0 <= k < i ==> byte_at(self.mem(), addr_at(address, k)) == expected@[k],
                !matched ==> i < expected@.len() && byte_at(self.mem(), addr_at(address, i as int)) != expected@[i as int],
            decreases expected@.len() - i + (if matched { 1int } else { 0int }),
        {
            let actual = match self.memory.get(&addr) {
                Some(v) => *v,
                None => 0,
            };
            if actual != expected[i] {
                matched = false;
            } else {
                proof {
                    lemma_addr_step(address, i as int);
                }
                addr = addr.wrapping_add(1);
                i = i + 1;
            }
        }
        proof {
            let got = read_bytes(self.mem(), address, expected@.len());
            if matched {
                assert(got =~= expected@);
            } else {
                assert(got[i as int] != expected@[i as int]);
            }
        }
        matched
    }
}

impl Default for MockSdioDevice {
    fn default() -> (r: Self)
        ensures
            r.mem() == Map::<u32, u8>::empty(),
            r.log() == Seq::<SdioTransaction>::empty(),
            r.spec_block_size() == 512,
            !r.is_initialized(),
            !r.will_fail(),
    {
        MockSdioDevice::new()
    }
}

} // verus!
