//! A named store of firmware images that counts how often each is loaded.
use vstd::prelude::*;

verus! {

/// Firmware store errors.
#[derive(Debug, Clone, Copy, PartialEq, Eq, Structural)]
pub enum FirmwareError {
    NotFound,
    InvalidSize,
    LoadFailed,
}

/// Result of a firmware store operation.
pub type FirmwareResult<T> = Result<T, FirmwareError>;

/// The image stored under `name`: the most recent addition wins.
pub open spec fn image_of(entries: Seq<(String, Vec<u8>)>, name: Seq<char>) -> Option<Seq<u8>>
    decreases entries.len(),
{
    if entries.len() == 0 {
        None
    } else if entries.last().0@ == name {
        Some(entries.last().1@)
    } else {
        image_of(entries.drop_last(), name)
    }
}

/// The load count recorded for `name`: the most recent record wins, 0 if none.
pub open spec fn count_of(entries: Seq<(String, usize)>, name: Seq<char>) -> usize
    decreases entries.len(),
{
    if entries.len() == 0 {
        0
    } else if entries.last().0@ == name {
        entries.last().1
    } else {
        count_of(entries.drop_last(), name)
    }
}

/// `size` copies of `pattern`.
pub open spec fn test_image(size: nat, pattern: u8) -> Seq<u8> {
    Seq::new(size, |i: int| pattern)
}

/// The 64-byte AIC8800 image header: magic "AIC8800", version 1, then the
/// header size (64), code size (4096) and data offset (0x00100000) as
/// little-endian 32-bit words, padded with zeros.
pub open spec fn aic8800_header() -> Seq<u8> {
    seq![
        0x41u8, 0x49, 0x43, 0x38, 0x38, 0x30, 0x30,
        0x01,
        0x40, 0x00, 0x00, 0x00,
        0x00, 0x10, 0x00, 0x00,
        0x00, 0x00, 0x10, 0x00,
    ] + Seq::new(44, |i: int| 0u8)
}

/// The synthetic AIC8800 firmware image: header, a branch instruction, then
/// 4092 bytes counting up modulo 256.
pub open spec fn aic8800_image() -> Seq<u8> {
    aic8800_header() + seq![0x90u8, 0x00, 0x00, 0xEA] + Seq::new(4092, |i: int| (i % 256) as u8)
}

/// A firmware store.
pub struct MockFirmwareLoader {
    firmwares: Vec<(String, Vec<u8>)>,
    load_count: Vec<(String, usize)>,
}

impl MockFirmwareLoader {
    /// The image stored under `name`, if any.
    pub closed spec fn image(&self, name: Seq<char>) -> Option<Seq<u8>> {
        image_of(self.firmwares@, name)
    }

    /// How often the image under `name` has been loaded.
    pub closed spec fn loads(&self, name: Seq<char>) -> usize {
        count_of(self.load_count@, name)
    }

    /// An empty store.
    pub fn new() -> (r: Self)
        ensures
            forall|n: Seq<char>| (#[trigger] r.image(n)) is None,
            forall|n: Seq<char>| #[trigger] r.loads(n) == 0,
    {
        MockFirmwareLoader { firmwares: Vec::new(), load_count: Vec::new() }
    }

    /// Store `data` under `name`, replacing any earlier image of that name.
    pub fn add_firmware(&mut self, name: &str, data: Vec<u8>)
        ensures
            final(self).image(name@) == Some(data@),
            forall|n: Seq<char>| n != name@ ==> final(self).image(n) == old(self).image(n),
            forall|n: Seq<char>| final(self).loads(n) == old(self).loads(n),
    {
        let key = name.to_owned();
        let ghost old_entries = self.firmwares@;
        self.firmwares.push((key, data));
        assert(self.firmwares@.drop_last() =~= old_entries);
    }

    /// Position of the most recent image stored under `name`.
    fn find_image(&self, name: &String) -> (r: Option<usize>)
        ensures
            r is None ==> self.image(name@) is None,
            r matches Some(i) ==> i < self.firmwares@.len() && self.image(name@) == Some(
                self.firmwares@[i as int].1@,
            ),
    {
        let mut i = self.firmwares.len();
        let mut found: Option<usize> = None;
        assert(self.firmwares@.subrange(0, i as int) =~= self.firmwares@);
        while i > 0 && found.is_none()
            invariant
                i <= self.firmwares@.len(),
                found is None ==> image_of(self.firmwares@, name@) == image_of(
                    self.firmwares@.subrange(0, i as int),
                    name@,
                ),
                found matches Some(k) ==> k < self.firmwares@.len() && image_of(self.firmwares@, name@)
                    == Some(self.firmwares@[k as int].1@),
            decreases i + (if found is None { 1int } else { 0int }),
        {
            let ghost prefix = self.firmwares@.subrange(0, i as int);
            assert(prefix.drop_last() =~= self.firmwares@.subrange(0, i - 1));
            if self.firmwares[i - 1].0 == *name {
                found = Some(i - 1);
            } else {
                i = i - 1;
            }
        }
        proof {
            if found is None {
                assert(self.firmwares@.subrange(0, i as int) =~= Seq::<(String, Vec<u8>)>::empty());
            }
        }
        found
    }

    /// The load count recorded for `name`.
    fn find_count(&self, name: &String) -> (r: usize)
        ensures
            r == self.loads(name@),
    {
        let mut i = self.load_count.len();
        let mut found: Option<usize> = None;
        assert(self.load_count@.subrange(0, i as int) =~= self.load_count@);
        while i > 0 && found.is_none()
            invariant
                i <= self.load_count@.len(),
                found is None ==> count_of(self.load_count@, name@) == count_of(
                    self.load_count@.subrange(0, i as int),
                    name@,
                ),
                found matches Some(c) ==> count_of(self.load_count@, name@) == c,
            decreases i + (if found is None { 1int } else { 0int }),
        {
            let ghost prefix = self.load_count@.subrange(0, i as int);
            assert(prefix.drop_last() =~= self.load_count@.subrange(0, i - 1));
            if self.load_count[i - 1].0 == *name {
                found = Some(self.load_count[i - 1].1);
            } else {
                i = i - 1;
            }
        }
        match found {
            Some(c) => c,
            None => {
                assert(self.load_count@.subrange(0, i as int) =~= Seq::<(String, usize)>::empty());
                0
            },
        }
    }

    /// A copy of the image stored under `name`, counting the load; `NotFound`
    /// if there is none.
    pub fn load_firmware(&mut self, name: &str) -> (r: FirmwareResult<Vec<u8>>)
        ensures
            old(self).image(name@) is None ==> r == Err::<Vec<u8>, FirmwareError>(
                FirmwareError::NotFound,
            ) && forall|n: Seq<char>| final(self).loads(n) == old(self).loads(n),
            old(self).image(name@) matches Some(d) ==> (r matches Ok(v) && v@ == d),
            old(self).image(name@) is Some ==> final(self).loads(name@) == (if old(self).loads(name@)
                < usize::MAX {
                old(self).loads(name@) + 1
            } else {
                old(self).loads(name@) as int
            }),
            forall|n: Seq<char>| n != name@ ==> final(self).loads(n) == old(self).loads(n),
            forall|n: Seq<char>| final(self).image(n) == old(self).image(n),
    {
        let key = name.to_owned();
        match self.find_image(&key) {
            None => Err(FirmwareError::NotFound),
            Some(i) => {
                let data = vstd::slice::slice_to_vec(self.firmwares[i].1.as_slice());
                let count = self.find_count(&key);
                let next = if count < usize::MAX {
                    count + 1
                } else {
                    count
                };
                let ghost old_counts = self.load_count@;
                self.load_count.push((key, next));
                assert(self.load_count@.drop_last() =~= old_counts);
                Ok(data)
            },
        }
    }

    /// How often the image under `name` has been loaded.
    pub fn get_load_count(&self, name: &str) -> (r: usize)
        ensures
            r == self.loads(name@),
    {
        let key = name.to_owned();
        self.find_count(&key)
    }

    /// Remove every image and load count.
    pub fn clear(&mut self)
        ensures
            forall|n: Seq<char>| (#[trigger] final(self).image(n)) is None,
            forall|n: Seq<char>| #[trigger] final(self).loads(n) == 0,
    {
        self.firmwares.clear();
        self.load_count.clear();
    }

    /// `size` bytes of `pattern`.
    pub fn create_test_firmware(size: usize, pattern: u8) -> (r: Vec<u8>)
        ensures
            r@ == test_image(size as nat, pattern),
    {
        let mut firmware: Vec<u8> = Vec::new();
        let mut i: usize = 0;
        while i < size
            invariant
                i <= size,
                firmware@ == test_image(i as nat, pattern),
            decreases size - i,
        {
            firmware.push(pattern);
            i = i + 1;
            assert(firmware@ =~= test_image(i as nat, pattern));
        }
        firmware
    }

    /// The synthetic AIC8800 firmware image.
    pub fn create_aic8800_firmware() -> (r: Vec<u8>)
        ensures
            r@ == aic8800_image(),
    {
        let mut firmware: Vec<u8> = vec![
            0x41, 0x49, 0x43, 0x38, 0x38, 0x30, 0x30,
            0x01,
            0x40, 0x00, 0x00, 0x00,
            0x00, 0x10, 0x00, 0x00,
            0x00, 0x00, 0x10, 0x00,
        ];
        let ghost fixed = firmware@;
        let mut i: usize = 0;
        while i < 44
            invariant
                i <= 44,
                firmware@ == fixed + Seq::new(i as nat, |k: int| 0u8),
            decreases 44 - i,
        {
            firmware.push(0);
            i = i + 1;
            assert(firmware@ =~= fixed + Seq::new(i as nat, |k: int| 0u8));
        }
        assert(firmware@ =~= aic8800_header());
        firmware.push(0x90);
        firmware.push(0x00);
        firmware.push(0x00);
        firmware.push(0xEA);
        let ghost head = firmware@;
        assert(head =~= aic8800_header() + seq![0x90u8, 0x00, 0x00, 0xEA]);
        let mut j: usize = 0;
        while j < 4092
            invariant
                j <= 4092,
                firmware@ == head + Seq::new(j as nat, |k: int| (k % 256) as u8),
            decreases 4092 - j,
        {
            firmware.push((j % 256) as u8);
            j = j + 1;
            assert(firmware@ =~= head + Seq::new(j as nat, |k: int| (k % 256) as u8));
        }
        firmware
    }
}

impl Default for MockFirmwareLoader {
    fn default() -> (r: Self)
        ensures
            forall|n: Seq<char>| (#[trigger] r.image(n)) is None,
            forall|n: Seq<char>| #[trigger] r.loads(n) == 0,
    {
        MockFirmwareLoader::new()
    }
}

} // verus!
