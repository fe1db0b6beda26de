use mem_storage::{ByteIndex, Memory};

struct TestMemory {
    ram: Vec<u8>,
}

impl TestMemory {
    fn new<S: AsRef<[u8]>>(slice: S) -> Self {
        Self {
            ram: slice.as_ref().into(),
        }
    }
}

impl Memory for TestMemory {
    type Error = ();

    // The model exists for the verifier alone and is never evaluated.
    fn view(&self) -> vstd::seq::Seq<u8> {
        unreachable!()
    }

    fn get<I>(&self, index: I) -> Result<&I::Output, Self::Error>
    where
        I: ByteIndex,
    {
        self.ram.get(index).ok_or(())
    }

    fn get_mut<I>(&mut self, index: I) -> Result<&mut I::Output, Self::Error>
    where
        I: ByteIndex,
    {
        self.ram.get_mut(index).ok_or(())
    }

    fn try_read_byte(&self, addr: usize) -> Result<u8, Self::Error> {
        self.get(addr).map(Clone::clone)
    }

    fn try_write_byte(&mut self, addr: usize, byte: u8) -> Result<(), Self::Error> {
        let entry = self.get_mut(addr)?;
        *entry = byte;
        Ok(())
    }
}

#[test]
fn test_read_le() {
    let mem = TestMemory::new([0xBA, 0xCD, 0xAB, 0x00, 0x00]);
    assert_eq!(mem.read::<u8>(0), 0xBAu8);
    assert_eq!(mem.read::<u32>(1), 0xABCDu32);
}

#[test]
fn test_write_le() {
    let mut mem = TestMemory::new([0u8; 16]);

    mem.write::<u8>(0, 0xFF);
    assert_eq!(mem.read::<u8>(0), 0xFFu8);

    mem.write::<u32>(4, 0xDDFFEEAAu32);
    let bytes = mem.get(4..8).unwrap();
    assert_eq!(bytes, &[0xAAu8, 0xEE, 0xFF, 0xDD]);

    assert_eq!(mem.read::<u32>(4), 0xDDFFEEAAu32);
}

#[test]
fn test_read_be() {
    let mem = TestMemory::new([0xBA, 0xCD, 0xAB, 0x00, 0x00]);
    assert_eq!(mem.read_be::<u8>(0), 0xBAu8);
    assert_eq!(mem.read_be::<u32>(1), 0xCDAB0000u32);
}

#[test]
fn test_write_be() {
    let mut mem = TestMemory::new([0u8; 16]);

    mem.write_be::<u8>(0, 0xFF);
    assert_eq!(mem.read_be::<u8>(0), 0xFFu8);

    mem.write_be::<u32>(4, 0xDDFFEEAAu32);
    let bytes = mem.get(4..8).unwrap();
    assert_eq!(bytes, &[0xDDu8, 0xFF, 0xEE, 0xAA]);

    assert_eq!(mem.read_be::<u32>(4), 0xDDFFEEAAu32);
}

#[test]
fn test_read_byte_and_write_byte() {
    let mut mem = TestMemory::new([0xBA, 0xCD, 0xAB, 0x00, 0x00]);
    assert_eq!(mem.read_byte(2), 0xAB);
    mem.write_byte(2, 0x17);
    assert_eq!(mem.read_byte(2), 0x17);
    assert_eq!(mem.ram, vec![0xBA, 0xCD, 0x17, 0x00, 0x00]);
}

/// Says which operation of the memory refused an access.
#[derive(Debug, PartialEq)]
enum Refused {
    Get,
    GetMut,
    ReadByte,
    WriteByte,
}

/// A memory whose errors tell where they were made.
struct StrictMemory {
    ram: Vec<u8>,
}

impl Memory for StrictMemory {
    type Error = Refused;

    // The model exists for the verifier alone and is never evaluated.
    fn view(&self) -> vstd::seq::Seq<u8> {
        unreachable!()
    }

    fn get<I>(&self, index: I) -> Result<&I::Output, Self::Error>
    where
        I: ByteIndex,
    {
        self.ram.get(index).ok_or(Refused::Get)
    }

    fn get_mut<I>(&mut self, index: I) -> Result<&mut I::Output, Self::Error>
    where
        I: ByteIndex,
    {
        self.ram.get_mut(index).ok_or(Refused::GetMut)
    }

    fn try_read_byte(&self, addr: usize) -> Result<u8, Self::Error> {
        self.ram.get(addr).copied().ok_or(Refused::ReadByte)
    }

    fn try_write_byte(&mut self, addr: usize, byte: u8) -> Result<(), Self::Error> {
        let entry = self.ram.get_mut(addr).ok_or(Refused::WriteByte)?;
        *entry = byte;
        Ok(())
    }
}

#[test]
fn test_error_of_the_store_comes_through() {
    let mut mem = StrictMemory { ram: vec![0u8; 8] };
    assert_eq!(mem.try_read::<u32>(6), Err(Refused::Get));
    assert_eq!(mem.try_read_be::<u16>(7), Err(Refused::Get));
    assert_eq!(mem.try_read::<u16>(usize::MAX), Err(Refused::Get));
    assert_eq!(mem.try_write::<u64>(1, 5), Err(Refused::GetMut));
    assert_eq!(mem.try_write_be::<u64>(1, 5), Err(Refused::GetMut));
    assert_eq!(mem.try_read_byte(8), Err(Refused::ReadByte));
    assert_eq!(mem.try_write_byte(9, 1), Err(Refused::WriteByte));
    assert_eq!(mem.ram, vec![0u8; 8]);
    assert_eq!(mem.try_read::<u32>(4), Ok(0));
}

#[test]
fn test_get_with_one_address() {
    let mut mem = TestMemory::new([0xBA, 0xCD, 0xAB, 0x00, 0x00]);
    assert_eq!(mem.get(1), Ok(&0xCD));
    assert_eq!(mem.get(5), Err(()));
    *mem.get_mut(4).unwrap() = 0x11;
    assert_eq!(mem.ram, vec![0xBA, 0xCD, 0xAB, 0x00, 0x11]);
    assert_eq!(mem.get_mut(5), Err(()));
}
