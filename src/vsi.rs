//! Byte-range access: the rules that turn the status codes of a virtual file
//! (local or remote) into structured results.
use vstd::prelude::*;

verus! {

/// Failures of the byte-range accessor.
#[derive(Debug, Clone, Copy, PartialEq, Eq, Structural)]
pub enum VSIError {
    /// Seeking within the resource failed.
    SeekError,
    /// The resource could not be opened.
    OpenError,
    /// Fewer bytes than requested could be read.
    ReadError,
    /// Closing the resource failed.
    CloseError,
}

/// How a resource is opened.
#[derive(Debug, Clone, Copy, PartialEq, Eq, Structural)]
pub enum FileAccessMode {
    Read,
    ReadBinary,
    Write,
    WriteBinary,
    Append,
    AppendBinary,
    ReadWrite,
    ReadWriteBinary,
    WriteRead,
    WriteReadBinary,
    AppendRead,
    AppendReadBinary,
}

/// The C `fopen` mode text of each access mode.
pub open spec fn mode_text(m: FileAccessMode) -> Seq<char> {
    match m {
        FileAccessMode::Read => seq!['r'],
        FileAccessMode::ReadBinary => seq!['r', 'b'],
        FileAccessMode::Write => seq!['w'],
        FileAccessMode::WriteBinary => seq!['w', 'b'],
        FileAccessMode::Append => seq!['a'],
        FileAccessMode::AppendBinary => seq!['a', 'b'],
        FileAccessMode::ReadWrite => seq!['r', '+'],
        FileAccessMode::ReadWriteBinary => seq!['r', '+', 'b'],
        FileAccessMode::WriteRead => seq!['w', '+'],
        FileAccessMode::WriteReadBinary => seq!['w', 'b', '+'],
        FileAccessMode::AppendRead => seq!['a', '+'],
        FileAccessMode::AppendReadBinary => seq!['a', 'b', '+'],
    }
}

impl FileAccessMode {
    /// The mode text handed to the virtual file layer's open call.
    pub fn to_c_str(&self) -> (r: &'static str)
        ensures
            r@ == mode_text(*self),
    {
        proof {
            reveal_strlit("r");
            reveal_strlit("rb");
            reveal_strlit("w");
            reveal_strlit("wb");
            reveal_strlit("a");
            reveal_strlit("ab");
            reveal_strlit("r+");
            reveal_strlit("r+b");
            reveal_strlit("w+");
            reveal_strlit("wb+");
            reveal_strlit("a+");
            reveal_strlit("ab+");
        }
        match *self {
            FileAccessMode::Read => "r",
            FileAccessMode::ReadBinary => "rb",
            FileAccessMode::Write => "w",
            FileAccessMode::WriteBinary => "wb",
            FileAccessMode::Append => "a",
            FileAccessMode::AppendBinary => "ab",
            FileAccessMode::ReadWrite => "r+",
            FileAccessMode::ReadWriteBinary => "r+b",
            FileAccessMode::WriteRead => "w+",
            FileAccessMode::WriteReadBinary => "wb+",
            FileAccessMode::AppendRead => "a+",
            FileAccessMode::AppendReadBinary => "ab+",
        }
    }
}

/// Reference point of a seek.
#[derive(Debug, Clone, Copy, PartialEq, Eq, Structural)]
pub enum Whence {
    /// From the start of the resource.
    SeekSet,
    /// From the current position.
    SeekCur,
    /// From the end of the resource.
    SeekEnd,
}

/// The numeric code of each reference point.
pub open spec fn whence_code(w: Whence) -> i32 {
    match w {
        Whence::SeekSet => 0,
        Whence::SeekCur => 1,
        Whence::SeekEnd => 2,
    }
}

impl Whence {
    /// The reference point with the given numeric code.
    pub fn from(value: i32) -> (r: Whence)
        requires
            0 <= value <= 2,
        ensures
            whence_code(r) == value,
    {
        if value == 0 {
            Whence::SeekSet
        } else if value == 1 {
            Whence::SeekCur
        } else {
            Whence::SeekEnd
        }
    }
}

impl From<Whence> for i32 {
    fn from(w: Whence) -> (r: i32) {
        match w {
            Whence::SeekSet => 0,
            Whence::SeekCur => 1,
            Whence::SeekEnd => 2,
        }
    }
}

impl vstd::std_specs::convert::FromSpecImpl<Whence> for i32 {
    open spec fn obeys_from_spec() -> bool {
        true
    }

    open spec fn from_spec(w: Whence) -> i32 {
        whence_code(w)
    }
}

/// The outcome of a seek, from the status the virtual file layer returned
/// (zero on success). A failed seek leaves the handle unusable: the caller
/// closes it before reporting the failure.
pub fn seek_status(status: i32) -> (r: Result<(), VSIError>)
    ensures
        r == (if status == 0 { Ok::<(), VSIError>(()) } else { Err(VSIError::SeekError) }),
{
    if status != 0 {
        Err(VSIError::SeekError)
    } else {
        Ok(())
    }
}

/// The outcome of a read of `wanted` bytes that delivered `got`: a short read
/// is a failure, never a partial result.
pub fn read_status(got: usize, wanted: usize) -> (r: Result<usize, VSIError>)
    ensures
        r == (if got == wanted { Ok::<usize, VSIError>(got) } else { Err(VSIError::ReadError) }),
{
    if got != wanted {
        Err(VSIError::ReadError)
    } else {
        Ok(got)
    }
}

/// The outcome of a close, from the status returned (zero on success).
pub fn close_status(status: i32) -> (r: Result<(), VSIError>)
    ensures
        r == (if status == 0 { Ok::<(), VSIError>(()) } else { Err(VSIError::CloseError) }),
{
    if status != 0 {
        Err(VSIError::CloseError)
    } else {
        Ok(())
    }
}

/// The outcome of an open: a missing handle is a failure.
pub fn open_status(opened: bool) -> (r: Result<(), VSIError>)
    ensures
        r == (if opened { Ok::<(), VSIError>(()) } else { Err(VSIError::OpenError) }),
{
    if opened {
        Ok(())
    } else {
        Err(VSIError::OpenError)
    }
}

} // verus!
