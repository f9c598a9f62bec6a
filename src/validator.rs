//! Cloud-optimized layout checks: per-tile offset order, leader and trailer
//! integrity, the raster-order walk over a band's tiles, and the structural
//! checks on the main band and the resource's side files.
use vstd::prelude::*;
use crate::tags::{decimal, push_decimal};
use crate::vsi::VSIError;

verus! {

/// Why a resource is not a valid cloud-optimized raster.
#[derive(Debug)]
pub enum ValidateCOGError {
    /// The raster backend failed; its message.
    GdalError(String),
    /// The resource is not read by the raster-TIFF driver.
    NotGeoTIFFError,
    /// Overviews are kept in an external side file.
    ExternalOvrError,
    /// A large main band is stored as full-width strips.
    NotTiledError,
    /// A tile lacks its offset or byte-count tag.
    EmptyOffsetError { x: usize, y: usize },
    /// A tile's payload starts before that of an earlier tile.
    BlockOffsetError { band_name: String, x: usize, y: usize },
    /// The four bytes before a tile do not hold its byte count.
    LeaderSizeError { band_name: String, x: usize, y: usize, leader_size: u64, byte_count: u64 },
    /// The byte-range accessor failed.
    VSIError(VSIError),
    /// The four bytes after a tile do not repeat its last four bytes.
    TrailerBytesError { band_name: String, x: usize, y: usize },
}

impl From<VSIError> for ValidateCOGError {
    fn from(e: VSIError) -> (r: ValidateCOGError) {
        ValidateCOGError::VSIError(e)
    }
}

impl vstd::std_specs::convert::FromSpecImpl<VSIError> for ValidateCOGError {
    open spec fn obeys_from_spec() -> bool {
        true
    }

    open spec fn from_spec(e: VSIError) -> ValidateCOGError {
        ValidateCOGError::VSIError(e)
    }
}

/// A validation failure with its texts as character sequences.
pub enum Fault {
    Backend(Seq<char>),
    NotGeoTiff,
    ExternalOvr,
    NotTiled,
    EmptyOffset { x: usize, y: usize },
    BlockOffset { band: Seq<char>, x: usize, y: usize },
    LeaderSize { band: Seq<char>, x: usize, y: usize, leader_size: u64, byte_count: u64 },
    Io(VSIError),
    TrailerBytes { band: Seq<char>, x: usize, y: usize },
}

impl View for ValidateCOGError {
    type V = Fault;

    open spec fn view(&self) -> Fault {
        match self {
            ValidateCOGError::GdalError(m) => Fault::Backend(m@),
            ValidateCOGError::NotGeoTIFFError => Fault::NotGeoTiff,
            ValidateCOGError::ExternalOvrError => Fault::ExternalOvr,
            ValidateCOGError::NotTiledError => Fault::NotTiled,
            ValidateCOGError::EmptyOffsetError { x, y } => Fault::EmptyOffset { x: *x, y: *y },
            ValidateCOGError::BlockOffsetError { band_name, x, y } => Fault::BlockOffset {
                band: band_name@,
                x: *x,
                y: *y,
            },
            ValidateCOGError::LeaderSizeError { band_name, x, y, leader_size, byte_count } =>
                Fault::LeaderSize {
                band: band_name@,
                x: *x,
                y: *y,
                leader_size: *leader_size,
                byte_count: *byte_count,
            },
            ValidateCOGError::VSIError(e) => Fault::Io(*e),
            ValidateCOGError::TrailerBytesError { band_name, x, y } => Fault::TrailerBytes {
                band: band_name@,
                x: *x,
                y: *y,
            },
        }
    }
}

/// The outcome of a check, with the failure seen through its view.
pub open spec fn outcome<T>(r: Result<T, ValidateCOGError>) -> Result<T, Fault> {
    match r {
        Ok(v) => Ok(v),
        Err(e) => Err(e@),
    }
}

/// The little-endian value of four bytes.
pub open spec fn le_u32(b: Seq<u8>) -> int
    recommends
        b.len() >= 4,
{
    b[0] as int + b[1] as int * 0x100 + b[2] as int * 0x1_0000 + b[3] as int * 0x100_0000
}

/// Relies on byteorder's `LittleEndian::read_u32`: the first four bytes read
/// least significant first (it panics on fewer than four).
#[verifier::external_body]
fn read_le_u32(buf: &[u8]) -> (r: u32)
    requires
        buf@.len() >= 4,
    ensures
        r as int == le_u32(buf@),
{
    <byteorder::LittleEndian as byteorder::ByteOrder>::read_u32(buf)
}


/// A tile's payload is preceded by a leader when it holds more than four bytes.
pub open spec fn leader_needed(byte_count: u64) -> bool {
    byte_count > 4
}

/// A tile's payload is followed by a trailer when it holds at least four bytes.
pub open spec fn trailer_needed(byte_count: u64) -> bool {
    byte_count >= 4
}

/// Where the four leader bytes of a tile are read: just before its payload.
/// A payload that starts within the first four bytes leaves no room for a
/// leader, which is reported as a failed read.
pub fn leader_position(offset: u64, byte_count: u64) -> (r: Result<Option<u64>, ValidateCOGError>)
    ensures
        !leader_needed(byte_count) ==> r == Ok::<Option<u64>, ValidateCOGError>(None),
        leader_needed(byte_count) && offset >= 4 ==> r == Ok::<Option<u64>, ValidateCOGError>(
            Some((offset - 4) as u64),
        ),
        leader_needed(byte_count) && offset < 4 ==> r == Err::<Option<u64>, ValidateCOGError>(
            ValidateCOGError::VSIError(VSIError::ReadError),
        ),
{
    if byte_count <= 4 {
        Ok(None)
    } else if offset < 4 {
        Err(ValidateCOGError::VSIError(VSIError::ReadError))
    } else {
        Ok(Some(offset - 4))
    }
}

/// Where the eight bytes that end a tile are read: its last four payload bytes
/// and the four trailer bytes after them. A position from which eight bytes
/// cannot be addressed is reported as a failed read.
pub fn trailer_position(offset: u64, byte_count: u64) -> (r: Result<Option<u64>, ValidateCOGError>)
    ensures
        !trailer_needed(byte_count) ==> r == Ok::<Option<u64>, ValidateCOGError>(None),
        trailer_needed(byte_count) && offset + byte_count + 4 <= u64::MAX ==> r == Ok::<
            Option<u64>,
            ValidateCOGError,
        >(Some((offset + byte_count - 4) as u64)),
        trailer_needed(byte_count) && offset + byte_count + 4 > u64::MAX ==> r == Err::<
            Option<u64>,
            ValidateCOGError,
        >(ValidateCOGError::VSIError(VSIError::ReadError)),
{
    if byte_count < 4 {
        Ok(None)
    } else if byte_count > u64::MAX - 4 || offset > u64::MAX - 4 - byte_count {
        Err(ValidateCOGError::VSIError(VSIError::ReadError))
    } else {
        Ok(Some(offset + byte_count - 4))
    }
}

/// Eight bytes can be addressed where a tile's payload ends less four.
pub open spec fn trailer_in_range(offset: u64, byte_count: u64) -> bool {
    offset + byte_count + 4 <= u64::MAX
}

/// Bytes as the accessor handed them over, or its failure.
pub open spec fn read_view(r: Result<Vec<u8>, VSIError>) -> Result<Seq<u8>, VSIError> {
    match r {
        Ok(b) => Ok(b@),
        Err(e) => Err(e),
    }
}

/// The leader check of a written tile, given what was read before its payload.
/// A tile of four bytes or fewer has no leader and passes; a payload that
/// starts within the first four bytes has no room for one; otherwise the four
/// bytes, as a little-endian integer, must equal the byte count.
pub open spec fn leader_verdict(
    band: Seq<char>,
    x: usize,
    y: usize,
    offset: u64,
    byte_count: u64,
    leader: Result<Seq<u8>, VSIError>,
) -> Result<bool, Fault> {
    if !leader_needed(byte_count) {
        Ok(true)
    } else if offset < 4 {
        Err(Fault::Io(VSIError::ReadError))
    } else {
        match leader {
            Err(e) => Err(Fault::Io(e)),
            Ok(b) => if b.len() != 4 {
                Err(Fault::Io(VSIError::ReadError))
            } else if le_u32(b) == byte_count {
                Ok(true)
            } else {
                Err(
                    Fault::LeaderSize {
                        band,
                        x,
                        y,
                        leader_size: le_u32(b) as u64,
                        byte_count,
                    },
                )
            },
        }
    }
}

/// The trailer check of a written tile, given the eight bytes read where its
/// payload ends less four. A tile of fewer than four bytes has no trailer and
/// passes; a position from which eight bytes cannot be addressed fails as a
/// read; otherwise the payload's last four bytes and the trailer must be equal.
pub open spec fn trailer_verdict(
    band: Seq<char>,
    x: usize,
    y: usize,
    offset: u64,
    byte_count: u64,
    tail: Result<Seq<u8>, VSIError>,
) -> Result<bool, Fault> {
    if !trailer_needed(byte_count) {
        Ok(true)
    } else if !trailer_in_range(offset, byte_count) {
        Err(Fault::Io(VSIError::ReadError))
    } else {
        match tail {
            Err(e) => Err(Fault::Io(e)),
            Ok(b) => if b.len() != 8 {
                Err(Fault::Io(VSIError::ReadError))
            } else if b.subrange(0, 4) == b.subrange(4, 8) {
                Ok(true)
            } else {
                Err(Fault::TrailerBytes { band, x, y })
            },
        }
    }
}

/// The leader check of tile `(x, y)`, whose payload of `byte_count` bytes
/// starts at `offset`, on the bytes read at `leader_position`. Bytes of
/// another length than four are a short read.
pub fn _check_leader_size(
    band_name: &str,
    x: usize,
    y: usize,
    offset: u64,
    byte_count: u64,
    leader: &[u8],
) -> (r: Result<bool, ValidateCOGError>)
    ensures
        outcome(r) == leader_verdict(band_name@, x, y, offset, byte_count, Ok(leader@)),
{
    if byte_count <= 4 {
        return Ok(true);
    }
    if offset < 4 || leader.len() != 4 {
        return Err(ValidateCOGError::VSIError(VSIError::ReadError));
    }
    let leader_size = read_le_u32(leader) as u64;
    if leader_size != byte_count {
        return Err(
            ValidateCOGError::LeaderSizeError {
                band_name: String::from_str(band_name),
                x,
                y,
                leader_size,
                byte_count,
            },
        );
    }
    Ok(true)
}

/// The trailer check of tile `(x, y)`, whose payload of `byte_count` bytes
/// starts at `offset`, on the bytes read at `trailer_position`. Bytes of
/// another length than eight are a short read.
pub fn _check_trailer_bytes(
    band_name: &str,
    x: usize,
    y: usize,
    offset: u64,
    byte_count: u64,
    tail: &[u8],
) -> (r: Result<bool, ValidateCOGError>)
    ensures
        outcome(r) == trailer_verdict(band_name@, x, y, offset, byte_count, Ok(tail@)),
{
    if byte_count < 4 {
        return Ok(true);
    }
    if byte_count > u64::MAX - 4 || offset > u64::MAX - 4 - byte_count || tail.len() != 8 {
        return Err(ValidateCOGError::VSIError(VSIError::ReadError));
    }
    let mut i: usize = 0;
    while i < 4
        invariant
            i <= 4,
            tail@.len() == 8,
            trailer_needed(byte_count),
            trailer_in_range(offset, byte_count),
            forall|k: int| 0 <= k < i ==> #[trigger] tail@[k] == tail@[k + 4],
        decreases 4 - i,
    {
        if tail[i] != tail[i + 4] {
            assert(tail@.subrange(0, 4)[i as int] != tail@.subrange(4, 8)[i as int]);
            return Err(
                ValidateCOGError::TrailerBytesError { band_name: String::from_str(band_name), x, y },
            );
        }
        i = i + 1;
    }
    assert(tail@.subrange(0, 4) =~= tail@.subrange(4, 8));
    Ok(true)
}

/// The integrity checks of a written tile, on what the accessor returned for
/// its leader and for its end: the leader is checked first, and its failure is
/// the one reported. A read that a check does not need is ignored.
pub fn _check_tile(
    band_name: &str,
    t: TileData,
    leader: Result<Vec<u8>, VSIError>,
    tail: Result<Vec<u8>, VSIError>,
) -> (r: Result<bool, ValidateCOGError>)
    ensures
        outcome(r) == (match leader_verdict(
            band_name@,
            t.x,
            t.y,
            t.offset,
            t.byte_count,
            read_view(leader),
        ) {
            Err(f) => Err(f),
            Ok(_) => trailer_verdict(band_name@, t.x, t.y, t.offset, t.byte_count, read_view(tail)),
        }),
{
    match leader {
        Ok(b) => {
            _check_leader_size(band_name, t.x, t.y, t.offset, t.byte_count, b.as_slice())?;
        },
        Err(e) => {
            if t.byte_count > 4 {
                if t.offset < 4 {
                    return Err(ValidateCOGError::VSIError(VSIError::ReadError));
                }
                return Err(ValidateCOGError::VSIError(e));
            }
        },
    }
    match tail {
        Ok(b) => _check_trailer_bytes(band_name, t.x, t.y, t.offset, t.byte_count, b.as_slice()),
        Err(e) => {
            if t.byte_count < 4 {
                Ok(true)
            } else if t.byte_count > u64::MAX - 4 || t.offset > u64::MAX - 4 - t.byte_count {
                Err(ValidateCOGError::VSIError(VSIError::ReadError))
            } else {
                Err(ValidateCOGError::VSIError(e))
            }
        },
    }
}

/// The number of tiles of `block` pixels needed to cover `len` pixels.
pub open spec fn tile_count(len: usize, block: usize) -> int
    recommends
        block > 0,
{
    (len + block - 1) / (block as int)
}

/// The offset against which the next tile is ordered: that of the last
/// written (non-sparse) tile among `offsets`, or 0 when there is none.
pub open spec fn last_written(offsets: Seq<u64>) -> u64
    decreases offsets.len(),
{
    if offsets.len() == 0 {
        0
    } else if offsets.last() != 0 {
        offsets.last()
    } else {
        last_written(offsets.drop_last())
    }
}

/// Each written tile of `offsets` starts no earlier than the written tiles
/// before it, as the walk checks them one by one.
pub open spec fn in_order(offsets: Seq<u64>) -> bool {
    forall|i: int|
        0 <= i < offsets.len() ==> #[trigger] offsets[i] == 0 || offsets[i] >= last_written(
            offsets.take(i),
        )
}

/// A written tile that passed the order check, with what its integrity checks
/// need.
#[derive(Debug, Clone, Copy, PartialEq, Eq, Structural)]
pub struct TileData {
    pub x: usize,
    pub y: usize,
    pub offset: u64,
    pub byte_count: u64,
}

/// A walk over one band's tiles in raster order (rows top to bottom, tiles left
/// to right within a row), holding the offset of the last written tile across
/// rows.
pub struct BlockWalk {
    /// The band's label in failures.
    band_name: String,
    /// Tiles per row.
    xblocks: usize,
    /// Rows of tiles.
    yblocks: usize,
    /// Column of the next tile.
    x: usize,
    /// Row of the next tile.
    y: usize,
    /// Offset of the last written tile visited, 0 before any.
    last_offset: u64,
    /// Offsets of the tiles visited so far, in visiting order.
    visited: Ghost<Seq<u64>>,
}

/// The state of a walk: the band's label, the grid, the next position, the
/// offset of the last written tile, and the offsets visited so far.
pub struct WalkState {
    pub band: Seq<char>,
    pub xblocks: usize,
    pub yblocks: usize,
    pub x: usize,
    pub y: usize,
    pub last_offset: u64,
    pub visited: Seq<u64>,
}

impl View for BlockWalk {
    type V = WalkState;

    closed spec fn view(&self) -> WalkState {
        WalkState {
            band: self.band_name@,
            xblocks: self.xblocks,
            yblocks: self.yblocks,
            x: self.x,
            y: self.y,
            last_offset: self.last_offset,
            visited: self.visited@,
        }
    }
}

impl BlockWalk {
    /// The walk's state is consistent: `last_offset` is that of the last
    /// written tile visited, the visited tiles were in order, and the position
    /// lies in the grid or just past its last row.
    pub open spec fn wf(&self) -> bool {
        &&& self@.last_offset == last_written(self@.visited)
        &&& in_order(self@.visited)
        &&& self@.y <= self@.yblocks
        &&& (self@.x < self@.xblocks || (self@.x == 0 && self@.xblocks == 0))
        &&& (self@.y == self@.yblocks ==> self@.x == 0)
    }

    /// Every tile has been visited.
    pub open spec fn finished(&self) -> bool {
        self@.y >= self@.yblocks || self@.xblocks == 0
    }

    /// A walk over the tile grid of a band of `width` by `height` pixels cut
    /// into blocks of `block_width` by `block_height`.
    pub fn new(band_name: &str, width: usize, height: usize, block_width: usize, block_height: usize) -> (r:
        BlockWalk)
        requires
            block_width > 0,
            block_height > 0,
        ensures
            r.wf(),
            r@.band == band_name@,
            r@.xblocks == tile_count(width, block_width),
            r@.yblocks == tile_count(height, block_height),
            r@.x == 0,
            r@.y == 0,
            r@.last_offset == 0,
            r@.visited == Seq::<u64>::empty(),
    {
        let xblocks = ceil_div(width, block_width);
        let yblocks = ceil_div(height, block_height);
        BlockWalk {
            band_name: String::from_str(band_name),
            xblocks,
            yblocks,
            x: 0,
            y: 0,
            last_offset: 0,
            visited: Ghost(Seq::empty()),
        }
    }

    /// Tiles per row and rows of tiles.
    pub fn tile_grid(&self) -> (r: (usize, usize))
        ensures
            r == (self@.xblocks, self@.yblocks),
    {
        (self.xblocks, self.yblocks)
    }

    /// The coordinate of the next tile to visit, or `None` once all are visited.
    pub fn next_tile(&self) -> (r: Option<(usize, usize)>)
        requires
            self.wf(),
        ensures
            r == (if self.finished() {
                None::<(usize, usize)>
            } else {
                Some((self@.x, self@.y))
            }),
    {
        if self.y >= self.yblocks || self.xblocks == 0 {
            None
        } else {
            Some((self.x, self.y))
        }
    }

    /// Visits the next tile with the values of its offset and byte-count tags.
    /// A missing tag fails; an offset of 0 marks a sparse tile, which is passed
    /// over; a written tile must not start before the last written tile. On
    /// success the walk moves on, and a written tile is returned for its
    /// leader and trailer checks.
    pub fn _validate_block(&mut self, offset: Option<u64>, byte_count: Option<u64>) -> (r: Result<
        Option<TileData>,
        ValidateCOGError,
    >)
        requires
            old(self).wf(),
            !old(self).finished(),
        ensures
            offset is None || byte_count is None ==> outcome(r) == Err::<Option<TileData>, Fault>(
                Fault::EmptyOffset { x: old(self)@.x, y: old(self)@.y },
            ),
            offset is Some && byte_count is Some && offset->0 != 0 && offset->0 < old(self)@.last_offset ==> outcome(r) == Err::<Option<TileData>, Fault>(
                Fault::BlockOffset { band: old(self)@.band, x: old(self)@.x, y: old(self)@.y },
            ),
            offset is Some && byte_count is Some && offset->0 == 0 ==> r == Ok::<
                Option<TileData>,
                ValidateCOGError,
            >(None),
            offset is Some && byte_count is Some && offset->0 != 0 && offset->0 >= old(self)@.last_offset ==> r == Ok::<Option<TileData>, ValidateCOGError>(
                Some(
                    TileData {
                        x: old(self)@.x,
                        y: old(self)@.y,
                        offset: offset->0,
                        byte_count: byte_count->0,
                    },
                ),
            ),
            r is Ok ==> {
                &&& final(self).wf()
                &&& final(self)@.visited == old(self)@.visited.push(offset->0)
                &&& final(self)@.band == old(self)@.band
                &&& final(self)@.xblocks == old(self)@.xblocks
                &&& final(self)@.yblocks == old(self)@.yblocks
                &&& if old(self)@.x + 1 < old(self)@.xblocks {
                    final(self)@.x == old(self)@.x + 1 && final(self)@.y == old(self)@.y
                } else {
                    final(self)@.x == 0 && final(self)@.y == old(self)@.y + 1
                }
            },
    {
        let (offset, byte_count) = match (offset, byte_count) {
            (Some(o), Some(b)) => (o, b),
            _ => {
                return Err(ValidateCOGError::EmptyOffsetError { x: self.x, y: self.y });
            },
        };
        if offset > 0 && offset < self.last_offset {
            return Err(
                ValidateCOGError::BlockOffsetError {
                    band_name: self.band_name.clone(),
                    x: self.x,
                    y: self.y,
                },
            );
        }
        let tile = TileData { x: self.x, y: self.y, offset, byte_count };
        let ghost before = self.visited@;
        proof {
            lemma_in_order_push(before, offset);
        }
        self.visited = Ghost(before.push(offset));
        if offset > 0 {
            self.last_offset = offset;
        }
        assert(self.visited@.drop_last() =~= before);
        if self.x + 1 < self.xblocks {
            self.x = self.x + 1;
        } else {
            self.x = 0;
            self.y = self.y + 1;
        }
        if offset > 0 {
            Ok(Some(tile))
        } else {
            Ok(None)
        }
    }
}

/// `ceil(len / block)`, without overflow.
fn ceil_div(len: usize, block: usize) -> (r: usize)
    requires
        block > 0,
    ensures
        r == tile_count(len, block),
{
    let q = len / block;
    let extra: usize = if len % block != 0 { 1 } else { 0 };
    proof {
        lemma_ceil_div(len as int, block as int);
    }
    q + extra
}

proof fn lemma_ceil_div(len: int, block: int)
    requires
        len >= 0,
        block > 0,
    ensures
        (len + block - 1) / block == len / block + (if len % block != 0 { 1int } else { 0 }),
        len % block != 0 ==> len / block < len,
{
    let q = len / block;
    let r = len % block;
    vstd::arithmetic::div_mod::lemma_fundamental_div_mod(len, block);
    assert(0 <= r < block);
    if r == 0 {
        vstd::arithmetic::div_mod::lemma_fundamental_div_mod_converse(
            len + block - 1,
            block,
            q,
            block - 1,
        );
    } else {
        assert(len + block - 1 == (q + 1) * block + (r - 1)) by (nonlinear_arith)
            requires
                len == block * q + r,
        ;
        vstd::arithmetic::div_mod::lemma_fundamental_div_mod_converse(
            len + block - 1,
            block,
            q + 1,
            r - 1,
        );
        assert(q < len) by (nonlinear_arith)
            requires
                len == block * q + r,
                r > 0,
                block > 0,
                q >= 0,
        ;
    }
}

/// Appending an offset that passes the order check keeps the sequence in order.
proof fn lemma_in_order_push(offsets: Seq<u64>, next: u64)
    requires
        in_order(offsets),
        next == 0 || next >= last_written(offsets),
    ensures
        in_order(offsets.push(next)),
{
    let s = offsets.push(next);
    assert forall|i: int| 0 <= i < s.len() implies #[trigger] s[i] == 0 || s[i] >= last_written(
        s.take(i),
    ) by {
        if i < offsets.len() {
            assert(s.take(i) =~= offsets.take(i));
            assert(s[i] == offsets[i]);
        } else {
            assert(s.take(i) =~= offsets);
        }
    }
}


/// The last written offset of a prefix is no smaller than any written offset in
/// that prefix, when the sequence is in order.
#[verifier::rlimit(30)]
proof fn lemma_last_written_bound(offsets: Seq<u64>, i: int, j: int)
    requires
        in_order(offsets),
        0 <= i < j <= offsets.len(),
        offsets[i] != 0,
    ensures
        offsets[i] <= last_written(offsets.take(j)),
    decreases j - i,
{
    let t = offsets.take(j);
    assert(t.drop_last() =~= offsets.take(j - 1));
    assert(t.last() == offsets[j - 1]);
    if j > i + 1 {
        lemma_last_written_bound(offsets, i, j - 1);
        assert(offsets[j - 1] == 0 || offsets[j - 1] >= last_written(offsets.take(j - 1)));
    }
}

/// The last written offset is 0 or one of the written offsets.
proof fn lemma_last_written_is_member(offsets: Seq<u64>)
    ensures
        last_written(offsets) == 0 || exists|k: int|
            0 <= k < offsets.len() && offsets[k] != 0 && #[trigger] offsets[k] == last_written(
                offsets,
            ),
    decreases offsets.len(),
{
    if offsets.len() > 0 && offsets.last() == 0 {
        let d = offsets.drop_last();
        lemma_last_written_is_member(d);
        if last_written(d) != 0 {
            let k = choose|k: int| 0 <= k < d.len() && d[k] != 0 && #[trigger] d[k] == last_written(d);
            assert(offsets[k] == d[k]);
        }
    } else if offsets.len() > 0 {
        assert(offsets[offsets.len() - 1] == last_written(offsets));
    }
}

/// Offsets of tiles that each passed the walk's order check are non-decreasing
/// over the written tiles: of two written tiles, the one visited first never
/// starts later.
pub proof fn lemma_written_offsets_nondecreasing(offsets: Seq<u64>)
    requires
        in_order(offsets),
    ensures
        forall|i: int, j: int|
            0 <= i < j < offsets.len() && #[trigger] offsets[i] != 0 && #[trigger] offsets[j] != 0
                ==> offsets[i] <= offsets[j],
{
    assert forall|i: int, j: int|
        0 <= i < j < offsets.len() && #[trigger] offsets[i] != 0 && #[trigger] offsets[j] != 0
            implies offsets[i] <= offsets[j] by {
        lemma_last_written_bound(offsets, i, j);
    }
}

/// Conversely, written offsets that never decrease in visiting order pass the
/// order check at every tile.
pub proof fn lemma_nondecreasing_offsets_in_order(offsets: Seq<u64>)
    requires
        forall|i: int, j: int|
            0 <= i < j < offsets.len() && #[trigger] offsets[i] != 0 && #[trigger] offsets[j] != 0
                ==> offsets[i] <= offsets[j],
    ensures
        in_order(offsets),
{
    assert forall|i: int| 0 <= i < offsets.len() implies #[trigger] offsets[i] == 0 || offsets[i]
        >= last_written(offsets.take(i)) by {
        let t = offsets.take(i);
        lemma_last_written_is_member(t);
        if offsets[i] != 0 && last_written(t) != 0 {
            let k = choose|k: int| 0 <= k < t.len() && t[k] != 0 && #[trigger] t[k] == last_written(t);
            assert(t[k] == offsets[k]);
        }
    }
}


/// `s` ends with `suffix`.
pub open spec fn has_suffix(s: Seq<char>, suffix: Seq<char>) -> bool {
    suffix.len() <= s.len() && s.subrange(s.len() - suffix.len(), s.len() as int) == suffix
}

fn ends_with(s: &str, suffix: &str) -> (r: bool)
    ensures
        r == has_suffix(s@, suffix@),
{
    let n = s.unicode_len();
    let m = suffix.unicode_len();
    if m > n {
        return false;
    }
    let mut i: usize = 0;
    while i < m
        invariant
            m <= n,
            n == s@.len(),
            m == suffix@.len(),
            i <= m,
            forall|k: int| 0 <= k < i ==> #[trigger] suffix@[k] == s@[n - m + k],
        decreases m - i,
    {
        if s.get_char(n - m + i) != suffix.get_char(i) {
            assert(s@.subrange(n - m, n as int)[i as int] != suffix@[i as int]);
            return false;
        }
        i = i + 1;
    }
    assert(s@.subrange(n - m, n as int) =~= suffix@);
    true
}

/// The suffix of an external overview file.
pub open spec fn ovr_suffix() -> Seq<char> {
    seq!['.', 'o', 'v', 'r']
}

/// Some side file of the resource holds external overviews.
pub open spec fn has_external_ovr(files: Seq<String>) -> bool {
    exists|i: int| 0 <= i < files.len() && has_suffix(#[trigger] files[i]@, ovr_suffix())
}

/// The side-file check: overviews must be internal, so no file that belongs
/// to the resource may be an external `.ovr` overview file.
pub fn _check_external_ovr(file_list: Vec<String>) -> (r: Result<bool, ValidateCOGError>)
    ensures
        outcome(r) == (if has_external_ovr(file_list@) {
            Err::<bool, Fault>(Fault::ExternalOvr)
        } else {
            Ok(true)
        }),
{
    let mut i: usize = 0;
    while i < file_list.len()
        invariant
            i <= file_list@.len(),
            forall|k: int| 0 <= k < i ==> !has_suffix(#[trigger] file_list@[k]@, ovr_suffix()),
        decreases file_list@.len() - i,
    {
        let name: &str = file_list[i].as_str();
        let suffix: &str = ".ovr";
        proof {
            reveal_strlit(".ovr");
        }
        assert(suffix@ =~= ovr_suffix());
        assert(name@ == file_list@[i as int]@);
        if ends_with(name, suffix) {
            return Err(ValidateCOGError::ExternalOvrError);
        }
        i = i + 1;
    }
    Ok(true)
}

/// The short name of the raster-TIFF driver.
pub open spec fn gtiff_name() -> Seq<char> {
    seq!['G', 'T', 'i', 'f', 'f']
}

/// The driver check: the resource must be read by the raster-TIFF driver,
/// since only it records tile offsets and byte counts.
pub fn _check_driver(short_name: &str) -> (r: Result<bool, ValidateCOGError>)
    ensures
        outcome(r) == (if short_name@ == gtiff_name() {
            Ok::<bool, Fault>(true)
        } else {
            Err(Fault::NotGeoTiff)
        }),
{
    proof {
        reveal_strlit("GTiff");
    }
    let gtiff: &str = "GTiff";
    assert(gtiff@ =~= gtiff_name());
    proof {
        if short_name@ == gtiff_name() {
            assert(short_name@.subrange(0, 5) =~= short_name@);
        }
    }
    if short_name.unicode_len() == 5 && ends_with(short_name, gtiff) {
        assert(short_name@ =~= short_name@.subrange(0, 5));
        Ok(true)
    } else {
        Err(ValidateCOGError::NotGeoTIFFError)
    }
}

/// A main band of more than 512 pixels in either direction.
pub open spec fn is_large(width: usize, height: usize) -> bool {
    width > 512 || height > 512
}

/// A large main band whose blocks are full-width strips wider than 1024.
pub open spec fn is_untiled(width: usize, height: usize, block_width: usize) -> bool {
    is_large(width, height) && block_width == width && block_width > 1024
}

/// The main band's tiling check: a large band must not be stored as strips
/// spanning its full width (only the width is considered).
pub fn _check_main_band(width: usize, height: usize, block_width: usize) -> (r: Result<
    bool,
    ValidateCOGError,
>)
    ensures
        outcome(r) == (if is_untiled(width, height, block_width) {
            Err::<bool, Fault>(Fault::NotTiled)
        } else {
            Ok(true)
        }),
{
    if (width > 512 || height > 512) && block_width == width && block_width > 1024 {
        return Err(ValidateCOGError::NotTiledError);
    }
    Ok(true)
}

/// Whether to advise internal overviews: the main band is large and has none.
/// The advice never affects the outcome.
pub fn recommend_overviews(width: usize, height: usize, overview_count: usize) -> (r: bool)
    ensures
        r == (is_large(width, height) && overview_count == 0),
{
    (width > 512 || height > 512) && overview_count == 0
}

/// The label of the main band in failures.
pub const MAIN_BAND_NAME: &'static str = "Main resolution image";

/// The label of overview `i`: `overview_<i>`.
pub open spec fn overview_name(i: nat) -> Seq<char> {
    seq!['o', 'v', 'e', 'r', 'v', 'i', 'e', 'w', '_'] + decimal(i)
}

/// The label in failures of the overview at index `i` (0 is the finest).
pub fn overview_label(i: usize) -> (r: String)
    ensures
        r@ == overview_name(i as nat),
{
    proof {
        reveal_strlit("overview_");
    }
    let mut s = String::from_str("overview_");
    push_decimal(&mut s, i);
    s
}

/// A band to validate, in the order the resource is walked: the main band,
/// its mask, then each overview from the finest, each followed by its mask.
#[derive(Debug, Clone, Copy, PartialEq, Eq, Structural)]
pub enum BandStep {
    Main,
    MainMask,
    Overview(usize),
    OverviewMask(usize),
    Done,
}

/// What follows overview `i` and its mask.
pub open spec fn after_overview(i: usize, overview_count: usize) -> BandStep {
    if i + 1 < overview_count {
        BandStep::Overview((i + 1) as usize)
    } else {
        BandStep::Done
    }
}

/// The band after `step`. `per_dataset_mask` says whether the band of `step`
/// (the main band or an overview) has a per-dataset mask, which is then
/// validated next; it is not consulted for a mask or at the end.
pub open spec fn next_band_spec(step: BandStep, overview_count: usize, per_dataset_mask: bool) -> BandStep {
    match step {
        BandStep::Main => if per_dataset_mask {
            BandStep::MainMask
        } else if overview_count > 0 {
            BandStep::Overview(0)
        } else {
            BandStep::Done
        },
        BandStep::MainMask => if overview_count > 0 {
            BandStep::Overview(0)
        } else {
            BandStep::Done
        },
        BandStep::Overview(i) => if per_dataset_mask {
            BandStep::OverviewMask(i)
        } else {
            after_overview(i, overview_count)
        },
        BandStep::OverviewMask(i) => after_overview(i, overview_count),
        BandStep::Done => BandStep::Done,
    }
}

fn after_overview_exec(i: usize, overview_count: usize) -> (r: BandStep)
    ensures
        r == after_overview(i, overview_count),
{
    if overview_count > 0 && i < overview_count - 1 {
        BandStep::Overview(i + 1)
    } else {
        BandStep::Done
    }
}

/// The band to validate after `step`, for a main band with `overview_count`
/// overviews.
pub fn next_band(step: BandStep, overview_count: usize, per_dataset_mask: bool) -> (r: BandStep)
    ensures
        r == next_band_spec(step, overview_count, per_dataset_mask),
{
    match step {
        BandStep::Main => if per_dataset_mask {
            BandStep::MainMask
        } else if overview_count > 0 {
            BandStep::Overview(0)
        } else {
            BandStep::Done
        },
        BandStep::MainMask => if overview_count > 0 {
            BandStep::Overview(0)
        } else {
            BandStep::Done
        },
        BandStep::Overview(i) => if per_dataset_mask {
            BandStep::OverviewMask(i)
        } else {
            after_overview_exec(i, overview_count)
        },
        BandStep::OverviewMask(i) => after_overview_exec(i, overview_count),
        BandStep::Done => BandStep::Done,
    }
}

/// The label of the main band in failures, as characters.
pub open spec fn main_band_name() -> Seq<char> {
    seq![
        'M', 'a', 'i', 'n', ' ', 'r', 'e', 's', 'o', 'l', 'u', 't', 'i', 'o', 'n', ' ', 'i', 'm',
        'a', 'g', 'e',
    ]
}

/// The label under which a band's failures are reported: a mask is labelled
/// as the band it belongs to.
pub open spec fn band_name_of(step: BandStep) -> Seq<char> {
    match step {
        BandStep::Main | BandStep::MainMask => main_band_name(),
        BandStep::Overview(i) | BandStep::OverviewMask(i) => overview_name(i as nat),
        BandStep::Done => Seq::empty(),
    }
}

/// The label of the band of `step` in failures.
pub fn band_label(step: BandStep) -> (r: String)
    requires
        step != BandStep::Done,
    ensures
        r@ == band_name_of(step),
{
    match step {
        BandStep::Overview(i) | BandStep::OverviewMask(i) => overview_label(i),
        _ => {
            proof {
                reveal_strlit("Main resolution image");
            }
            let s = String::from_str(MAIN_BAND_NAME);
            assert(s@ =~= main_band_name());
            s
        },
    }
}

/// Overviews follow one another: after overview `i`, directly or through its
/// mask, comes overview `i + 1` while there is one; and a mask is labelled as
/// the overview it belongs to.
pub proof fn lemma_overviews_follow_in_order(i: usize, overview_count: usize, mask: bool)
    requires
        i + 1 < overview_count,
    ensures
        next_band_spec(BandStep::Overview(i), overview_count, false) == BandStep::Overview(
            (i + 1) as usize,
        ),
        next_band_spec(BandStep::OverviewMask(i), overview_count, mask) == BandStep::Overview(
            (i + 1) as usize,
        ),
        next_band_spec(BandStep::Overview(i), overview_count, true) == BandStep::OverviewMask(i),
        band_name_of(BandStep::OverviewMask(i)) == band_name_of(BandStep::Overview(i)),
{
}

/// What a read of `len` bytes at `pos` returns from a resource holding `data`:
/// those bytes, or a failed read when they are not all there.
pub open spec fn read_of(data: Seq<u8>, pos: int, len: int) -> Result<Seq<u8>, VSIError> {
    if 0 <= pos && pos + len <= data.len() {
        Ok(data.subrange(pos, pos + len))
    } else {
        Err(VSIError::ReadError)
    }
}

/// A written tile is well framed in `data`: a tile of more than four bytes is
/// preceded by four bytes holding its byte count (little-endian), and a tile of
/// four or more is followed by four bytes repeating its last four.
pub open spec fn well_framed(data: Seq<u8>, offset: u64, byte_count: u64) -> bool {
    &&& (leader_needed(byte_count) ==> offset >= 4 && offset <= data.len() && le_u32(
        data.subrange(offset - 4, offset as int),
    ) == byte_count)
    &&& (trailer_needed(byte_count) ==> offset + byte_count + 4 <= data.len() && data.subrange(
        offset + byte_count - 4,
        offset + byte_count,
    ) == data.subrange(offset + byte_count, offset + byte_count + 4))
}

/// A well-framed tile passes both integrity checks on what the reads at its
/// leader and trailer positions return.
pub proof fn lemma_well_framed_tile_passes(
    band: Seq<char>,
    x: usize,
    y: usize,
    data: Seq<u8>,
    offset: u64,
    byte_count: u64,
)
    requires
        well_framed(data, offset, byte_count),
        data.len() <= u64::MAX,
    ensures
        leader_verdict(band, x, y, offset, byte_count, read_of(data, offset - 4, 4)) == Ok::<
            bool,
            Fault,
        >(true),
        trailer_verdict(band, x, y, offset, byte_count, read_of(data, offset + byte_count - 4, 8))
            == Ok::<bool, Fault>(true),
{
    if trailer_needed(byte_count) {
        let p = offset + byte_count - 4;
        let b = data.subrange(p, p + 8);
        assert(b.subrange(0, 4) =~= data.subrange(p, p + 4));
        assert(b.subrange(4, 8) =~= data.subrange(p + 4, p + 8));
    }
}

} // verus!
