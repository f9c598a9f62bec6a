use cog_validator::cog_validator;
use cog_validator::validator::{
    _check_external_ovr, _check_leader_size, _check_main_band, _check_tile, _check_trailer_bytes,
    band_label, leader_position, next_band, overview_label, recommend_overviews, trailer_position,
    BandStep, BlockWalk, TileData, ValidateCOGError, MAIN_BAND_NAME,
};
use cog_validator::vsi::VSIError;

/// Reads `len` bytes at `pos` of `data`, failing on a short read.
fn read_at(data: &[u8], pos: u64, len: usize) -> Result<Vec<u8>, ValidateCOGError> {
    let start = pos as usize;
    if start + len > data.len() {
        return Err(ValidateCOGError::VSIError(VSIError::ReadError));
    }
    Ok(data[start..start + len].to_vec())
}

/// Reads as the accessor does, reporting its own error.
fn read_vsi(data: &[u8], pos: u64, len: usize) -> Result<Vec<u8>, VSIError> {
    read_at(data, pos, len).map_err(|_| VSIError::ReadError)
}

/// Runs a whole band walk over an in-memory resource.
fn run_band(
    name: &str,
    size: (usize, usize, usize, usize),
    tiles: &[(Option<u64>, Option<u64>)],
    data: &[u8],
) -> Result<(), ValidateCOGError> {
    let mut walk = BlockWalk::new(name, size.0, size.1, size.2, size.3);
    let mut i = 0;
    while let Some((_x, _y)) = walk.next_tile() {
        let (o, b) = tiles[i];
        i += 1;
        if let Some(t) = walk._validate_block(o, b)? {
            let leader = match leader_position(t.offset, t.byte_count) {
                Ok(Some(p)) => read_vsi(data, p, 4),
                _ => Ok(Vec::new()),
            };
            let tail = match trailer_position(t.offset, t.byte_count) {
                Ok(Some(p)) => read_vsi(data, p, 8),
                _ => Ok(Vec::new()),
            };
            _check_tile(name, t, leader, tail)?;
        }
    }
    Ok(())
}

/// A resource with well-framed tiles of the given payloads, one after another;
/// returns the bytes and each tile's (offset, byte count).
fn framed(payloads: &[&[u8]]) -> (Vec<u8>, Vec<(Option<u64>, Option<u64>)>) {
    let mut data = vec![0u8; 16];
    let mut tiles = Vec::new();
    for p in payloads {
        data.extend_from_slice(&(p.len() as u32).to_le_bytes());
        let offset = data.len() as u64;
        data.extend_from_slice(p);
        data.extend_from_slice(&p[p.len() - 4..]);
        tiles.push((Some(offset), Some(p.len() as u64)));
    }
    (data, tiles)
}

#[test]
fn test_cog_validator_from_http() {
    let result = cog_validator("HTTP", vec![], 1024, 1024, 256);
    assert_eq!(result.is_err(), true)
}

#[test]
fn valid_layout_passes_every_check() {
    let (data, tiles) = framed(&[b"abcdefgh", b"0123456789", b"ABCDEFGHIJKL", b"zyxwvu"]);
    assert!(run_band(MAIN_BAND_NAME, (512, 512, 256, 256), &tiles, &data).is_ok());
    assert!(matches!(
        cog_validator("GTiff", vec!["a.tif".to_string()], 512, 512, 256),
        Ok(true)
    ));
}

#[test]
fn sparse_tiles_are_skipped_and_do_not_reset_order() {
    let (data, mut tiles) = framed(&[b"abcdefgh", b"0123456789", b"ABCDEFGHIJKL"]);
    tiles.insert(1, (Some(0), Some(0)));
    assert!(run_band("b", (4, 1, 1, 1), &tiles, &data).is_ok());
}

#[test]
fn out_of_order_tile_reports_first_violator() {
    let (data, mut tiles) = framed(&[b"abcdefgh", b"0123456789", b"ABCDEFGHIJKL", b"zyxwvu"]);
    tiles.swap(2, 3);
    let r = run_band("band", (2, 2, 1, 1), &tiles, &data);
    match r {
        Err(ValidateCOGError::BlockOffsetError { band_name, x, y }) => {
            assert_eq!(band_name, "band");
            assert_eq!((x, y), (1, 1));
        }
        other => panic!("unexpected {:?}", other),
    }
}

#[test]
fn order_is_kept_across_rows() {
    let mut walk = BlockWalk::new("b", 2, 2, 1, 1);
    assert_eq!(walk.next_tile(), Some((0, 0)));
    assert!(matches!(walk._validate_block(Some(100), Some(2)), Ok(Some(_))));
    assert_eq!(walk.next_tile(), Some((1, 0)));
    assert!(matches!(walk._validate_block(Some(0), Some(0)), Ok(None)));
    assert_eq!(walk.next_tile(), Some((0, 1)));
    let r = walk._validate_block(Some(50), Some(2));
    assert!(matches!(r, Err(ValidateCOGError::BlockOffsetError { x: 0, y: 1, .. })));
}

#[test]
fn walk_visits_ceiling_of_tile_grid() {
    let mut walk = BlockWalk::new("b", 5, 3, 2, 2);
    assert_eq!(walk.tile_grid(), (3, 2));
    let mut seen = Vec::new();
    let mut offset = 10;
    while let Some(xy) = walk.next_tile() {
        seen.push(xy);
        let t = walk._validate_block(Some(offset), Some(1)).unwrap().unwrap();
        assert_eq!(t, TileData { x: xy.0, y: xy.1, offset, byte_count: 1 });
        offset += 10;
    }
    assert_eq!(seen, vec![(0, 0), (1, 0), (2, 0), (0, 1), (1, 1), (2, 1)]);
}

#[test]
fn missing_tag_is_empty_offset_error() {
    let mut walk = BlockWalk::new("b", 1, 1, 1, 1);
    let r = walk._validate_block(None, Some(10));
    assert!(matches!(r, Err(ValidateCOGError::EmptyOffsetError { x: 0, y: 0 })));
    let mut walk = BlockWalk::new("b", 1, 1, 1, 1);
    let r = walk._validate_block(Some(10), None);
    assert!(matches!(r, Err(ValidateCOGError::EmptyOffsetError { x: 0, y: 0 })));
}

#[test]
fn leader_off_by_one_reports_both_values() {
    let leader = 11u32.to_le_bytes();
    match _check_leader_size("b", 3, 4, 100, 10, &leader) {
        Err(ValidateCOGError::LeaderSizeError { band_name, x, y, leader_size, byte_count }) => {
            assert_eq!(band_name, "b");
            assert_eq!((x, y, leader_size, byte_count), (3, 4, 11, 10));
        }
        other => panic!("unexpected {:?}", other),
    }
    assert!(matches!(_check_leader_size("b", 0, 0, 8, 0x0403_0201, &[1, 2, 3, 4]), Ok(true)));
}

#[test]
fn leader_mismatch_in_resource() {
    let (mut data, tiles) = framed(&[b"abcdefgh", b"0123456789"]);
    let second = tiles[1].0.unwrap() as usize;
    data[second - 4] = 11;
    let r = run_band("b", (2, 1, 1, 1), &tiles, &data);
    assert!(matches!(
        r,
        Err(ValidateCOGError::LeaderSizeError { x: 1, y: 0, leader_size: 11, byte_count: 10, .. })
    ));
}

#[test]
fn corrupt_trailer_fails_for_that_tile() {
    let (mut data, tiles) = framed(&[b"abcdefgh", b"0123456789", b"ABCDEFGHIJKL"]);
    let (o, b) = (tiles[1].0.unwrap(), tiles[1].1.unwrap());
    data[(o + b) as usize + 2] ^= 0xff;
    let r = run_band("b", (3, 1, 1, 1), &tiles, &data);
    assert!(matches!(r, Err(ValidateCOGError::TrailerBytesError { x: 1, y: 0, .. })));
    assert!(matches!(_check_trailer_bytes("b", 0, 0, 100, 8, b"wxyzwxyz"), Ok(true)));
}

#[test]
fn short_tiles_skip_leader_and_trailer() {
    assert!(matches!(leader_position(100, 4), Ok(None)));
    assert!(matches!(leader_position(100, 5), Ok(Some(96))));
    assert!(matches!(trailer_position(100, 3), Ok(None)));
    assert!(matches!(trailer_position(100, 4), Ok(Some(100))));
    assert!(matches!(trailer_position(100, 10), Ok(Some(106))));
}

#[test]
fn unaddressable_frames_are_read_errors() {
    assert!(matches!(
        leader_position(3, 10),
        Err(ValidateCOGError::VSIError(VSIError::ReadError))
    ));
    assert!(matches!(
        trailer_position(u64::MAX - 8, 8),
        Err(ValidateCOGError::VSIError(VSIError::ReadError))
    ));
}

#[test]
fn wrong_driver_fails_first() {
    let r = cog_validator("PNG", vec!["x.ovr".to_string()], 4096, 4096, 4096);
    assert!(matches!(r, Err(ValidateCOGError::NotGeoTIFFError)));
}

#[test]
fn external_overview_file_fails() {
    let files = vec!["image.tif".to_string(), "image.tif.ovr".to_string()];
    let r = cog_validator("GTiff", files, 256, 256, 256);
    assert!(matches!(r, Err(ValidateCOGError::ExternalOvrError)));
    assert!(matches!(_check_external_ovr(vec!["a.ovr.tif".to_string()]), Ok(true)));
    assert!(matches!(_check_external_ovr(vec![]), Ok(true)));
}

#[test]
fn full_width_strips_are_not_tiled() {
    assert!(matches!(_check_main_band(2048, 100, 2048), Err(ValidateCOGError::NotTiledError)));
    assert!(matches!(_check_main_band(2048, 2048, 256), Ok(true)));
    assert!(matches!(_check_main_band(1024, 2048, 1024), Ok(true)));
    assert!(matches!(_check_main_band(500, 500, 500), Ok(true)));
    let r = cog_validator("GTiff", vec![], 2048, 2048, 2048);
    assert!(matches!(r, Err(ValidateCOGError::NotTiledError)));
    assert!(matches!(cog_validator("GTiff", vec![], 2048, 2048, 256), Ok(true)));
}

#[test]
fn overviews_advised_for_large_bands_only() {
    assert!(recommend_overviews(1000, 10, 0));
    assert!(!recommend_overviews(1000, 10, 2));
    assert!(!recommend_overviews(512, 512, 0));
}

#[test]
fn validation_twice_gives_same_outcome() {
    let (mut data, tiles) = framed(&[b"abcdefgh", b"0123456789"]);
    let last = data.len() - 1;
    data[last] ^= 1;
    let a = format!("{:?}", run_band("b", (2, 1, 1, 1), &tiles, &data));
    let b = format!("{:?}", run_band("b", (2, 1, 1, 1), &tiles, &data));
    assert_eq!(a, b);
}

#[test]
fn overview_mask_trailer_is_labelled_by_overview() {
    let label = overview_label(2);
    assert_eq!(label, "overview_2");
    let (mut data, tiles) = framed(&[b"abcdefgh", b"0123456789"]);
    let last = data.len() - 1;
    data[last] ^= 1;
    match run_band(&label, (2, 1, 1, 1), &tiles, &data) {
        Err(ValidateCOGError::TrailerBytesError { band_name, x, y }) => {
            assert_eq!(band_name, "overview_2");
            assert_eq!((x, y), (1, 0));
        }
        other => panic!("unexpected {:?}", other),
    }
    assert_eq!(overview_label(13), "overview_13");
}

#[test]
fn accessor_failures_convert_into_validation_failures() {
    let e: ValidateCOGError = VSIError::SeekError.into();
    assert!(matches!(e, ValidateCOGError::VSIError(VSIError::SeekError)));
}

#[test]
fn short_tiles_pass_without_leader_or_trailer() {
    assert!(matches!(_check_leader_size("b", 0, 0, 100, 4, &[1, 0, 0, 0]), Ok(true)));
    assert!(matches!(_check_leader_size("b", 0, 0, 100, 0, &[]), Ok(true)));
    assert!(matches!(_check_trailer_bytes("b", 0, 0, 100, 3, &[]), Ok(true)));
    let t = TileData { x: 0, y: 0, offset: 100, byte_count: 2 };
    assert!(matches!(
        _check_tile("b", t, Err(VSIError::ReadError), Err(VSIError::ReadError)),
        Ok(true)
    ));
}

#[test]
fn leader_and_trailer_out_of_range_are_read_errors() {
    let r = _check_leader_size("b", 0, 0, 2, 10, &[10, 0, 0, 0]);
    assert!(matches!(r, Err(ValidateCOGError::VSIError(VSIError::ReadError))));
    let r = _check_trailer_bytes("b", 0, 0, u64::MAX - 8, 8, b"wxyzwxyz");
    assert!(matches!(r, Err(ValidateCOGError::VSIError(VSIError::ReadError))));
    let r = _check_trailer_bytes("b", 0, 0, 100, 8, b"wxyz");
    assert!(matches!(r, Err(ValidateCOGError::VSIError(VSIError::ReadError))));
}

#[test]
fn leader_failure_wins_over_trailer_failure() {
    let t = TileData { x: 1, y: 2, offset: 100, byte_count: 10 };
    let r = _check_tile("b", t, Ok(11u32.to_le_bytes().to_vec()), Ok(b"aaaabbbb".to_vec()));
    assert!(matches!(r, Err(ValidateCOGError::LeaderSizeError { leader_size: 11, .. })));
    let r = _check_tile("b", t, Err(VSIError::SeekError), Err(VSIError::ReadError));
    assert!(matches!(r, Err(ValidateCOGError::VSIError(VSIError::SeekError))));
    let r = _check_tile("b", t, Ok(10u32.to_le_bytes().to_vec()), Ok(b"aaaabbbb".to_vec()));
    assert!(matches!(r, Err(ValidateCOGError::TrailerBytesError { x: 1, y: 2, .. })));
    let r = _check_tile("b", t, Ok(10u32.to_le_bytes().to_vec()), Ok(b"aaaaaaaa".to_vec()));
    assert!(matches!(r, Ok(true)));
}

#[test]
fn bands_are_walked_main_mask_then_overviews() {
    let masks = [true, false, true];
    let mut step = BandStep::Main;
    let mut seen = Vec::new();
    let mut k = 0;
    while step != BandStep::Done {
        seen.push((step, band_label(step)));
        let mask = match step {
            BandStep::Main | BandStep::Overview(_) => {
                k += 1;
                masks[k - 1]
            }
            _ => false,
        };
        step = next_band(step, 2, mask);
    }
    let steps: Vec<BandStep> = seen.iter().map(|s| s.0).collect();
    assert_eq!(
        steps,
        vec![BandStep::Main, BandStep::MainMask, BandStep::Overview(0), BandStep::Overview(1), BandStep::OverviewMask(1)]
    );
    assert_eq!(seen[1].1, "Main resolution image");
    assert_eq!(seen[4].1, "overview_1");
    assert_eq!(next_band(BandStep::Main, 0, false), BandStep::Done);
    assert_eq!(next_band(BandStep::MainMask, 0, true), BandStep::Done);
}

#[test]
fn overview_two_mask_is_labelled_overview_2() {
    assert_eq!(next_band(BandStep::Overview(2), 4, true), BandStep::OverviewMask(2));
    assert_eq!(band_label(BandStep::OverviewMask(2)), "overview_2");
}
