//! Checks that a raster resource has the cloud-optimized layout: tiled, with
//! internal overviews, tile payloads in raster order, and each tile framed by a
//! leader holding its size and a trailer repeating its last bytes.
//!
//! The raster backend and the byte-range accessor are driven by the caller:
//! the library decides, from the values they report, what to read next and
//! whether the resource passes.
use vstd::prelude::*;

pub mod tags;
pub mod validator;
pub mod vsi;

use crate::validator::{
    _check_driver, _check_external_ovr, _check_main_band, gtiff_name, has_external_ovr, is_untiled,
    outcome, Fault, ValidateCOGError,
};

verus! {

/// The checks on a resource as a whole, made before any tile is read: the
/// driver must be the raster-TIFF one, no side file may hold external
/// overviews, and a large main band must be tiled. The first that fails is
/// returned.
pub fn cog_validator(
    driver: &str,
    file_list: Vec<String>,
    width: usize,
    height: usize,
    block_width: usize,
) -> (r: Result<bool, ValidateCOGError>)
    ensures
        outcome(r) == (if driver@ != gtiff_name() {
            Err::<bool, Fault>(Fault::NotGeoTiff)
        } else if has_external_ovr(file_list@) {
            Err(Fault::ExternalOvr)
        } else if is_untiled(width, height, block_width) {
            Err(Fault::NotTiled)
        } else {
            Ok(true)
        }),
{
    _check_driver(driver)?;
    _check_external_ovr(file_list)?;
    _check_main_band(width, height, block_width)
}

} // verus!
