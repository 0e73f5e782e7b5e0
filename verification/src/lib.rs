//! A minimal image-carousel core: a directory listing filtered down to image
//! file names, a cursor over that list, and the handle of the image shown at
//! the cursor. The filtering rules and the cursor arithmetic live here, fully
//! verified; reading the directory, decoding image bytes and drawing the
//! window are left to the surrounding application.

pub mod carousel;
pub mod filter;
