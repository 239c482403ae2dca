//! Classification and placement of image files.
//!
//! A run takes the images of a directory tree and copies each of them into
//! a new tree, below directories named by the period it was taken in, the
//! place it was taken at and, if asked for, the device that took it. Images
//! that cannot be classified are copied aside; files that are no images are
//! left alone; whatever fails is noted and does not stop the run.
//!
//! This library holds the rules of such a run, each with its contract, and
//! touches neither the filesystem nor the image files. Where something is
//! to be read, created, searched or copied, it says so and takes the
//! outcome:
//!
//! - [`sanitizer`] makes safe directory names of any text.
//! - [`coordinates`] decodes positions and quantizes them to grid cells.
//! - [`place_finder`] caches the names of places by grid cell.
//! - [`exif`] classifies an image by its tags.
//! - [`directories`] names the directories of the sorted tree and remembers
//!   which of them exist.
//! - [`duplicates`] finds a free name for a file whose own name is taken.
//! - [`images_manager`] leads one file from its metadata to its end.
//! - [`reporting`] and [`performance`] count and time what happens, and
//!   [`summary`] computes what the closing report shows.
//! - [`global_configuration`] holds the settings of a run.
//! - [`paths`] and [`text`] are the building blocks of the others.
pub mod coordinates;
pub mod directories;
pub mod duplicates;
pub mod exif;
pub mod global_configuration;
pub mod images_manager;
pub mod paths;
pub mod performance;
pub mod place_finder;
pub mod reporting;
pub mod sanitizer;
pub mod summary;
pub mod text;
