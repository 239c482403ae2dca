//! From the metadata of one image to what it is classified by: the period it
//! was taken in, the place it was taken at, and the device that took it.
use crate::coordinates::{
    decode_dms, described, is_decodable, angle_of, Angle, Coordinate, PlaceFinderError, Rational,
};
use crate::place_finder::{
    name_of, searched_name, stored, touched, GeocodeCache, PlaceRequest, NULL_ISLAND,
    UNKNOWN_PLACE,
};
use crate::sanitizer::{sanitized, Directory};
use vstd::prelude::*;
use vstd::string::StringExecFns;

verus! {

/// The period of an image without a date.
pub const UNKNOWN_DATE: &'static str = "Unknown Date";

/// The device of an image that names none.
pub const UNKNOWN_DEVICE: &'static str = "Unknown Device";

/// What an image is classified by, with the position it was taken at.
#[derive(Debug)]
pub struct ExifData {
    pub year_month: Directory,
    pub gps_lat: Coordinate,
    pub gps_long: Coordinate,
    pub place: Directory,
    pub device: Directory,
}

/// Why the metadata of a file could not be had.
#[derive(Debug)]
pub enum ExifError {
    /// The image holds no metadata.
    NoExifData,
    /// The file is no image; the text says why.
    NotImageFile(String),
    /// The file could not be read; the text says why.
    IO(String),
    /// The coordinates, written out, could not be decoded.
    Decoding(String),
}

/// An [`ExifError`] in words.
pub open spec fn error_text(error: ExifError) -> Seq<char> {
    match error {
        ExifError::NoExifData => "No Exif Data in the image"@,
        ExifError::NotImageFile(reason) => "The file processed is not an image "@ + reason@,
        ExifError::IO(reason) => reason@,
        ExifError::Decoding(coordinates) => "Coords "@ + coordinates@ + " can't be processed"@,
    }
}

impl ExifError {
    /// The error in words.
    pub fn message(&self) -> (r: String)
        ensures
            r@ == error_text(*self),
    {
        match self {
            ExifError::NoExifData => "No Exif Data in the image".to_owned(),
            ExifError::NotImageFile(reason) => {
                let mut out = "The file processed is not an image ".to_owned();
                out.append(reason.as_str());
                out
            },
            ExifError::IO(reason) => reason.clone(),
            ExifError::Decoding(coordinates) => {
                let mut out = "Coords ".to_owned();
                out.append(coordinates.as_str());
                out.append(" can't be processed");
                out
            },
        }
    }
}

/// The value of a position tag.
#[derive(Debug)]
pub enum GpsValue {
    /// Degrees, minutes and seconds, as the tag should hold them.
    Rational(Vec<Rational>),
    /// A value of any other kind.
    Other,
}

/// The tags of an image that classification reads, each as the decoder
/// displays it, or absent.
#[derive(Debug)]
pub struct ExifFields {
    pub date_time_original: Option<String>,
    pub date_time_digitized: Option<String>,
    pub model: Option<String>,
    pub gps_latitude: Option<GpsValue>,
    pub gps_latitude_ref: Option<String>,
    pub gps_longitude: Option<GpsValue>,
    pub gps_longitude_ref: Option<String>,
}

/// Where the analysis of an image stands.
#[derive(Debug)]
pub enum Analysis {
    /// Everything is known.
    Complete(ExifData),
    /// The place of the grid cell is not in the cache and is to be
    /// searched; [`complete_place`] takes the outcome.
    SearchPlace { data: ExifData, cell: (i32, i32) },
}

/// The part of a timestamp that names year and month: its first seven
/// characters, or all of them where it is shorter.
pub open spec fn period_prefix(timestamp: Seq<char>) -> Seq<char> {
    if timestamp.len() < 7 {
        timestamp
    } else {
        timestamp.take(7)
    }
}

/// The period of an image: from the time it was taken, else from the time
/// it was digitized, else [`UNKNOWN_DATE`].
pub open spec fn period_of(fields: ExifFields) -> Seq<char> {
    match fields.date_time_original {
        Some(t) => sanitized(period_prefix(t@)),
        None => match fields.date_time_digitized {
            Some(t) => sanitized(period_prefix(t@)),
            None => sanitized(UNKNOWN_DATE@),
        },
    }
}

/// The device of an image: its model, else [`UNKNOWN_DEVICE`].
pub open spec fn device_of(fields: ExifFields) -> Seq<char> {
    match fields.model {
        Some(m) => sanitized(m@),
        None => sanitized(UNKNOWN_DEVICE@),
    }
}

/// Whether a hemisphere is the northern or the eastern one.
pub open spec fn is_north_or_east(reference: Seq<char>) -> bool {
    reference == seq!['N'] || reference == seq!['E']
}

/// The angle that a position tag and its hemisphere give, or the values
/// written out where they cannot be decoded. A tag that is absent, or is no
/// list of fractions, or comes without a hemisphere, gives the angle zero.
pub open spec fn coordinate_of(value: Option<GpsValue>, reference: Option<String>) -> Result<
    Angle,
    Seq<char>,
> {
    match value {
        Some(GpsValue::Rational(values)) => {
            if !is_decodable(values@) {
                Err(described(values@))
            } else {
                match reference {
                    Some(r) => Ok(angle_of(values@, !is_north_or_east(r@))),
                    None => Ok(Angle::zero()),
                }
            }
        },
        _ => Ok(Angle::zero()),
    }
}

/// The names that stand for what is not known are safe as they are:
/// sanitizing leaves them unchanged.
pub proof fn lemma_sentinels_are_safe()
    ensures
        sanitized(NULL_ISLAND@) == NULL_ISLAND@,
        sanitized(UNKNOWN_PLACE@) == UNKNOWN_PLACE@,
        sanitized(UNKNOWN_DATE@) == UNKNOWN_DATE@,
        sanitized(UNKNOWN_DEVICE@) == UNKNOWN_DEVICE@,
{
    reveal_strlit("Null Island");
    reveal_strlit("Unknown Place");
    reveal_strlit("Unknown Date");
    reveal_strlit("Unknown Device");
    assert(sanitized(NULL_ISLAND@) =~= NULL_ISLAND@);
    assert(sanitized(UNKNOWN_PLACE@) =~= UNKNOWN_PLACE@);
    assert(sanitized(UNKNOWN_DATE@) =~= UNKNOWN_DATE@);
    assert(sanitized(UNKNOWN_DEVICE@) =~= UNKNOWN_DEVICE@);
}

/// The period that a timestamp names, if there is a timestamp.
pub fn analyze_exif_datetime(date_time: &Option<String>) -> (r: Option<Directory>)
    ensures
        match *date_time {
            Some(t) => r matches Some(d) && d@ == sanitized(period_prefix(t@)),
            None => r.is_none(),
        },
{
    match date_time {
        Some(timestamp) => {
            let text = timestamp.as_str();
            let n = text.unicode_len();
            let end: usize = if n < 7 {
                n
            } else {
                7
            };
            let prefix = text.substring_char(0, end);
            assert(prefix@ =~= period_prefix(text@));
            Some(Directory::parse(prefix.to_owned()))
        },
        None => None,
    }
}

fn north_or_east(reference: &str) -> (r: bool)
    ensures
        r == is_north_or_east(reference@),
{
    let n = reference.unicode_len();
    if n != 1 {
        assert(seq!['N'].len() == 1 && seq!['E'].len() == 1);
        return false;
    }
    let c = reference.get_char(0);
    assert(reference@ =~= seq![c]);
    assert(seq!['N'][0] == 'N' && seq!['E'][0] == 'E');
    c == 'N' || c == 'E'
}

/// Decodes latitude or longitude from its tag and the tag of its
/// hemisphere. South and west count negative.
pub fn analyze_exif_lat_long(value: &Option<GpsValue>, reference: &Option<String>) -> (r: Result<
    Coordinate,
    ExifError,
>)
    ensures
        match coordinate_of(*value, *reference) {
            Ok(angle) => r matches Ok(c) && c@ == angle,
            Err(text) => r matches Err(ExifError::Decoding(d)) && d@ == text,
        },
{
    match value {
        Some(GpsValue::Rational(values)) => {
            let negative = match reference {
                Some(r) => !north_or_east(r.as_str()),
                None => false,
            };
            match decode_dms(values, negative) {
                Ok(c) => match reference {
                    Some(_) => Ok(c),
                    None => Ok(Coordinate::zero()),
                },
                Err(PlaceFinderError::Decode(text)) => Err(ExifError::Decoding(text)),
            }
        },
        _ => Ok(Coordinate::zero()),
    }
}

/// Classifies an image by its tags.
///
/// Period and device come from the tags, the place from the position: the
/// position zero stands for [`NULL_ISLAND`]; any other is looked up in the
/// cache by its grid cell. A cell that the cache lacks is handed back for
/// its place to be searched, with [`UNKNOWN_PLACE`] standing in meanwhile.
/// Fails where latitude or longitude cannot be decoded, the latitude being
/// looked at first; the cache is then left as it was.
pub fn analyze_exif_data(fields: &ExifFields, cache: &mut GeocodeCache) -> (r: Result<
    Analysis,
    ExifError,
>)
    ensures
        final(cache).capacity() == old(cache).capacity(),
        match (
            coordinate_of(fields.gps_latitude, fields.gps_latitude_ref),
            coordinate_of(fields.gps_longitude, fields.gps_longitude_ref),
        ) {
            (Err(text), _) => final(cache)@ == old(cache)@ && (r matches Err(
                ExifError::Decoding(d),
            ) && d@ == text),
            (Ok(_), Err(text)) => final(cache)@ == old(cache)@ && (r matches Err(
                ExifError::Decoding(d),
            ) && d@ == text),
            (Ok(lat), Ok(long)) => r matches Ok(analysis) && {
                let data = analysis_data(analysis);
                let cell = (lat.grid() as i32, long.grid() as i32);
                &&& data.year_month@ == period_of(*fields)
                &&& data.device@ == device_of(*fields)
                &&& data.gps_lat@ == lat
                &&& data.gps_long@ == long
                &&& if lat.is_zero() && long.is_zero() {
                    &&& analysis is Complete
                    &&& data.place@ == sanitized(NULL_ISLAND@)
                    &&& final(cache)@ == old(cache)@
                } else {
                    &&& final(cache)@ == touched(old(cache)@, cell)
                    &&& match name_of(old(cache)@, cell) {
                        Some(name) => analysis is Complete && data.place@ == sanitized(name),
                        None => analysis matches Analysis::SearchPlace { cell: c, .. } && c == cell
                            && data.place@ == sanitized(UNKNOWN_PLACE@),
                    }
                }
            },
        },
{
    let year_month = match analyze_exif_datetime(&fields.date_time_original) {
        Some(period) => period,
        None => match analyze_exif_datetime(&fields.date_time_digitized) {
            Some(period) => period,
            None => Directory::parse(UNKNOWN_DATE.to_owned()),
        },
    };
    let device = match &fields.model {
        Some(model) => Directory::parse(model.clone()),
        None => Directory::parse(UNKNOWN_DEVICE.to_owned()),
    };
    let gps_lat = match analyze_exif_lat_long(&fields.gps_latitude, &fields.gps_latitude_ref) {
        Ok(c) => c,
        Err(e) => {
            return Err(e);
        },
    };
    let gps_long = match analyze_exif_lat_long(&fields.gps_longitude, &fields.gps_longitude_ref) {
        Ok(c) => c,
        Err(e) => {
            return Err(e);
        },
    };
    match cache.request(&gps_lat, &gps_long) {
        PlaceRequest::Known(name) => Ok(
            Analysis::Complete(
                ExifData { year_month, gps_lat, gps_long, place: Directory::parse(name), device },
            ),
        ),
        PlaceRequest::Search(cell) => Ok(
            Analysis::SearchPlace {
                data: ExifData {
                    year_month,
                    gps_lat,
                    gps_long,
                    place: Directory::parse(UNKNOWN_PLACE.to_owned()),
                    device,
                },
                cell,
            },
        ),
    }
}

/// What the analysis of an image had from the cache: nothing where the
/// position is zero, for which no cell is looked up; a hit where the cell
/// was there; a miss where its place is to be searched.
#[derive(Clone, Copy, Debug, PartialEq, Eq, Structural)]
pub enum CacheUse {
    NotAsked,
    Hit,
    Miss,
}

impl Analysis {
    /// What this analysis had from the cache.
    pub open spec fn spec_cache_use(self) -> CacheUse {
        match self {
            Analysis::SearchPlace { .. } => CacheUse::Miss,
            Analysis::Complete(data) => if data.gps_lat@.is_zero() && data.gps_long@.is_zero() {
                CacheUse::NotAsked
            } else {
                CacheUse::Hit
            },
        }
    }

    /// What this analysis had from the cache.
    pub fn cache_use(&self) -> (r: CacheUse)
        ensures
            r == self.spec_cache_use(),
    {
        match self {
            Analysis::SearchPlace { .. } => CacheUse::Miss,
            Analysis::Complete(data) => if data.gps_lat.is_zero() && data.gps_long.is_zero() {
                CacheUse::NotAsked
            } else {
                CacheUse::Hit
            },
        }
    }
}

/// What an analysis holds, complete or not.
pub open spec fn analysis_data(analysis: Analysis) -> ExifData {
    match analysis {
        Analysis::Complete(data) => data,
        Analysis::SearchPlace { data, .. } => data,
    }
}

/// Takes the outcome of the search that [`analyze_exif_data`] asked for.
/// The name of the place that was found, or [`UNKNOWN_PLACE`] where none was
/// found, is stored in the cache under the cell; sanitized, it becomes the
/// place of the image.
pub fn complete_place(
    data: ExifData,
    cache: &mut GeocodeCache,
    cell: (i32, i32),
    found: Option<String>,
) -> (r: ExifData)
    ensures
        final(cache).capacity() == old(cache).capacity(),
        r.year_month == data.year_month,
        r.device == data.device,
        r.gps_lat == data.gps_lat,
        r.gps_long == data.gps_long,
        r.place@ == sanitized(searched_name(found)),
        final(cache)@ == stored(old(cache)@, old(cache).capacity(), cell, searched_name(found)),
{
    let name = cache.complete(cell, found);
    ExifData {
        year_month: data.year_month,
        gps_lat: data.gps_lat,
        gps_long: data.gps_long,
        place: Directory::parse(name),
        device: data.device,
    }
}

} // verus!
