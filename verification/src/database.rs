//! What the library makes of the rows that Immich's database returns: the
//! metadata of an asset for the prompt, and how failed queries are reported.

use vstd::prelude::*;

use crate::asset_id::AssetId;
use crate::error::ImageAnalysisError;
use crate::report::{
    message0, message1, message_is, part_is_message, part_is_plain, LogLine, LogPart, Message,
    Stream, is_stderr_message, is_stdout_message, message_line,
};

verus! {

/// The description written for an asset.
pub struct ImageAnalysisResult {
    pub description: String,
    pub asset_id: AssetId,
}

/// Where a recognised face sits in the image: the corners of its box in
/// pixels, with the image's size. The box relative to the image is
/// `x1 / image_width`, `y1 / image_height`, `x2 / image_width` and
/// `y2 / image_height`.
pub struct FaceBox {
    pub x1: i32,
    pub y1: i32,
    pub x2: i32,
    pub y2: i32,
    pub image_width: i32,
    pub image_height: i32,
}

/// A named person whose face is in the image, with where it is when the
/// image's size is known.
pub struct ImmichPersonResult {
    pub name: String,
    pub bounding_box: Option<FaceBox>,
}

/// Text found in the image by OCR.
pub struct ImmichAssetOCR {
    pub text: String,
}

/// A tag of the asset.
pub struct ImmichAssetTags {
    pub value: String,
    pub color: Option<String>,
}

/// An album the asset is in.
pub struct ImmichAssetAlbum {
    pub name: String,
    pub description: String,
}

/// Where an external asset's file came from.
pub struct ImmichExternalFileInfo {
    pub original_filename: String,
    pub original_path: String,
}

/// Where the asset was taken, as far as it is known. `C` is the type of the
/// coordinates.
pub struct ImmichAssetLocation<C> {
    pub latitude: Option<C>,
    pub longitude: Option<C>,
    pub city: Option<String>,
    pub state: Option<String>,
    pub country: Option<String>,
}

/// Everything the prompt is told about an asset.
pub struct ImmichAssetMetadata<C> {
    pub ocrs: Vec<ImmichAssetOCR>,
    pub tags: Vec<ImmichAssetTags>,
    pub albums: Vec<ImmichAssetAlbum>,
    pub people: Vec<ImmichPersonResult>,
    pub location: Option<ImmichAssetLocation<C>>,
    pub external_file: Option<ImmichExternalFileInfo>,
    /// The AI-generated description from the previous run, if any.
    pub previous_ai_description: String,
}

/// A row of the face query: the person's name, the image's size and the
/// corners of the face's box.
pub struct FaceRow {
    pub name: String,
    pub image_width: i32,
    pub image_height: i32,
    pub x1: i32,
    pub y1: i32,
    pub x2: i32,
    pub y2: i32,
}

/// The person that a face row describes: the box is kept only when the
/// image has a positive width and height, so that it can be made relative.
pub open spec fn person_of_row(p: ImmichPersonResult, row: FaceRow) -> bool {
    &&& p.name == row.name
    &&& if row.image_width > 0 && row.image_height > 0 {
        p.bounding_box == Some(
            FaceBox {
                x1: row.x1,
                y1: row.y1,
                x2: row.x2,
                y2: row.y2,
                image_width: row.image_width,
                image_height: row.image_height,
            },
        )
    } else {
        p.bounding_box is None
    }
}

/// Every face in an image of known size keeps its box, whatever the shape
/// of the image, and the box is the face's corners with the image's size;
/// a face in an image without a positive width and height has none.
pub proof fn lemma_face_box_kept_for_sized_images(p: ImmichPersonResult, row: FaceRow)
    requires
        person_of_row(p, row),
    ensures
        p.name == row.name,
        row.image_width > 0 && row.image_height > 0 ==> (p.bounding_box matches Some(b) && b.x1
            == row.x1 && b.y1 == row.y1 && b.x2 == row.x2 && b.y2 == row.y2 && b.image_width
            == row.image_width && b.image_height == row.image_height),
        !(row.image_width > 0 && row.image_height > 0) ==> p.bounding_box is None,
{
}

/// The OCR entries for the texts of the OCR query, in order.
pub fn ocrs_from_rows(texts: Vec<String>) -> (r: Vec<ImmichAssetOCR>)
    ensures
        r@.len() == texts@.len(),
        forall|i: int| 0 <= i < texts@.len() ==> (#[trigger] r@[i]).text == texts@[i],
{
    let mut r: Vec<ImmichAssetOCR> = Vec::new();
    for text in it: texts.into_iter()
        invariant
            r@.len() == it.index(),
            forall|i: int| 0 <= i < it.index() ==> (#[trigger] r@[i]).text == it.seq()[i],
    {
        r.push(ImmichAssetOCR { text });
    }
    r
}

/// The tags for the `(value, color)` rows of the tag query, in order.
pub fn tags_from_rows(rows: Vec<(String, Option<String>)>) -> (r: Vec<ImmichAssetTags>)
    ensures
        r@.len() == rows@.len(),
        forall|i: int|
            0 <= i < rows@.len() ==> (#[trigger] r@[i]).value == rows@[i].0 && r@[i].color
                == rows@[i].1,
{
    let mut r: Vec<ImmichAssetTags> = Vec::new();
    for row in it: rows.into_iter()
        invariant
            r@.len() == it.index(),
            forall|i: int|
                0 <= i < it.index() ==> (#[trigger] r@[i]).value == it.seq()[i].0 && r@[i].color
                    == it.seq()[i].1,
    {
        let (value, color) = row;
        r.push(ImmichAssetTags { value, color });
    }
    r
}

/// The albums for the `(name, description)` rows of the album query, in order.
pub fn albums_from_rows(rows: Vec<(String, String)>) -> (r: Vec<ImmichAssetAlbum>)
    ensures
        r@.len() == rows@.len(),
        forall|i: int|
            0 <= i < rows@.len() ==> (#[trigger] r@[i]).name == rows@[i].0 && r@[i].description
                == rows@[i].1,
{
    let mut r: Vec<ImmichAssetAlbum> = Vec::new();
    for row in it: rows.into_iter()
        invariant
            r@.len() == it.index(),
            forall|i: int|
                0 <= i < it.index() ==> (#[trigger] r@[i]).name == it.seq()[i].0
                    && r@[i].description == it.seq()[i].1,
    {
        let (name, description) = row;
        r.push(ImmichAssetAlbum { name, description });
    }
    r
}

/// The people for the rows of the face query, in order.
pub fn persons_from_rows(rows: Vec<FaceRow>) -> (r: Vec<ImmichPersonResult>)
    ensures
        r@.len() == rows@.len(),
        forall|i: int| 0 <= i < rows@.len() ==> person_of_row(#[trigger] r@[i], rows@[i]),
        forall|i: int|
            0 <= i < rows@.len() ==> (#[trigger] r@[i]).name == rows@[i].name && (if rows@[i].image_width
                > 0 && rows@[i].image_height > 0 {
                r@[i].bounding_box == Some(
                    FaceBox {
                        x1: rows@[i].x1,
                        y1: rows@[i].y1,
                        x2: rows@[i].x2,
                        y2: rows@[i].y2,
                        image_width: rows@[i].image_width,
                        image_height: rows@[i].image_height,
                    },
                )
            } else {
                r@[i].bounding_box is None
            }),
{
    let mut r: Vec<ImmichPersonResult> = Vec::new();
    for row in it: rows.into_iter()
        invariant
            r@.len() == it.index(),
            forall|i: int| 0 <= i < it.index() ==> person_of_row(#[trigger] r@[i], it.seq()[i]),
    {
        let bounding_box = if row.image_width > 0 && row.image_height > 0 {
            Some(
                FaceBox {
                    x1: row.x1,
                    y1: row.y1,
                    x2: row.x2,
                    y2: row.y2,
                    image_width: row.image_width,
                    image_height: row.image_height,
                },
            )
        } else {
            None
        };
        r.push(ImmichPersonResult { name: row.name, bounding_box });
    }
    r
}

/// The location of the asset from its EXIF row: nothing when every field
/// of the row is empty.
pub fn location_from_row<C>(
    latitude: Option<C>,
    longitude: Option<C>,
    city: Option<String>,
    state: Option<String>,
    country: Option<String>,
) -> (r: Option<ImmichAssetLocation<C>>)
    ensures
        latitude is None && longitude is None && city is None && state is None && country is None
            ==> r is None,
        !(latitude is None && longitude is None && city is None && state is None && country is None)
            ==> r == Some(ImmichAssetLocation { latitude, longitude, city, state, country }),
{
    if latitude.is_none() && longitude.is_none() && city.is_none() && state.is_none()
        && country.is_none() {
        None
    } else {
        Some(ImmichAssetLocation { latitude, longitude, city, state, country })
    }
}

/// The metadata of an asset from its parts; there is no previous AI
/// description yet.
pub fn assemble_asset_metadata<C>(
    ocrs: Vec<ImmichAssetOCR>,
    tags: Vec<ImmichAssetTags>,
    albums: Vec<ImmichAssetAlbum>,
    people: Vec<ImmichPersonResult>,
    location: Option<ImmichAssetLocation<C>>,
    external_file: Option<ImmichExternalFileInfo>,
) -> (r: ImmichAssetMetadata<C>)
    ensures
        r.ocrs == ocrs,
        r.tags == tags,
        r.albums == albums,
        r.people == people,
        r.location == location,
        r.external_file == external_file,
        r.previous_ai_description@ == Seq::<char>::empty(),
{
    ImmichAssetMetadata {
        ocrs,
        tags,
        albums,
        people,
        location,
        external_file,
        previous_ai_description: String::new(),
    }
}

/// The queries whose failure is reported by `metadata_query_failure`.
pub enum MetadataQuery {
    Ocr,
    Tags,
    Albums,
    Persons,
    Location,
    ExternalFile,
    ExistingDescription,
}

/// The translation key of the message for a failed query.
pub open spec fn query_failure_key(query: MetadataQuery) -> Seq<char> {
    match query {
        MetadataQuery::Ocr => "database.error_fetching_ocr"@,
        MetadataQuery::Tags => "database.error_fetching_tags"@,
        MetadataQuery::Albums => "database.error_fetching_albums"@,
        MetadataQuery::Persons => "database.error_fetching_persons"@,
        MetadataQuery::Location => "database.error_fetching_location"@,
        MetadataQuery::ExternalFile => "database.error_fetching_external_file"@,
        MetadataQuery::ExistingDescription => "database.error_checking_description"@,
    }
}

/// A failed query: the line to print and the error to return.
pub struct QueryFailure {
    pub log: LogLine,
    pub error: ImageAnalysisError,
}

/// How the failure of `query` with the database's error text `error` is
/// reported: a line on standard error with the query's message (followed,
/// for the OCR and album queries, by the error text again), and a database
/// error that carries the error text.
pub fn metadata_query_failure(query: MetadataQuery, error: &str) -> (r: QueryFailure)
    ensures
        r.error matches ImageAnalysisError::DatabaseError { error: e } && e@ == error@,
        r.log.stream is Stderr,
        r.log.separator == ' ',
        part_is_message(r.log.parts@[0], query_failure_key(query), seq![("error"@, error@)]),
        (query is Ocr || query is Albums) ==> r.log.parts@.len() == 2 && part_is_plain(
            r.log.parts@[1],
            error@,
        ),
        !(query is Ocr || query is Albums) ==> r.log.parts@.len() == 1,
{
    let key = match query {
        MetadataQuery::Ocr => "database.error_fetching_ocr",
        MetadataQuery::Tags => "database.error_fetching_tags",
        MetadataQuery::Albums => "database.error_fetching_albums",
        MetadataQuery::Persons => "database.error_fetching_persons",
        MetadataQuery::Location => "database.error_fetching_location",
        MetadataQuery::ExternalFile => "database.error_fetching_external_file",
        MetadataQuery::ExistingDescription => "database.error_checking_description",
    };
    let repeat_error = match query {
        MetadataQuery::Ocr => true,
        MetadataQuery::Albums => true,
        _ => false,
    };
    let mut parts: Vec<LogPart> = Vec::new();
    parts.push(LogPart::Localized(message1(key, "error", error.to_owned())));
    if repeat_error {
        parts.push(LogPart::Plain(error.to_owned()));
    }
    QueryFailure {
        log: LogLine { stream: Stream::Stderr, parts, separator: ' ' },
        error: ImageAnalysisError::DatabaseError { error: error.to_owned() },
    }
}

/// The text of a database error: the database's own words, or a message to
/// translate.
pub enum DatabaseErrorText {
    Plain(String),
    Localized(Message),
}

/// How long the connection check waits for the database, in seconds.
pub const DATABASE_CHECK_TIMEOUT_SECS: u64 = 5;

/// What came of the test query of the connection check.
pub enum ConnectionProbe {
    Answered,
    Failed { error: String },
    TimedOut,
}

/// The outcome of the connection check: the line to print and the result.
pub struct ConnectionVerdict {
    pub log: LogLine,
    pub result: Result<bool, DatabaseErrorText>,
}

/// Judge the connection check by what came of the test query: an answer
/// means the connection works; a failure or a timeout is reported and
/// returned as a database error.
pub fn connection_verdict(probe: ConnectionProbe) -> (r: ConnectionVerdict)
    ensures
        match probe {
            ConnectionProbe::Answered => is_stdout_message(
                r.log,
                "database.connection_success"@,
                seq![],
            ) && r.result == Ok::<bool, DatabaseErrorText>(true),
            ConnectionProbe::Failed { error } => is_stderr_message(
                r.log,
                "error.database_query_failed"@,
                seq![("error"@, error@)],
            ) && (r.result matches Err(DatabaseErrorText::Localized(m)) && message_is(
                m,
                "database.query_failed_error"@,
                seq![("error"@, error@)],
            )),
            ConnectionProbe::TimedOut => is_stderr_message(
                r.log,
                "error.database_timeout"@,
                seq![],
            ) && (r.result matches Err(DatabaseErrorText::Localized(m)) && message_is(
                m,
                "database.timeout_error"@,
                seq![],
            )),
        },
{
    match probe {
        ConnectionProbe::Answered => ConnectionVerdict {
            log: message_line(Stream::Stdout, message0("database.connection_success")),
            result: Ok(true),
        },
        ConnectionProbe::Failed { error } => ConnectionVerdict {
            log: message_line(
                Stream::Stderr,
                message1("error.database_query_failed", "error", error.clone()),
            ),
            result: Err(
                DatabaseErrorText::Localized(
                    message1("database.query_failed_error", "error", error),
                ),
            ),
        },
        ConnectionProbe::TimedOut => ConnectionVerdict {
            log: message_line(Stream::Stderr, message0("error.database_timeout")),
            result: Err(DatabaseErrorText::Localized(message0("database.timeout_error"))),
        },
    }
}

} // verus!
