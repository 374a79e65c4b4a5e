//! Verified core of a tool that writes AI-generated descriptions for Immich photo assets.

pub mod text;
pub mod description;
pub mod report;
pub mod error;
pub mod validation;
pub mod locale;
pub mod asset_id;
pub mod database;
pub mod upsert;

pub use asset_id::{asset_id_text, extract_uuid_from_preview_filename, AssetId};
pub use database::{
    albums_from_rows, assemble_asset_metadata, connection_verdict, location_from_row,
    metadata_query_failure, ocrs_from_rows, persons_from_rows, tags_from_rows, ConnectionProbe,
    ConnectionVerdict, DatabaseErrorText, FaceBox, FaceRow, ImageAnalysisResult,
    ImmichAssetAlbum, ImmichAssetLocation, ImmichAssetMetadata, ImmichAssetOCR, ImmichAssetTags,
    ImmichExternalFileInfo, ImmichPersonResult, MetadataQuery, QueryFailure,
    DATABASE_CHECK_TIMEOUT_SECS,
};
pub use description::{
    build_description, join_user_descriptions, parse_description, ParsedDescription,
};
pub use error::{processing_error_message, ImageAnalysisError};
pub use locale::{determine_locale, locale_from_env_value, LocaleChoice};
pub use report::{LogLine, LogPart, Message, MessageArg, Stream};
pub use upsert::{DescriptionUpsert, UpsertCommand, UpsertStep};
pub use validation::{validate_args, validate_immich_directory};
