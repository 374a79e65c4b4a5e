use immich_describer::{
    albums_from_rows, assemble_asset_metadata, connection_verdict, location_from_row,
    metadata_query_failure, ocrs_from_rows, persons_from_rows, tags_from_rows, ConnectionProbe,
    DatabaseErrorText, FaceRow, ImageAnalysisError, LogPart, MetadataQuery, Stream,
    DATABASE_CHECK_TIMEOUT_SECS,
};

fn face(name: &str, w: i32, h: i32) -> FaceRow {
    FaceRow { name: name.to_string(), image_width: w, image_height: h, x1: 10, y1: 20, x2: 30, y2: 40 }
}

fn localized_key(part: &LogPart) -> String {
    match part {
        LogPart::Localized(m) => m.key.clone(),
        LogPart::Plain(_) => panic!("expected a message"),
    }
}

#[test]
fn ocr_rows_in_order() {
    let r = ocrs_from_rows(vec!["STOP".to_string(), "Exit 4".to_string()]);
    let texts: Vec<&str> = r.iter().map(|o| o.text.as_str()).collect();
    assert_eq!(texts, vec!["STOP", "Exit 4"]);
}

#[test]
fn tag_rows_keep_colors() {
    let r = tags_from_rows(vec![
        ("beach".to_string(), Some("#00f".to_string())),
        ("family".to_string(), None),
    ]);
    assert_eq!(r.len(), 2);
    assert_eq!(r[0].value, "beach");
    assert_eq!(r[0].color.as_deref(), Some("#00f"));
    assert_eq!(r[1].value, "family");
    assert!(r[1].color.is_none());
}

#[test]
fn album_rows() {
    let r = albums_from_rows(vec![("Summer".to_string(), "2024 trip".to_string())]);
    assert_eq!(r.len(), 1);
    assert_eq!(r[0].name, "Summer");
    assert_eq!(r[0].description, "2024 trip");
}

#[test]
fn face_box_kept_only_with_image_size() {
    let r = persons_from_rows(vec![face("Ann", 100, 50), face("Bo", 0, 50), face("Cy", 100, -1)]);
    assert_eq!(r.len(), 3);
    let b = r[0].bounding_box.as_ref().expect("box");
    assert_eq!((b.x1, b.y1, b.x2, b.y2, b.image_width, b.image_height), (10, 20, 30, 40, 100, 50));
    assert_eq!(r[1].name, "Bo");
    assert!(r[1].bounding_box.is_none());
    assert!(r[2].bounding_box.is_none());
}

#[test]
fn empty_location_row_is_no_location() {
    let r = location_from_row::<f64>(None, None, None, None, None);
    assert!(r.is_none());
}

#[test]
fn location_with_city_only() {
    let r = location_from_row::<f64>(None, None, Some("Oslo".to_string()), None, None).expect("loc");
    assert_eq!(r.city.as_deref(), Some("Oslo"));
    assert!(r.latitude.is_none());
}

#[test]
fn location_with_coordinates() {
    let r = location_from_row(Some(59.9), Some(10.7), None, None, Some("Norway".to_string()))
        .expect("loc");
    assert_eq!(r.latitude, Some(59.9));
    assert_eq!(r.longitude, Some(10.7));
    assert_eq!(r.country.as_deref(), Some("Norway"));
}

#[test]
fn metadata_starts_without_previous_description() {
    let m = assemble_asset_metadata::<f64>(
        ocrs_from_rows(vec!["a".to_string()]),
        Vec::new(),
        Vec::new(),
        Vec::new(),
        None,
        None,
    );
    assert_eq!(m.ocrs.len(), 1);
    assert_eq!(m.previous_ai_description, "");
}

#[test]
fn album_query_failure_repeats_error() {
    let f = metadata_query_failure(MetadataQuery::Albums, "connection reset");
    assert!(matches!(f.log.stream, Stream::Stderr));
    assert_eq!(f.log.separator, ' ');
    assert_eq!(f.log.parts.len(), 2);
    assert_eq!(localized_key(&f.log.parts[0]), "database.error_fetching_albums");
    match &f.log.parts[1] {
        LogPart::Plain(t) => assert_eq!(t, "connection reset"),
        _ => panic!("expected plain text"),
    }
    match f.error {
        ImageAnalysisError::DatabaseError { error } => assert_eq!(error, "connection reset"),
        _ => panic!("expected a database error"),
    }
}

#[test]
fn tag_query_failure() {
    let f = metadata_query_failure(MetadataQuery::Tags, "boom");
    assert_eq!(f.log.parts.len(), 1);
    assert_eq!(localized_key(&f.log.parts[0]), "database.error_fetching_tags");
    match &f.log.parts[0] {
        LogPart::Localized(m) => {
            assert_eq!(m.args.len(), 1);
            assert_eq!(m.args[0].name, "error");
            assert_eq!(m.args[0].value, "boom");
        }
        _ => unreachable!(),
    }
}

#[test]
fn every_query_has_its_key() {
    let cases = vec![
        (MetadataQuery::Ocr, "database.error_fetching_ocr", 2),
        (MetadataQuery::Persons, "database.error_fetching_persons", 1),
        (MetadataQuery::Location, "database.error_fetching_location", 1),
        (MetadataQuery::ExternalFile, "database.error_fetching_external_file", 1),
        (MetadataQuery::ExistingDescription, "database.error_checking_description", 1),
    ];
    for (q, key, n) in cases {
        let f = metadata_query_failure(q, "e");
        assert_eq!(localized_key(&f.log.parts[0]), key);
        assert_eq!(f.log.parts.len(), n);
    }
}

#[test]
fn connection_answered() {
    let v = connection_verdict(ConnectionProbe::Answered);
    assert!(matches!(v.log.stream, Stream::Stdout));
    assert_eq!(localized_key(&v.log.parts[0]), "database.connection_success");
    assert!(matches!(v.result, Ok(true)));
    assert_eq!(DATABASE_CHECK_TIMEOUT_SECS, 5);
}

#[test]
fn connection_failed() {
    let v = connection_verdict(ConnectionProbe::Failed { error: "refused".to_string() });
    assert!(matches!(v.log.stream, Stream::Stderr));
    assert_eq!(localized_key(&v.log.parts[0]), "error.database_query_failed");
    match v.result {
        Err(DatabaseErrorText::Localized(m)) => {
            assert_eq!(m.key, "database.query_failed_error");
            assert_eq!(m.args[0].value, "refused");
        }
        _ => panic!("expected an error"),
    }
}

#[test]
fn connection_timed_out() {
    let v = connection_verdict(ConnectionProbe::TimedOut);
    assert_eq!(localized_key(&v.log.parts[0]), "error.database_timeout");
    match v.result {
        Err(DatabaseErrorText::Localized(m)) => assert_eq!(m.key, "database.timeout_error"),
        _ => panic!("expected an error"),
    }
}
