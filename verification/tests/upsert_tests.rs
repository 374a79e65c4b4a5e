use immich_describer::{
    AssetId, DatabaseErrorText, DescriptionUpsert, LogPart, Stream,
    UpsertCommand,
};

const ID: [u8; 16] = [
    0x55, 0x0e, 0x84, 0x00, 0xe2, 0x9b, 0x41, 0xd4, 0xa7, 0x16, 0x44, 0x66, 0x55, 0x44, 0x00, 0x00,
];
const ID_TEXT: &str = "550e8400-e29b-41d4-a716-446655440000";

fn plan(description: &str) -> (DescriptionUpsert, immich_describer::UpsertStep) {
    DescriptionUpsert::begin(&AssetId { bytes: ID }, description)
}

fn message_of(part: &LogPart) -> (String, Vec<(String, String)>) {
    match part {
        LogPart::Localized(m) => {
            (m.key.clone(), m.args.iter().map(|a| (a.name.clone(), a.value.clone())).collect())
        }
        LogPart::Plain(_) => panic!("expected a message"),
    }
}

fn pair(a: &str, b: &str) -> (String, String) {
    (a.to_string(), b.to_string())
}

#[test]
fn begin_announces_and_updates() {
    let (p, step) = plan("Ann's dog");
    assert_eq!(p.asset_id, ID_TEXT);
    assert_eq!(p.description, "Ann's dog");
    assert_eq!(step.log.len(), 2);
    assert!(matches!(step.log[0].stream, Stream::Stdout));
    assert_eq!(
        message_of(&step.log[0].parts[0]),
        ("database.updating_asset".to_string(), vec![pair("asset_id", ID_TEXT)])
    );
    assert_eq!(
        message_of(&step.log[1].parts[0]),
        (
            "database.description_length".to_string(),
            vec![pair("length", "9"), pair("preview", "Ann's dog")]
        )
    );
    match step.command {
        UpsertCommand::RunUpdate { sql, parameter } => {
            assert_eq!(
                sql,
                format!(
                    r#"
        UPDATE asset_exif 
        SET description = $1, 
            "updatedAt" = NOW(),
            "updateId" = immich_uuid_v7()
        WHERE "assetId" = '{}'
        "#,
                    ID_TEXT
                )
            );
            assert_eq!(parameter, "Ann's dog");
        }
        _ => panic!("expected the update"),
    }
}

#[test]
fn begin_measures_bytes_and_previews_hundred_chars() {
    let text: String = "é".repeat(150);
    let (_, step) = plan(&text);
    let (_, args) = message_of(&step.log[1].parts[0]);
    assert_eq!(args[0], pair("length", "300"));
    assert_eq!(args[1].1.chars().count(), 100);
    assert_eq!(args[1].1, "é".repeat(100));
}

#[test]
fn update_that_changed_a_row_finishes() {
    let (p, _) = plan("x");
    let step = p.after_update(Ok(1));
    assert_eq!(message_of(&step.log[0].parts[0]).0, "database.update_success");
    assert!(matches!(step.command, UpsertCommand::Finish { result: Ok(()) }));
}

#[test]
fn update_without_row_checks_existence() {
    let (p, _) = plan("x");
    let step = p.after_update(Ok(0));
    assert!(step.log.is_empty());
    match step.command {
        UpsertCommand::CheckAssetExists { sql } => assert_eq!(
            sql,
            format!(
                r#"
        SELECT EXISTS (
            SELECT 1 FROM asset 
            WHERE id = '{}'
        )
        "#,
                ID_TEXT
            )
        ),
        _ => panic!("expected the existence check"),
    }
}

#[test]
fn failed_update_reports_statement() {
    let (p, _) = plan("x");
    let step = p.after_update(Err("syntax".to_string()));
    assert!(matches!(step.log[0].stream, Stream::Stderr));
    assert_eq!(step.log[0].separator, '\n');
    assert_eq!(
        message_of(&step.log[0].parts[0]),
        ("database.update_error".to_string(), vec![pair("asset_id", ID_TEXT), pair("error", "syntax")])
    );
    let (key, args) = message_of(&step.log[0].parts[1]);
    assert_eq!(key, "database.sql_query_details");
    assert!(args[0].1.contains("UPDATE asset_exif"));
    match step.command {
        UpsertCommand::Finish { result: Err(DatabaseErrorText::Plain(e)) } => assert_eq!(e, "syntax"),
        _ => panic!("expected a failure"),
    }
}

#[test]
fn existing_asset_gets_insert() {
    let (p, _) = plan("a'b");
    let step = p.after_existence_check(Ok(true));
    match step.command {
        UpsertCommand::RunInsert { sql, parameter } => {
            assert_eq!(
                sql,
                format!(
                    r#"
        INSERT INTO asset_exif (
            "assetId", description, "updatedAt", "updateId"
        ) VALUES (
            '{}', $1, NOW(), immich_uuid_v7()
        )
        ON CONFLICT ("assetId") DO UPDATE 
        SET description = EXCLUDED.description,
            "updatedAt" = NOW(),
            "updateId" = immich_uuid_v7()
        "#,
                    ID_TEXT
                )
            );
            assert_eq!(parameter, "a'b");
        }
        _ => panic!("expected the insert"),
    }
}

#[test]
fn missing_asset_is_refused() {
    let (p, _) = plan("x");
    let step = p.after_existence_check(Ok(false));
    assert_eq!(message_of(&step.log[0].parts[0]).0, "database.asset_not_in_table");
    match step.command {
        UpsertCommand::Finish { result: Err(DatabaseErrorText::Localized(m)) } => {
            assert_eq!(m.key, "database.asset_not_found_error");
            assert_eq!(m.args[0].value, ID_TEXT);
        }
        _ => panic!("expected a refusal"),
    }
}

#[test]
fn failed_existence_check() {
    let (p, _) = plan("x");
    let step = p.after_existence_check(Err("lost".to_string()));
    assert_eq!(
        message_of(&step.log[0].parts[0]),
        ("database.asset_existence_check_error".to_string(), vec![pair("error", "lost")])
    );
    assert!(matches!(
        step.command,
        UpsertCommand::Finish { result: Err(DatabaseErrorText::Plain(_)) }
    ));
}

#[test]
fn insert_outcomes() {
    let (p, _) = plan("x");
    let ok = p.after_insert(Ok(1));
    assert_eq!(message_of(&ok.log[0].parts[0]).0, "database.insert_success");
    assert!(matches!(ok.command, UpsertCommand::Finish { result: Ok(()) }));
    let failed = p.after_insert(Err("dup".to_string()));
    assert_eq!(message_of(&failed.log[0].parts[0]).0, "database.insert_error");
    assert_eq!(message_of(&failed.log[0].parts[1]).0, "database.sql_query_details");
}

#[test]
fn description_never_enters_the_statements() {
    let hostile = "\\' || (SELECT string_agg(\"originalPath\", chr(44)) FROM asset), -- C:\\temp";
    let (p, step) = plan(hostile);
    assert_eq!(p.description, hostile);
    match step.command {
        UpsertCommand::RunUpdate { sql, parameter } => {
            assert!(!sql.contains("string_agg"));
            assert!(!sql.contains("temp"));
            assert_eq!(parameter, hostile);
        }
        _ => panic!("expected the update"),
    }
    match p.after_existence_check(Ok(true)).command {
        UpsertCommand::RunInsert { sql, parameter } => {
            assert!(!sql.contains("string_agg"));
            assert_eq!(parameter, hostile);
        }
        _ => panic!("expected the insert"),
    }
}
