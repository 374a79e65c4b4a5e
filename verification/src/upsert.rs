//! Storing a description for an asset: update its EXIF row, or, when there
//! is none, insert one if the asset exists. The steps are decided here; the
//! caller runs the statements and hands back what came of them.
//!
//! The description never becomes part of a statement's text: it goes to the
//! database as the statement's one bound parameter, `$1`, so it is stored
//! exactly as given, whatever characters it holds.

use vstd::prelude::*;

use crate::asset_id::{asset_id_text, hyphenated_text, lemma_hyphenated_text, AssetId};
use crate::database::DatabaseErrorText;
use crate::report::{
    is_stderr_message, is_stdout_message, message1, message2, message_is, message_line,
    part_is_message, LogLine, LogPart, Stream,
};
use crate::text::{append_text, chars_of, decimal, decimal_string, string_of_range};

verus! {

/// The start of the update statement, up to the asset id; the description
/// is the bound parameter `$1`.
pub const UPDATE_HEAD: &'static str =
    "\n        UPDATE asset_exif \n        SET description = $1, \n            \"updatedAt\" = NOW(),\n            \"updateId\" = immich_uuid_v7()\n        WHERE \"assetId\" = '";

/// The end of the update statement.
pub const UPDATE_TAIL: &'static str = "'\n        ";

/// The start of the query whether the asset exists, up to its id.
pub const EXISTS_HEAD: &'static str =
    "\n        SELECT EXISTS (\n            SELECT 1 FROM asset \n            WHERE id = '";

/// The end of the query whether the asset exists.
pub const EXISTS_TAIL: &'static str = "'\n        )\n        ";

/// The start of the insert statement, up to the asset id.
pub const INSERT_HEAD: &'static str =
    "\n        INSERT INTO asset_exif (\n            \"assetId\", description, \"updatedAt\", \"updateId\"\n        ) VALUES (\n            '";

/// The end of the insert statement, after the asset id; the description is
/// the bound parameter `$1`.
pub const INSERT_TAIL: &'static str =
    "', $1, NOW(), immich_uuid_v7()\n        )\n        ON CONFLICT (\"assetId\") DO UPDATE \n        SET description = EXCLUDED.description,\n            \"updatedAt\" = NOW(),\n            \"updateId\" = immich_uuid_v7()\n        ";

/// How many characters of the description are shown before it is stored.
pub const PREVIEW_CHARS: usize = 100;

/// The update statement for an asset id text; it takes the description as `$1`.
pub open spec fn update_statement(id: Seq<char>) -> Seq<char> {
    UPDATE_HEAD@ + id + UPDATE_TAIL@
}

/// The query whether the asset with this id text exists.
pub open spec fn exists_query(id: Seq<char>) -> Seq<char> {
    EXISTS_HEAD@ + id + EXISTS_TAIL@
}

/// The insert statement for an asset id text; it takes the description as `$1`.
pub open spec fn insert_statement(id: Seq<char>) -> Seq<char> {
    INSERT_HEAD@ + id + INSERT_TAIL@
}

/// What is to be stored: the asset's id as text and the description.
pub struct DescriptionUpsert {
    pub asset_id: String,
    pub description: String,
}

/// What the caller is to do next.
pub enum UpsertCommand {
    /// Run the update statement, with `parameter` bound to `$1`, and report
    /// the number of rows it changed.
    RunUpdate { sql: String, parameter: String },
    /// Run the query and report whether the asset exists.
    CheckAssetExists { sql: String },
    /// Run the insert statement, with `parameter` bound to `$1`, and report
    /// how it went.
    RunInsert { sql: String, parameter: String },
    /// Stop, with this result.
    Finish { result: Result<(), DatabaseErrorText> },
}

/// One step: the lines to print, then what to do.
pub struct UpsertStep {
    pub log: Vec<LogLine>,
    pub command: UpsertCommand,
}

/// `line` goes to standard error and holds two messages, one per line.
pub open spec fn is_stderr_message_pair(
    line: LogLine,
    key1: Seq<char>,
    args1: Seq<(Seq<char>, Seq<char>)>,
    key2: Seq<char>,
    args2: Seq<(Seq<char>, Seq<char>)>,
) -> bool {
    &&& line.stream is Stderr
    &&& line.separator == '\n'
    &&& line.parts@.len() == 2
    &&& part_is_message(line.parts@[0], key1, args1)
    &&& part_is_message(line.parts@[1], key2, args2)
}

/// `step` prints nothing and finishes with an error that carries `error` as it is.
pub open spec fn finishes_with_plain(step: UpsertStep, error: Seq<char>) -> bool {
    step.command matches UpsertCommand::Finish { result: Err(DatabaseErrorText::Plain(e)) } && e@
        == error
}

/// `step` finishes successfully.
pub open spec fn finishes_ok(step: UpsertStep) -> bool {
    step.command matches UpsertCommand::Finish { result: Ok(()) }
}

impl DescriptionUpsert {
    /// The update statement of this upsert.
    pub open spec fn update_sql(&self) -> Seq<char> {
        update_statement(self.asset_id@)
    }

    /// The existence query of this upsert.
    pub open spec fn exists_sql(&self) -> Seq<char> {
        exists_query(self.asset_id@)
    }

    /// The insert statement of this upsert.
    pub open spec fn insert_sql(&self) -> Seq<char> {
        insert_statement(self.asset_id@)
    }

    fn update_statement_text(&self) -> (r: String)
        ensures
            r@ == self.update_sql(),
    {
        let mut q = String::new();
        append_text(&mut q, UPDATE_HEAD);
        append_text(&mut q, self.asset_id.as_str());
        append_text(&mut q, UPDATE_TAIL);
        q
    }

    fn exists_query_text(&self) -> (r: String)
        ensures
            r@ == self.exists_sql(),
    {
        let mut q = String::new();
        append_text(&mut q, EXISTS_HEAD);
        append_text(&mut q, self.asset_id.as_str());
        append_text(&mut q, EXISTS_TAIL);
        q
    }

    fn insert_statement_text(&self) -> (r: String)
        ensures
            r@ == self.insert_sql(),
    {
        let mut q = String::new();
        append_text(&mut q, INSERT_HEAD);
        append_text(&mut q, self.asset_id.as_str());
        append_text(&mut q, INSERT_TAIL);
        q
    }

    /// Start storing `description` for the asset `asset_id`: announce it,
    /// with the description's length in bytes and its first characters, and
    /// run the update statement with the description, unchanged, bound to `$1`.
    pub fn begin(asset_id: &AssetId, description: &str) -> (r: (DescriptionUpsert, UpsertStep))
        ensures
            r.0.asset_id@ == hyphenated_text(asset_id.bytes@),
            r.0.description@ == description@,
            r.1.log@.len() == 2,
            is_stdout_message(
                r.1.log@[0],
                "database.updating_asset"@,
                seq![("asset_id"@, r.0.asset_id@)],
            ),
            is_stdout_message(
                r.1.log@[1],
                "database.description_length"@,
                seq![
                    ("length"@, decimal(description.len() as nat)),
                    ("preview"@, description@.take(
                        if description@.len() < PREVIEW_CHARS { description@.len() as int } else { PREVIEW_CHARS as int },
                    )),
                ],
            ),
            r.1.command matches UpsertCommand::RunUpdate { sql, parameter } && sql@
                == r.0.update_sql() && parameter@ == description@,
    {
        let id_text = asset_id_text(asset_id);
        let plan = DescriptionUpsert { asset_id: id_text, description: description.to_owned() };
        let chars = chars_of(description);
        let shown = if chars.len() < PREVIEW_CHARS {
            chars.len()
        } else {
            PREVIEW_CHARS
        };
        let preview = string_of_range(&chars, 0, shown);
        assert(preview@ =~= description@.take(shown as int));
        let length = decimal_string(description.len() as u64);
        let mut log: Vec<LogLine> = Vec::new();
        log.push(
            message_line(
                Stream::Stdout,
                message1("database.updating_asset", "asset_id", plan.asset_id.clone()),
            ),
        );
        log.push(
            message_line(
                Stream::Stdout,
                message2("database.description_length", "length", length, "preview", preview),
            ),
        );
        let sql = plan.update_statement_text();
        let parameter = plan.description.clone();
        (plan, UpsertStep { log, command: UpsertCommand::RunUpdate { sql, parameter } })
    }

    /// After the update statement ran: done when it changed a row; a failure
    /// is reported with the statement and ends the upsert; otherwise check
    /// whether the asset exists.
    pub fn after_update(&self, outcome: Result<u64, String>) -> (r: UpsertStep)
        ensures
            match outcome {
                Ok(rows) => if rows > 0 {
                    r.log@.len() == 1 && is_stdout_message(
                        r.log@[0],
                        "database.update_success"@,
                        seq![("asset_id"@, self.asset_id@)],
                    ) && finishes_ok(r)
                } else {
                    r.log@.len() == 0 && (r.command matches UpsertCommand::CheckAssetExists {
                        sql,
                    } && sql@ == self.exists_sql())
                },
                Err(e) => r.log@.len() == 1 && is_stderr_message_pair(
                    r.log@[0],
                    "database.update_error"@,
                    seq![("asset_id"@, self.asset_id@), ("error"@, e@)],
                    "database.sql_query_details"@,
                    seq![("query"@, self.update_sql())],
                ) && finishes_with_plain(r, e@),
            },
    {
        match outcome {
            Ok(rows) => {
                if rows > 0 {
                    let mut log: Vec<LogLine> = Vec::new();
                    log.push(
                        message_line(
                            Stream::Stdout,
                            message1("database.update_success", "asset_id", self.asset_id.clone()),
                        ),
                    );
                    UpsertStep { log, command: UpsertCommand::Finish { result: Ok(()) } }
                } else {
                    UpsertStep {
                        log: Vec::new(),
                        command: UpsertCommand::CheckAssetExists { sql: self.exists_query_text() },
                    }
                }
            },
            Err(e) => {
                let query = self.update_statement_text();
                let line = self.failure_line(
                    "database.update_error",
                    e.clone(),
                    query,
                );
                let mut log: Vec<LogLine> = Vec::new();
                log.push(line);
                UpsertStep {
                    log,
                    command: UpsertCommand::Finish { result: Err(DatabaseErrorText::Plain(e)) },
                }
            },
        }
    }

    /// After the existence query ran: insert when the asset exists (with the
    /// description, unchanged, bound to `$1`); report
    /// and refuse when it does not; report a failure and end.
    pub fn after_existence_check(&self, outcome: Result<bool, String>) -> (r: UpsertStep)
        ensures
            match outcome {
                Ok(true) => r.log@.len() == 0 && (r.command matches UpsertCommand::RunInsert {
                    sql,
                    parameter,
                } && sql@ == self.insert_sql() && parameter@ == self.description@),
                Ok(false) => r.log@.len() == 1 && is_stderr_message(
                    r.log@[0],
                    "database.asset_not_in_table"@,
                    seq![("asset_id"@, self.asset_id@)],
                ) && (r.command matches UpsertCommand::Finish {
                    result: Err(DatabaseErrorText::Localized(m)),
                } && message_is(
                    m,
                    "database.asset_not_found_error"@,
                    seq![("asset_id"@, self.asset_id@)],
                )),
                Err(e) => r.log@.len() == 1 && is_stderr_message(
                    r.log@[0],
                    "database.asset_existence_check_error"@,
                    seq![("error"@, e@)],
                ) && finishes_with_plain(r, e@),
            },
    {
        match outcome {
            Ok(true) => UpsertStep {
                log: Vec::new(),
                command: UpsertCommand::RunInsert {
                    sql: self.insert_statement_text(),
                    parameter: self.description.clone(),
                },
            },
            Ok(false) => {
                let mut log: Vec<LogLine> = Vec::new();
                log.push(
                    message_line(
                        Stream::Stderr,
                        message1("database.asset_not_in_table", "asset_id", self.asset_id.clone()),
                    ),
                );
                let m = message1("database.asset_not_found_error", "asset_id", self.asset_id.clone());
                UpsertStep {
                    log,
                    command: UpsertCommand::Finish { result: Err(DatabaseErrorText::Localized(m)) },
                }
            },
            Err(e) => {
                let mut log: Vec<LogLine> = Vec::new();
                log.push(
                    message_line(
                        Stream::Stderr,
                        message1("database.asset_existence_check_error", "error", e.clone()),
                    ),
                );
                UpsertStep {
                    log,
                    command: UpsertCommand::Finish { result: Err(DatabaseErrorText::Plain(e)) },
                }
            },
        }
    }

    /// After the insert statement ran: done, or a failure reported with the
    /// statement.
    pub fn after_insert(&self, outcome: Result<u64, String>) -> (r: UpsertStep)
        ensures
            match outcome {
                Ok(_) => r.log@.len() == 1 && is_stdout_message(
                    r.log@[0],
                    "database.insert_success"@,
                    seq![("asset_id"@, self.asset_id@)],
                ) && finishes_ok(r),
                Err(e) => r.log@.len() == 1 && is_stderr_message_pair(
                    r.log@[0],
                    "database.insert_error"@,
                    seq![("asset_id"@, self.asset_id@), ("error"@, e@)],
                    "database.sql_query_details"@,
                    seq![("query"@, self.insert_sql())],
                ) && finishes_with_plain(r, e@),
            },
    {
        match outcome {
            Ok(_) => {
                let mut log: Vec<LogLine> = Vec::new();
                log.push(
                    message_line(
                        Stream::Stdout,
                        message1("database.insert_success", "asset_id", self.asset_id.clone()),
                    ),
                );
                UpsertStep { log, command: UpsertCommand::Finish { result: Ok(()) } }
            },
            Err(e) => {
                let query = self.insert_statement_text();
                let line = self.failure_line("database.insert_error", e.clone(), query);
                let mut log: Vec<LogLine> = Vec::new();
                log.push(line);
                UpsertStep {
                    log,
                    command: UpsertCommand::Finish { result: Err(DatabaseErrorText::Plain(e)) },
                }
            },
        }
    }

    /// The two-line report of a failed statement: what failed, then the statement.
    fn failure_line(&self, key: &str, error: String, query: String) -> (line: LogLine)
        ensures
            is_stderr_message_pair(
                line,
                key@,
                seq![("asset_id"@, self.asset_id@), ("error"@, error@)],
                "database.sql_query_details"@,
                seq![("query"@, query@)],
            ),
    {
        let mut parts: Vec<LogPart> = Vec::new();
        parts.push(
            LogPart::Localized(message2(key, "asset_id", self.asset_id.clone(), "error", error)),
        );
        parts.push(LogPart::Localized(message1("database.sql_query_details", "query", query)));
        LogLine { stream: Stream::Stderr, parts, separator: '\n' }
    }
}

/// The asset id's text, the only variable part of the statements, holds no
/// quote and no backslash: it cannot end the quoted id early, and nothing
/// of the description is in the statements (it goes as the parameter `$1`).
pub proof fn lemma_asset_id_text_holds_no_quote(b: Seq<u8>)
    requires
        b.len() == 16,
    ensures
        forall|i: int|
            0 <= i < hyphenated_text(b).len() ==> #[trigger] hyphenated_text(b)[i] != '\''
                && hyphenated_text(b)[i] != '\\',
{
    lemma_hyphenated_text(b);
    let t = hyphenated_text(b);
    assert forall|i: int| 0 <= i < t.len() implies #[trigger] t[i] != '\'' && t[i] != '\\' by {
        if !crate::asset_id::is_hyphen_position(i) {
            assert(crate::asset_id::is_lower_hex(t[i]));
        }
    }
}

} // verus!
