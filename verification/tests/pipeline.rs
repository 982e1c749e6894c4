use lable_studio_rs::assemble::{get_project_data, ExportResult};
use lable_studio_rs::config::Config;
use lable_studio_rs::error::{ConfigError, SchemaError};
use lable_studio_rs::filter::filter_annotation_sets;
use lable_studio_rs::json::{parse_u32_digits, JsonMember, JsonValue};
use lable_studio_rs::model::{
    AnnotationResult, AnnotationSet, Origin, PredictionSet, TimeSpan,
};
use lable_studio_rs::parse::{
    parse_span_value, parse_task_export, parse_task_predictions,
};
use lable_studio_rs::resolve::resolve_projects;

fn txt(s: &str) -> JsonValue {
    JsonValue::Text(String::from(s))
}

fn num(s: &str) -> JsonValue {
    JsonValue::Number(String::from(s))
}

fn obj(pairs: Vec<(&str, JsonValue)>) -> JsonValue {
    JsonValue::Object(
        pairs
            .into_iter()
            .map(|(k, v)| JsonMember { key: String::from(k), value: v })
            .collect(),
    )
}

fn names(ns: &[&str]) -> Vec<String> {
    ns.iter().map(|n| String::from(*n)).collect()
}

fn catalog_row(title: &str, id: &str) -> JsonValue {
    obj(vec![("title", txt(title)), ("id", num(id))])
}

fn span_value_text(start: &str, end: &str, instant: bool, labels: &[&str]) -> JsonValue {
    obj(vec![
        ("start", txt(start)),
        ("end", txt(end)),
        ("instant", JsonValue::Boolean(instant)),
        (
            "timeserieslabels",
            JsonValue::Array(labels.iter().map(|l| txt(l)).collect()),
        ),
    ])
}

fn span_value_num(start: &str, end: &str, instant: bool, labels: &[&str]) -> JsonValue {
    obj(vec![
        ("start", num(start)),
        ("end", num(end)),
        ("instant", JsonValue::Boolean(instant)),
        (
            "timeserieslabels",
            JsonValue::Array(labels.iter().map(|l| txt(l)).collect()),
        ),
    ])
}

fn annotation_result_json(id: &str, origin: &str) -> JsonValue {
    obj(vec![
        ("id", txt(id)),
        ("from_name", txt("label")),
        ("to_name", txt("ts")),
        ("origin", txt(origin)),
        ("value", span_value_num("12", "34", false, &["walk"])),
    ])
}

fn task_entry_json() -> JsonValue {
    obj(vec![
        ("id", num("41")),
        ("file_upload", txt("audio.wav")),
        (
            "annotations",
            JsonValue::Array(vec![obj(vec![
                ("id", num("3")),
                ("created_at", txt("2023-01-01")),
                ("task", num("41")),
                ("project", num("5")),
                (
                    "result",
                    JsonValue::Array(vec![
                        annotation_result_json("a1", "manual"),
                        annotation_result_json("a2", "prediction"),
                    ]),
                ),
            ])]),
        ),
        ("predictions", JsonValue::Array(vec![num("7")])),
        ("data", obj(vec![("csv", txt("payload.csv"))])),
    ])
}

fn sample_time_span(start: u32, end: u32) -> TimeSpan {
    TimeSpan { start, end, instant: false, labels: vec![String::from("walk")] }
}

fn manual_result(id: &str) -> AnnotationResult {
    AnnotationResult {
        id: String::from(id),
        from_field: String::from("label"),
        to_field: String::from("ts"),
        origin: Origin::Manual,
        value: sample_time_span(1, 2),
    }
}

fn other_result(id: &str) -> AnnotationResult {
    AnnotationResult {
        id: String::from(id),
        from_field: String::from("label"),
        to_field: String::from("ts"),
        origin: Origin::Other,
        value: sample_time_span(3, 4),
    }
}

fn set_with(results: Vec<AnnotationResult>) -> AnnotationSet {
    AnnotationSet {
        id: 3,
        created_at: String::from("2023-01-01"),
        task_id: 41,
        project_id: 5,
        results,
    }
}

#[test]
fn resolves_matching_names_and_skips_missing_ones() {
    let catalog = obj(vec![(
        "results",
        JsonValue::Array(vec![catalog_row("Torque", "5"), catalog_row("Pressure", "9")]),
    )]);
    let configured = names(&["Torque", "Gamma"]);
    let map = resolve_projects(catalog, &configured).expect("catalog is well formed");
    assert_eq!(map.get("Torque"), Some(5));
    assert_eq!(map.get("Gamma"), None);
    assert_eq!(map.get("Pressure"), None);
    assert_eq!(map.len(), 1);
}

#[test]
fn missing_results_key_is_a_schema_error() {
    let catalog = obj(vec![("count", num("2"))]);
    let configured = names(&["Torque"]);
    let err = resolve_projects(catalog, &configured).unwrap_err();
    assert_eq!(err, SchemaError::Catalog);
}

#[test]
fn non_object_projects_response_is_a_schema_error() {
    let configured = names(&["Torque"]);
    let err = resolve_projects(JsonValue::Array(vec![]), &configured).unwrap_err();
    assert_eq!(err, SchemaError::Catalog);
    let err = resolve_projects(txt("nope"), &configured).unwrap_err();
    assert_eq!(err, SchemaError::Catalog);
}

#[test]
fn malformed_catalog_rows_are_skipped_not_fatal() {
    let catalog = obj(vec![(
        "results",
        JsonValue::Array(vec![
            txt("not an object"),
            obj(vec![("title", num("7")), ("id", num("1"))]),
            obj(vec![("title", txt("Torque")), ("id", txt("5"))]),
            obj(vec![("title", txt("Torque"))]),
            catalog_row("Torque", "8"),
        ]),
    )]);
    let configured = names(&["Torque"]);
    let map = resolve_projects(catalog, &configured).expect("row problems never abort");
    assert_eq!(map.get("Torque"), Some(8));
    assert_eq!(map.len(), 1);
}

#[test]
fn duplicate_catalog_titles_resolve_to_the_last_row() {
    let catalog = obj(vec![(
        "results",
        JsonValue::Array(vec![catalog_row("Torque", "1"), catalog_row("Torque", "2")]),
    )]);
    let configured = names(&["Torque"]);
    let map = resolve_projects(catalog, &configured).expect("catalog is well formed");
    assert_eq!(map.get("Torque"), Some(2));
    assert_eq!(map.len(), 1);
}

#[test]
fn string_and_numeric_span_encodings_normalize_equally() {
    let from_prediction = parse_span_value(span_value_text("12", "34", false, &["walk"]))
        .expect("digit strings are a valid encoding");
    let from_annotation = parse_span_value(span_value_num("12", "34", false, &["walk"]))
        .expect("numbers are a valid encoding");
    assert_eq!(from_prediction.start, 12);
    assert_eq!(from_prediction.end, 34);
    assert!(!from_prediction.instant);
    assert_eq!(from_prediction.labels, vec![String::from("walk")]);
    assert_eq!(from_prediction.start, from_annotation.start);
    assert_eq!(from_prediction.end, from_annotation.end);
    assert_eq!(from_prediction.instant, from_annotation.instant);
    assert_eq!(from_prediction.labels, from_annotation.labels);
}

#[test]
fn non_numeric_span_offsets_are_rejected() {
    assert!(parse_span_value(span_value_text("abc", "34", false, &[])).is_none());
    assert!(parse_span_value(span_value_text("", "34", false, &[])).is_none());
    assert!(parse_span_value(span_value_text("-3", "34", false, &[])).is_none());
    assert!(parse_span_value(span_value_text("1.5", "34", false, &[])).is_none());
    let missing_instant = obj(vec![
        ("start", num("1")),
        ("end", num("2")),
        ("timeserieslabels", JsonValue::Array(vec![])),
    ]);
    assert!(parse_span_value(missing_instant).is_none());
}

#[test]
fn digit_string_parsing_has_exact_values_and_bounds() {
    assert_eq!(parse_u32_digits("12"), Some(12));
    assert_eq!(parse_u32_digits("007"), Some(7));
    assert_eq!(parse_u32_digits("0"), Some(0));
    assert_eq!(parse_u32_digits("4294967295"), Some(u32::MAX));
    assert_eq!(parse_u32_digits("4294967296"), None);
    assert_eq!(parse_u32_digits(""), None);
    assert_eq!(parse_u32_digits("1x"), None);
    assert_eq!(parse_u32_digits(" 1"), None);
}

#[test]
fn filtering_retains_only_manual_results_in_order() {
    let sets = vec![set_with(vec![
        manual_result("a1"),
        other_result("a2"),
        manual_result("a3"),
    ])];
    let filtered = filter_annotation_sets(sets);
    assert_eq!(filtered.len(), 1);
    let results = &filtered[0].results;
    assert_eq!(results.len(), 2);
    assert_eq!(results[0].id, "a1");
    assert_eq!(results[1].id, "a3");
    assert!(matches!(results[0].origin, Origin::Manual));
    assert!(matches!(results[1].origin, Origin::Manual));
}

#[test]
fn filtering_keeps_sets_that_lose_every_result() {
    let sets = vec![set_with(vec![other_result("a2")]), set_with(vec![])];
    let filtered = filter_annotation_sets(sets);
    assert_eq!(filtered.len(), 2);
    assert_eq!(filtered[0].results.len(), 0);
    assert_eq!(filtered[0].id, 3);
    assert_eq!(filtered[0].created_at, "2023-01-01");
    assert_eq!(filtered[0].task_id, 41);
    assert_eq!(filtered[0].project_id, 5);
    assert_eq!(filtered[1].results.len(), 0);
}

#[test]
fn filtering_twice_changes_nothing_more() {
    let sets = vec![set_with(vec![
        manual_result("a1"),
        other_result("a2"),
        manual_result("a3"),
    ])];
    let once = filter_annotation_sets(sets);
    let once_ids: Vec<String> = once[0].results.iter().map(|r| r.id.clone()).collect();
    let twice = filter_annotation_sets(once);
    let twice_ids: Vec<String> = twice[0].results.iter().map(|r| r.id.clone()).collect();
    assert_eq!(once_ids, twice_ids);
    assert_eq!(twice[0].results.len(), 2);
}

#[test]
fn task_export_entry_keeps_exactly_the_manual_result() {
    let export = JsonValue::Array(vec![task_entry_json()]);
    let tasks = parse_task_export(export).expect("export is well formed");
    assert_eq!(tasks.len(), 1);
    assert_eq!(tasks[0].id, 41);
    assert_eq!(tasks[0].file_upload, "audio.wav");
    assert_eq!(tasks[0].annotation_sets.len(), 1);
    assert_eq!(tasks[0].annotation_sets[0].results.len(), 2);
    let record = get_project_data(5, tasks, vec![vec![]]);
    assert_eq!(record.id, 5);
    assert_eq!(record.tasks.len(), 1);
    let task = &record.tasks[0];
    assert_eq!(task.id, 41);
    let results = &task.annotation_sets[0].results;
    assert_eq!(results.len(), 1);
    assert_eq!(results[0].id, "a1");
    assert!(matches!(results[0].origin, Origin::Manual));
}

#[test]
fn task_export_shape_problems_are_fatal() {
    assert_eq!(
        parse_task_export(txt("nope")).unwrap_err(),
        SchemaError::TaskExport
    );
    let missing_data = obj(vec![
        ("id", num("41")),
        ("file_upload", txt("audio.wav")),
        ("annotations", JsonValue::Array(vec![])),
        ("predictions", JsonValue::Array(vec![])),
    ]);
    assert_eq!(
        parse_task_export(JsonValue::Array(vec![missing_data])).unwrap_err(),
        SchemaError::TaskExport
    );
    let bad_prediction_ids = obj(vec![
        ("id", num("41")),
        ("file_upload", txt("audio.wav")),
        ("annotations", JsonValue::Array(vec![])),
        ("predictions", JsonValue::Array(vec![txt("seven")])),
        ("data", JsonValue::Null),
    ]);
    assert_eq!(
        parse_task_export(JsonValue::Array(vec![bad_prediction_ids])).unwrap_err(),
        SchemaError::TaskExport
    );
}

#[test]
fn predictions_parse_with_values_and_fail_fatally_on_shape() {
    let payload = JsonValue::Array(vec![obj(vec![
        ("id", num("9")),
        ("created_ago", txt("3 hours")),
        (
            "result",
            JsonValue::Array(vec![obj(vec![
                ("id", txt("pred-a")),
                ("from_name", txt("label")),
                ("to_name", txt("ts")),
                ("value", span_value_text("12", "34", false, &["walk"])),
            ])]),
        ),
    ])]);
    let sets = parse_task_predictions(payload).expect("predictions are well formed");
    assert_eq!(sets.len(), 1);
    assert_eq!(sets[0].id, 9);
    assert_eq!(sets[0].created_ago, "3 hours");
    assert_eq!(sets[0].results.len(), 1);
    assert_eq!(sets[0].results[0].id, "pred-a");
    assert_eq!(sets[0].results[0].value.start, 12);
    assert_eq!(sets[0].results[0].value.end, 34);
    assert_eq!(
        parse_task_predictions(txt("nope")).unwrap_err(),
        SchemaError::Predictions
    );
    let bad_set = obj(vec![("id", txt("nine"))]);
    assert_eq!(
        parse_task_predictions(JsonValue::Array(vec![bad_set])).unwrap_err(),
        SchemaError::Predictions
    );
}

#[test]
fn assembled_tasks_attach_their_own_predictions_and_payload() {
    let export = JsonValue::Array(vec![task_entry_json()]);
    let tasks = parse_task_export(export).expect("export is well formed");
    let predictions = vec![vec![PredictionSet {
        id: 9,
        created_ago: String::from("3 hours"),
        results: vec![],
    }]];
    let record = get_project_data(5, tasks, predictions);
    assert_eq!(record.tasks[0].prediction_sets.len(), 1);
    assert_eq!(record.tasks[0].prediction_sets[0].id, 9);
    match &record.tasks[0].data {
        JsonValue::Object(members) => {
            assert_eq!(members.len(), 1);
            assert_eq!(members[0].key, "csv");
            match &members[0].value {
                JsonValue::Text(s) => assert_eq!(s, "payload.csv"),
                other => panic!("data payload changed shape: {:?}", other),
            }
        }
        other => panic!("data payload changed shape: {:?}", other),
    }
}

#[test]
fn export_result_maps_names_to_their_records() {
    let mut result = ExportResult::new();
    assert!(!result.contains("Torque"));
    result.insert(
        String::from("Torque"),
        lable_studio_rs::model::ProjectRecord { id: 5, tasks: vec![] },
    );
    assert!(result.contains("Torque"));
    assert_eq!(result.len(), 1);
    let record = result.get("Torque").expect("inserted above");
    assert_eq!(record.id, 5);
    assert!(result.get("Gamma").is_none());
}

#[test]
fn config_takes_environment_values_before_arguments() {
    let mut args = vec![String::from("prog"), String::from("spare")];
    let config = Config::build(
        &mut args,
        Some(String::from("Torque,Gamma")),
        Some(String::from("http://host")),
        Some(String::from("SECRET-REDACTED")),
    )
    .expect("all inputs present");
    assert_eq!(args.len(), 2);
    assert_eq!(config.host_name, "http://host");
    assert_eq!(config.api_token, "SECRET-REDACTED");
    assert_eq!(
        config.project_names,
        vec![String::from("Torque"), String::from("Gamma")]
    );
}

#[test]
fn config_pops_arguments_from_the_back_when_env_is_absent() {
    let mut args = vec![
        String::from("prog"),
        String::from("token-arg"),
        String::from("host-arg"),
        String::from("Torque"),
    ];
    let config = Config::build(&mut args, None, None, None).expect("all inputs present");
    assert_eq!(args, vec![String::from("prog")]);
    assert_eq!(config.project_names, vec![String::from("Torque")]);
    assert_eq!(config.host_name, "host-arg");
    assert_eq!(config.api_token, "token-arg");
}

#[test]
fn each_missing_config_input_has_its_own_error() {
    let mut args: Vec<String> = vec![];
    assert_eq!(
        Config::build(&mut args, None, None, None).unwrap_err(),
        ConfigError::MissingProjectNames
    );
    let mut args: Vec<String> = vec![];
    assert_eq!(
        Config::build(&mut args, Some(String::from("Torque")), None, None).unwrap_err(),
        ConfigError::MissingHostName
    );
    let mut args: Vec<String> = vec![];
    assert_eq!(
        Config::build(
            &mut args,
            Some(String::from("Torque")),
            Some(String::from("http://host")),
            None
        )
        .unwrap_err(),
        ConfigError::MissingApiToken
    );
}

#[test]
fn origin_comparison_is_case_sensitive() {
    let entry = obj(vec![
        ("id", num("41")),
        ("file_upload", txt("audio.wav")),
        (
            "annotations",
            JsonValue::Array(vec![obj(vec![
                ("id", num("3")),
                ("created_at", txt("2023-01-01")),
                ("task", num("41")),
                ("project", num("5")),
                (
                    "result",
                    JsonValue::Array(vec![annotation_result_json("a1", "Manual")]),
                ),
            ])]),
        ),
        ("predictions", JsonValue::Array(vec![])),
        ("data", JsonValue::Null),
    ]);
    let tasks = parse_task_export(JsonValue::Array(vec![entry])).expect("well formed");
    assert!(matches!(
        tasks[0].annotation_sets[0].results[0].origin,
        Origin::Other
    ));
    let record = get_project_data(5, tasks, vec![vec![]]);
    assert_eq!(record.tasks[0].annotation_sets[0].results.len(), 0);
}

#[test]
fn annotation_set_missing_a_field_rejects_the_export() {
    let entry = obj(vec![
        ("id", num("41")),
        ("file_upload", txt("audio.wav")),
        (
            "annotations",
            JsonValue::Array(vec![obj(vec![
                ("id", num("3")),
                ("created_at", txt("2023-01-01")),
                ("project", num("5")),
                ("result", JsonValue::Array(vec![])),
            ])]),
        ),
        ("predictions", JsonValue::Array(vec![])),
        ("data", JsonValue::Null),
    ]);
    assert_eq!(
        parse_task_export(JsonValue::Array(vec![entry])).unwrap_err(),
        SchemaError::TaskExport
    );
}

#[test]
fn prediction_set_with_wrong_field_type_is_rejected() {
    let bad = obj(vec![
        ("id", num("9")),
        ("created_ago", num("3")),
        ("result", JsonValue::Array(vec![])),
    ]);
    assert_eq!(
        parse_task_predictions(JsonValue::Array(vec![bad])).unwrap_err(),
        SchemaError::Predictions
    );
}

#[test]
fn project_name_parsing_splits_on_commas_and_collapses_duplicates() {
    assert_eq!(
        Config::parse_project_names(String::from("a,b,a")),
        vec![String::from("a"), String::from("b")]
    );
    assert_eq!(
        Config::parse_project_names(String::from("a,,b")),
        vec![String::from("a"), String::from(""), String::from("b")]
    );
    assert_eq!(
        Config::parse_project_names(String::from("")),
        vec![String::from("")]
    );
    assert_eq!(
        Config::parse_project_names(String::from("Torque")),
        vec![String::from("Torque")]
    );
}
