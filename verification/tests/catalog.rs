use openbitfun_core::capsule::TurnRailCapsuleSegment;
use openbitfun_core::catalog::{
    accept_session_turn_catalog_cache, build_turn_catalog,
    can_incrementally_update_turn_catalog_after_save, complete_turn_catalog_indices,
    is_well_formed_turn_catalog, placeholder_turn_catalog_entry, truncate_turn_catalog_preview,
    turn_catalog_entry, SessionTurnCatalog, SESSION_TURN_CATALOG_PREVIEW_CHAR_LIMIT,
};
use openbitfun_core::json::{JsonField, JsonNumber, JsonValue};
use openbitfun_core::projection::{
    catalog_after_save, complete_session_turn_catalog, is_already_cataloged,
    load_session_turn_catalog, rebuilt_catalog_after_save, CatalogAfterSave,
};
use openbitfun_core::turn::{DialogTurnData, DialogTurnKind, TurnStatus, UserMessageData};
use openbitfun_core::window::{
    answer_turn_window, check_turn_window_read, plan_turn_window, refreshed_turn_catalog,
    SessionTurnWindowRequest, SessionTurnWindowResponse, TurnWindowPlan, TurnWindowRead,
};

const SCHEMA: u32 = 2;

fn turn(index: usize, content: &str, metadata: Option<JsonValue>) -> DialogTurnData {
    DialogTurnData {
        turn_id: format!("turn-{}", index),
        turn_index: index,
        session_id: "session".to_string(),
        kind: DialogTurnKind::UserDialog,
        user_message: UserMessageData {
            id: format!("user-{}", index),
            content: content.to_string(),
            timestamp: 0,
            metadata,
        },
        display_content: content.to_string(),
        status: TurnStatus::Completed,
        start_time: 0,
        end_time: None,
    }
}

fn turns(indices: &[usize]) -> Vec<DialogTurnData> {
    indices.iter().map(|index| turn(*index, &format!("content {}", index), None)).collect()
}

fn text(value: &str) -> JsonValue {
    JsonValue::Text(value.to_string())
}

fn object(fields: Vec<(&str, JsonValue)>) -> JsonValue {
    JsonValue::Object(
        fields
            .into_iter()
            .map(|(key, value)| JsonField { key: key.to_string(), value })
            .collect(),
    )
}

fn complete_catalog(indices: &[usize]) -> SessionTurnCatalog {
    complete_session_turn_catalog(SCHEMA, "session", &None, &turns(indices))
        .expect("a first catalog is stored")
}

fn storage_indices(catalog: &SessionTurnCatalog) -> Vec<usize> {
    catalog.entries.iter().map(|entry| entry.storage_turn_index).collect()
}

fn request(target: usize, before: usize, after: usize) -> SessionTurnWindowRequest {
    SessionTurnWindowRequest {
        session_id: "session".to_string(),
        target_storage_turn_index: target,
        expected_turn_id: None,
        expected_catalog_revision: None,
        before,
        after,
    }
}

#[test]
fn turn_catalog_preview_truncates_on_unicode_scalar_boundaries() {
    let content = "界".repeat(SESSION_TURN_CATALOG_PREVIEW_CHAR_LIMIT + 1);
    let (preview, truncated) = truncate_turn_catalog_preview(&content);

    assert_eq!(
        preview.chars().count(),
        SESSION_TURN_CATALOG_PREVIEW_CHAR_LIMIT
    );
    assert!(truncated);
    assert!(preview.is_char_boundary(preview.len()));

    let exact = "🙂".repeat(SESSION_TURN_CATALOG_PREVIEW_CHAR_LIMIT);
    let (preview, truncated) = truncate_turn_catalog_preview(&exact);
    assert_eq!(preview, exact);
    assert!(!truncated);
}

#[test]
fn previews_are_trimmed_before_they_are_cut() {
    let (preview, truncated) = truncate_turn_catalog_preview("  hello \n");
    assert_eq!(preview, "hello");
    assert!(!truncated);
}

#[test]
fn turn_rail_capsule_preview_keeps_only_display_facts() {
    let segments = JsonValue::Array(vec![
        object(vec![
            ("kind", text("inline-token")),
            ("label", text("pdf")),
            ("token", text("[$pdf]")),
            ("tokenType", text("skill")),
        ]),
        object(vec![("kind", text("text")), ("text", text(" "))]),
        object(vec![
            (
                "context",
                object(vec![
                    ("fileName", text("auth.ts")),
                    ("filePath", text("E:/workspace/auth.ts")),
                    ("id", text("file-1")),
                    (
                        "selectedText",
                        text("large secret payload that must not enter catalog"),
                    ),
                    ("type", text("file")),
                ]),
            ),
            ("kind", text("context")),
            ("label", text("auth.ts")),
            ("tag", text("#file: auth.ts")),
            ("title", text("E:/workspace/auth.ts")),
        ]),
    ]);
    let metadata = object(vec![(
        "composerPresentation",
        object(vec![
            ("segments", segments),
            ("version", JsonValue::Number(JsonNumber::Unsigned(1))),
        ]),
    )]);
    let mut turn = turn(0, "[$pdf] #file: auth.ts", Some(metadata));
    let entry = turn_catalog_entry(&turn, 0);
    let preview = entry.capsule_preview.expect("capsule preview");
    assert_eq!(preview.segments.len(), 3);
    assert!(matches!(
        &preview.segments[0],
        TurnRailCapsuleSegment::InlineToken { token_type, label }
            if token_type == "skill" && label == "pdf"
    ));
    assert!(matches!(
        &preview.segments[1],
        TurnRailCapsuleSegment::Text { text } if text == " "
    ));
    assert!(matches!(
        &preview.segments[2],
        TurnRailCapsuleSegment::Context { context_type, label, title }
            if context_type == "file"
                && label == "auth.ts"
                && title.as_deref() == Some("E:/workspace/auth.ts")
    ));
    let encoded = format!("{:?}", preview);
    assert!(encoded.contains("auth.ts"));
    assert!(!encoded.contains("large secret payload"));
    assert!(!encoded.contains("filePath"));
    turn.user_message.metadata = None;
    assert!(turn_catalog_entry(&turn, 0).capsule_preview.is_none());
}

fn presentation(version: u64, segments: Vec<JsonValue>) -> Option<JsonValue> {
    Some(object(vec![(
        "composerPresentation",
        object(vec![
            ("segments", JsonValue::Array(segments)),
            ("version", JsonValue::Number(JsonNumber::Unsigned(version))),
        ]),
    )]))
}

#[test]
fn capsules_are_all_or_nothing() {
    let good = || object(vec![("kind", text("text")), ("text", text("x"))]);
    let empty = || object(vec![("kind", text("text")), ("text", text(""))]);
    let shown = |metadata| turn_catalog_entry(&turn(0, "c", metadata), 0).capsule_preview;

    assert!(shown(presentation(2, vec![good()])).is_none());
    assert!(shown(presentation(1, vec![empty()])).is_none());
    assert!(shown(presentation(1, Vec::new())).is_none());
    assert!(shown(presentation(1, vec![good(), text("bare")])).is_none());
    assert!(shown(presentation(1, vec![good(), object(vec![("kind", text("video"))])])).is_none());
    assert_eq!(shown(presentation(1, vec![empty(), good()])).unwrap().segments.len(), 1);
    let many: Vec<JsonValue> = (0..70).map(|_| good()).collect();
    assert_eq!(shown(presentation(1, many)).unwrap().segments.len(), 64);
    let mut late: Vec<JsonValue> = (0..64).map(|_| good()).collect();
    late.push(text("malformed, but beyond the limit"));
    assert_eq!(shown(presentation(1, late)).unwrap().segments.len(), 64);
    let long = object(vec![("kind", text("text")), ("text", text(&"y".repeat(400)))]);
    assert!(matches!(
        &shown(presentation(1, vec![long])).unwrap().segments[0],
        TurnRailCapsuleSegment::Text { text } if text.chars().count() == 320
    ));
}

#[test]
fn revisions_are_fixed_by_the_turn_files() {
    let revision = |indices: &[usize]| {
        let entries =
            indices.iter().map(|index| placeholder_turn_catalog_entry(*index, 0)).collect();
        build_turn_catalog(SCHEMA, "session", entries).revision
    };
    assert_eq!(revision(&[]), "v2-af5570f5a1810b7a");
    assert_eq!(revision(&[0]), "v2-32edb6022c0921d9");
    assert_eq!(revision(&[0, 1, 2]), "v2-25e4f181636d0c1b");
    assert_eq!(revision(&[7, 2]), "v2-9012e6de4ba23262");
    assert_eq!(complete_catalog(&[0, 1, 2]).revision, revision(&[0, 1, 2]));
}

#[test]
fn catalogs_are_ordered_numbered_and_well_formed() {
    let catalog = build_turn_catalog(
        SCHEMA,
        "session",
        vec![
            turn_catalog_entry(&turn(5, "five", None), 9),
            placeholder_turn_catalog_entry(1, 4),
            turn_catalog_entry(&turn(3, "three", None), 0),
        ],
    );
    assert_eq!(storage_indices(&catalog), vec![1, 3, 5]);
    assert_eq!(
        catalog.entries.iter().map(|entry| entry.ordinal).collect::<Vec<_>>(),
        vec![0, 1, 2]
    );
    assert_eq!(catalog.total_turn_count, 3);
    assert!(!catalog.complete);
    assert!(is_well_formed_turn_catalog(&catalog));

    let doubled = build_turn_catalog(
        SCHEMA,
        "session",
        vec![
            turn_catalog_entry(&turn(1, "first", None), 0),
            placeholder_turn_catalog_entry(1, 0),
        ],
    );
    assert!(!is_well_formed_turn_catalog(&doubled));
    assert!(doubled.entries[0].turn_id.is_some(), "equal indices keep their order");

    let mut changed = complete_catalog(&[0, 1]);
    changed.complete = false;
    assert!(!is_well_formed_turn_catalog(&changed));
    let mut changed = complete_catalog(&[0, 1]);
    changed.revision = "v2-0000000000000000".to_string();
    assert!(!is_well_formed_turn_catalog(&changed));
}

#[test]
fn indices_are_completed_from_zero() {
    assert_eq!(complete_turn_catalog_indices(&vec![4, 1, 4], 0), vec![1, 4]);
    assert_eq!(complete_turn_catalog_indices(&vec![4, 1, 4], 4), vec![0, 1, 2, 4]);
    assert_eq!(complete_turn_catalog_indices(&Vec::new(), 3), vec![0, 1, 2]);
    assert_eq!(complete_turn_catalog_indices(&vec![usize::MAX], 2), vec![0, usize::MAX]);
    assert_eq!(complete_turn_catalog_indices(&vec![9, 1], 4), vec![0, 1, 2, 9]);
    assert_eq!(complete_turn_catalog_indices(&vec![9, 1, 5], 2), vec![1, 5, 9]);
}

#[test]
fn only_fitting_stored_catalogs_are_used() {
    let stored = || Some(complete_catalog(&[0, 1]));
    assert!(accept_session_turn_catalog_cache(SCHEMA, "session", stored()).is_some());
    assert!(accept_session_turn_catalog_cache(SCHEMA + 1, "session", stored()).is_none());
    assert!(accept_session_turn_catalog_cache(SCHEMA, "other", stored()).is_none());
    assert!(accept_session_turn_catalog_cache(SCHEMA, "session", None).is_none());
    let mut broken = complete_catalog(&[0, 1]);
    broken.total_turn_count = 7;
    assert!(accept_session_turn_catalog_cache(SCHEMA, "session", Some(broken)).is_none());
}

#[test]
fn a_complete_catalog_is_stored_once() {
    let first = complete_session_turn_catalog(SCHEMA, "session", &None, &turns(&[0, 1]));
    assert!(first.as_ref().is_some_and(|catalog| catalog.complete));
    assert!(complete_session_turn_catalog(SCHEMA, "session", &first, &turns(&[0, 1])).is_none());
    let shorter = complete_session_turn_catalog(SCHEMA, "session", &first, &turns(&[0]));
    assert_eq!(storage_indices(&shorter.unwrap()), vec![0]);
}

#[test]
fn restoring_projects_placeholders_and_repairs_them_from_read_turns() {
    let listed = Some(vec![0, 1, 2, 3]);
    let load = load_session_turn_catalog(SCHEMA, "session", &listed, &None, &turns(&[2, 3]), 4);
    assert_eq!(storage_indices(&load.visible), vec![0, 1, 2, 3]);
    assert!(load.visible.entries[0].turn_id.is_none());
    assert_eq!(load.visible.entries[3].turn_id.as_deref(), Some("turn-3"));
    assert!(!load.visible.complete);
    let stored = load.store;
    assert!(stored.is_some());

    let again =
        load_session_turn_catalog(SCHEMA, "session", &listed, &stored, &turns(&[0, 1]), 4);
    assert!(again.visible.complete);
    assert_eq!(again.visible.revision, load.visible.revision);
    let complete = again.store;
    assert!(complete.is_some());

    let idle = load_session_turn_catalog(SCHEMA, "session", &listed, &complete, &Vec::new(), 4);
    assert!(idle.visible.complete);
    assert!(idle.store.is_none());
}

#[test]
fn padded_indices_are_shown_and_never_stored() {
    let load =
        load_session_turn_catalog(SCHEMA, "session", &Some(vec![0, 2]), &None, &turns(&[2]), 3);
    assert_eq!(storage_indices(&load.visible), vec![0, 1, 2]);
    assert!(load.store.is_none());

    let unlisted = load_session_turn_catalog(SCHEMA, "session", &None, &None, &turns(&[1]), 2);
    assert_eq!(storage_indices(&unlisted.visible), vec![0, 1]);
    assert!(unlisted.store.is_none());
}

#[test]
fn staged_views_hide_the_suffix_and_store_all_of_it() {
    let load =
        load_session_turn_catalog(SCHEMA, "session", &Some(vec![0, 1, 2]), &None, &turns(&[0]), 2);
    assert_eq!(storage_indices(&load.visible), vec![0, 1]);
    assert_eq!(storage_indices(&load.store.unwrap()), vec![0, 1, 2]);
}

#[test]
fn a_saved_turn_repairs_its_own_entry_alone() {
    let cached = load_session_turn_catalog(
        SCHEMA,
        "session",
        &Some(vec![0, 1, 2]),
        &None,
        &Vec::new(),
        3,
    )
    .store;
    let saved = turn(1, "content 1", None);
    assert!(!is_already_cataloged(&cached, &saved));
    let next = match catalog_after_save(SCHEMA, &cached, &vec![0, 1, 2], &saved) {
        CatalogAfterSave::Store(next) => next,
        other => panic!("unexpected plan: {:?}", other),
    };
    assert_eq!(next.entries[1].turn_id.as_deref(), Some("turn-1"));
    assert!(next.entries[0].turn_id.is_none() && next.entries[2].turn_id.is_none());
    let next = Some(next);
    assert!(matches!(
        catalog_after_save(SCHEMA, &next, &vec![0, 1, 2], &saved),
        CatalogAfterSave::Unchanged
    ));

    let appended = turn(3, "content 3", None);
    assert!(matches!(
        catalog_after_save(SCHEMA, &next, &vec![0, 1, 2, 3], &appended),
        CatalogAfterSave::Store(_)
    ));
}

#[test]
fn a_complete_catalog_recognizes_a_saved_turn() {
    let cached = Some(complete_catalog(&[0, 1]));
    assert!(is_already_cataloged(&cached, &turn(1, "content 1", None)));
    assert!(!is_already_cataloged(&cached, &turn(1, "changed", None)));
    assert!(!is_already_cataloged(&cached, &turn(2, "content 2", None)));
}

#[test]
fn misaligned_catalogs_are_made_anew() {
    let cached = Some(complete_catalog(&[0, 1]));
    let saved = turn(3, "content 3", None);
    assert!(matches!(
        catalog_after_save(SCHEMA, &cached, &vec![0, 2, 3], &saved),
        CatalogAfterSave::NeedsTurns
    ));
    assert!(matches!(
        catalog_after_save(SCHEMA, &None, &vec![3], &saved),
        CatalogAfterSave::NeedsTurns
    ));
    let rebuilt = rebuilt_catalog_after_save(
        SCHEMA,
        "session",
        &cached,
        &vec![0, 2, 3],
        &turns(&[0, 3]),
    )
    .unwrap();
    assert_eq!(storage_indices(&rebuilt), vec![0, 2, 3]);
    assert!(rebuilt.entries[1].turn_id.is_none());
    assert!(rebuilt_catalog_after_save(
        SCHEMA,
        "session",
        &cached,
        &vec![0, 1],
        &turns(&[0, 1])
    )
    .is_none());
}

#[test]
fn incremental_updates_need_aligned_files() {
    let catalog = complete_catalog(&[0, 2]);
    let fits = |files: Vec<usize>, saved| {
        can_incrementally_update_turn_catalog_after_save(&catalog, &files, saved)
    };
    assert!(fits(vec![0, 2], 2));
    assert!(!fits(vec![0, 2], 1));
    assert!(fits(vec![0, 2, 5], 5));
    assert!(!fits(vec![0, 2, 5], 2));
    assert!(!fits(vec![0, 3], 3));
    assert!(!fits(vec![0], 0));
    assert!(!fits(vec![0, 2, 5, 6], 6));
}

#[test]
fn windows_are_bounded_and_contiguous() {
    let files: Vec<usize> = (0..30).collect();
    let cached = Some(complete_catalog(&files));
    let selection = match plan_turn_window(SCHEMA, &request(10, 50, 50), None, &files, &cached) {
        TurnWindowPlan::Read(selection) => selection,
        other => panic!("unexpected plan: {:?}", other),
    };
    assert_eq!(selection.start_ordinal, 6);
    assert_eq!(selection.end_ordinal_exclusive, 22);
    assert_eq!(selection.selected, (6..22).collect::<Vec<_>>());

    let edge = match plan_turn_window(SCHEMA, &request(0, 3, 0), None, &files, &cached) {
        TurnWindowPlan::Read(selection) => selection,
        other => panic!("unexpected plan: {:?}", other),
    };
    assert_eq!(edge.selected, vec![0]);
}

#[test]
fn windows_respect_the_revision_and_the_staged_boundary() {
    let files: Vec<usize> = (0..6).collect();
    let cached = Some(complete_catalog(&files));
    assert!(matches!(
        plan_turn_window(SCHEMA, &request(5, 1, 1), Some(4), &files, &cached),
        TurnWindowPlan::NotFound { catalog } if storage_indices(&catalog) == vec![0, 1, 2, 3]
    ));

    let mut stale = request(2, 1, 1);
    stale.expected_catalog_revision = Some("v2-other".to_string());
    assert!(matches!(
        plan_turn_window(SCHEMA, &stale, None, &files, &cached),
        TurnWindowPlan::Stale { .. }
    ));
    stale.expected_catalog_revision = cached.as_ref().map(|catalog| catalog.revision.clone());
    assert!(matches!(
        plan_turn_window(SCHEMA, &stale, None, &files, &cached),
        TurnWindowPlan::Read(_)
    ));

    let mut other_turn = request(2, 1, 1);
    other_turn.expected_turn_id = Some("turn-9".to_string());
    assert!(matches!(
        plan_turn_window(SCHEMA, &other_turn, None, &files, &cached),
        TurnWindowPlan::Stale { .. }
    ));
    let refreshed = refreshed_turn_catalog(SCHEMA, "session", Some(2), &files, &cached);
    assert_eq!(storage_indices(&refreshed), vec![0, 1]);
}

#[test]
fn windows_without_stored_metadata_are_read_and_repaired() {
    let files: Vec<usize> = (0..3).collect();
    let mut wanted = request(1, 1, 2);
    wanted.expected_turn_id = Some("turn-1".to_string());
    let selection = match plan_turn_window(SCHEMA, &wanted, None, &files, &None) {
        TurnWindowPlan::Read(selection) => selection,
        other => panic!("unexpected plan: {:?}", other),
    };
    let revision = selection.catalog.revision.clone();
    let read =
        check_turn_window_read(SCHEMA, &wanted, &selection, &files, &None, &turns(&[0, 1, 2]), 0);
    let store = match read {
        Ok(TurnWindowRead::Loaded { store, target_matches: true }) => store,
        other => panic!("unexpected read: {:?}", other),
    };
    assert!(store.as_ref().is_some_and(|catalog| catalog.complete));
    assert_eq!(store.as_ref().map(|catalog| catalog.revision.clone()), Some(revision.clone()));
    match answer_turn_window(SCHEMA, &wanted, selection, turns(&[0, 1, 2]), &store, true) {
        SessionTurnWindowResponse::Ready {
            catalog_revision,
            total_turn_count,
            start_ordinal,
            end_ordinal_exclusive,
            target_turn_id,
            turns,
        } => {
            assert_eq!(catalog_revision, revision);
            assert_eq!((total_turn_count, start_ordinal, end_ordinal_exclusive), (3, 0, 3));
            assert_eq!(target_turn_id, "turn-1");
            assert_eq!(turns.len(), 3);
        }
        other => panic!("unexpected answer: {:?}", other),
    }
}

#[test]
fn windows_with_missing_or_misplaced_turns_are_not_ready() {
    let files: Vec<usize> = (0..3).collect();
    let wanted = request(1, 1, 2);
    let plan = || match plan_turn_window(SCHEMA, &wanted, None, &files, &None) {
        TurnWindowPlan::Read(selection) => selection,
        other => panic!("unexpected plan: {:?}", other),
    };
    assert!(matches!(
        check_turn_window_read(SCHEMA, &wanted, &plan(), &files, &None, &turns(&[0, 2]), 1),
        Ok(TurnWindowRead::Missing)
    ));
    let mut misplaced = turns(&[0, 1, 2]);
    misplaced[1].turn_index = 7;
    let error =
        check_turn_window_read(SCHEMA, &wanted, &plan(), &files, &None, &misplaced, 0).unwrap_err();
    assert!(format!("{:?}", error).contains(
        "Persisted Turn identity does not match its storage path: session_id=session \
         expected_turn_index=1 actual_session_id=session actual_turn_index=7"
    ));
    let mut renamed = turns(&[0, 1, 2]);
    renamed[1].turn_id = "replaced".to_string();
    let mut expecting = request(1, 1, 2);
    expecting.expected_turn_id = Some("turn-1".to_string());
    assert!(matches!(
        check_turn_window_read(SCHEMA, &expecting, &plan(), &files, &None, &renamed, 0),
        Ok(TurnWindowRead::Loaded { target_matches: false, .. })
    ));
    match answer_turn_window(SCHEMA, &expecting, plan(), renamed, &None, false) {
        SessionTurnWindowResponse::Stale { catalog } => {
            assert_eq!(catalog.entries[1].turn_id.as_deref(), Some("replaced"));
        }
        other => panic!("unexpected answer: {:?}", other),
    }
}
