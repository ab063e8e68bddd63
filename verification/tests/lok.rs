use neqst_core::json::{JsonNumber, JsonValue};
use neqst_core::lok::lifecycle::{
    locate_lok_binary, matrix_paths, project_root_candidates, CompatibilityMatrix, CoreVersionManager, LokHashError,
    TargetOs,
};
use neqst_core::lok::runtime::{
    check_install_path, install_path_settings, library_source, InitOutcome, LibrarySource, LokBoot, LokBootAction,
    LokBootEvent,
};
use neqst_core::lok::{
    build_document_meta, document_meta_query, fallback_structure_hash, guess_mime, hash_file_prefix, is_odf,
    resolve_to_absolute, stored_record_id, to_file_url,
};
use neqst_core::orchestrator::BindValue;

fn matrix(hash: &str) -> CompatibilityMatrix {
    CompatibilityMatrix {
        current_stable_core: "26.2.1".to_string(),
        minimum_required_version: "26.2.0".to_string(),
        embedded_hash_blake3: hash.to_string(),
        allowed_upstream_releases: vec!["26.2.1".to_string()],
    }
}

fn text(s: &str) -> JsonValue {
    JsonValue::String(s.to_string())
}

fn obj(members: Vec<(&str, JsonValue)>) -> JsonValue {
    JsonValue::Object(members.into_iter().map(|(k, v)| (k.to_string(), v)).collect())
}

#[test]
fn odf_detection_ignores_case() {
    assert!(is_odf("a/b/report.ods"));
    assert!(is_odf("REPORT.ODT"));
    assert!(is_odf("slides.Odp"));
    assert!(!is_odf("report.docx"));
    assert!(!is_odf("noext"));
    assert!(!is_odf("dir.ods/file"));
}

#[test]
fn mime_types_by_extension() {
    assert_eq!(guess_mime("x.odt"), "application/vnd.oasis.opendocument.text");
    assert_eq!(guess_mime("x.ODS"), "application/vnd.oasis.opendocument.spreadsheet");
    assert_eq!(guess_mime("x.odp"), "application/vnd.oasis.opendocument.presentation");
    assert_eq!(guess_mime("x.docx"), "application/vnd.openxmlformats-officedocument.wordprocessingml.document");
    assert_eq!(guess_mime("x.xlsx"), "application/vnd.openxmlformats-officedocument.spreadsheetml.sheet");
    assert_eq!(guess_mime("x.pdf"), "application/octet-stream");
    assert_eq!(guess_mime("README"), "application/octet-stream");
}

#[test]
fn file_urls() {
    assert_eq!(to_file_url("/home/u/doc.ods"), "file:///home/u/doc.ods");
    assert_eq!(to_file_url("C:\\Users\\u\\doc.ods"), "file:///C:/Users/u/doc.ods");
    assert_eq!(to_file_url("rel/doc.ods"), "file://rel/doc.ods");
}

#[test]
fn absolute_paths() {
    assert_eq!(resolve_to_absolute("/abs/doc.ods", "/work"), "/abs/doc.ods");
    assert_eq!(resolve_to_absolute("data/doc.ods", "/work"), "/work/data/doc.ods");
    assert_eq!(resolve_to_absolute("doc.ods", "/work/"), "/work/doc.ods");
}

#[test]
fn structure_hashes() {
    assert_eq!(hash_file_prefix(b"neqst-demo-ods"), blake3::hash(b"neqst-demo-ods").to_hex().to_string());
    assert_eq!(fallback_structure_hash("demo.ods", 14), blake3::hash(b"demo.ods:14").to_hex().to_string());
}

#[test]
fn document_metadata() {
    let m = build_document_meta("data/simulator/demo.ods", "/w/data/simulator/demo.ods", 14, None, None, None);
    assert_eq!(m.storage_path, "data/simulator/demo.ods");
    assert_eq!(m.filename, "demo.ods");
    assert_eq!(m.file_size, 14);
    assert_eq!(m.mime_type, "application/vnd.oasis.opendocument.spreadsheet");
    assert!(m.is_graph_enhanced);
    assert!(!m.lok_available);
    assert_eq!(m.parts, 0);
    assert_eq!(m.structure_hash, blake3::hash(b"demo.ods:14").to_hex().to_string());

    let m2 = build_document_meta("b.docx", "/w/b.docx", 3, Some(4), Some(b"abc"), Some("\"document_meta:x\"".to_string()));
    assert!(m2.lok_available);
    assert_eq!(m2.parts, 4);
    assert!(!m2.is_graph_enhanced);
    assert_eq!(m2.structure_hash, blake3::hash(b"abc").to_hex().to_string());
    assert_eq!(m2.record_id.as_deref(), Some("\"document_meta:x\""));
}

#[test]
fn document_metadata_query() {
    let q = document_meta_query("docs/a.ods", "/w/docs/a.ods", 10);
    assert!(q.sql.contains("UPSERT document_meta SET"));
    assert_eq!(q.bindings.len(), 4);
    assert_eq!(q.bindings[0].0, "filename");
    assert!(matches!(&q.bindings[0].1, BindValue::Str(s) if s == "a.ods"));
    assert!(matches!(&q.bindings[1].1, BindValue::Int(10)));
    assert!(matches!(&q.bindings[2].1, BindValue::Str(s) if s == "docs/a.ods"));
    assert!(matches!(&q.bindings[3].1, BindValue::Str(s) if s == "application/vnd.oasis.opendocument.spreadsheet"));
    let rows = vec![obj(vec![("id", text("document_meta:x")), ("filename", text("a.ods"))])];
    assert_eq!(stored_record_id(&rows), Some(&text("document_meta:x")));
    assert_eq!(stored_record_id(&vec![]), None);
}

#[test]
fn runtime_binary_locations() {
    assert_eq!(locate_lok_binary("/opt/lo/program", TargetOs::Other), "/opt/lo/program/libreofficekit.so");
    assert_eq!(locate_lok_binary("C:/lo", TargetOs::Windows), "C:/lo/libreofficekit.dll");
    assert_eq!(locate_lok_binary("/lo/", TargetOs::MacOs), "/lo/libreofficekit.dylib");
    let (install, lib) = install_path_settings("/opt/lo/program", TargetOs::Other);
    assert_eq!(install, "/opt/lo/program");
    assert_eq!(lib, "/opt/lo/program/libreofficekit.so");
}

#[test]
fn version_manager_paths() {
    let m = CoreVersionManager::new(matrix(""), "/proj".to_string());
    assert_eq!(m.current_stable_version(), "26.2.1");
    assert_eq!(m.stable_install_path(None), "/proj/embedded/libreoffice/26.2.1/program");
    assert_eq!(m.stable_install_path(Some("")), "/proj/embedded/libreoffice/26.2.1/program");
    assert_eq!(m.stable_install_path(Some("/fake/lo")), "/fake/lo");
    assert_eq!(m.candidate_install_path(Some("")), None);
    assert_eq!(m.candidate_install_path(Some("/cand")), Some("/cand".to_string()));
    assert_eq!(m.candidate_install_path(None), None);
    let (core, config) = matrix_paths("/proj");
    assert_eq!(core, "/proj/core/compatibility_matrix.json");
    assert_eq!(config, "/proj/config/compatibility_matrix.json");
}

#[test]
fn embedded_hash_checks() {
    let unpinned = CoreVersionManager::new(matrix("  "), "/p".to_string());
    assert_eq!(unpinned.verify_embedded_hash(None), Ok(()));
    let placeholder = CoreVersionManager::new(matrix("REPLACE_WITH_VERIFIED_BLAKE3_OF_LIBREOFFICEKIT_BINARY"), "/p".to_string());
    assert!(!placeholder.hash_check_required());
    assert_eq!(placeholder.verify_embedded_hash(Some(b"x")), Ok(()));
    let good = blake3::hash(b"fake-lok-runtime").to_hex().to_string();
    let pinned = CoreVersionManager::new(matrix(&format!(" {} ", good)), "/p".to_string());
    assert!(pinned.hash_check_required());
    assert_eq!(pinned.verify_embedded_hash(Some(b"fake-lok-runtime")), Ok(()));
    assert_eq!(pinned.verify_embedded_hash(Some(b"other")), Err(LokHashError::HashMismatch));
    assert_eq!(pinned.verify_embedded_hash(None), Err(LokHashError::BinaryNotFound));
    assert_eq!(LokHashError::HashMismatch.code(), "lok_hash_mismatch");
}

#[test]
fn project_root_search() {
    let dirs = project_root_candidates("/a/b/c");
    assert_eq!(dirs, vec!["/a/b/c".to_string(), "/a/b".to_string(), "/a".to_string(), "/".to_string()]);
    let deep = project_root_candidates("/1/2/3/4/5/6/7/8/9/10/11/12/13");
    assert_eq!(deep.len(), 12);
    assert_eq!(deep[11], "/1/2");
}

#[test]
fn library_search() {
    match library_source(TargetOs::Other, None) {
        LibrarySource::Candidates(v) => assert_eq!(v, vec!["libreofficekit.so".to_string(), "libreofficekit.so.1".to_string()]),
        _ => panic!("candidates expected"),
    }
    match library_source(TargetOs::Windows, Some("")) {
        LibrarySource::Candidates(v) => assert_eq!(v, vec!["libreofficekit.dll".to_string(), "libreofficekitlo.dll".to_string()]),
        _ => panic!("candidates expected"),
    }
    match library_source(TargetOs::MacOs, Some("/x/lib.dylib")) {
        LibrarySource::Explicit(p) => assert_eq!(p, "/x/lib.dylib"),
        _ => panic!("explicit expected"),
    }
    assert_eq!(check_install_path(""), Err("NEQST_LOK_INSTALL_PATH_not_set".to_string()));
    assert_eq!(check_install_path("/lo"), Ok(()));
}

#[test]
fn runtime_bring_up_without_candidate() {
    let boot = LokBoot::new();
    let (boot, acts) = boot.step(LokBootEvent::Start { candidate: None, stable: "/stable".to_string() });
    assert!(matches!(&acts[..], [LokBootAction::ApplyInstallPath(a), LokBootAction::VerifyHash(b)] if a == "/stable" && b == "/stable"));
    let (boot, acts) = boot.step(LokBootEvent::HashChecked(false));
    assert!(matches!(&acts[..], [LokBootAction::TryInit]));
    let (boot, acts) = boot.step(LokBootEvent::Initialised { outcome: InitOutcome::Ready, install_path: "/stable".to_string() });
    assert!(matches!(&acts[..], [LokBootAction::Done(Ok(()))]));
    assert!(boot.is_finished());
}

#[test]
fn runtime_bring_up_rolls_back_a_failing_candidate() {
    let boot = LokBoot::new();
    let (boot, _) = boot.step(LokBootEvent::Start { candidate: Some("/cand".to_string()), stable: "/stable".to_string() });
    let (boot, acts) = boot.step(LokBootEvent::HashChecked(false));
    match &acts[..] {
        [LokBootAction::ForensicDump { kind, data }, LokBootAction::TryInit] => {
            assert_eq!(kind, "lok_candidate_hash_failed");
            assert_eq!(
                data,
                &obj(vec![("candidate_install_path", text("/cand")), ("reason", text("hash_mismatch_or_missing"))])
            );
        },
        other => panic!("unexpected actions {:?}", other),
    }
    let (boot, acts) = boot.step(LokBootEvent::Initialised { outcome: InitOutcome::Failed("boom".to_string()), install_path: "/cand".to_string() });
    match &acts[..] {
        [LokBootAction::ApplyInstallPath(p), LokBootAction::ForensicDump { kind, data }, LokBootAction::TryInit] => {
            assert_eq!(p, "/stable");
            assert_eq!(kind, "lok_rollback_to_stable");
            assert_eq!(
                data,
                &obj(vec![
                    ("reason", text("candidate_init_failed")),
                    ("detail", text("boom")),
                    ("stable_install_path", text("/stable")),
                ])
            );
        },
        other => panic!("unexpected actions {:?}", other),
    }
    let (boot, acts) = boot.step(LokBootEvent::Initialised { outcome: InitOutcome::Panicked, install_path: "/stable".to_string() });
    match &acts[..] {
        [LokBootAction::ForensicDump { kind, data }, LokBootAction::Done(Err(e))] => {
            assert_eq!(kind, "lok_panic_stable");
            assert_eq!(data, &obj(vec![("install_path", text("/stable"))]));
            assert_eq!(e, "lok_panic");
        },
        other => panic!("unexpected actions {:?}", other),
    }
    assert!(boot.is_finished());
    let (_, acts) = boot.step(LokBootEvent::HashChecked(true));
    assert!(acts.is_empty());
}

#[test]
fn runtime_bring_up_stable_failure_is_reported() {
    let boot = LokBoot::new();
    let (boot, _) = boot.step(LokBootEvent::Start { candidate: None, stable: "/s".to_string() });
    let (boot, _) = boot.step(LokBootEvent::HashChecked(true));
    let (_, acts) = boot.step(LokBootEvent::Initialised { outcome: InitOutcome::Failed("no lib".to_string()), install_path: "/s".to_string() });
    match &acts[..] {
        [LokBootAction::ForensicDump { kind, data }, LokBootAction::Done(Err(e))] => {
            assert_eq!(kind, "lok_init_failed_stable");
            assert_eq!(data, &obj(vec![("detail", text("no lib")), ("install_path", text("/s"))]));
            assert_eq!(e, "no lib");
        },
        other => panic!("unexpected actions {:?}", other),
    }
    let _ = JsonNumber::PosInt(0);
}
