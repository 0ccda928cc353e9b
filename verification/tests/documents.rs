use acadctl_plugin::doc::{document_name as doc_name, DocRegistry, NativeDocKey, NativeDocSnapshot};
use acadctl_plugin::documents::{
    document_name, new_document_id, valid_document_id, DocumentRegistry, NativeDocumentKey,
    DOCUMENT_ID_ALPHABET, DOCUMENT_ID_LENGTH,
};
use acadctl_plugin::drawing::{DrawingName, DrawingRegistry};
use acadctl_plugin::naming::DrawingPath;
use acadctl_plugin::native::NativeDocumentSnapshot;

fn drawing_path(name: &str) -> DrawingPath {
    DrawingPath::new(format!("/tmp/acadctl-{name}.dwg"), false)
}

#[test]
fn doc_preserves_identity_while_replacing_native_state() {
    let mut documents = DocRegistry::new();
    documents.replace_snapshot(vec![named_doc(1, "/tmp/house.dwg")]);
    let original_id = documents.list()[0].id;

    documents.replace_snapshot(vec![NativeDocSnapshot {
        database_token: 99,
        modified: true,
        read_only: true,
        ..named_doc(1, "/tmp/site.dwg")
    }]);

    let listed = documents.list();
    assert_eq!(listed.len(), 1);
    assert_eq!(listed[0].id, original_id);
    assert_eq!(listed[0].display_name, "site.dwg");
    assert_eq!(listed[0].file_path.as_deref(), Some("/tmp/site.dwg"));
    assert!(listed[0].modified);
    assert!(listed[0].read_only);
    assert_eq!(
        documents
            .find_by_id(original_id)
            .unwrap()
            .native_key
            .database_token,
        99
    );
}

#[test]
fn doc_follows_native_order_and_removes_closed_documents() {
    let mut documents = DocRegistry::new();
    documents.replace_snapshot(vec![
        named_doc(1, "/tmp/house.dwg"),
        named_doc(2, "/tmp/site.dwg"),
    ]);
    let original = documents.list();

    documents.replace_snapshot(vec![
        named_doc(2, "/tmp/site.dwg"),
        unnamed_doc(3, "Drawing1.dwg"),
    ]);

    let listed = documents.list();
    assert_eq!(listed.len(), 2);
    assert_eq!(listed[0].id, original[1].id);
    assert_eq!(listed[0].display_name, "site.dwg");
    assert_eq!(listed[0].file_path.as_deref(), Some("/tmp/site.dwg"));
    assert_ne!(listed[1].id, original[0].id);
    assert_ne!(listed[1].id, original[1].id);
    assert_eq!(listed[1].display_name, "Drawing1");
    assert_eq!(listed[1].file_path, None);
}

#[test]
fn doc_strips_drawing_suffix_only_from_unnamed_documents() {
    assert_eq!(doc_name("Drawing1.DWG".into(), false), "Drawing1");
    assert_eq!(
        doc_name("/tmp/house.DWG".into(), true),
        "/tmp/house.DWG"
    );
    assert_eq!(doc_name("図面".into(), false), "図面");
}

#[test]
fn doc_finds_documents_by_id_and_named_path() {
    let house = drawing_path("house");
    let other = drawing_path("other");
    let mut documents = DocRegistry::new();
    documents.replace_snapshot(vec![
        named_doc(1, house.as_str()),
        unnamed_doc(2, "Drawing1.dwg"),
    ]);
    let listed = documents.list();

    let by_id = documents.find_by_id(listed[0].id).unwrap();
    assert_eq!(
        by_id.native_key,
        NativeDocKey {
            document_token: 1,
            database_token: 101,
        }
    );
    assert_eq!(
        by_id.document.display_name,
        "acadctl-house.dwg"
    );
    assert_eq!(by_id.document.file_path.as_deref(), Some(house.as_str()));
    assert_eq!(
        documents
            .find_by_path(&house)
            .unwrap()
            .native_key
            .document_token,
        1
    );
    assert!(documents.find_by_path(&other).is_none());
}

fn named_doc(document_token: usize, name: &str) -> NativeDocSnapshot {
    NativeDocSnapshot {
        document_token,
        database_token: document_token + 100,
        name: name.into(),
        named: true,
        modified: false,
        read_only: false,
        active: false,
    }
}

fn unnamed_doc(document_token: usize, name: &str) -> NativeDocSnapshot {
    NativeDocSnapshot {
        named: false,
        ..named_doc(document_token, name)
    }
}


#[test]
fn validates_public_document_ids_exactly() {
    assert!(valid_document_id("2az789"));
    assert!(!valid_document_id(""));
    assert!(!valid_document_id("2az78"));
    assert!(!valid_document_id("2az7890"));
    assert!(!valid_document_id("2az7i9"));
    assert!(!valid_document_id("2AZ789"));
}

#[test]
fn documents_preserves_identity_while_replacing_native_state() {
    let mut documents = DocumentRegistry::new();
    documents.replace(vec![named_document(1, "/tmp/house.dwg")]);
    let original_id = documents.list()[0].id.clone();

    documents.replace(vec![NativeDocumentSnapshot {
        database_token: 99,
        modified: true,
        read_only: true,
        ..named_document(1, "/tmp/site.dwg")
    }]);

    let listed = documents.list();
    assert_eq!(listed.len(), 1);
    assert_eq!(listed[0].id, original_id);
    assert_eq!(listed[0].display_name, "site.dwg");
    assert_eq!(listed[0].file_path.as_deref(), Some("/tmp/site.dwg"));
    assert!(listed[0].modified);
    assert!(listed[0].read_only);
    assert_eq!(
        documents
            .find_by_id(&original_id)
            .unwrap()
            .native_key
            .database_token,
        99
    );
}

#[test]
fn resolves_only_current_native_document_generations() {
    let mut documents = DocumentRegistry::new();
    documents.replace(vec![
        named_document(1, "/tmp/one.dwg"),
        named_document(2, "/tmp/two.dwg"),
    ]);

    let first = NativeDocumentKey {
        document_token: 1,
        database_token: 101,
    };
    assert_eq!(documents.resolve_native_key(1, 101), Some(first));
    assert_eq!(documents.resolve_native_key(1, 0), Some(first));
    assert_eq!(documents.resolve_native_key(0, 101), Some(first));
    assert_eq!(documents.resolve_native_key(1, 999), None);
    assert_eq!(documents.resolve_native_key(0, 0), None);

    let mut duplicate_database = named_document(3, "/tmp/three.dwg");
    duplicate_database.database_token = 101;
    documents.replace(vec![named_document(1, "/tmp/one.dwg"), duplicate_database]);
    assert_eq!(documents.resolve_native_key(0, 101), None);
}

#[test]
fn documents_follows_native_order_and_removes_closed_documents() {
    let mut documents = DocumentRegistry::new();
    documents.replace(vec![
        named_document(1, "/tmp/house.dwg"),
        named_document(2, "/tmp/site.dwg"),
    ]);
    let original = documents.list();

    documents.replace(vec![
        named_document(2, "/tmp/site.dwg"),
        unnamed_document(3, "Drawing1.dwg"),
    ]);

    let listed = documents.list();
    assert_eq!(listed.len(), 2);
    assert_eq!(listed[0].id, original[1].id);
    assert_eq!(listed[0].display_name, "site.dwg");
    assert_eq!(listed[0].file_path.as_deref(), Some("/tmp/site.dwg"));
    assert_ne!(listed[1].id, original[0].id);
    assert_ne!(listed[1].id, original[1].id);
    assert_eq!(listed[1].display_name, "Drawing1");
    assert_eq!(listed[1].file_path, None);
}

#[test]
fn documents_strips_drawing_suffix_only_from_unnamed_documents() {
    assert_eq!(document_name("Drawing1.DWG".into(), false), "Drawing1");
    assert_eq!(
        document_name("/tmp/house.DWG".into(), true),
        "/tmp/house.DWG"
    );
    assert_eq!(document_name("図面".into(), false), "図面");
}

#[test]
fn documents_finds_documents_by_id_and_named_path() {
    let mut documents = DocumentRegistry::new();
    documents.replace(vec![
        named_document(1, "/tmp/house.dwg"),
        unnamed_document(2, "Drawing1.dwg"),
    ]);
    let listed = documents.list();

    let by_id = documents.find_by_id(&listed[0].id).unwrap();
    assert_eq!(
        by_id.native_key,
        NativeDocumentKey {
            document_token: 1,
            database_token: 101,
        }
    );
    assert_eq!(by_id.document.display_name, "house.dwg");
    assert_eq!(by_id.document.file_path.as_deref(), Some("/tmp/house.dwg"));
    assert_eq!(
        documents
            .find_by_path("/tmp/house.dwg", false)
            .unwrap()
            .native_key
            .document_token,
        1
    );
    assert!(documents.find_by_path("Drawing1", false).is_none());
}

#[test]
fn document_ids_are_fixed_width_and_unambiguous() {
    let id = new_document_id(&Vec::new());

    assert_eq!(id.len(), DOCUMENT_ID_LENGTH);
    assert!(
        id.chars()
            .all(|character| DOCUMENT_ID_ALPHABET.contains(character))
    );
}

fn named_document(document_token: usize, name: &str) -> NativeDocumentSnapshot {
    NativeDocumentSnapshot {
        document_token,
        database_token: document_token + 100,
        name: name.into(),
        named: true,
        modified: false,
        read_only: false,
        active: false,
    }
}

fn unnamed_document(document_token: usize, name: &str) -> NativeDocumentSnapshot {
    NativeDocumentSnapshot {
        named: false,
        ..named_document(document_token, name)
    }
}
#[test]
fn drawing_preserves_identity_while_replacing_native_state() {
    let mut drawings = DrawingRegistry::new();
    drawings.replace_snapshot(vec![named_drawing(1, "/tmp/house.dwg")]);
    let original_id = drawings.list()[0].id;

    drawings.replace_snapshot(vec![NativeDocumentSnapshot {
        database_token: 99,
        modified: true,
        read_only: true,
        ..named_drawing(1, "/tmp/site.dwg")
    }]);

    let listed = drawings.list();
    assert_eq!(listed.len(), 1);
    assert_eq!(listed[0].id, original_id);
    assert_eq!(listed[0].display_name(), "site.dwg");
    assert_eq!(
        listed[0].file_path(),
        Some("/tmp/site.dwg")
    );
    assert!(listed[0].modified);
    assert!(listed[0].read_only);
    assert_eq!(
        drawings
            .find_by_id(original_id)
            .unwrap()
            .native_key
            .database_token,
        99
    );
}

#[test]
fn follows_native_order_and_removes_closed_drawings() {
    let mut drawings = DrawingRegistry::new();
    drawings.replace_snapshot(vec![
        named_drawing(1, "/tmp/house.dwg"),
        named_drawing(2, "/tmp/site.dwg"),
    ]);
    let original = drawings.list();

    drawings.replace_snapshot(vec![
        named_drawing(2, "/tmp/site.dwg"),
        unnamed_drawing(3, "Drawing1.dwg"),
    ]);

    let listed = drawings.list();
    assert_eq!(listed.len(), 2);
    assert_eq!(listed[0].id, original[1].id);
    assert_eq!(listed[0].display_name(), "site.dwg");
    assert_eq!(
        listed[0].file_path(),
        Some("/tmp/site.dwg")
    );
    assert_ne!(listed[1].id, original[0].id);
    assert_ne!(listed[1].id, original[1].id);
    assert_eq!(listed[1].display_name(), "Drawing1");
    assert_eq!(listed[1].file_path(), None);
}

#[test]
fn strips_drawing_suffix_only_from_unnamed_drawings() {
    assert_eq!(
        DrawingName::from_native("Drawing1.DWG".into(), false),
        DrawingName::Unnamed("Drawing1".into())
    );
    assert_eq!(
        DrawingName::from_native("/tmp/house.DWG".into(), true),
        DrawingName::Named("/tmp/house.DWG".into())
    );
    assert_eq!(
        DrawingName::from_native("図面".into(), false),
        DrawingName::Unnamed("図面".into())
    );
}

#[test]
fn finds_drawings_by_id_and_named_path() {
    let house = drawing_path("house");
    let other = drawing_path("other");
    let mut drawings = DrawingRegistry::new();
    drawings.replace_snapshot(vec![
        named_drawing(1, house.as_str()),
        unnamed_drawing(2, "Drawing1.dwg"),
    ]);
    let listed = drawings.list();

    let by_id = drawings.find_by_id(listed[0].id).unwrap();
    assert_eq!(
        by_id.native_key,
        NativeDocumentKey {
            document_token: 1,
            database_token: 101,
        }
    );
    assert_eq!(
        by_id.drawing.display_name(),
        "acadctl-house.dwg"
    );
    assert_eq!(
        by_id.drawing.file_path(),
        Some(house.as_str())
    );
    assert_eq!(
        drawings
            .find_by_path(&house)
            .unwrap()
            .native_key
            .document_token,
        1
    );
    assert!(drawings.find_by_path(&other).is_none());
}

fn named_drawing(document_token: usize, name: &str) -> NativeDocumentSnapshot {
    NativeDocumentSnapshot {
        document_token,
        database_token: document_token + 100,
        name: name.into(),
        named: true,
        modified: false,
        read_only: false,
        active: false,
    }
}

fn unnamed_drawing(document_token: usize, name: &str) -> NativeDocumentSnapshot {
    NativeDocumentSnapshot {
        named: false,
        ..named_drawing(document_token, name)
    }
}


#[test]
fn the_active_drawing_is_marked() {
    let mut drawings = DrawingRegistry::new();
    drawings.replace_snapshot(vec![
        named_drawing(1, "/tmp/house.dwg"),
        NativeDocumentSnapshot { active: true, ..named_drawing(2, "/tmp/site.dwg") },
    ]);
    let listed = drawings.list();
    assert!(!listed[0].active);
    assert!(listed[1].active);
    drawings.replace_snapshot(vec![
        NativeDocumentSnapshot { active: true, ..named_drawing(1, "/tmp/house.dwg") },
        named_drawing(2, "/tmp/site.dwg"),
    ]);
    assert!(drawings.find_by_id(listed[0].id).unwrap().drawing.active);
    assert!(!drawings.find_by_id(listed[1].id).unwrap().drawing.active);
}
