//! End-to-end and per-component tests of the consistency checker, the
//! patch writer and the invalid-object reporter.

use fomap_check::catalog::ProtoCatalog;
use fomap_check::category::implied_category;
use fomap_check::category::Category;
use fomap_check::checker::check_map;
use fomap_check::checker::check_object;
use fomap_check::checker::invalid_indices;
use fomap_check::object::ChangeRecord;
use fomap_check::object::records_in_range;
use fomap_check::object::MapObject;
use fomap_check::patch::apply_change;
use fomap_check::patch::apply_changes;
use fomap_check::patch::patch_file;
use fomap_check::report::build_file_report;
use fomap_check::report::concat_reports;

fn obj(proto_id: u16, category: Category, offset: usize) -> MapObject {
    MapObject {
        proto_id,
        category,
        offset,
        len: 1,
    }
}

#[test]
fn implied_category_grid_generic_wall_are_scenery() {
    assert_eq!(implied_category(10), Category::Scenery);
    assert_eq!(implied_category(11), Category::Scenery);
    assert_eq!(implied_category(12), Category::Scenery);
}

#[test]
fn implied_category_everything_else_is_item() {
    assert_eq!(implied_category(0), Category::Item);
    assert_eq!(implied_category(1), Category::Item);
    assert_eq!(implied_category(9), Category::Item);
    assert_eq!(implied_category(13), Category::Item);
    assert_eq!(implied_category(255), Category::Item);
}

#[test]
fn category_codes() {
    assert_eq!(Category::Critter.code(), Some(0));
    assert_eq!(Category::Item.code(), Some(1));
    assert_eq!(Category::Scenery.code(), Some(2));
    assert_eq!(Category::Any.code(), None);
}

#[test]
fn catalog_accepts_strictly_increasing_ids() {
    let catalog = ProtoCatalog::new(vec![(1, 10), (5, 12), (9, 3)]).unwrap();
    assert_eq!(catalog.len(), 3);
    assert_eq!(catalog.lookup(1), Some(10));
    assert_eq!(catalog.lookup(5), Some(12));
    assert_eq!(catalog.lookup(9), Some(3));
    assert_eq!(catalog.lookup(2), None);
    assert_eq!(catalog.lookup(10), None);
}

#[test]
fn catalog_accepts_empty_listing() {
    let catalog = ProtoCatalog::new(vec![]).unwrap();
    assert_eq!(catalog.len(), 0);
    assert_eq!(catalog.lookup(0), None);
}

#[test]
fn catalog_rejects_duplicate_ids() {
    assert!(ProtoCatalog::new(vec![(1, 10), (1, 11)]).is_none());
}

#[test]
fn catalog_rejects_unordered_listing() {
    assert!(ProtoCatalog::new(vec![(5, 12), (1, 10)]).is_none());
}

#[test]
fn critter_is_never_patched() {
    let catalog = ProtoCatalog::new(vec![(7, 12)]).unwrap();
    // The catalog implies Scenery for prototype 7, but critters are exempt.
    assert_eq!(check_object(&catalog, &obj(7, Category::Critter, 40)), None);
}

#[test]
fn unknown_prototype_is_never_patched() {
    let catalog = ProtoCatalog::new(vec![(7, 12)]).unwrap();
    assert_eq!(check_object(&catalog, &obj(8, Category::Item, 40)), None);
}

#[test]
fn matching_category_is_not_patched() {
    let catalog = ProtoCatalog::new(vec![(7, 12), (8, 4)]).unwrap();
    assert_eq!(check_object(&catalog, &obj(7, Category::Scenery, 40)), None);
    assert_eq!(check_object(&catalog, &obj(8, Category::Item, 60)), None);
}

#[test]
fn mismatch_yields_single_digit_record() {
    let catalog = ProtoCatalog::new(vec![(7, 11), (8, 4)]).unwrap();
    // Prototype 7 is generic-class, so the object should be scenery.
    let record = check_object(&catalog, &obj(7, Category::Item, 40)).unwrap();
    assert_eq!(record.offset, 40);
    assert_eq!(record.len, 1);
    assert_eq!(record.digit, b'2');
    // Prototype 8 declares an ordinary type, so the object should be an item.
    let record = check_object(&catalog, &obj(8, Category::Scenery, 77)).unwrap();
    assert_eq!(record.offset, 77);
    assert_eq!(record.len, 1);
    assert_eq!(record.digit, b'1');
}

#[test]
fn unclassifiable_object_is_never_patched() {
    let catalog = ProtoCatalog::new(vec![(7, 11)]).unwrap();
    assert_eq!(check_object(&catalog, &obj(7, Category::Any, 40)), None);
}

#[test]
fn check_map_collects_in_listing_order() {
    let catalog = ProtoCatalog::new(vec![(1, 10), (2, 3), (3, 12)]).unwrap();
    let objects = vec![
        obj(1, Category::Item, 10),    // should be scenery: patched
        obj(2, Category::Item, 20),    // already right: untouched
        obj(9, Category::Scenery, 30), // no catalog entry: untouched
        obj(3, Category::Critter, 40), // critter: exempt
        obj(2, Category::Scenery, 50), // should be an item: patched
    ];
    let changes = check_map(&catalog, &objects);
    assert_eq!(
        changes,
        vec![
            ChangeRecord {
                offset: 10,
                len: 1,
                digit: b'2'
            },
            ChangeRecord {
                offset: 50,
                len: 1,
                digit: b'1'
            },
        ]
    );
}

#[test]
fn rerun_after_correction_is_clean() {
    let catalog = ProtoCatalog::new(vec![(1, 10), (2, 3)]).unwrap();
    let mut objects = vec![obj(1, Category::Item, 10), obj(2, Category::Scenery, 20)];
    assert_eq!(check_map(&catalog, &objects).len(), 2);
    // Correct the recorded categories as the patches would and re-check.
    objects[0].category = Category::Scenery;
    objects[1].category = Category::Item;
    assert_eq!(check_map(&catalog, &objects), vec![]);
}

#[test]
fn invalid_indices_name_exactly_the_unclassifiable_objects() {
    let objects = vec![
        obj(1, Category::Any, 10),
        obj(2, Category::Item, 20),
        obj(3, Category::Any, 30),
        obj(4, Category::Critter, 40),
    ];
    assert_eq!(invalid_indices(&objects), vec![0, 2]);
    assert_eq!(invalid_indices(&vec![]), vec![]);
}

#[test]
fn record_well_formedness_gate() {
    let good = ChangeRecord {
        offset: 3,
        len: 1,
        digit: b'2',
    };
    let bad_len = ChangeRecord {
        offset: 3,
        len: 2,
        digit: b'2',
    };
    let bad_digit = ChangeRecord {
        offset: 3,
        len: 1,
        digit: b'a',
    };
    let past_end = ChangeRecord {
        offset: 9,
        len: 1,
        digit: b'2',
    };
    assert!(good.is_wf());
    assert!(!bad_len.is_wf());
    assert!(!bad_digit.is_wf());
    assert!(records_in_range(&vec![good], 9));
    assert!(!records_in_range(&vec![good, bad_len], 9));
    assert!(!records_in_range(&vec![good, bad_digit], 9));
    assert!(!records_in_range(&vec![good, past_end], 9));
}

#[test]
fn apply_change_touches_exactly_one_byte() {
    let original: Vec<u8> = (0..50u8).collect();
    let mut patched = original.clone();
    let record = ChangeRecord {
        offset: 17,
        len: 1,
        digit: b'2',
    };
    apply_change(&mut patched, &record);
    assert_eq!(patched.len(), original.len());
    for i in 0..original.len() {
        if i == 17 {
            assert_eq!(patched[i], b'2');
        } else {
            assert_eq!(patched[i], original[i]);
        }
    }
}

#[test]
fn apply_change_at_last_byte_keeps_length() {
    let mut file: Vec<u8> = vec![b'0'; 8];
    let record = ChangeRecord {
        offset: 7,
        len: 1,
        digit: b'9',
    };
    assert!(records_in_range(&vec![record], 8));
    apply_change(&mut file, &record);
    assert_eq!(file.len(), 8);
    assert_eq!(file[7], b'9');
}

#[test]
fn catalog_handles_extreme_ids() {
    let catalog = ProtoCatalog::new(vec![(0, 10), (u16::MAX, 12)]).unwrap();
    assert_eq!(catalog.lookup(0), Some(10));
    assert_eq!(catalog.lookup(u16::MAX), Some(12));
    assert_eq!(catalog.lookup(1), None);
}

#[test]
fn apply_changes_leaves_clean_file_untouched() {
    let original: Vec<u8> = (0..30u8).collect();
    let mut file = original.clone();
    apply_changes(&mut file, &vec![]);
    assert_eq!(file, original);
}

#[test]
fn patch_file_refuses_malformed_records() {
    let original: Vec<u8> = (0..30u8).collect();
    let mut file = original.clone();
    let bad = ChangeRecord {
        offset: 4,
        len: 2,
        digit: b'1',
    };
    assert!(!patch_file(&mut file, &vec![bad]));
    assert_eq!(file, original);
    let good = ChangeRecord {
        offset: 4,
        len: 1,
        digit: b'1',
    };
    assert!(patch_file(&mut file, &vec![good]));
    assert_eq!(file[4], b'1');
}

#[test]
fn file_report_layout() {
    let name = b"\"maps/town.fomap\"".to_vec();
    let entries = vec![b"{\"proto_id\":5}".to_vec(), b"{\"proto_id\":6}".to_vec()];
    let report = build_file_report(&name, &entries);
    assert_eq!(
        report,
        b"File: \"maps/town.fomap\"\n{\"proto_id\":5}\n{\"proto_id\":6}\n\n".to_vec()
    );
}

#[test]
fn aggregate_report_concatenates_blocks() {
    let first = build_file_report(&b"a".to_vec(), &vec![b"x".to_vec()]);
    let second = build_file_report(&b"b".to_vec(), &vec![b"y".to_vec()]);
    let total = concat_reports(&vec![first, second]);
    assert_eq!(total, b"File: a\nx\n\nFile: b\ny\n\n".to_vec());
    assert_eq!(concat_reports(&vec![]), Vec::<u8>::new());
}

#[test]
fn wall_prototype_scenario_patches_byte_120() {
    // Catalog: prototype 5 declares the wall class, which implies scenery.
    let catalog = ProtoCatalog::new(vec![(5, 12)]).unwrap();
    // One non-critter object referencing prototype 5, recorded as an item,
    // with its category field at byte offset 120, length 1.
    let objects = vec![obj(5, Category::Item, 120)];
    let changes = check_map(&catalog, &objects);
    assert_eq!(
        changes,
        vec![ChangeRecord {
            offset: 120,
            len: 1,
            digit: b'2'
        }]
    );

    let mut file: Vec<u8> = vec![b'.'; 130];
    file[120] = b'1';
    let original = file.clone();
    assert!(patch_file(&mut file, &changes));
    assert_eq!(file.len(), original.len());
    for i in 0..file.len() {
        if i == 120 {
            assert_eq!(file[i], b'2');
        } else {
            assert_eq!(file[i], original[i]);
        }
    }

    // The object is classified, so the report sees nothing of it.
    assert_eq!(invalid_indices(&objects), vec![]);
}

#[test]
fn unclassifiable_object_scenario_reports_and_leaves_file_alone() {
    let catalog = ProtoCatalog::new(vec![(5, 12)]).unwrap();
    let objects = vec![obj(9, Category::Any, 60)];

    // Zero patches: the file's bytes stay untouched.
    let changes = check_map(&catalog, &objects);
    assert_eq!(changes, vec![]);
    let mut file: Vec<u8> = vec![b'.'; 80];
    let original = file.clone();
    assert!(patch_file(&mut file, &changes));
    assert_eq!(file, original);

    // One report entry, attributed to the owning file.
    let invalid = invalid_indices(&objects);
    assert_eq!(invalid, vec![0]);
    let serialized = format!("{{\"proto_id\":{}}}", objects[invalid[0]].proto_id);
    let report = build_file_report(
        &b"\"maps/cave.fomap\"".to_vec(),
        &vec![serialized.into_bytes()],
    );
    assert_eq!(
        report,
        b"File: \"maps/cave.fomap\"\n{\"proto_id\":9}\n\n".to_vec()
    );
}
